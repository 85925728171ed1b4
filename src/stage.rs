//! Stages of the injection lifecycle and the failures they report.
use vstd::prelude::*;
use vstd::string::*;

verus! {

/// One of the four stages an injection goes through.
#[derive(Debug, Clone, Copy, PartialEq, Eq, Structural)]
pub enum Stage {
    Validate,
    Register,
    Export,
    Shutdown,
}

/// The noun that names a stage in messages.
pub open spec fn noun_spec(stage: Stage) -> Seq<char> {
    match stage {
        Stage::Validate => "validation"@,
        Stage::Register => "registration"@,
        Stage::Export => "export"@,
        Stage::Shutdown => "shutdown"@,
    }
}

/// `<name> <noun> failed: <cause>`: a failure tagged with the injection and
/// the stage it happened in.
pub open spec fn tagged(name: Seq<char>, stage: Stage, cause: Seq<char>) -> Seq<char> {
    name + " "@ + noun_spec(stage) + " failed: "@ + cause
}

impl Stage {
    /// The noun that names the stage in messages.
    pub fn noun(&self) -> (r: &'static str)
        ensures
            r@ == noun_spec(*self),
    {
        match self {
            Stage::Validate => "validation",
            Stage::Register => "registration",
            Stage::Export => "export",
            Stage::Shutdown => "shutdown",
        }
    }
}

/// A stage that failed on an injection, with the injection's name and the cause.
#[derive(Debug, Clone)]
pub struct StageError {
    pub injection: String,
    pub stage: Stage,
    pub cause: String,
}

impl StageError {
    /// A failure of `stage` on the injection named `injection`.
    pub fn new(injection: &str, stage: Stage, cause: String) -> (r: StageError)
        ensures
            r.injection@ == injection@,
            r.stage == stage,
            r.cause@ == cause@,
    {
        StageError { injection: String::from_str(injection), stage, cause }
    }

    /// `<injection> <stage> failed: <cause>`.
    pub fn message(&self) -> (r: String)
        ensures
            r@ == tagged(self.injection@, self.stage, self.cause@),
    {
        let mut m = self.injection.clone();
        m.append(" ");
        m.append(self.stage.noun());
        m.append(" failed: ");
        m.append(self.cause.as_str());
        m
    }
}

} // verus!

//! The symlink injection: the decisions about placing a link at a target
//! and removing it again. The filesystem itself is probed and changed by the
//! caller, which hands back what it found.
use vstd::prelude::*;
use vstd::string::*;

use crate::env::blank;
use crate::profile::{SymlinkOnExist, SymlinkProfile};
use crate::text::{chars_of, trim_chars};

verus! {

/// What a probe of a path that does not follow symbolic links found there.
#[derive(Debug, Clone)]
pub enum TargetState {
    Absent,
    Directory,
    Symlink { points_to: String },
    Other,
}

/// Why a symlink injection refused to go on.
#[derive(Debug, Clone)]
pub enum SymlinkError {
    EmptySource,
    EmptyTarget,
    SourceMissing { source: String },
    TargetExists { target: String },
    TargetIsDirectory { target: String },
    NotASymlink { target: String },
    UnexpectedLinkTarget { target: String },
    Io { message: String },
}

/// The description of a symlink error.
pub open spec fn symlink_error_text(e: SymlinkError) -> Seq<char> {
    match e {
        SymlinkError::EmptySource => "source must not be empty"@,
        SymlinkError::EmptyTarget => "target must not be empty"@,
        SymlinkError::SourceMissing { source } => "source does not exist: "@ + source@,
        SymlinkError::TargetExists { target } => "refusing to overwrite existing file: "@ + target@,
        SymlinkError::TargetIsDirectory { target } => "refusing to replace directory target: "@
            + target@,
        SymlinkError::NotASymlink { target } => "refusing to remove non-symlink at "@ + target@,
        SymlinkError::UnexpectedLinkTarget { target } =>
            "refusing to remove symlink with unexpected target: "@ + target@,
        SymlinkError::Io { message } => message@,
    }
}

fn prefixed(head: &str, tail: &String) -> (r: String)
    ensures
        r@ == head@ + tail@,
{
    let mut m = String::from_str(head);
    m.append(tail.as_str());
    m
}

impl SymlinkError {
    /// A description of the error.
    pub fn message(&self) -> (r: String)
        ensures
            r@ == symlink_error_text(*self),
    {
        match self {
            SymlinkError::EmptySource => String::from_str("source must not be empty"),
            SymlinkError::EmptyTarget => String::from_str("target must not be empty"),
            SymlinkError::SourceMissing { source } => prefixed("source does not exist: ", source),
            SymlinkError::TargetExists { target } => prefixed(
                "refusing to overwrite existing file: ",
                target,
            ),
            SymlinkError::TargetIsDirectory { target } => prefixed(
                "refusing to replace directory target: ",
                target,
            ),
            SymlinkError::NotASymlink { target } => prefixed(
                "refusing to remove non-symlink at ",
                target,
            ),
            SymlinkError::UnexpectedLinkTarget { target } => prefixed(
                "refusing to remove symlink with unexpected target: ",
                target,
            ),
            SymlinkError::Io { message } => message.clone(),
        }
    }
}

/// A symlink injection of one run.
pub struct SymlinkInjection {
    pub cfg: SymlinkProfile,
    pub registered: bool,
    pub created_link: bool,
}

/// What registering decides on a probed target: `Some(replace)` places the
/// link, first removing what is there when `replace` holds; `None` refuses.
pub open spec fn register_decision(on_exist: SymlinkOnExist, probe: TargetState) -> Option<bool> {
    match probe {
        TargetState::Absent => Some(false),
        TargetState::Directory => None,
        _ => match on_exist {
            SymlinkOnExist::Error => None,
            SymlinkOnExist::Replace => Some(true),
        },
    }
}

/// Whether the link at the target may be removed: it must be a symbolic
/// link that points exactly to the configured source.
pub open spec fn may_remove(source: Seq<char>, probe: TargetState) -> bool {
    match probe {
        TargetState::Symlink { points_to } => points_to@ == source,
        _ => false,
    }
}

impl SymlinkInjection {
    pub fn new(cfg: SymlinkProfile) -> (r: SymlinkInjection)
        ensures
            r.cfg == cfg,
            !r.registered,
            !r.created_link,
    {
        SymlinkInjection { cfg, registered: false, created_link: false }
    }

    pub fn name(&self) -> (r: &'static str)
        ensures
            r@ == "symlink"@,
    {
        "symlink"
    }

    /// Refuses a blank source or target, then a source that does not exist.
    pub fn validate(&self, source_exists: bool) -> (r: Result<(), SymlinkError>)
        ensures
            match r {
                Ok(()) => !blank(self.cfg.source@) && !blank(self.cfg.target@) && source_exists,
                Err(SymlinkError::EmptySource) => blank(self.cfg.source@),
                Err(SymlinkError::EmptyTarget) => !blank(self.cfg.source@) && blank(self.cfg.target@),
                Err(SymlinkError::SourceMissing { source }) => !blank(self.cfg.source@) && !blank(
                    self.cfg.target@,
                ) && !source_exists && source@ == self.cfg.source@,
                _ => false,
            },
    {
        if trim_chars(&chars_of(self.cfg.source.as_str())).len() == 0 {
            return Err(SymlinkError::EmptySource);
        }
        if trim_chars(&chars_of(self.cfg.target.as_str())).len() == 0 {
            return Err(SymlinkError::EmptyTarget);
        }
        if !source_exists {
            return Err(SymlinkError::SourceMissing { source: self.cfg.source.clone() });
        }
        Ok(())
    }

    /// Decides, from what is at the target, whether the link can be placed
    /// and whether what is there must be removed first. Under `Error`
    /// anything present is refused; under `Replace` only a directory is.
    pub fn plan_register(&self, probe: &TargetState) -> (r: Result<bool, SymlinkError>)
        ensures
            match r {
                Ok(replace) => register_decision(self.cfg.on_exist, *probe) == Some(replace),
                Err(SymlinkError::TargetExists { target }) => register_decision(
                    self.cfg.on_exist,
                    *probe,
                ) is None && self.cfg.on_exist == SymlinkOnExist::Error && target@ == self.cfg.target@,
                Err(SymlinkError::TargetIsDirectory { target }) => register_decision(
                    self.cfg.on_exist,
                    *probe,
                ) is None && self.cfg.on_exist == SymlinkOnExist::Replace && probe is Directory
                    && target@ == self.cfg.target@,
                _ => false,
            },
    {
        match probe {
            TargetState::Absent => Ok(false),
            _ => match self.cfg.on_exist {
                SymlinkOnExist::Error => Err(
                    SymlinkError::TargetExists { target: self.cfg.target.clone() },
                ),
                SymlinkOnExist::Replace => match probe {
                    TargetState::Directory => Err(
                        SymlinkError::TargetIsDirectory { target: self.cfg.target.clone() },
                    ),
                    _ => Ok(true),
                },
            },
        }
    }

    /// Records that the link was placed.
    pub fn link_placed(&mut self)
        ensures
            final(self).cfg == old(self).cfg,
            final(self).registered,
            final(self).created_link,
    {
        self.registered = true;
        self.created_link = true;
    }

    /// Whether shutting down has a link to remove: only one this run placed,
    /// and only when cleanup is asked for.
    pub fn owes_cleanup(&self) -> (r: bool)
        ensures
            r == (self.registered && self.cfg.cleanup && self.created_link),
    {
        self.registered && self.cfg.cleanup && self.created_link
    }

    /// Decides, from what is at the target, whether the link may be removed.
    /// Nothing but a symbolic link that points exactly to the configured
    /// source is ever approved.
    pub fn plan_shutdown(&self, probe: &TargetState) -> (r: Result<(), SymlinkError>)
        ensures
            r is Ok <==> may_remove(self.cfg.source@, *probe),
            match r {
                Err(SymlinkError::NotASymlink { target }) => !(probe is Symlink) && target@
                    == self.cfg.target@,
                Err(SymlinkError::UnexpectedLinkTarget { target }) => probe is Symlink && target@
                    == self.cfg.target@,
                Err(SymlinkError::Io { .. }) => probe is Absent,
                Ok(()) => true,
                _ => false,
            },
    {
        match probe {
            TargetState::Symlink { points_to } => {
                if *points_to == self.cfg.source {
                    Ok(())
                } else {
                    Err(SymlinkError::UnexpectedLinkTarget { target: self.cfg.target.clone() })
                }
            },
            TargetState::Absent => {
                let mut m = String::from_str("no entry at link target: ");
                m.append(self.cfg.target.as_str());
                Err(SymlinkError::Io { message: m })
            },
            _ => Err(SymlinkError::NotASymlink { target: self.cfg.target.clone() }),
        }
    }

    /// Records the end of shutdown: when a link was removed, it is no longer
    /// this run's.
    pub fn shut_down(&mut self, removed: bool)
        ensures
            final(self).cfg == old(self).cfg,
            !final(self).registered,
            final(self).created_link == (old(self).created_link && !removed),
    {
        if removed {
            self.created_link = false;
        }
        self.registered = false;
    }
}

} // verus!

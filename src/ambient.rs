//! The ambient process environment, as a snapshot of plain values.
use vstd::prelude::*;
use vstd::string::*;

verus! {

/// The view of an optional string.
pub open spec fn opt_view(o: Option<String>) -> Option<Seq<char>> {
    match o {
        Some(s) => Some(s@),
        None => None,
    }
}

/// The views of a sequence of key/value pairs.
pub open spec fn pairs_view(s: Seq<(String, String)>) -> Seq<(Seq<char>, Seq<char>)> {
    s.map_values(|p: (String, String)| (p.0@, p.1@))
}

/// The value of the first entry whose key is `key`.
pub open spec fn lookup_spec(entries: Seq<(String, String)>, key: Seq<char>) -> Option<Seq<char>>
    decreases entries.len(),
{
    if entries.len() == 0 {
        None
    } else if entries[0].0@ == key {
        Some(entries[0].1@)
    } else {
        lookup_spec(entries.drop_first(), key)
    }
}

/// Reads variables of an environment by name.
pub trait EnvReader {
    fn var(&self, key: &str) -> Option<String>;
}

/// A fixed set of environment variables, read once from the process (or
/// made up by a caller) and consulted by name.
pub struct EnvSnapshot {
    pub entries: Vec<(String, String)>,
}

impl EnvSnapshot {
    /// The value of `key` in this snapshot.
    pub open spec fn lookup(&self, key: Seq<char>) -> Option<Seq<char>> {
        lookup_spec(self.entries@, key)
    }

    /// The value of `key`, or nothing when it is absent.
    pub open spec fn value_or_empty(&self, key: Seq<char>) -> Seq<char> {
        match self.lookup(key) {
            Some(v) => v,
            None => seq![],
        }
    }

    /// A snapshot of the given entries; the first entry of a key wins.
    pub fn new(entries: Vec<(String, String)>) -> (r: EnvSnapshot)
        ensures
            r.entries@ == entries@,
    {
        EnvSnapshot { entries }
    }

    /// A snapshot without any variable.
    pub fn empty() -> (r: EnvSnapshot)
        ensures
            forall|k: Seq<char>| r.lookup(k) is None,
    {
        EnvSnapshot { entries: Vec::new() }
    }

    /// Looks `key` up.
    pub fn get(&self, key: &str) -> (r: Option<String>)
        ensures
            opt_view(r) == self.lookup(key@),
    {
        let wanted = String::from_str(key);
        let mut i: usize = 0;
        assert(self.entries@.subrange(0, self.entries@.len() as int) =~= self.entries@);
        while i < self.entries.len()
            invariant
                i <= self.entries@.len(),
                wanted@ == key@,
                self.lookup(key@) == lookup_spec(
                    self.entries@.subrange(i as int, self.entries@.len() as int),
                    key@,
                ),
            decreases self.entries.len() - i,
        {
            let ghost rest = self.entries@.subrange(i as int, self.entries@.len() as int);
            assert(rest[0] == self.entries@[i as int]);
            if self.entries[i].0 == wanted {
                return Some(self.entries[i].1.clone());
            }
            assert(rest.drop_first() =~= self.entries@.subrange(i + 1, self.entries@.len() as int));
            i += 1;
        }
        None
    }
}

impl EnvReader for EnvSnapshot {
    fn var(&self, key: &str) -> Option<String> {
        self.get(key)
    }
}

} // verus!

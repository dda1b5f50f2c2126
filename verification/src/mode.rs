use vstd::prelude::*;

use crate::text::str_eq;

verus! {

/// The discipline under which a shared resource is acquired.
///
/// The four variants carry an intrinsic rank, pinned by [`Mode::rank`]:
/// `Read < ReadClone < Write < Lock`. The rank is only a deterministic
/// tie-break between requests that name the same resource, not a
/// semantic priority.
#[derive(Clone, Copy, PartialEq, Eq, Structural, Debug)]
pub enum Mode {
    /// Shared, non-owning read access.
    Read,
    /// Shared read whose result is duplicated into an owned value.
    ReadClone,
    /// Exclusive mutable access.
    Write,
    /// Mutual-exclusion access with no read/write distinction.
    Lock,
}

impl Mode {
    /// The pinned rank realising `Read < ReadClone < Write < Lock`.
    pub open spec fn rank(self) -> int {
        match self {
            Mode::Read => 0,
            Mode::ReadClone => 1,
            Mode::Write => 2,
            Mode::Lock => 3,
        }
    }

    /// Which mode, if any, a mode keyword denotes (exact, case-sensitive
    /// match of `read`, `readclone`, `write` or `lock`).
    pub open spec fn spec_from_text(s: Seq<char>) -> Option<Mode> {
        if s == "read"@ {
            Some(Mode::Read)
        } else if s == "readclone"@ {
            Some(Mode::ReadClone)
        } else if s == "write"@ {
            Some(Mode::Write)
        } else if s == "lock"@ {
            Some(Mode::Lock)
        } else {
            None
        }
    }

    /// Ranks are distinct: equal ranks mean equal modes.
    pub proof fn lemma_rank_injective(a: Mode, b: Mode)
        ensures
            a.rank() == b.rank() ==> a == b,
    {
    }

    /// The rank as a machine integer.
    pub fn rank_val(&self) -> (r: u8)
        ensures
            r as int == self.rank(),
    {
        match self {
            Mode::Read => 0,
            Mode::ReadClone => 1,
            Mode::Write => 2,
            Mode::Lock => 3,
        }
    }

    /// Recognise a mode keyword.
    pub fn from_text(s: &str) -> (r: Option<Mode>)
        ensures
            r == Mode::spec_from_text(s@),
    {
        if str_eq(s, "read") {
            Some(Mode::Read)
        } else if str_eq(s, "readclone") {
            Some(Mode::ReadClone)
        } else if str_eq(s, "write") {
            Some(Mode::Write)
        } else if str_eq(s, "lock") {
            Some(Mode::Lock)
        } else {
            None
        }
    }
}

} // verus!

//! The depth that each protocol state carries, with its lower bound.
use vstd::prelude::*;

verus! {

/// How many directories are open: one at least.
#[derive(Debug)]
pub(crate) struct Level {
    pub(crate) n: i32,
}

/// How many levels are open inside a file, the file included: two at least.
#[derive(Debug)]
pub(crate) struct FileLevel {
    pub(crate) n: i32,
}

impl Level {
    #[verifier::type_invariant]
    spec fn inv(self) -> bool {
        self.n >= 1
    }

    pub(crate) fn first() -> (r: Level)
        ensures
            r.n == 1,
    {
        Level { n: 1 }
    }

    pub(crate) fn get(&self) -> (r: i32)
        ensures
            r == self.n,
            r >= 1,
    {
        proof {
            use_type_invariant(self);
        }
        self.n
    }

    pub(crate) fn down(self) -> (r: Level)
        requires
            self.n < i32::MAX,
        ensures
            r.n == self.n + 1,
    {
        proof {
            use_type_invariant(&self);
        }
        Level { n: self.n + 1 }
    }

    pub(crate) fn open(self) -> (r: FileLevel)
        requires
            self.n < i32::MAX,
        ensures
            r.n == self.n + 1,
    {
        proof {
            use_type_invariant(&self);
        }
        FileLevel { n: self.n + 1 }
    }

    pub(crate) fn up(self) -> (r: Option<Level>)
        ensures
            self.n <= 1 <==> r is None,
            r matches Some(l) ==> l.n == self.n - 1,
    {
        if self.n <= 1 {
            None
        } else {
            Some(Level { n: self.n - 1 })
        }
    }
}

impl FileLevel {
    #[verifier::type_invariant]
    spec fn inv(self) -> bool {
        self.n >= 2
    }

    pub(crate) fn get(&self) -> (r: i32)
        ensures
            r == self.n,
            r >= 2,
    {
        proof {
            use_type_invariant(self);
        }
        self.n
    }

    pub(crate) fn close(self) -> (r: Level)
        ensures
            r.n == self.n - 1,
    {
        proof {
            use_type_invariant(&self);
        }
        Level { n: self.n - 1 }
    }
}

} // verus!

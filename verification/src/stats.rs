use vstd::prelude::*;

verus! {

/// How many messages to a follower failed and how many went through.
#[derive(Clone, Copy, Debug)]
pub struct CountsStats {
    fail: u64,
    success: u64,
}

impl CountsStats {
    pub closed spec fn spec_fail(&self) -> u64 {
        self.fail
    }

    pub closed spec fn spec_success(&self) -> u64 {
        self.success
    }

    /// No message counted yet.
    pub fn new() -> (r: CountsStats)
        ensures
            r.spec_fail() == 0,
            r.spec_success() == 0,
    {
        CountsStats { fail: 0, success: 0 }
    }

    /// The counts `fail` and `success`, as read back from a saved record.
    pub fn with_counts(fail: u64, success: u64) -> (r: CountsStats)
        ensures
            r.spec_fail() == fail,
            r.spec_success() == success,
    {
        CountsStats { fail, success }
    }

    pub fn get_fail(&self) -> (r: u64)
        ensures
            r == self.spec_fail(),
    {
        self.fail
    }

    pub fn get_success(&self) -> (r: u64)
        ensures
            r == self.spec_success(),
    {
        self.success
    }

    /// Counts one failed message.
    pub fn inc_fail(&mut self)
        requires
            old(self).spec_fail() < u64::MAX,
        ensures
            final(self).spec_fail() == old(self).spec_fail() + 1,
            final(self).spec_success() == old(self).spec_success(),
    {
        self.fail = self.fail + 1;
    }

    /// Counts one message that went through.
    pub fn inc_success(&mut self)
        requires
            old(self).spec_success() < u64::MAX,
        ensures
            final(self).spec_success() == old(self).spec_success() + 1,
            final(self).spec_fail() == old(self).spec_fail(),
    {
        self.success = self.success + 1;
    }
}

} // verus!

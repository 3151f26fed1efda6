use vstd::prelude::*;
use crate::id::ID;

verus! {

#[verifier::external_type_specification]
#[verifier::external_body]
pub struct ExSystemTime(std::time::SystemTime);

/// Calls `std::time::SystemTime::now`; the clock's reading is not known in advance, so
/// nothing is claimed of it.
#[verifier::external_body]
fn system_now() -> std::time::SystemTime {
    std::time::SystemTime::now()
}

/// What failed when talking to a peer: over which channel, and doing what.
pub struct FailureType {
    source: String,
    action: String,
}

impl FailureType {
    pub closed spec fn spec_source(&self) -> Seq<char> {
        self.source@
    }

    pub closed spec fn spec_action(&self) -> Seq<char> {
        self.action@
    }

    pub fn new_failure_type(source: String, action: String) -> (r: FailureType)
        ensures
            r.spec_source() == source@,
            r.spec_action() == action@,
    {
        FailureType { source, action }
    }
}

/// Whether a peer is reachable, and since when.
pub struct BasePeerStatus {
    local: ID,
    id: ID,
    active: bool,
    since: Option<std::time::SystemTime>,
}

impl BasePeerStatus {
    /// The peer is active exactly when the time it became active is known.
    pub closed spec fn wf(&self) -> bool {
        self.active == self.since.is_some()
    }

    pub closed spec fn spec_active(&self) -> bool {
        self.active
    }

    pub closed spec fn spec_since(&self) -> Option<std::time::SystemTime> {
        self.since
    }

    pub closed spec fn spec_local(&self) -> ID {
        self.local
    }

    pub closed spec fn spec_id(&self) -> ID {
        self.id
    }

    /// A peer that has not been reached yet.
    pub fn new(local: ID, id: ID) -> (r: BasePeerStatus)
        ensures
            r.wf(),
            !r.spec_active(),
            r.spec_local() == local,
            r.spec_id() == id,
    {
        BasePeerStatus { local, id, active: false, since: None }
    }

    /// The peer answered: it becomes active, stamped with the current time, unless it
    /// already was.
    pub fn activate(&mut self)
        requires
            old(self).wf(),
        ensures
            final(self).wf(),
            final(self).spec_active(),
            final(self).spec_local() == old(self).spec_local(),
            final(self).spec_id() == old(self).spec_id(),
            old(self).spec_active() ==> final(self).spec_since() == old(self).spec_since(),
    {
        if !self.active {
            self.active = true;
            self.since = Some(system_now());
        }
    }

    /// Talking to the peer failed: it becomes inactive.
    pub fn deactivate(&mut self, failure: FailureType, reason: String)
        requires
            old(self).wf(),
        ensures
            final(self).wf(),
            !final(self).spec_active(),
            final(self).spec_local() == old(self).spec_local(),
            final(self).spec_id() == old(self).spec_id(),
    {
        if self.active {
            self.active = false;
            self.since = None;
        }
    }

    pub fn is_active(&self) -> (r: bool)
        ensures
            r == self.spec_active(),
    {
        self.active
    }

    /// When the peer became active; `None` while it is inactive.
    pub fn active_since(&self) -> (r: Option<std::time::SystemTime>)
        requires
            self.wf(),
        ensures
            r == self.spec_since(),
            r is Some <==> self.spec_active(),
    {
        self.since
    }
}

} // verus!

use vstd::prelude::*;

verus! {

/// Socket options to set on a listener.
pub struct SocketOpts {
    reuse_port: bool,
    reuse_address: bool,
}

impl SocketOpts {
    pub closed spec fn spec_reuse_port(&self) -> bool {
        self.reuse_port
    }

    pub closed spec fn spec_reuse_address(&self) -> bool {
        self.reuse_address
    }

    pub fn new(reuse_port: bool, reuse_address: bool) -> (r: SocketOpts)
        ensures
            r.spec_reuse_port() == reuse_port,
            r.spec_reuse_address() == reuse_address,
    {
        SocketOpts { reuse_port, reuse_address }
    }

    /// No option is set.
    pub fn empty(&self) -> (r: bool)
        ensures
            r == (!self.spec_reuse_port() && !self.spec_reuse_address()),
    {
        !self.reuse_port && !self.reuse_address
    }

    pub fn get_reuse_port(&self) -> (r: bool)
        ensures
            r == self.spec_reuse_port(),
    {
        self.reuse_port
    }

    pub fn get_reuse_address(&self) -> (r: bool)
        ensures
            r == self.spec_reuse_address(),
    {
        self.reuse_address
    }
}

/// A socket option that a listener's control sets on its socket.
#[derive(Clone, Copy, PartialEq, Eq, Structural, Debug)]
pub enum SocketControl {
    /// `SO_REUSEADDR`.
    ReuseAddress,
    /// `SO_REUSEPORT`.
    ReusePort,
}

/// The controls to run on a socket, in order.
pub struct Controls {
    pub funcs: Vec<SocketControl>,
}

/// The controls that the options ask for: address reuse first, then port reuse.
pub open spec fn controls_for(reuse_address: bool, reuse_port: bool) -> Seq<SocketControl> {
    (if reuse_address {
        seq![SocketControl::ReuseAddress]
    } else {
        Seq::empty()
    }) + (if reuse_port {
        seq![SocketControl::ReusePort]
    } else {
        Seq::empty()
    })
}

/// The controls to run on a listener's socket for the options `sopts`.
pub fn get_controls(sopts: &SocketOpts) -> (r: Controls)
    ensures
        r.funcs@ == controls_for(sopts.spec_reuse_address(), sopts.spec_reuse_port()),
{
    let mut funcs: Vec<SocketControl> = Vec::new();
    if sopts.reuse_address {
        funcs.push(SocketControl::ReuseAddress);
    }
    if sopts.reuse_port {
        funcs.push(SocketControl::ReusePort);
    }
    assert(funcs@ =~= controls_for(sopts.spec_reuse_address(), sopts.spec_reuse_port()));
    Controls { funcs }
}

} // verus!

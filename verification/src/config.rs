use vstd::prelude::*;

verus! {

/// Where the server listens: the address the session drivers connect to.
pub struct TcpConfig {
    pub addr: String,
}

impl TcpConfig {
    pub fn new(addr: String) -> (r: Self)
        ensures
            r.addr@ == addr@,
    {
        TcpConfig { addr }
    }

    /// The remote address, as host and port.
    pub fn addr(&self) -> (r: &str)
        ensures
            r@ == self.addr@,
    {
        self.addr.as_str()
    }
}

} // verus!

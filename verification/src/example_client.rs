//! What a client keeps to open connections to the cache.
use vstd::prelude::*;

verus! {

/// Opens connections to a cache server at one address.
pub struct TonicConnectionManager {
    addr: String,
}

impl View for TonicConnectionManager {
    type V = Seq<char>;

    /// The address connections are opened to.
    closed spec fn view(&self) -> Seq<char> {
        self.addr@
    }
}

impl TonicConnectionManager {
    /// A manager for the server at `addr`.
    pub fn new(addr: String) -> (r: Self)
        ensures
            r@ == addr@,
    {
        Self { addr }
    }

    /// The address connections are opened to.
    pub fn addr(&self) -> (r: &String)
        ensures
            r@ == self@,
    {
        &self.addr
    }
}

} // verus!

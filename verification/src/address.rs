use vstd::prelude::*;

verus! {

/// An account on the ledger, identified by its string key
/// (for example `"GDQ..."` for a wallet or `"CA3..."` for a contract).
#[derive(Debug)]
pub struct Address {
    key: String,
}

impl View for Address {
    type V = Seq<char>;

    closed spec fn view(&self) -> Seq<char> {
        self.key@
    }
}

impl Address {
    /// The address whose string key is `key`.
    pub fn new(key: String) -> (r: Address)
        ensures
            r@ == key@,
    {
        Address { key }
    }

    /// The string key of this address.
    pub fn key(&self) -> (r: &String)
        ensures
            r@ == self@,
    {
        &self.key
    }

}

impl Clone for Address {
    fn clone(&self) -> (r: Address)
        ensures
            r@ == self@,
    {
        Address { key: self.key.clone() }
    }
}

impl PartialEq for Address {
    fn eq(&self, other: &Address) -> (r: bool) {
        self.key == other.key
    }
}

impl vstd::std_specs::cmp::PartialEqSpecImpl for Address {
    open spec fn obeys_eq_spec() -> bool {
        true
    }

    open spec fn eq_spec(&self, other: &Address) -> bool {
        self@ == other@
    }
}

} // verus!

use vstd::prelude::*;

verus! {

/// A port number in the network.
pub struct Port(u16);

/// The address under which a member of the network is reached, such as
/// `0.0.0.0:9000`.
#[derive(Debug)]
pub struct ContactAddr(pub String);

impl View for ContactAddr {
    type V = Seq<char>;

    open spec fn view(&self) -> Seq<char> {
        self.0@
    }
}

/// The addresses held by a list of members, in order.
pub open spec fn addrs(members: Seq<ContactAddr>) -> Seq<Seq<char>> {
    members.map_values(|m: ContactAddr| m@)
}

impl ContactAddr {
    /// The address as text, as it is shown to users.
    pub fn to_string(&self) -> (s: String)
        ensures
            s@ == self@,
    {
        self.0.clone()
    }
}

impl Clone for ContactAddr {
    fn clone(&self) -> (c: Self)
        ensures
            c@ == self@,
    {
        ContactAddr(self.0.clone())
    }
}

impl Default for ContactAddr {
    fn default() -> (c: Self)
        ensures
            c@ == Seq::<char>::empty(),
    {
        ContactAddr(String::new())
    }
}

impl PartialEq for ContactAddr {
    fn eq(&self, other: &Self) -> (r: bool) {
        self.0 == other.0
    }
}

impl Eq for ContactAddr {}

impl vstd::std_specs::cmp::PartialEqSpecImpl for ContactAddr {
    open spec fn obeys_eq_spec() -> bool {
        true
    }

    open spec fn eq_spec(&self, other: &ContactAddr) -> bool {
        self@ == other@
    }
}

/// A message that carries one address.
pub struct Address {
    pub value: ContactAddr,
}

/// A request to join the network, carrying the address of the newcomer.
pub type Join = Address;

impl Address {
    pub fn new(value: ContactAddr) -> (a: Self)
        ensures
            a.value == value,
    {
        Self { value }
    }
}

/// A request to join, carrying the newcomer's address as text.
pub struct JoinRequest {
    pub contact_addr: String,
}

} // verus!

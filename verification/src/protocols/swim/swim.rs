use vstd::prelude::*;

use crate::protocols::swim::messages::{addrs, ContactAddr};

verus! {

/// A member of the network: its own address and the members it knows of.
pub struct Node {
    pub addr: ContactAddr,
    pub members: Vec<ContactAddr>,
}

impl Node {
    /// The addresses of the members this node knows of, in order.
    pub open spec fn member_addrs(&self) -> Seq<Seq<char>> {
        addrs(self.members@)
    }
}

/// A message that carries one address as text.
pub struct Tmp {
    pub addr: String,
}

/// No address occurs twice.
pub open spec fn distinct(members: Seq<Seq<char>>) -> bool {
    forall|i: int, j: int| 0 <= i < j < members.len() ==> members[i] != members[j]
}

/// Adding an address that is not there yet keeps the addresses distinct.
pub proof fn lemma_push_keeps_distinct(members: Seq<Seq<char>>, addr: Seq<char>)
    requires
        distinct(members),
        !members.contains(addr),
    ensures
        distinct(members.push(addr)),
        members.push(addr).contains(addr),
{
    let after = members.push(addr);
    assert forall|i: int, j: int| 0 <= i < j < after.len() implies after[i] != after[j] by {
        if j == members.len() {
            assert(after[i] == members[i]);
        }
    }
    assert(after[members.len() as int] == addr);
}

impl Default for Node {
    fn default() -> (n: Self)
        ensures
            n.addr@ == Seq::<char>::empty(),
            n.members@ == Seq::<ContactAddr>::empty(),
    {
        Node { addr: ContactAddr::default(), members: Vec::new() }
    }
}

} // verus!

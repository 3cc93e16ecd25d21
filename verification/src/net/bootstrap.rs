use vstd::prelude::*;

use crate::protocols::nat_traversal::discovery::{local_addr, NatDiscovery};
use crate::protocols::swim::http_client::JoinRequest;
use crate::protocols::swim::messages::ContactAddr;
use crate::protocols::swim::swim::Node;

verus! {

/// How a starting node enters the network.
pub enum Introduction {
    /// The node is the known node itself: it founds the network, with itself
    /// as the only member.
    Founded,
    /// The node asks the known node to let it join.
    Join { payload: JoinRequest, destination: ContactAddr },
}

/// A fresh node on the local host, listening on `port`, that knows of no
/// member yet.
pub fn local_node(port: u16) -> (node: Node)
    ensures
        node.addr@ == local_addr(port),
        node.members@ == Seq::<ContactAddr>::empty(),
{
    let discovery = NatDiscovery {};
    let addr = discovery.find_addr(&true, &port);
    Node { addr, members: Vec::new() }
}

/// Decides how `me` enters the network whose known node is `known_node`.
/// When `me` is the known node, it records itself as a member and founds the
/// network; otherwise it is left unchanged, and a join request with its
/// address is to be sent to the known node.
pub fn introduce(me: &mut Node, known_node: &String) -> (intro: Introduction)
    ensures
        final(me).addr == old(me).addr,
        old(me).addr@ == known_node@ ==> intro is Founded && final(me).member_addrs()
            == old(me).member_addrs().push(known_node@),
        old(me).addr@ != known_node@ ==> final(me).members@ == old(me).members@ && (
        intro matches Introduction::Join { payload, destination } && payload.address@
            == old(me).addr@ && destination@ == known_node@),
{
    if me.addr.0 == *known_node {
        me.members.push(ContactAddr(known_node.clone()));
        assert(me.member_addrs() =~= old(me).member_addrs().push(known_node@));
        return Introduction::Founded;
    }
    let payload = JoinRequest { address: ContactAddr(me.addr.0.clone()) };
    Introduction::Join { payload, destination: ContactAddr(known_node.clone()) }
}

/// A node that joins through the known node learns every member that the
/// known node answers with, itself among them: the known node adds the
/// newcomer to its members (see `routes::join`), and the newcomer appends the
/// answered members to those it knew (see `ConsumableResponse::consume`).
pub proof fn lemma_joined_node_knows_network(
    known_members: Seq<Seq<char>>,
    newcomer_members: Seq<Seq<char>>,
    newcomer: Seq<char>,
)
    ensures
        ({
            let answered = known_members.push(newcomer);
            let learned = newcomer_members + answered;
            &&& learned.contains(newcomer)
            &&& forall|a: Seq<char>| #[trigger] known_members.contains(a) ==> learned.contains(a)
            &&& forall|a: Seq<char>| #[trigger] newcomer_members.contains(a) ==> learned.contains(a)
        }),
{
    let answered = known_members.push(newcomer);
    let learned = newcomer_members + answered;
    assert(learned[learned.len() - 1] == newcomer);
    assert forall|a: Seq<char>| #[trigger] known_members.contains(a) implies learned.contains(a) by {
        let i = choose|i: int| 0 <= i < known_members.len() && known_members[i] == a;
        assert(learned[newcomer_members.len() + i] == a);
    }
    assert forall|a: Seq<char>| #[trigger] newcomer_members.contains(a) implies learned.contains(a) by {
        let i = choose|i: int| 0 <= i < newcomer_members.len() && newcomer_members[i] == a;
        assert(learned[i] == a);
    }
}

} // verus!

use vstd::prelude::*;
use vstd::string::StringExecFns;

use crate::protocols::swim::messages::ContactAddr;
use crate::protocols::swim::swim::Node;

verus! {

/// The body of a join request: the address of the node that joins.
pub struct JoinRequest {
    pub address: ContactAddr,
}

/// The body of the answer to a join: the members of the network.
pub struct JoinResponse {
    pub members: Vec<ContactAddr>,
}

/// The requests that a node sends to another.
pub enum Method {
    Join,
}

/// The path of the join endpoint: `join`.
pub open spec fn join_endpoint() -> Seq<char> {
    seq!['j', 'o', 'i', 'n']
}

/// The URL of the join endpoint of the node at `destination`:
/// `http://<destination>/join`.
pub open spec fn join_url_of(destination: Seq<char>) -> Seq<char> {
    seq!['h', 't', 't', 'p', ':', '/', '/'] + destination + seq!['/'] + join_endpoint()
}

/// The join URL holds the whole destination, unchanged, between the scheme
/// `http://` and the path `/join`: every destination has its own URL, and the
/// destination is read back from the URL.
pub proof fn lemma_join_url_holds_destination(destination: Seq<char>, other: Seq<char>)
    ensures
        join_url_of(destination).len() == destination.len() + 12,
        join_url_of(destination).subrange(7, 7 + destination.len() as int) == destination,
        join_url_of(destination).take(7) == seq!['h', 't', 't', 'p', ':', '/', '/'],
        join_url_of(destination).skip(7 + destination.len() as int) == seq!['/', 'j', 'o', 'i', 'n'],
        join_url_of(destination) == join_url_of(other) ==> destination == other,
{
    let u = join_url_of(destination);
    assert(u.subrange(7, 7 + destination.len() as int) =~= destination);
    assert(u.take(7) =~= seq!['h', 't', 't', 'p', ':', '/', '/']);
    assert(u.skip(7 + destination.len() as int) =~= seq!['/', 'j', 'o', 'i', 'n']);
    if u == join_url_of(other) {
        let v = join_url_of(other);
        assert(v.subrange(7, 7 + other.len() as int) =~= other);
    }
}

/// Writes the URL to which a join request for `destination` is posted.
pub fn join_url(destination: &ContactAddr) -> (url: String)
    ensures
        url@ == join_url_of(destination@),
        url@ == seq!['h', 't', 't', 'p', ':', '/', '/'] + destination@ + seq!['/', 'j', 'o', 'i', 'n'],
{
    proof {
        reveal_strlit("http://");
        reveal_strlit("/");
        reveal_strlit("join");
    }
    let mut url = "http://".to_owned();
    url.append(destination.0.as_str());
    url.append("/");
    url.append("join");
    assert(url@ =~= seq!['h', 't', 't', 'p', ':', '/', '/'] + destination@ + seq!['/', 'j', 'o', 'i', 'n']);
    url
}

/// An answer received from another node, together with the endpoint that
/// gave it, so that it can be applied to this node.
pub struct ConsumableResponse<'a, T> {
    pub body: T,
    pub endpoint: &'a str,
}

impl<'a> ConsumableResponse<'a, Vec<ContactAddr>> {
    /// Applies the answer of the join endpoint: the members it lists are
    /// appended to those of `node`, and the node is handed back, leaving an
    /// empty node in its place. The answers of other endpoints are not
    /// handled: `endpoint` must be `join`.
    pub fn consume(&mut self, node: &mut Node) -> (taken: Node)
        requires
            old(self).endpoint@ == join_endpoint(),
        ensures
            taken.addr == old(node).addr,
            taken.members@ == old(node).members@ + old(self).body@,
            final(node).addr@ == Seq::<char>::empty(),
            final(node).members@ == Seq::<ContactAddr>::empty(),
            final(self).body@ == Seq::<ContactAddr>::empty(),
            final(self).endpoint == old(self).endpoint,
    {
        node.members.append(&mut self.body);
        let mut taken = Node::default();
        std::mem::swap(&mut taken, node);
        taken
    }
}

} // verus!

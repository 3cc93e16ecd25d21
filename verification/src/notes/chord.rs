use vstd::prelude::*;
use vstd::string::StringExecFns;

verus! {

/// A node of a Chord ring, with the neighbours it knows of.
pub struct Node {
    pub ip: String,
    pub id: String,
    pub predecessor: Box<Option<Node>>,
    pub successor: Box<Option<Node>>,
}

/// The commands that a Chord node handles.
#[derive(Clone, Copy, Debug, PartialEq, Eq, Structural)]
pub enum Command {
    FindSuccessor,
}

impl Node {
    /// A node with the given address, which is also its id, and no
    /// neighbours.
    pub fn new(ip: &str) -> (n: Node)
        ensures
            n.ip@ == ip@,
            n.id@ == ip@,
            *n.predecessor == None::<Node>,
            *n.successor == None::<Node>,
    {
        let predecessor = Box::new(None);
        let successor = Box::new(None);
        Node { ip: ip.to_owned(), id: ip.to_owned(), predecessor, successor }
    }

    /// Joins the ring through `node`: the predecessor is forgotten, until
    /// stabilisation finds it again.
    pub fn join(&mut self, node: &Node)
        ensures
            *final(self).predecessor == None::<Node>,
            final(self).ip == old(self).ip,
            final(self).id == old(self).id,
            final(self).successor == old(self).successor,
    {
        self.predecessor = Box::new(None);
    }

    /// The successor of `node` on the ring; no lookup is made yet, so it is
    /// never known.
    pub fn find_successor(&self, node: &Node) -> (s: Box<Option<Node>>)
        ensures
            *s == None::<Node>,
    {
        Box::new(None)
    }

    /// The node as text: `[<ip> (<id>)]`.
    pub fn to_string(&self) -> (s: String)
        ensures
            s@ == seq!['['] + self.ip@ + seq![' ', '('] + self.id@ + seq![')', ']'],
    {
        proof {
            reveal_strlit("[");
            reveal_strlit(" (");
            reveal_strlit(")]");
        }
        let mut s = "[".to_owned();
        s.append(self.ip.as_str());
        s.append(" (");
        s.append(self.id.as_str());
        s.append(")]");
        s
    }
}

} // verus!

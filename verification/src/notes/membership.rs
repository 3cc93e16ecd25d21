use vstd::prelude::*;

verus! {

/// A member that counts the joins it has handled.
pub struct Member {
    counter: i32,
}

/// The messages of the membership protocol.
#[derive(Clone, Copy, Debug, PartialEq, Eq, Structural)]
pub enum MembershipMessage {
    Join,
    Joined,
    Ping,
    RequestPing,
    Ack,
}

/// What a member answers a message with.
#[derive(Clone, Copy, Debug, PartialEq, Eq, Structural)]
pub enum MemberReply {
    /// A join was counted; the count of joins so far goes back to the sender.
    Joins(i32),
    /// A ping came in; nothing goes back.
    PingNoted,
    /// Any other message is only noted.
    Ignored,
}

impl Member {
    /// How many joins this member has counted.
    pub closed spec fn joins(&self) -> int {
        self.counter as int
    }

    /// A member that has counted no join yet.
    pub fn new() -> (m: Self)
        ensures
            m.joins() == 0,
    {
        Member { counter: 0 }
    }

    pub fn counter(&self) -> (c: i32)
        ensures
            c == self.joins(),
    {
        self.counter
    }

    /// Counts one more join.
    pub fn join(&mut self)
        requires
            old(self).joins() < i32::MAX,
        ensures
            final(self).joins() == old(self).joins() + 1,
    {
        self.counter = self.counter + 1;
    }

    /// Handles one message: a join is counted and answered with the count,
    /// a ping is noted, anything else is ignored.
    pub fn on_message(&mut self, message: &MembershipMessage) -> (reply: MemberReply)
        requires
            *message == MembershipMessage::Join ==> old(self).joins() < i32::MAX,
        ensures
            *message == MembershipMessage::Join ==> final(self).joins() == old(self).joins() + 1
                && reply == MemberReply::Joins(final(self).joins() as i32),
            *message == MembershipMessage::Ping ==> final(self).joins() == old(self).joins()
                && reply == MemberReply::PingNoted,
            *message != MembershipMessage::Join && *message != MembershipMessage::Ping
                ==> final(self).joins() == old(self).joins() && reply == MemberReply::Ignored,
    {
        match message {
            MembershipMessage::Ping => MemberReply::PingNoted,
            MembershipMessage::Join => {
                self.join();
                MemberReply::Joins(self.counter)
            },
            _ => MemberReply::Ignored,
        }
    }
}

/// A node of the membership protocol; it holds no state of its own.
pub struct Node {}

impl Node {
    /// Joining changes nothing at a node.
    pub fn join(&mut self)
        ensures
            *final(self) == *old(self),
    {
    }
}

/// What serves membership requests: the node and its member record.
pub struct Handler {
    node: Node,
    member: Member,
}

} // verus!

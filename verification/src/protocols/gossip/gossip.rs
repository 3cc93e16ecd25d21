use rand::rngs::ThreadRng;
use rand::Rng;
use vstd::prelude::*;

use crate::protocols::swim::messages::ContactAddr;

verus! {

/// rand's per-thread random number generator, carried through unread.
#[verifier::external_type_specification]
#[verifier::external_body]
pub struct ExThreadRng(rand::rngs::ThreadRng);

/// Calls `rand::thread_rng`, which hands out the generator of the current
/// thread. Nothing is claimed of the generator's state.
#[verifier::external_body]
pub(crate) fn thread_rng() -> ThreadRng {
    rand::thread_rng()
}

/// Calls `Rng::gen_range(low, high)` of rand 0.7, which returns a value in
/// `[low, high)` and panics when `low >= high`. Which value comes out depends
/// on chance: only the range is claimed.
#[verifier::external_body]
pub(crate) fn gen_range(rng: &mut ThreadRng, low: usize, high: usize) -> (r: usize)
    requires
        low < high,
    ensures
        low <= r < high,
{
    rng.gen_range(low, high)
}

/// What is gossiped through the network.
#[derive(Debug)]
pub enum GossipMessage {
    Join(&'static str, String),
}

/// How the receivers of a gossip message are picked among the nodes.
pub trait SelectStrategy {
    /// Picks `how_many` receivers, each one of `nodes`; the same node may be
    /// picked more than once.
    fn select<'a>(&mut self, nodes: &'a Vec<ContactAddr>, how_many: u16) -> (picked: Vec<&'a ContactAddr>)
        requires
            how_many == 0 || nodes.len() > 0,
        ensures
            picked.len() == how_many,
            forall|i: int| 0 <= i < picked.len() ==> #[trigger] nodes@.contains(*picked@[i]),
    ;
}

/// Picks the receivers uniformly at random, with repetition.
pub struct RandomSelectStrategy(pub ThreadRng);

/// The nodes at the given positions, in the order of the positions.
pub fn pick_at<'a>(nodes: &'a Vec<ContactAddr>, positions: &Vec<usize>) -> (picked: Vec<&'a ContactAddr>)
    requires
        forall|i: int| 0 <= i < positions.len() ==> #[trigger] positions@[i] < nodes.len(),
    ensures
        picked.len() == positions.len(),
        forall|i: int| 0 <= i < picked.len() ==> *#[trigger] picked@[i] == nodes@[positions@[i] as int],
{
    let mut picked: Vec<&'a ContactAddr> = Vec::new();
    let mut i: usize = 0;
    while i < positions.len()
        invariant
            i <= positions.len(),
            picked.len() == i,
            forall|k: int| 0 <= k < positions.len() ==> #[trigger] positions@[k] < nodes.len(),
            forall|k: int| 0 <= k < i ==> *#[trigger] picked@[k] == nodes@[positions@[k] as int],
        decreases positions.len() - i,
    {
        picked.push(&nodes[positions[i]]);
        i += 1;
    }
    picked
}

impl SelectStrategy for RandomSelectStrategy {
    fn select<'a>(&mut self, nodes: &'a Vec<ContactAddr>, how_many: u16) -> (picked: Vec<&'a ContactAddr>) {
        let mut positions: Vec<usize> = Vec::new();
        let mut i: u16 = 0;
        while i < how_many
            invariant
                i <= how_many,
                how_many == 0 || nodes.len() > 0,
                positions.len() == i,
                forall|k: int| 0 <= k < positions.len() ==> #[trigger] positions@[k] < nodes.len(),
            decreases how_many - i,
        {
            let p = gen_range(&mut self.0, 0, nodes.len());
            positions.push(p);
            i += 1;
        }
        let picked = pick_at(nodes, &positions);
        assert forall|k: int| 0 <= k < picked.len() implies #[trigger] nodes@.contains(*picked@[k]) by {
            assert(nodes@[positions@[k] as int] == *picked@[k]);
        }
        picked
    }
}

} // verus!

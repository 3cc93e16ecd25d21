use vstd::prelude::*;

use vstd::string::StringExecFns;

use crate::protocols::gossip::gossip::{gen_range, pick_at, thread_rng};
use crate::protocols::swim::messages::{addrs, ContactAddr};
use crate::protocols::swim::swim::{distinct, lemma_push_keeps_distinct, Node};

verus! {

/// The addresses that a list of borrowed members holds, in order.
pub open spec fn ref_addrs(members: Seq<&ContactAddr>) -> Seq<Seq<char>> {
    members.map_values(|m: &ContactAddr| m@)
}

/// Whether an address is not among `excluded`.
pub open spec fn outside(excluded: Seq<Seq<char>>) -> spec_fn(Seq<char>) -> bool {
    |a: Seq<char>| !excluded.contains(a)
}

/// The addresses of `members` that do not occur in `excluded`, in their order.
pub open spec fn retained(members: Seq<Seq<char>>, excluded: Seq<Seq<char>>) -> Seq<Seq<char>> {
    members.filter(outside(excluded))
}

/// One more member is kept unless it is excluded.
pub proof fn lemma_retained_push(members: Seq<Seq<char>>, addr: Seq<char>, excluded: Seq<Seq<char>>)
    ensures
        retained(members.push(addr), excluded) == if excluded.contains(addr) {
            retained(members, excluded)
        } else {
            retained(members, excluded).push(addr)
        },
{
    members.lemma_filter_push(addr, outside(excluded));
}

/// What `retained` keeps: exactly the members outside `excluded`, and never
/// more of them than there were.
pub proof fn lemma_retained(members: Seq<Seq<char>>, excluded: Seq<Seq<char>>)
    ensures
        retained(members, excluded).len() <= members.len(),
        forall|a: Seq<char>| #[trigger] retained(members, excluded).contains(a)
            <==> (members.contains(a) && !excluded.contains(a)),
    decreases members.len(),
{
    if members.len() > 0 {
        let init = members.drop_last();
        lemma_retained(init, excluded);
        assert(init.push(members.last()) =~= members);
        lemma_retained_push(init, members.last(), excluded);
        assert forall|a: Seq<char>| members.contains(a) <==> (init.contains(a) || a == members.last()) by {
            if members.contains(a) {
                let i = choose|i: int| 0 <= i < members.len() && members[i] == a;
                if i < members.len() - 1 {
                    assert(init[i] == a);
                }
            }
            if init.contains(a) {
                let i = choose|i: int| 0 <= i < init.len() && init[i] == a;
                assert(members[i] == a);
            }
            if a == members.last() {
                assert(members[members.len() - 1] == a);
            }
        }
        let rest = retained(init, excluded);
        assert forall|a: Seq<char>| rest.push(members.last()).contains(a) <==> (rest.contains(a) || a == members.last()) by {
            let p = rest.push(members.last());
            if p.contains(a) {
                let i = choose|i: int| 0 <= i < p.len() && p[i] == a;
                if i < rest.len() {
                    assert(rest[i] == a);
                }
            }
            if rest.contains(a) {
                let i = choose|i: int| 0 <= i < rest.len() && rest[i] == a;
                assert(p[i] == a);
            }
            if a == members.last() {
                assert(p[p.len() - 1] == a);
            }
        }
        assert forall|a: Seq<char>| #[trigger] retained(members, excluded).contains(a)
            <==> (members.contains(a) && !excluded.contains(a)) by {
            assert(members.contains(a) <==> (init.contains(a) || a == members.last()));
            assert(rest.contains(a) <==> (init.contains(a) && !excluded.contains(a)));
            assert(rest.push(members.last()).contains(a) <==> (rest.contains(a) || a == members.last()));
            if excluded.contains(members.last()) {
                assert(retained(members, excluded) == rest);
            } else {
                assert(retained(members, excluded) == rest.push(members.last()));
            }
        }
    }
}

/// Whether `addr` is among `members`.
pub fn is_existing_member(members: &Vec<ContactAddr>, addr: &ContactAddr) -> (found: bool)
    ensures
        found == addrs(members@).contains(addr@),
{
    let mut i: usize = 0;
    while i < members.len()
        invariant
            i <= members.len(),
            forall|j: int| 0 <= j < i ==> members@[j]@ != addr@,
        decreases members.len() - i,
    {
        if members[i] == *addr {
            assert(addrs(members@)[i as int] == addr@);
            return true;
        }
        i += 1;
    }
    proof {
        if addrs(members@).contains(addr@) {
            let j = choose|j: int| 0 <= j < addrs(members@).len() && addrs(members@)[j] == addr@;
            assert(members@[j]@ == addr@);
        }
    }
    false
}

fn is_listed(list: &Vec<&ContactAddr>, addr: &ContactAddr) -> (found: bool)
    ensures
        found == ref_addrs(list@).contains(addr@),
{
    let mut i: usize = 0;
    while i < list.len()
        invariant
            i <= list.len(),
            forall|j: int| 0 <= j < i ==> list@[j]@ != addr@,
        decreases list.len() - i,
    {
        if *list[i] == *addr {
            assert(ref_addrs(list@)[i as int] == addr@);
            return true;
        }
        i += 1;
    }
    proof {
        if ref_addrs(list@).contains(addr@) {
            let j = choose|j: int| 0 <= j < ref_addrs(list@).len() && ref_addrs(list@)[j] == addr@;
            assert(list@[j]@ == addr@);
        }
    }
    false
}

/// The members that are not in `to_remove`, in their order.
pub fn remove<'a, 'b>(members: &'a Vec<ContactAddr>, to_remove: &'b Vec<&ContactAddr>) -> (kept: Vec<&'a ContactAddr>)
    ensures
        ref_addrs(kept@) == retained(addrs(members@), ref_addrs(to_remove@)),
{
    let ghost all = addrs(members@);
    let ghost excluded = ref_addrs(to_remove@);
    let mut kept: Vec<&'a ContactAddr> = Vec::new();
    let mut i: usize = 0;
    while i < members.len()
        invariant
            i <= members.len(),
            all == addrs(members@),
            excluded == ref_addrs(to_remove@),
            ref_addrs(kept@) == retained(all.take(i as int), excluded),
        decreases members.len() - i,
    {
        let m = &members[i];
        assert(all.take(i as int).push(all[i as int]) =~= all.take(i as int + 1));
        proof {
            lemma_retained_push(all.take(i as int), all[i as int], excluded);
        }
        if !is_listed(to_remove, m) {
            kept.push(m);
            assert(ref_addrs(kept@) =~= ref_addrs(kept@.drop_last()).push(m@));
        }
        i += 1;
    }
    assert(all.take(members.len() as int) =~= all);
    kept
}

/// At most this many members hear of a join.
pub const FANOUT: usize = 3;

/// The text that starts the news of a join: `joined `.
pub open spec fn joined_prefix() -> Seq<char> {
    seq!['j', 'o', 'i', 'n', 'e', 'd', ' ']
}

/// News of a join, and the members it is to be sent to.
pub struct Rumor {
    pub text: String,
    pub targets: Vec<ContactAddr>,
}

/// How a join request is answered.
pub enum JoinReply {
    /// The address is a member already: the request is refused (400).
    Refused,
    /// The newcomer is now a member: the answer (200) carries the member list,
    /// and the news of the join, if any, is to be gossiped.
    Accepted { gossip: Option<Rumor> },
}

/// The members that may hear of a join of `newcomer` at node `me`: all but
/// the newcomer and the node itself.
pub open spec fn gossip_candidates(members: Seq<Seq<char>>, newcomer: Seq<char>, me: Seq<char>) -> Seq<Seq<char>> {
    retained(members, seq![newcomer, me])
}

/// Whether `picks` is a draw that a join may use: when there are more
/// candidates than the fan-out, as many positions as the fan-out, each below
/// the number of candidates.
pub open spec fn picks_fit(members: Seq<Seq<char>>, newcomer: Seq<char>, me: Seq<char>, picks: Seq<usize>) -> bool {
    let count = gossip_candidates(members, newcomer, me).len();
    count > FANOUT ==> picks.len() == FANOUT && forall|k: int| 0 <= k < picks.len() ==> #[trigger] picks[k] < count
}

/// Who hears of the join: every candidate when they are few; otherwise the
/// members at the drawn positions. The positions index the whole member list,
/// not the candidates, so the newcomer or the node itself may be drawn.
pub open spec fn gossip_receivers(members: Seq<Seq<char>>, newcomer: Seq<char>, me: Seq<char>, picks: Seq<usize>) -> Seq<Seq<char>> {
    let candidates = gossip_candidates(members, newcomer, me);
    if candidates.len() > FANOUT {
        picks.map_values(|p: usize| members[p as int])
    } else {
        candidates
    }
}

/// Who hears of a join: at most `FANOUT` members, each of them a member;
/// and when the candidates are few, neither the newcomer nor the node itself.
pub proof fn lemma_gossip_receivers(members: Seq<Seq<char>>, newcomer: Seq<char>, me: Seq<char>, picks: Seq<usize>)
    requires
        picks_fit(members, newcomer, me, picks),
    ensures
        gossip_receivers(members, newcomer, me, picks).len() <= FANOUT,
        forall|a: Seq<char>| #[trigger] gossip_receivers(members, newcomer, me, picks).contains(a) ==> members.contains(a),
        gossip_candidates(members, newcomer, me).len() <= FANOUT ==> {
            &&& !gossip_receivers(members, newcomer, me, picks).contains(newcomer)
            &&& !gossip_receivers(members, newcomer, me, picks).contains(me)
        },
{
    let excluded = seq![newcomer, me];
    lemma_retained(members, excluded);
    assert(excluded[0] == newcomer);
    assert(excluded[1] == me);
    let receivers = gossip_receivers(members, newcomer, me, picks);
    let candidates = gossip_candidates(members, newcomer, me);
    if candidates.len() > FANOUT {
        assert forall|a: Seq<char>| #[trigger] receivers.contains(a) implies members.contains(a) by {
            let k = choose|k: int| 0 <= k < receivers.len() && receivers[k] == a;
            assert(picks[k] < candidates.len());
            assert(members[picks[k] as int] == a);
        }
    }
}

/// The gossip that a join sends: nothing when nobody is to hear of it, else
/// `joined <newcomer>` to the receivers.
pub open spec fn rumor_of(gossip: Option<Rumor>, newcomer: Seq<char>, receivers: Seq<Seq<char>>) -> bool {
    if receivers.len() == 0 {
        gossip is None
    } else {
        gossip matches Some(r) && r.text@ == joined_prefix() + newcomer && addrs(r.targets@) == receivers
    }
}

/// Whether an address is neither `newcomer` nor `me`.
pub open spec fn neither(newcomer: Seq<char>, me: Seq<char>) -> spec_fn(Seq<char>) -> bool {
    |a: Seq<char>| a != newcomer && a != me
}

/// What a join tells the network, for every draw: the news goes out exactly
/// when some member besides the newcomer and the node itself exists; it reads
/// `joined <newcomer>`; it reaches between one and `FANOUT` members; and when
/// at most `FANOUT` members besides the newcomer and the node exist, it reaches
/// every one of them and nobody else.
pub proof fn lemma_gossip_plan(
    gossip: Option<Rumor>,
    members: Seq<Seq<char>>,
    newcomer: Seq<char>,
    me: Seq<char>,
    picks: Seq<usize>,
)
    requires
        picks_fit(members, newcomer, me, picks),
        rumor_of(gossip, newcomer, gossip_receivers(members, newcomer, me, picks)),
    ensures
        gossip is None <==> (forall|a: Seq<char>| #[trigger] members.contains(a) ==> a == newcomer || a == me),
        gossip matches Some(r) ==> r.text@ == seq!['j', 'o', 'i', 'n', 'e', 'd', ' '] + newcomer,
        gossip matches Some(r) ==> 1 <= r.targets.len() <= FANOUT,
        gossip matches Some(r) ==> forall|k: int| 0 <= k < r.targets.len() ==> members.contains(#[trigger] r.targets@[k]@),
        members.filter(neither(newcomer, me)).len() <= FANOUT ==> (gossip matches Some(r) ==> forall|a: Seq<char>|
            #[trigger] addrs(r.targets@).contains(a) <==> (members.contains(a) && a != newcomer && a != me)),
{
    let excluded = seq![newcomer, me];
    lemma_retained(members, excluded);
    lemma_gossip_receivers(members, newcomer, me, picks);
    assert(excluded[0] == newcomer);
    assert(excluded[1] == me);
    let candidates = gossip_candidates(members, newcomer, me);
    let receivers = gossip_receivers(members, newcomer, me, picks);
    let others = neither(newcomer, me);
    assert(others =~= outside(excluded)) by {
        assert forall|a: Seq<char>| #[trigger] others(a) == outside(excluded)(a) by {
            if excluded.contains(a) {
                let i = choose|i: int| 0 <= i < excluded.len() && excluded[i] == a;
            }
        }
    }
    assert(members.filter(others) == candidates);
    assert forall|a: Seq<char>| #[trigger] candidates.contains(a) <==> (members.contains(a) && a != newcomer && a != me) by {
        assert(candidates.contains(a) <==> (members.contains(a) && !excluded.contains(a)));
        if excluded.contains(a) {
            let i = choose|i: int| 0 <= i < excluded.len() && excluded[i] == a;
        }
    }
    if candidates.len() > 0 {
        let w = candidates[0];
        assert(candidates.contains(w));
        assert(members.contains(w) && w != newcomer && w != me);
    } else {
        assert forall|a: Seq<char>| #[trigger] members.contains(a) implies a == newcomer || a == me by {
            if members.contains(a) && a != newcomer && a != me {
                assert(candidates.contains(a));
            }
        }
    }
    if gossip is Some {
        let r = gossip->Some_0;
        assert(addrs(r.targets@) == receivers);
        assert forall|k: int| 0 <= k < r.targets.len() implies members.contains(#[trigger] r.targets@[k]@) by {
            assert(addrs(r.targets@)[k] == r.targets@[k]@);
            assert(receivers.contains(receivers[k]));
        }
    }
}

fn clone_all(list: &Vec<&ContactAddr>) -> (owned: Vec<ContactAddr>)
    ensures
        addrs(owned@) == ref_addrs(list@),
{
    let mut owned: Vec<ContactAddr> = Vec::new();
    let mut i: usize = 0;
    while i < list.len()
        invariant
            i <= list.len(),
            addrs(owned@) == ref_addrs(list@).take(i as int),
        decreases list.len() - i,
    {
        owned.push(list[i].clone());
        assert(ref_addrs(list@).take(i as int + 1) =~= ref_addrs(list@).take(i as int).push(list@[i as int]@));
        assert(addrs(owned@) =~= addrs(owned@.drop_last()).push(owned@.last()@));
        i += 1;
    }
    assert(ref_addrs(list@).take(list.len() as int) =~= ref_addrs(list@));
    owned
}

/// The gossip about the join of `newcomer`, who is already among `members`.
pub fn plan_gossip(members: &Vec<ContactAddr>, me: &ContactAddr, newcomer: &ContactAddr, picks: &Vec<usize>) -> (gossip: Option<Rumor>)
    requires
        picks_fit(addrs(members@), newcomer@, me@, picks@),
    ensures
        rumor_of(gossip, newcomer@, gossip_receivers(addrs(members@), newcomer@, me@, picks@)),
        gossip is None <==> (forall|a: Seq<char>| #[trigger] addrs(members@).contains(a) ==> a == newcomer@ || a == me@),
        gossip matches Some(r) ==> r.text@ == seq!['j', 'o', 'i', 'n', 'e', 'd', ' '] + newcomer@,
        gossip matches Some(r) ==> 1 <= r.targets.len() <= FANOUT,
        gossip matches Some(r) ==> forall|k: int| 0 <= k < r.targets.len() ==> addrs(members@).contains(#[trigger] r.targets@[k]@),
        addrs(members@).filter(neither(newcomer@, me@)).len() <= FANOUT ==> (gossip matches Some(r) ==> forall|a: Seq<char>|
            #[trigger] addrs(r.targets@).contains(a) <==> (addrs(members@).contains(a) && a != newcomer@ && a != me@)),
{
    let mut excluded: Vec<&ContactAddr> = Vec::new();
    excluded.push(newcomer);
    excluded.push(me);
    assert(ref_addrs(excluded@) =~= seq![newcomer@, me@]);
    let candidates = remove(members, &excluded);
    proof {
        lemma_retained(addrs(members@), seq![newcomer@, me@]);
    }
    let targets = if candidates.len() > FANOUT {
        let picked = pick_at(members, picks);
        assert(ref_addrs(picked@) =~= picks@.map_values(|p: usize| addrs(members@)[p as int]));
        clone_all(&picked)
    } else {
        clone_all(&candidates)
    };
    assert(addrs(targets@) == gossip_receivers(addrs(members@), newcomer@, me@, picks@));
    let gossip = if targets.len() == 0 {
        None
    } else {
        proof {
            reveal_strlit("joined ");
        }
        let mut text = "joined ".to_owned();
        assert(text@ == joined_prefix());
        text.append(newcomer.0.as_str());
        Some(Rumor { text, targets })
    };
    proof {
        lemma_gossip_plan(gossip, addrs(members@), newcomer@, me@, picks@);
    }
    gossip
}

/// Answers a join request of `to_join` at `node`, with `picks` as the draw
/// that chooses who hears of it (see `gossip_receivers`).
pub fn join_with_picks(node: &mut Node, to_join: ContactAddr, picks: &Vec<usize>) -> (reply: JoinReply)
    requires
        !old(node).member_addrs().contains(to_join@) ==> picks_fit(
            old(node).member_addrs().push(to_join@),
            to_join@,
            old(node).addr@,
            picks@,
        ),
    ensures
        final(node).addr == old(node).addr,
        final(node).member_addrs().contains(to_join@),
        distinct(old(node).member_addrs()) ==> distinct(final(node).member_addrs()),
        old(node).member_addrs().contains(to_join@) ==> reply is Refused && final(node).members@
            == old(node).members@,
        !old(node).member_addrs().contains(to_join@) ==> {
            &&& final(node).member_addrs() == old(node).member_addrs().push(to_join@)
            &&& reply matches JoinReply::Accepted { gossip } && {
                &&& gossip is None <==> (forall|a: Seq<char>| #[trigger] final(node).member_addrs().contains(a) ==> a == to_join@ || a == old(node).addr@)
                &&& gossip matches Some(r) ==> r.text@ == seq!['j', 'o', 'i', 'n', 'e', 'd', ' '] + to_join@
                &&& gossip matches Some(r) ==> 1 <= r.targets.len() <= FANOUT
                &&& gossip matches Some(r) ==> forall|k: int| 0 <= k < r.targets.len() ==> final(node).member_addrs().contains(#[trigger] r.targets@[k]@)
                &&& final(node).member_addrs().filter(neither(to_join@, old(node).addr@)).len() <= FANOUT ==> (gossip matches Some(r) ==> forall|a: Seq<char>|
                    #[trigger] addrs(r.targets@).contains(a) <==> (final(node).member_addrs().contains(a) && a != to_join@ && a != old(node).addr@))
            }
            &&& reply matches JoinReply::Accepted { gossip } && rumor_of(
                gossip,
                to_join@,
                gossip_receivers(final(node).member_addrs(), to_join@, old(node).addr@, picks@),
            )
        },
{
    if is_existing_member(&node.members, &to_join) {
        return JoinReply::Refused;
    }
    node.members.push(to_join.clone());
    assert(node.member_addrs() =~= old(node).member_addrs().push(to_join@));
    proof {
        if distinct(old(node).member_addrs()) {
            lemma_push_keeps_distinct(old(node).member_addrs(), to_join@);
        }
        let last = node.member_addrs().len() - 1;
        assert(node.member_addrs()[last] == to_join@);
    }
    let gossip = plan_gossip(&node.members, &node.addr, &to_join, picks);
    JoinReply::Accepted { gossip }
}

fn draw_picks(count: usize) -> (picks: Vec<usize>)
    requires
        count > 0,
    ensures
        picks.len() == FANOUT,
        forall|k: int| 0 <= k < picks.len() ==> #[trigger] picks@[k] < count,
{
    let mut picks: Vec<usize> = Vec::new();
    let mut i: usize = 0;
    while i < FANOUT
        invariant
            count > 0,
            i <= FANOUT,
            picks.len() == i,
            forall|k: int| 0 <= k < picks.len() ==> #[trigger] picks@[k] < count,
        decreases FANOUT - i,
    {
        let mut rng = thread_rng();
        picks.push(gen_range(&mut rng, 0, count));
        i += 1;
    }
    picks
}

/// Answers a join request of `to_join` at `node`. A newcomer is added to the
/// members; when more than `FANOUT` others could hear of it, the receivers are
/// drawn at random, and the reply is the one `join_with_picks` gives for some
/// admissible draw.
pub fn join(node: &mut Node, to_join: ContactAddr) -> (reply: JoinReply)
    ensures
        final(node).addr == old(node).addr,
        final(node).member_addrs().contains(to_join@),
        distinct(old(node).member_addrs()) ==> distinct(final(node).member_addrs()),
        old(node).member_addrs().contains(to_join@) ==> reply is Refused && final(node).members@
            == old(node).members@,
        !old(node).member_addrs().contains(to_join@) ==> {
            &&& final(node).member_addrs() == old(node).member_addrs().push(to_join@)
            &&& reply matches JoinReply::Accepted { gossip } && {
                &&& gossip is None <==> (forall|a: Seq<char>| #[trigger] final(node).member_addrs().contains(a) ==> a == to_join@ || a == old(node).addr@)
                &&& gossip matches Some(r) ==> r.text@ == seq!['j', 'o', 'i', 'n', 'e', 'd', ' '] + to_join@
                &&& gossip matches Some(r) ==> 1 <= r.targets.len() <= FANOUT
                &&& gossip matches Some(r) ==> forall|k: int| 0 <= k < r.targets.len() ==> final(node).member_addrs().contains(#[trigger] r.targets@[k]@)
                &&& final(node).member_addrs().filter(neither(to_join@, old(node).addr@)).len() <= FANOUT ==> (gossip matches Some(r) ==> forall|a: Seq<char>|
                    #[trigger] addrs(r.targets@).contains(a) <==> (final(node).member_addrs().contains(a) && a != to_join@ && a != old(node).addr@))
            }
            &&& exists|picks: Seq<usize>|
                {
                    &&& picks_fit(final(node).member_addrs(), to_join@, old(node).addr@, picks)
                    &&& reply matches JoinReply::Accepted { gossip } && rumor_of(
                        gossip,
                        to_join@,
                        gossip_receivers(final(node).member_addrs(), to_join@, old(node).addr@, picks),
                    )
                }
        },
{
    if is_existing_member(&node.members, &to_join) {
        return JoinReply::Refused;
    }
    let count = {
        let mut excluded: Vec<&ContactAddr> = Vec::new();
        excluded.push(&to_join);
        excluded.push(&node.addr);
        assert(ref_addrs(excluded@) =~= seq![to_join@, node.addr@]);
        remove(&node.members, &excluded).len()
    };
    let ghost after = node.member_addrs().push(to_join@);
    proof {
        lemma_retained_push(node.member_addrs(), to_join@, seq![to_join@, node.addr@]);
        assert(seq![to_join@, node.addr@][0] == to_join@);
    }
    assert(gossip_candidates(after, to_join@, node.addr@) == gossip_candidates(node.member_addrs(), to_join@, node.addr@));
    let picks = if count > FANOUT {
        draw_picks(count)
    } else {
        Vec::new()
    };
    let reply = join_with_picks(node, to_join, &picks);
    assert(picks_fit(final(node).member_addrs(), to_join@, old(node).addr@, picks@));
    reply
}

} // verus!

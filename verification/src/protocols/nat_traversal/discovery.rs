use vstd::prelude::*;
use vstd::string::StringExecFns;

use crate::protocols::swim::messages::ContactAddr;

verus! {

/// The character that writes the decimal digit `d`.
pub open spec fn digit_char(d: nat) -> char
    recommends
        d < 10,
{
    (48 + d) as char
}

/// The decimal numeral of `n`, without leading zeros.
pub open spec fn decimal(n: nat) -> Seq<char>
    decreases n,
{
    if n < 10 {
        seq![digit_char(n)]
    } else {
        decimal(n / 10).push(digit_char(n % 10))
    }
}

/// The number that a numeral of decimal digits denotes.
pub open spec fn decimal_value(s: Seq<char>) -> int
    decreases s.len(),
{
    if s.len() == 0 {
        0
    } else {
        10 * decimal_value(s.drop_last()) + (s.last() as int - 48)
    }
}

/// The prefix of every address on the local host: `0.0.0.0:`.
pub open spec fn any_host() -> Seq<char> {
    seq!['0', '.', '0', '.', '0', '.', '0', ':']
}

/// The address on which a local node with the given port is reached.
pub open spec fn local_addr(port: u16) -> Seq<char> {
    any_host() + decimal(port as nat)
}

/// A decimal numeral reads back as the number it was made from, and starts
/// with a nonzero digit unless the number is zero.
pub proof fn lemma_decimal_reads_back(n: nat)
    ensures
        decimal_value(decimal(n)) == n,
        decimal(n).len() >= 1,
        n > 0 ==> decimal(n)[0] != '0',
        forall|i: int| 0 <= i < decimal(n).len() ==> '0' <= #[trigger] decimal(n)[i] <= '9',
    decreases n,
{
    if n >= 10 {
        lemma_decimal_reads_back(n / 10);
        let s = decimal(n);
        assert(s.drop_last() =~= decimal(n / 10));
        assert(forall|i: int| 0 <= i < decimal(n / 10).len() ==> s[i] == decimal(n / 10)[i]);
        assert(s.last() as int == 48 + n % 10);
        assert(decimal_value(s) == 10 * (n / 10) + n % 10);
        assert(decimal_value(s) == n);
    } else {
        let s = decimal(n);
        assert(s.drop_last() =~= Seq::<char>::empty());
        assert(s.last() as int == 48 + n);
        assert(decimal_value(s.drop_last()) == 0);
        assert(decimal_value(s) == n);
    }
}

/// Nodes on different ports have different addresses.
pub proof fn lemma_local_addr_injective(p: u16, q: u16)
    ensures
        local_addr(p) == local_addr(q) ==> p == q,
{
    if local_addr(p) == local_addr(q) {
        let dp = decimal(p as nat);
        let dq = decimal(q as nat);
        assert(dp =~= local_addr(p).skip(8));
        assert(dq =~= local_addr(q).skip(8));
        lemma_decimal_reads_back(p as nat);
        lemma_decimal_reads_back(q as nat);
    }
}

fn digit_text(d: u16) -> (t: &'static str)
    requires
        d < 10,
    ensures
        t@ == seq![digit_char(d as nat)],
{
    proof {
        reveal_strlit("0");
        reveal_strlit("1");
        reveal_strlit("2");
        reveal_strlit("3");
        reveal_strlit("4");
        reveal_strlit("5");
        reveal_strlit("6");
        reveal_strlit("7");
        reveal_strlit("8");
        reveal_strlit("9");
    }
    match d {
        0 => "0",
        1 => "1",
        2 => "2",
        3 => "3",
        4 => "4",
        5 => "5",
        6 => "6",
        7 => "7",
        8 => "8",
        _ => "9",
    }
}

fn append_decimal(text: &mut String, n: u16)
    ensures
        final(text)@ == old(text)@ + decimal(n as nat),
    decreases n,
{
    if n >= 10 {
        append_decimal(text, n / 10);
    }
    text.append(digit_text(n % 10));
    proof {
        if n >= 10 {
            assert(decimal(n as nat) == decimal((n / 10) as nat).push(digit_char((n % 10) as nat)));
        }
    }
}

/// Writes the local address for `port`, such as `0.0.0.0:9000`.
pub fn local_address(port: u16) -> (a: String)
    ensures
        a@ == local_addr(port),
{
    proof {
        reveal_strlit("0.0.0.0:");
    }
    let mut text = "0.0.0.0:".to_owned();
    append_decimal(&mut text, port);
    text
}

/// Finds the address under which this node is reached by the others.
pub struct NatDiscovery {}

impl NatDiscovery {
    /// The address of a node on the local host with the given port. Only
    /// local nodes are supported: `is_local` must hold.
    pub fn find_addr(&self, is_local: &bool, port: &u16) -> (a: ContactAddr)
        requires
            *is_local,
        ensures
            a@ == local_addr(*port),
    {
        ContactAddr(local_address(*port))
    }
}

} // verus!

use vstd::prelude::*;
use vstd::string::StringExecFns;
use vstd::utf8::encode_utf8;

use crate::protocols::gossip::gossip::{gen_range, thread_rng};
use crate::protocols::nat_traversal::discovery::{local_addr, local_address};

verus! {

/// How many bytes a key of the ring has.
pub const RING_SIZE: usize = 20;

/// The SHA-1 digest of `data`, as computed by the sha1 crate.
pub uninterp spec fn sha1_digest(data: Seq<u8>) -> Seq<u8>;

/// Calls `sha1::Sha1::from(data).digest().bytes()` of sha1 0.6 (which
/// re-exports sha1_smol 1.0): the twenty-byte SHA-1 digest of `data`. The
/// digest is named, not written out.
#[verifier::external_body]
fn sha1_bytes(data: &[u8]) -> (d: [u8; 20])
    ensures
        d@ == sha1_digest(data@),
{
    sha1::Sha1::from(data).digest().bytes()
}

/// The position of a node on the ring.
pub struct Key {
    pub id: [u8; RING_SIZE],
}

/// The lower-case hexadecimal digit for `d`.
pub open spec fn hex_digit(d: u8) -> char
    recommends
        d < 16,
{
    if d < 10 {
        (48 + d) as char
    } else {
        (87 + d) as char
    }
}

/// A byte as two lower-case hexadecimal digits.
pub open spec fn hex_byte(b: u8) -> Seq<char> {
    seq![hex_digit(b / 16), hex_digit(b % 16)]
}

/// The bytes as a list of two-digit hexadecimal numbers: `[0a, ff]`.
pub open spec fn hex_list_body(bytes: Seq<u8>) -> Seq<char>
    decreases bytes.len(),
{
    if bytes.len() == 0 {
        Seq::empty()
    } else if bytes.len() == 1 {
        hex_byte(bytes[0])
    } else {
        hex_list_body(bytes.drop_last()) + seq![',', ' '] + hex_byte(bytes.last())
    }
}

pub open spec fn hex_list(bytes: Seq<u8>) -> Seq<char> {
    seq!['['] + hex_list_body(bytes) + seq![']']
}

/// The value of a lower-case hexadecimal digit.
pub open spec fn hex_value(c: char) -> int {
    if '0' <= c && c <= '9' {
        c as int - 48
    } else {
        c as int - 87
    }
}

/// Whether `c` is a lower-case hexadecimal digit.
pub open spec fn is_hex_char(c: char) -> bool {
    ('0' <= c && c <= '9') || ('a' <= c && c <= 'f')
}

/// Every byte is shown as exactly two lower-case hexadecimal digits, the
/// high one first, which read back as the byte.
pub proof fn lemma_hex_byte_reads_back(b: u8)
    ensures
        hex_byte(b).len() == 2,
        is_hex_char(hex_byte(b)[0]),
        is_hex_char(hex_byte(b)[1]),
        16 * hex_value(hex_byte(b)[0]) + hex_value(hex_byte(b)[1]) == b,
{
    let h = hex_byte(b);
    assert(h[0] == hex_digit(b / 16));
    assert(h[1] == hex_digit(b % 16));
    assert(b / 16 < 16);
}

/// The layout of a list of bytes shown in hexadecimal: `n` bytes take
/// `4 * n - 2` characters; byte `i` is shown at positions `4 * i` and
/// `4 * i + 1`, and every byte but the last is followed by `, `.
pub proof fn lemma_hex_list_layout(bytes: Seq<u8>)
    requires
        bytes.len() >= 1,
    ensures
        hex_list_body(bytes).len() == 4 * bytes.len() - 2,
        forall|i: int| 0 <= i < bytes.len() ==> #[trigger] hex_list_body(bytes).subrange(4 * i, 4 * i + 2) == hex_byte(bytes[i]),
        forall|i: int| 0 <= i < bytes.len() - 1 ==> #[trigger] hex_list_body(bytes)[4 * i + 2] == ',' && hex_list_body(bytes)[4 * i + 3] == ' ',
    decreases bytes.len(),
{
    lemma_hex_byte_reads_back(bytes.last());
    if bytes.len() == 1 {
        assert(hex_list_body(bytes) == hex_byte(bytes[0]));
        assert(hex_list_body(bytes).subrange(0, 2) =~= hex_byte(bytes[0]));
    } else {
        let init = bytes.drop_last();
        lemma_hex_list_layout(init);
        let body = hex_list_body(bytes);
        let prev = hex_list_body(init);
        let n = bytes.len() as int;
        assert(body == prev + seq![',', ' '] + hex_byte(bytes.last()));
        assert forall|i: int| 0 <= i < n implies #[trigger] body.subrange(4 * i, 4 * i + 2) == hex_byte(bytes[i]) by {
            if i < n - 1 {
                assert(prev.subrange(4 * i, 4 * i + 2) == hex_byte(init[i]));
                assert(body.subrange(4 * i, 4 * i + 2) =~= prev.subrange(4 * i, 4 * i + 2));
            } else {
                assert(body.subrange(4 * i, 4 * i + 2) =~= hex_byte(bytes.last()));
            }
        }
        assert forall|i: int| 0 <= i < n - 1 implies #[trigger] body[4 * i + 2] == ',' && body[4 * i + 3] == ' ' by {
            if i < n - 2 {
                assert(prev[4 * i + 2] == ',' && prev[4 * i + 3] == ' ');
            }
        }
    }
}

fn hex_text(d: u8) -> (t: &'static str)
    requires
        d < 16,
    ensures
        t@ == seq![hex_digit(d)],
{
    proof {
        reveal_strlit("0");
        reveal_strlit("1");
        reveal_strlit("2");
        reveal_strlit("3");
        reveal_strlit("4");
        reveal_strlit("5");
        reveal_strlit("6");
        reveal_strlit("7");
        reveal_strlit("8");
        reveal_strlit("9");
        reveal_strlit("a");
        reveal_strlit("b");
        reveal_strlit("c");
        reveal_strlit("d");
        reveal_strlit("e");
        reveal_strlit("f");
    }
    match d {
        0 => "0",
        1 => "1",
        2 => "2",
        3 => "3",
        4 => "4",
        5 => "5",
        6 => "6",
        7 => "7",
        8 => "8",
        9 => "9",
        10 => "a",
        11 => "b",
        12 => "c",
        13 => "d",
        14 => "e",
        _ => "f",
    }
}

impl Key {
    /// The key made of the first `RING_SIZE` bytes of a digest.
    pub fn from_digest(digest: &[u8; 20]) -> (k: Key)
        ensures
            k.id@ == digest@.take(RING_SIZE as int),
    {
        let mut id: [u8; RING_SIZE] = [0u8; RING_SIZE];
        let mut i: usize = 0;
        while i < RING_SIZE
            invariant
                i <= RING_SIZE,
                forall|j: int| 0 <= j < i ==> id@[j] == digest@[j],
            decreases RING_SIZE - i,
        {
            id[i] = digest[i];
            i += 1;
        }
        assert(id@ =~= digest@.take(RING_SIZE as int));
        Key { id }
    }

    /// The key of the node reached at `addr`: the SHA-1 digest of the
    /// address's text.
    pub fn new(addr: &str) -> (k: Key)
        ensures
            k.id@ == sha1_digest(encode_utf8(addr@)).take(RING_SIZE as int),
    {
        let digest = sha1_bytes(addr.as_bytes());
        Key::from_digest(&digest)
    }

    /// The key as text: its bytes as two-digit hexadecimal numbers, in a
    /// bracketed list.
    pub fn to_string(&self) -> (s: String)
        ensures
            s@ == hex_list(self.id@),
            s@.len() == 4 * RING_SIZE,
            s@[0] == '[',
            s@[4 * RING_SIZE - 1] == ']',
            forall|i: int| 0 <= i < RING_SIZE ==> {
                &&& is_hex_char(#[trigger] s@[4 * i + 1])
                &&& is_hex_char(s@[4 * i + 2])
                &&& 16 * hex_value(s@[4 * i + 1]) + hex_value(s@[4 * i + 2]) == self.id@[i]
            },
            forall|i: int| 0 <= i < RING_SIZE - 1 ==> #[trigger] s@[4 * i + 3] == ',' && s@[4 * i + 4] == ' ',
    {
        proof {
            reveal_strlit("[");
            reveal_strlit("]");
        }
        let mut s = "[".to_owned();
        let mut i: usize = 0;
        while i < RING_SIZE
            invariant
                i <= RING_SIZE,
                s@ == seq!['['] + hex_list_body(self.id@.take(i as int)),
            decreases RING_SIZE - i,
        {
            let b = self.id[i];
            let ghost before = s@;
            if i > 0 {
                s.append(", ");
                proof {
                    reveal_strlit(", ");
                }
            }
            let ghost middle = s@;
            s.append(hex_text(b / 16));
            s.append(hex_text(b % 16));
            proof {
                let t = self.id@.take(i as int + 1);
                assert(t.drop_last() =~= self.id@.take(i as int));
                assert(t.last() == b);
                if i == 0 {
                    assert(hex_list_body(t) == hex_byte(b));
                    assert(hex_list_body(self.id@.take(0)) =~= Seq::<char>::empty());
                    assert(s@ =~= before + hex_byte(b));
                } else {
                    assert(hex_list_body(t) == hex_list_body(self.id@.take(i as int)) + seq![',', ' '] + hex_byte(b));
                    assert(middle =~= before + seq![',', ' ']);
                    assert(s@ =~= middle + hex_byte(b));
                    assert(s@ =~= before + seq![',', ' '] + hex_byte(b));
                }
            }
            assert(s@ =~= seq!['['] + hex_list_body(self.id@.take(i as int + 1)));
            i += 1;
        }
        s.append("]");
        assert(self.id@.take(RING_SIZE as int) =~= self.id@);
        proof {
            let body = hex_list_body(self.id@);
            lemma_hex_list_layout(self.id@);
            assert forall|i: int| 0 <= i < RING_SIZE implies {
                &&& is_hex_char(#[trigger] s@[4 * i + 1])
                &&& is_hex_char(s@[4 * i + 2])
                &&& 16 * hex_value(s@[4 * i + 1]) + hex_value(s@[4 * i + 2]) == self.id@[i]
            } by {
                lemma_hex_byte_reads_back(self.id@[i]);
                assert(body.subrange(4 * i, 4 * i + 2) == hex_byte(self.id@[i]));
                assert(s@[4 * i + 1] == body[4 * i]);
                assert(s@[4 * i + 2] == body[4 * i + 1]);
                assert(body[4 * i] == body.subrange(4 * i, 4 * i + 2)[0]);
                assert(body[4 * i + 1] == body.subrange(4 * i, 4 * i + 2)[1]);
            }
            assert forall|i: int| 0 <= i < RING_SIZE - 1 implies #[trigger] s@[4 * i + 3] == ',' && s@[4 * i + 4] == ' ' by {
                assert(body[4 * i + 2] == ',' && body[4 * i + 3] == ' ');
                assert(s@[4 * i + 3] == body[4 * i + 2]);
            }
        }
        s
    }
}

/// What a node of the ring knows of itself: its address, its key, and how
/// many commands it has handled.
pub struct NodeDesc {
    pub addr: String,
    pub key: Key,
    pub n: u32,
}

impl NodeDesc {
    /// Counts one more handled command.
    pub fn handle(&mut self)
        requires
            old(self).n < u32::MAX,
        ensures
            final(self).n == old(self).n + 1,
            final(self).addr == old(self).addr,
            final(self).key == old(self).key,
    {
        self.n = self.n + 1;
    }
}

/// Builds a node of the ring.
pub struct NodeBuilder {
    local: bool,
    port: u16,
}

/// The lowest port that a new builder may pick.
pub const FIRST_PORT: u16 = 3490;

/// The port after the highest that a new builder may pick.
pub const PORT_END: u16 = 4000;

impl NodeBuilder {
    /// Whether the node is to run on the local host.
    pub closed spec fn runs_locally(&self) -> bool {
        self.local
    }

    /// The port the node is to listen on.
    pub closed spec fn chosen_port(&self) -> u16 {
        self.port
    }

    pub fn is_local(&self) -> (b: bool)
        ensures
            b == self.runs_locally(),
    {
        self.local
    }

    pub fn port_number(&self) -> (p: u16)
        ensures
            p == self.chosen_port(),
    {
        self.port
    }

    /// A builder for a node that is not local, listening on a port drawn at
    /// random from `[FIRST_PORT, PORT_END)`.
    pub fn new() -> (b: Self)
        ensures
            !b.runs_locally(),
            FIRST_PORT <= b.chosen_port() < PORT_END,
    {
        let mut rng = thread_rng();
        let port = gen_range(&mut rng, FIRST_PORT as usize, PORT_END as usize) as u16;
        NodeBuilder { local: false, port }
    }

    pub fn local(&mut self) -> (r: &mut Self)
        ensures
            r.runs_locally(),
            r.chosen_port() == old(self).chosen_port(),
            *final(self) == *final(r),
    {
        self.local = true;
        self
    }

    pub fn port(&mut self, port: &u16) -> (r: &mut Self)
        ensures
            r.runs_locally() == old(self).runs_locally(),
            r.chosen_port() == *port,
            *final(self) == *final(r),
    {
        self.port = *port;
        self
    }

    /// The description of the node that this builder starts: its local
    /// address with the chosen port, the key of that address, and no command
    /// handled yet. Only local nodes are supported.
    pub fn describe(&self) -> (d: NodeDesc)
        requires
            self.runs_locally(),
        ensures
            d.addr@ == local_addr(self.chosen_port()),
            d.key.id@ == sha1_digest(encode_utf8(d.addr@)).take(RING_SIZE as int),
            d.n == 0,
    {
        let addr = local_address(self.port);
        let key = Key::new(addr.as_str());
        NodeDesc { addr, key, n: 0 }
    }
}

} // verus!

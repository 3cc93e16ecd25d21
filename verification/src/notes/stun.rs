use vstd::prelude::*;

verus! {

/// The fixed value in every STUN header, which tells STUN apart from other
/// traffic on the same port.
pub const MAGIC_COOKIE: u32 = 0x2112A442u32;

/// The class of a STUN message.
#[derive(Clone, Copy, Debug, PartialEq, Eq, Structural)]
pub enum MessageClass {
    Request,
    Indication,
    SuccessResponse,
    FailureResponse,
}

impl MessageClass {
    /// The bits that the class sets in the message type.
    pub open spec fn value(self) -> u16 {
        match self {
            MessageClass::Request => 0,
            MessageClass::Indication => 16,
            MessageClass::SuccessResponse => 256,
            MessageClass::FailureResponse => 272,
        }
    }

    pub fn code(&self) -> (c: u16)
        ensures
            c == self.value(),
    {
        match self {
            MessageClass::Request => 0,
            MessageClass::Indication => 16,
            MessageClass::SuccessResponse => 256,
            MessageClass::FailureResponse => 272,
        }
    }

    /// The class whose bits are `value`; any other value is refused.
    pub fn try_from(value: u16) -> (r: Result<MessageClass, &'static str>)
        ensures
            r is Ok <==> (value == 0 || value == 16 || value == 256 || value == 272),
            r matches Ok(c) ==> c.value() == value,
            r matches Err(e) ==> e@ == "Unknown message class given"@,
    {
        match value {
            0 => Ok(MessageClass::Request),
            16 => Ok(MessageClass::Indication),
            256 => Ok(MessageClass::SuccessResponse),
            272 => Ok(MessageClass::FailureResponse),
            _ => Err("Unknown message class given"),
        }
    }
}

/// The method of a STUN message.
#[derive(Clone, Copy, Debug, PartialEq, Eq, Structural)]
pub enum MessageMethod {
    Binding,
}

impl MessageMethod {
    /// The bits that the method sets in the message type.
    pub open spec fn value(self) -> u16 {
        match self {
            MessageMethod::Binding => 1,
        }
    }

    pub fn code(&self) -> (c: u16)
        ensures
            c == self.value(),
    {
        match self {
            MessageMethod::Binding => 1,
        }
    }
}

/// The order in which the bytes of a number are written.
#[derive(Clone, Copy, Debug, PartialEq, Eq, Structural)]
pub enum Endian {
    Little,
    Big,
}

/// Why a value could not be written into a buffer.
#[derive(Clone, Copy, Debug, PartialEq, Eq, Structural)]
pub enum WriteError {
    /// The buffer ends before the value does.
    Incomplete,
}

/// The bytes of a 16-bit number.
pub open spec fn u16_bytes(v: u16, endian: Endian) -> Seq<u8> {
    match endian {
        Endian::Big => seq![(v / 256) as u8, (v % 256) as u8],
        Endian::Little => seq![(v % 256) as u8, (v / 256) as u8],
    }
}

/// The bytes of a 32-bit number.
pub open spec fn u32_bytes(v: u32, endian: Endian) -> Seq<u8> {
    let b3 = (v / 16777216) as u8;
    let b2 = ((v / 65536) % 256) as u8;
    let b1 = ((v / 256) % 256) as u8;
    let b0 = (v % 256) as u8;
    match endian {
        Endian::Big => seq![b3, b2, b1, b0],
        Endian::Little => seq![b0, b1, b2, b3],
    }
}

/// What a STUN header holds.
pub struct HeaderView {
    pub class: MessageClass,
    pub method: MessageMethod,
    pub transaction_id: Seq<u8>,
}

/// The message type of a header: the class bits together with the method
/// bits.
pub open spec fn message_type(h: HeaderView) -> u16 {
    h.class.value() | h.method.value()
}

/// The twenty bytes of a STUN header with an empty body: the message type,
/// the body length 0, the magic cookie and the transaction id.
pub open spec fn header_bytes(h: HeaderView, endian: Endian) -> Seq<u8> {
    u16_bytes(message_type(h), endian) + u16_bytes(0, endian) + u32_bytes(MAGIC_COOKIE, endian)
        + h.transaction_id
}

/// No two classes share their bits, so `MessageClass::try_from` reads every
/// class back from its bits; and the method bit never overlaps the class
/// bits, so the message type is their sum.
pub proof fn lemma_class_bits(c: MessageClass, d: MessageClass, m: MessageMethod)
    ensures
        c.value() == d.value() ==> c == d,
        c.value() == 0 || c.value() == 16 || c.value() == 256 || c.value() == 272,
        c.value() | m.value() == c.value() + m.value(),
{
    assert(0u16 | 1u16 == 1u16) by (bit_vector);
    assert(16u16 | 1u16 == 17u16) by (bit_vector);
    assert(256u16 | 1u16 == 257u16) by (bit_vector);
    assert(272u16 | 1u16 == 273u16) by (bit_vector);
}

/// Where the parts of a header stand in its bytes: the message type in the
/// first two (most significant first in big-endian order), then two zero
/// bytes for the body length, the magic cookie, and the transaction id in
/// the last twelve.
pub proof fn lemma_header_layout(h: HeaderView, endian: Endian)
    requires
        h.transaction_id.len() == 12,
    ensures
        header_bytes(h, endian).len() == 20,
        header_bytes(h, endian).subrange(8, 20) == h.transaction_id,
        header_bytes(h, endian)[2] == 0 && header_bytes(h, endian)[3] == 0,
        endian == Endian::Big ==> {
            &&& header_bytes(h, endian)[0] as int * 256 + header_bytes(h, endian)[1] as int
                == message_type(h)
            &&& header_bytes(h, endian).subrange(4, 8) == seq![0x21u8, 0x12u8, 0xA4u8, 0x42u8]
        },
        endian == Endian::Little ==> {
            &&& header_bytes(h, endian)[1] as int * 256 + header_bytes(h, endian)[0] as int
                == message_type(h)
            &&& header_bytes(h, endian).subrange(4, 8) == seq![0x42u8, 0xA4u8, 0x12u8, 0x21u8]
        },
{
    let b = header_bytes(h, endian);
    assert(b.subrange(8, 20) =~= h.transaction_id);
    assert(b.subrange(4, 8) =~= u32_bytes(MAGIC_COOKIE, endian));
}

/// How many bytes of the header a buffer of `len` bytes takes before the
/// write stops: the numbers that fit whole, in order.
pub open spec fn header_prefix_written(len: nat) -> nat {
    if len < 2 {
        0
    } else if len < 4 {
        2
    } else if len < 8 {
        4
    } else {
        20
    }
}

/// The header of a STUN message.
pub struct Header {
    class: MessageClass,
    method: MessageMethod,
    transaction_id: [u8; 12],
}

impl View for Header {
    type V = HeaderView;

    closed spec fn view(&self) -> HeaderView {
        HeaderView { class: self.class, method: self.method, transaction_id: self.transaction_id@ }
    }
}

/// Calls `rand::random::<[u8; 12]>()`, twelve random bytes. Nothing is claimed
/// of them.
#[verifier::external_body]
fn random_transaction_id() -> [u8; 12] {
    rand::random::<[u8; 12]>()
}

fn write_u8(bytes: &mut [u8], offset: &mut usize, v: u8) -> (r: Result<(), WriteError>)
    requires
        *old(offset) <= old(bytes)@.len(),
    ensures
        final(bytes)@.len() == old(bytes)@.len(),
        *old(offset) + 1 <= old(bytes)@.len() ==> r is Ok && *final(offset) == *old(offset) + 1
            && final(bytes)@ == old(bytes)@.update(*old(offset) as int, v),
        *old(offset) + 1 > old(bytes)@.len() ==> r == Err::<(), WriteError>(WriteError::Incomplete)
            && *final(offset) == *old(offset) && final(bytes)@ == old(bytes)@,
{
    if bytes.len() - *offset < 1 {
        return Err(WriteError::Incomplete);
    }
    bytes[*offset] = v;
    *offset = *offset + 1;
    Ok(())
}

/// Writes `b0` then `b1` at `*offset` and moves the offset past them, or
/// leaves everything as it was when they do not fit.
fn write_seq2(bytes: &mut [u8], offset: &mut usize, b0: u8, b1: u8) -> (r: Result<(), WriteError>)
    requires
        *old(offset) <= old(bytes)@.len(),
    ensures
        final(bytes)@.len() == old(bytes)@.len(),
        *old(offset) + 2 <= old(bytes)@.len() ==> r is Ok && *final(offset) == *old(offset) + 2
            && final(bytes)@ == old(bytes)@.update(*old(offset) as int, b0).update(
            *old(offset) + 1,
            b1,
        ),
        *old(offset) + 2 > old(bytes)@.len() ==> r == Err::<(), WriteError>(WriteError::Incomplete)
            && *final(offset) == *old(offset) && final(bytes)@ == old(bytes)@,
{
    if bytes.len() - *offset < 2 {
        return Err(WriteError::Incomplete);
    }
    bytes[*offset] = b0;
    bytes[*offset + 1] = b1;
    *offset = *offset + 2;
    Ok(())
}

fn write_u16(bytes: &mut [u8], offset: &mut usize, v: u16, endian: Endian) -> (r: Result<(), WriteError>)
    requires
        *old(offset) <= old(bytes)@.len(),
    ensures
        final(bytes)@.len() == old(bytes)@.len(),
        *old(offset) + 2 <= old(bytes)@.len() ==> r is Ok && *final(offset) == *old(offset) + 2
            && final(bytes)@ == old(bytes)@.take(*old(offset) as int) + u16_bytes(v, endian)
            + old(bytes)@.skip(*old(offset) + 2),
        *old(offset) + 2 > old(bytes)@.len() ==> r == Err::<(), WriteError>(WriteError::Incomplete)
            && *final(offset) == *old(offset) && final(bytes)@ == old(bytes)@,
{
    let hi = (v / 256) as u8;
    let lo = (v % 256) as u8;
    let r = match endian {
        Endian::Big => write_seq2(bytes, offset, hi, lo),
        Endian::Little => write_seq2(bytes, offset, lo, hi),
    };
    assert(*old(offset) + 2 <= old(bytes)@.len() ==> final(bytes)@ =~= old(bytes)@.take(
        *old(offset) as int,
    ) + u16_bytes(v, endian) + old(bytes)@.skip(*old(offset) + 2));
    r
}

fn write_u32(bytes: &mut [u8], offset: &mut usize, v: u32, endian: Endian) -> (r: Result<(), WriteError>)
    requires
        *old(offset) <= old(bytes)@.len(),
    ensures
        final(bytes)@.len() == old(bytes)@.len(),
        *old(offset) + 4 <= old(bytes)@.len() ==> r is Ok && *final(offset) == *old(offset) + 4
            && final(bytes)@ == old(bytes)@.take(*old(offset) as int) + u32_bytes(v, endian)
            + old(bytes)@.skip(*old(offset) + 4),
        *old(offset) + 4 > old(bytes)@.len() ==> r == Err::<(), WriteError>(WriteError::Incomplete)
            && *final(offset) == *old(offset) && final(bytes)@ == old(bytes)@,
{
    if bytes.len() - *offset < 4 {
        return Err(WriteError::Incomplete);
    }
    let b3 = (v / 16777216) as u8;
    let b2 = ((v / 65536) % 256) as u8;
    let b1 = ((v / 256) % 256) as u8;
    let b0 = (v % 256) as u8;
    let o = *offset;
    match endian {
        Endian::Big => {
            bytes[o] = b3;
            bytes[o + 1] = b2;
            bytes[o + 2] = b1;
            bytes[o + 3] = b0;
        },
        Endian::Little => {
            bytes[o] = b0;
            bytes[o + 1] = b1;
            bytes[o + 2] = b2;
            bytes[o + 3] = b3;
        },
    }
    *offset = o + 4;
    assert(final(bytes)@ =~= old(bytes)@.take(o as int) + u32_bytes(v, endian) + old(bytes)@.skip(
        o + 4,
    ));
    Ok(())
}

impl Header {
    /// A request header of the given method with the given transaction id.
    pub fn with_transaction_id(method: MessageMethod, transaction_id: [u8; 12]) -> (h: Self)
        ensures
            h@.class == MessageClass::Request,
            h@.method == method,
            h@.transaction_id == transaction_id@,
    {
        Header { class: MessageClass::Request, method, transaction_id }
    }

    /// A request header of the given method with a random transaction id.
    pub fn new(method: MessageMethod) -> (h: Self)
        ensures
            h@.class == MessageClass::Request,
            h@.method == method,
            h@.transaction_id.len() == 12,
    {
        Header::with_transaction_id(method, random_transaction_id())
    }

    /// Writes the header at the start of `bytes` and returns how many bytes
    /// it took. A buffer shorter than the header takes the numbers of the
    /// header that fit whole and the write fails; a buffer that ends inside
    /// the transaction id is not supported.
    pub fn try_write(self, bytes: &mut [u8], endian: Endian) -> (r: Result<usize, WriteError>)
        requires
            old(bytes)@.len() < 8 || old(bytes)@.len() >= 20,
        ensures
            final(bytes)@.len() == old(bytes)@.len(),
            old(bytes)@.len() >= 20 ==> r == Ok::<usize, WriteError>(20),
            old(bytes)@.len() < 8 ==> r == Err::<usize, WriteError>(WriteError::Incomplete),
            ({
                let w = header_prefix_written(old(bytes)@.len());
                final(bytes)@ == header_bytes(self@, endian).take(w as int) + old(bytes)@.skip(
                    w as int,
                )
            }),
    {
        let ghost enc = header_bytes(self@, endian);
        let ghost orig = bytes@;
        let mut offset: usize = 0;
        let kind = self.class.code() | self.method.code();
        assert(kind == message_type(self@));
        if write_u16(bytes, &mut offset, kind, endian).is_err() {
            assert(bytes@ =~= enc.take(0) + orig.skip(0));
            return Err(WriteError::Incomplete);
        }
        assert(enc.take(2) =~= u16_bytes(message_type(self@), endian));
        assert(bytes@ =~= enc.take(2) + orig.skip(2));
        if write_u16(bytes, &mut offset, 0u16, endian).is_err() {
            return Err(WriteError::Incomplete);
        }
        assert(enc.take(4) =~= enc.take(2) + u16_bytes(0, endian));
        assert(bytes@ =~= enc.take(4) + orig.skip(4));
        if write_u32(bytes, &mut offset, MAGIC_COOKIE, endian).is_err() {
            return Err(WriteError::Incomplete);
        }
        assert(enc.take(8) =~= enc.take(4) + u32_bytes(MAGIC_COOKIE, endian));
        assert(bytes@ =~= enc.take(8) + orig.skip(8));
        let mut i: usize = 0;
        while i < 12
            invariant
                orig.len() >= 20,
                bytes@.len() == orig.len(),
                i <= 12,
                offset == 8 + i,
                enc == header_bytes(self@, endian),
                enc.len() == 20,
                self@.transaction_id == self.transaction_id@,
                bytes@ == enc.take(offset as int) + orig.skip(offset as int),
            decreases 12 - i,
        {
            let written = write_u8(bytes, &mut offset, self.transaction_id[i]);
            assert(enc[8 + i as int] == self.transaction_id@[i as int]);
            assert(bytes@ =~= enc.take(offset as int) + orig.skip(offset as int));
            i += 1;
        }
        Ok(offset)
    }
}

/// A STUN message: a header, with no attributes.
pub struct Message {
    header: Header,
}

impl View for Message {
    type V = HeaderView;

    closed spec fn view(&self) -> HeaderView {
        self.header@
    }
}

impl Message {
    /// A request of the given method with a random transaction id.
    pub fn new(method: MessageMethod) -> (m: Self)
        ensures
            m@.class == MessageClass::Request,
            m@.method == method,
            m@.transaction_id.len() == 12,
    {
        Message { header: Header::new(method) }
    }

    /// Writes the message at the start of `bytes` and returns how many bytes
    /// it took. When the header does not fit, nothing is counted as written
    /// (0), though the numbers of the header that fit whole are in the buffer.
    pub fn try_write(self, bytes: &mut [u8], ctx: Endian) -> (r: Result<usize, WriteError>)
        requires
            old(bytes)@.len() < 8 || old(bytes)@.len() >= 20,
        ensures
            final(bytes)@.len() == old(bytes)@.len(),
            old(bytes)@.len() >= 20 ==> r == Ok::<usize, WriteError>(20),
            old(bytes)@.len() < 8 ==> r == Ok::<usize, WriteError>(0),
            ({
                let w = header_prefix_written(old(bytes)@.len());
                final(bytes)@ == header_bytes(self@, ctx).take(w as int) + old(bytes)@.skip(
                    w as int,
                )
            }),
    {
        let offset: usize = match self.header.try_write(bytes, ctx) {
            Ok(n) => n,
            Err(_) => 0,
        };
        Ok(offset)
    }
}

} // verus!

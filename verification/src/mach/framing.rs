//! How a payload travels behind a header: padded to whole words on the way out, found again on the
//! way in.
use vstd::prelude::*;

use crate::mach::{
    mach_msg_body_t, mach_msg_header_t, mach_msg_ool_descriptor_t, BODY_SIZE, HEADER_SIZE,
    MACH_MSGH_BITS, MACH_MSGH_BITS_COMPLEX, MACH_MSG_SUCCESS, MACH_MSG_TYPE_COPY_SEND,
    MACH_MSG_TYPE_MAKE_SEND, MAX_MESSAGE_SIZE,
};

verus! {

/// A message ready to be handed to the kernel.
#[derive(Debug)]
pub struct Outgoing {
    pub header: mach_msg_header_t,
    pub data: Vec<u8>,
}

/// The length of a payload in whole words: the least multiple of four that holds it.
pub open spec fn whole_words(len: int) -> int {
    (len + 3) / 4 * 4
}

/// A payload followed by the zero bytes that fill its last word.
pub open spec fn padded(payload: Seq<u8>) -> Seq<u8> {
    payload + Seq::new((whole_words(payload.len() as int) - payload.len()) as nat, |i: int| 0u8)
}

/// The bytes in front of the first zero byte; all of them when there is none.
pub open spec fn before_nul(bytes: Seq<u8>) -> Seq<u8>
    decreases bytes.len(),
{
    if bytes.len() == 0 || bytes[0] == 0 {
        Seq::empty()
    } else {
        seq![bytes[0]] + before_nul(bytes.drop_first())
    }
}

/// The length of a payload in whole words.
pub fn aligned_len(len: u32) -> (aligned: u32)
    requires
        len <= MAX_MESSAGE_SIZE,
    ensures
        aligned == whole_words(len as int),
        len <= aligned < len + 4,
        aligned <= MAX_MESSAGE_SIZE,
{
    proof {
        assert(((len + 3) as u32) & !3u32 == (len + 3) / 4 * 4) by (bit_vector)
            requires
                len <= 262_144,
        ;
    }
    (len + 3) & !3
}

/// The payload and its padding.
fn pad(payload: &[u8]) -> (data: Vec<u8>)
    requires
        payload@.len() <= MAX_MESSAGE_SIZE,
    ensures
        data@ == padded(payload@),
{
    let aligned: usize = aligned_len(payload.len() as u32) as usize;
    let mut data: Vec<u8> = Vec::new();
    let mut i: usize = 0;
    while i < payload.len()
        invariant
            i <= payload@.len(),
            data@ == payload@.take(i as int),
        decreases payload@.len() - i,
    {
        data.push(payload[i]);
        assert(payload@.take(i as int).push(payload@[i as int]) == payload@.take(i + 1));
        i += 1;
    }
    assert(payload@.take(payload@.len() as int) == payload@);
    assert(data@ == payload@ + Seq::new(0, |i: int| 0u8));
    while i < aligned
        invariant
            payload@.len() <= i <= aligned,
            aligned == whole_words(payload@.len() as int),
            data@ == payload@ + Seq::new((i - payload@.len()) as nat, |i: int| 0u8),
        decreases aligned - i,
    {
        data.push(0);
        i += 1;
        assert(data@ =~= payload@ + Seq::new((i - payload@.len()) as nat, |i: int| 0u8));
    }
    data
}

/// Whether a message to `port` may be sent at all.
pub open spec fn sendable(port: u32, message: Option<&[u8]>) -> bool {
    port != 0 && (message matches Some(bytes) && bytes@.len() <= MAX_MESSAGE_SIZE)
}

/// The message that carries `payload` to `port` under `bits`.
pub open spec fn addressed(
    port: u32,
    reply_port: u32,
    id: i32,
    bits: u32,
    payload: Seq<u8>,
    out: Outgoing,
) -> bool {
    &&& out.data@ == padded(payload)
    &&& out.header == (mach_msg_header_t {
        msgh_bits: bits,
        msgh_size: (24 + whole_words(payload.len() as int)) as u32,
        msgh_remote_port: port,
        msgh_local_port: reply_port,
        msgh_voucher_port: 0,
        msgh_id: id,
    })
}

/// Lays a payload out behind its header. The size the header names is that of both together.
pub fn address(port: u32, reply_port: u32, id: i32, bits: u32, payload: &[u8]) -> (out: Outgoing)
    requires
        payload@.len() <= MAX_MESSAGE_SIZE,
    ensures
        addressed(port, reply_port, id, bits, payload@, out),
        out.header.msgh_size == 24 + out.data@.len(),
{
    let header = mach_msg_header_t {
        msgh_bits: bits,
        msgh_size: HEADER_SIZE + aligned_len(payload.len() as u32),
        msgh_remote_port: port,
        msgh_local_port: reply_port,
        msgh_voucher_port: 0,
        msgh_id: id,
    };
    Outgoing { header, data: pad(payload) }
}

/// A message that expects no answer, sent without waiting for room in the queue. Refused without a
/// message or a port, and when the message is longer than one may be.
pub fn mach_try_send_message(port: u32, message: Option<&[u8]>) -> (out: Option<Outgoing>)
    ensures
        out is Some <==> sendable(port, message),
        out matches Some(sent) ==> addressed(port, 0, 0, 19u32 | (0u32 << 8), message->0@, sent),
{
    match message {
        Some(bytes) => {
            if port == 0 || bytes.len() > MAX_MESSAGE_SIZE as usize {
                None
            } else {
                Some(address(port, 0, 0, MACH_MSGH_BITS(MACH_MSG_TYPE_COPY_SEND, 0), bytes))
            }
        },
        None => None,
    }
}

/// A message whose answer is to arrive on a port the caller already holds. Refused as
/// `mach_try_send_message` refuses, and without that port.
pub fn mach_send_message_with_reply_port(
    port: u32,
    message: Option<&[u8]>,
    reply_port: u32,
) -> (out: Option<Outgoing>)
    ensures
        out is Some <==> sendable(port, message) && reply_port != 0,
        out matches Some(sent) ==> addressed(
            port,
            reply_port,
            reply_port as i32,
            19u32 | (19u32 << 8),
            message->0@,
            sent,
        ),
{
    match message {
        Some(bytes) => {
            if port == 0 || reply_port == 0 || bytes.len() > MAX_MESSAGE_SIZE as usize {
                None
            } else {
                let bits: u32 = MACH_MSGH_BITS(MACH_MSG_TYPE_COPY_SEND, MACH_MSG_TYPE_COPY_SEND);
                Some(address(port, reply_port, reply_port as i32, bits, bytes))
            }
        },
        None => None,
    }
}

/// A message that makes its own answer possible: with a reply port it carries the right to send to
/// it, without one it is a plain message.
pub fn request_message(port: u32, reply_port: Option<u32>, payload: &[u8]) -> (out: Outgoing)
    requires
        payload@.len() <= MAX_MESSAGE_SIZE,
    ensures
        reply_port matches Some(reply) ==> addressed(
            port,
            reply,
            reply as i32,
            19u32 | (20u32 << 8),
            payload@,
            out,
        ),
        reply_port is None ==> addressed(port, 0, 0, 19u32 | (0u32 << 8), payload@, out),
        out.header.msgh_size == 24 + out.data@.len(),
{
    match reply_port {
        Some(reply) => {
            let bits: u32 = MACH_MSGH_BITS(MACH_MSG_TYPE_COPY_SEND, MACH_MSG_TYPE_MAKE_SEND);
            address(port, reply, reply as i32, bits, payload)
        },
        None => address(port, 0, 0, MACH_MSGH_BITS(MACH_MSG_TYPE_COPY_SEND, 0), payload),
    }
}

/// The answer to a message: it goes to the port the message came from, under the same id. Refused
/// without a message to answer or anything to answer it with, when the answer is longer than a
/// message may be, and when the sender left no port to answer on.
pub fn send_mach_reply(
    original_msg: Option<&mach_msg_header_t>,
    response_data: Option<&[u8]>,
) -> (out: Option<Outgoing>)
    ensures
        out is Some <==> original_msg is Some && sendable(
            original_msg->0.msgh_remote_port,
            response_data,
        ),
        out matches Some(reply) ==> addressed(
            original_msg->0.msgh_remote_port,
            0,
            original_msg->0.msgh_id,
            19u32 | (0u32 << 8),
            response_data->0@,
            reply,
        ),
{
    match (original_msg, response_data) {
        (Some(original), Some(response)) => {
            let reply_port: u32 = original.msgh_remote_port;
            if response.len() > MAX_MESSAGE_SIZE as usize || reply_port == 0 {
                None
            } else {
                let bits: u32 = MACH_MSGH_BITS(MACH_MSG_TYPE_COPY_SEND, 0);
                Some(address(reply_port, 0, original.msgh_id, bits, response))
            }
        },
        _ => None,
    }
}

/// Whether the kernel took a message.
pub fn was_sent(result: i32) -> (sent: bool)
    ensures
        sent == (result == 0),
{
    result == MACH_MSG_SUCCESS
}

/// Takes the payload out of a received message into `response_buf`: the bytes behind the header, as
/// many as the header's size leaves. A receive that failed leaves the buffer as it was.
pub fn receive_message_on_port(
    result: i32,
    header: &mach_msg_header_t,
    data: &[u8],
    response_buf: &mut Vec<u8>,
) -> (received: bool)
    requires
        result == 0 ==> header.msgh_size <= 24 + data@.len(),
    ensures
        received == (result == 0),
        !received ==> final(response_buf)@ == old(response_buf)@,
        received ==> final(response_buf)@ == data@.take(behind_the_header(header.msgh_size)),
{
    if result != MACH_MSG_SUCCESS {
        return false;
    }
    let len: usize = inline_len(header) as usize;
    let mut taken: Vec<u8> = Vec::new();
    let mut i: usize = 0;
    while i < len
        invariant
            i <= len <= data@.len(),
            taken@ == data@.take(i as int),
        decreases len - i,
    {
        taken.push(data[i]);
        assert(data@.take(i as int).push(data@[i as int]) == data@.take(i + 1));
        i += 1;
    }
    *response_buf = taken;
    true
}

/// How many bytes of a message of this size lie behind its header.
pub open spec fn behind_the_header(size: u32) -> int {
    if size < 24 {
        0
    } else {
        size - 24
    }
}

fn inline_len(header: &mach_msg_header_t) -> (len: u32)
    ensures
        len == behind_the_header(header.msgh_size),
{
    if header.msgh_size < HEADER_SIZE {
        0
    } else {
        header.msgh_size - HEADER_SIZE
    }
}

/// Where the payload of a received message lies.
#[derive(Clone, Copy, Debug, PartialEq, Eq, Structural)]
pub enum Payload {
    /// There is none.
    Absent,
    /// Right behind the header.
    Inline { len: u32 },
    /// In memory of its own.
    OutOfLine { address: u64, len: u32 },
}

/// Whether a received message is looked at: one without a port to answer on is dropped.
pub fn is_dispatched(header: &mach_msg_header_t) -> (dispatched: bool)
    ensures
        dispatched == (header.msgh_remote_port != 0),
{
    header.msgh_remote_port != 0
}

/// The address of the first descriptor of a complex message at `message`: behind the header and the
/// count, at the next multiple of eight.
pub fn descriptor_address(message: u64) -> (address: u64)
    requires
        message <= u64::MAX - 64,
    ensures
        address % 8 == 0,
        message + 28 <= address < message + 36,
{
    let end: u64 = message + HEADER_SIZE as u64 + BODY_SIZE;
    let address: u64 = (end + 7) & !7;
    proof {
        assert(((end + 7) as u64) & !7u64 == (end + 7) / 8 * 8) by (bit_vector)
            requires
                end <= 0xffff_ffff_ffff_fff0u64,
        ;
    }
    address
}

/// Finds the payload. A plain message carries it inline. A complex one carries it where its first
/// descriptor says, or inline when that descriptor is empty; with no descriptor it carries none.
pub fn payload_of(
    header: &mach_msg_header_t,
    body: &mach_msg_body_t,
    descriptor: &mach_msg_ool_descriptor_t,
) -> (payload: Payload)
    ensures
        payload == located(*header, *body, *descriptor),
{
    let inline = Payload::Inline { len: inline_len(header) };
    if header.msgh_bits & MACH_MSGH_BITS_COMPLEX == 0 {
        inline
    } else if body.msgh_descriptor_count == 0 {
        Payload::Absent
    } else if descriptor.address == 0 || descriptor.size == 0 {
        inline
    } else {
        Payload::OutOfLine { address: descriptor.address, len: descriptor.size }
    }
}

/// Where the payload lies: in the descriptor's memory for a complex message whose first descriptor
/// names any, nowhere for a complex message without descriptors, behind the header otherwise.
pub open spec fn located(
    header: mach_msg_header_t,
    body: mach_msg_body_t,
    descriptor: mach_msg_ool_descriptor_t,
) -> Payload {
    let complex = header.msgh_bits & 0x8000_0000 != 0;
    if complex && body.msgh_descriptor_count == 0 {
        Payload::Absent
    } else if complex && descriptor.address != 0 && descriptor.size != 0 {
        Payload::OutOfLine { address: descriptor.address, len: descriptor.size }
    } else {
        Payload::Inline { len: behind_the_header(header.msgh_size) as u32 }
    }
}

/// Whether there is anything for the handler to read.
pub fn is_readable(payload: Payload) -> (readable: bool)
    ensures
        readable == match payload {
            Payload::Absent => false,
            Payload::Inline { len } => len != 0,
            Payload::OutOfLine { address, len } => address != 0 && len != 0,
        },
{
    match payload {
        Payload::Absent => false,
        Payload::Inline { len } => len != 0,
        Payload::OutOfLine { address, len } => address != 0 && len != 0,
    }
}

/// The bytes in front of the first zero byte.
pub fn trim_at_nul(bytes: &[u8]) -> (trimmed: Vec<u8>)
    ensures
        trimmed@ == before_nul(bytes@),
{
    let mut trimmed: Vec<u8> = Vec::new();
    let mut i: usize = 0;
    assert(bytes@.skip(0) =~= bytes@);
    assert(trimmed@ + before_nul(bytes@) =~= before_nul(bytes@));
    while i < bytes.len() && bytes[i] != 0
        invariant
            i <= bytes@.len(),
            trimmed@ + before_nul(bytes@.skip(i as int)) == before_nul(bytes@),
        decreases bytes@.len() - i,
    {
        trimmed.push(bytes[i]);
        proof {
            let rest = bytes@.skip(i as int);
            assert(rest.drop_first() == bytes@.skip(i + 1));
            assert(before_nul(rest) == seq![rest[0]] + before_nul(rest.drop_first()));
        }
        i += 1;
        assert(trimmed@ + before_nul(bytes@.skip(i as int)) =~= before_nul(bytes@));
    }
    assert(before_nul(bytes@.skip(i as int)) =~= Seq::<u8>::empty());
    assert(trimmed@ =~= before_nul(bytes@));
    trimmed
}

/// A response with a zero byte at its end, added unless it is there already.
pub fn terminate(response: Vec<u8>) -> (terminated: Vec<u8>)
    ensures
        terminated@ == nul_ended(response@),
{
    let mut terminated = response;
    let len: usize = terminated.len();
    if len == 0 || terminated[len - 1] != 0 {
        terminated.push(0);
    }
    terminated
}

/// A response with a zero byte at its end.
pub open spec fn nul_ended(response: Seq<u8>) -> Seq<u8> {
    if response.len() > 0 && response.last() == 0 {
        response
    } else {
        response.push(0)
    }
}

/// Bytes without a zero among them come back whole from in front of any zero bytes put behind them.
pub proof fn zeros_behind_change_nothing(bytes: Seq<u8>, zeros: Seq<u8>)
    requires
        forall|i: int| 0 <= i < bytes.len() ==> bytes[i] != 0,
        forall|i: int| 0 <= i < zeros.len() ==> zeros[i] == 0,
    ensures
        before_nul(bytes + zeros) == bytes,
    decreases bytes.len(),
{
    let all = bytes + zeros;
    if bytes.len() == 0 {
        assert(before_nul(all) =~= bytes);
    } else {
        assert(all.drop_first() == bytes.drop_first() + zeros);
        zeros_behind_change_nothing(bytes.drop_first(), zeros);
        assert(seq![bytes[0]] + bytes.drop_first() == bytes);
    }
}

/// What is framed is read back: the payload of a plain message, taken from behind its header and cut
/// at the first zero byte, is what was put in, for every payload without a zero byte in it.
pub proof fn a_framed_payload_is_read_back(payload: Seq<u8>, out: Outgoing)
    requires
        payload.len() <= MAX_MESSAGE_SIZE,
        forall|i: int| 0 <= i < payload.len() ==> payload[i] != 0,
        out.data@ == padded(payload),
        out.header.msgh_size == 24 + whole_words(payload.len() as int),
    ensures
        before_nul(out.data@.take(behind_the_header(out.header.msgh_size))) == payload,
        before_nul(nul_ended(payload)) == payload,
{
    let zeros = Seq::new(
        (whole_words(payload.len() as int) - payload.len()) as nat,
        |i: int| 0u8,
    );
    assert(out.data@.take(behind_the_header(out.header.msgh_size)) =~= payload + zeros);
    zeros_behind_change_nothing(payload, zeros);
    assert(payload.push(0) =~= payload + seq![0u8]);
    zeros_behind_change_nothing(payload, seq![0u8]);
}

/// A reply carries its response whole: cut at the first zero byte, what is received is the response
/// without the zero byte that ends it.
pub proof fn a_terminated_reply_is_read_back(response: Seq<u8>)
    requires
        forall|i: int| 0 <= i < response.len() ==> response[i] != 0,
    ensures
        before_nul(padded(nul_ended(response))) == response,
{
    let ended = nul_ended(response);
    let zeros = Seq::new((whole_words(ended.len() as int) - ended.len()) as nat, |i: int| 0u8);
    assert(padded(ended) =~= response + (seq![0u8] + zeros));
    zeros_behind_change_nothing(response, seq![0u8] + zeros);
}

/// A zero byte ends a payload, whatever lies behind it.
pub proof fn a_zero_ends_the_payload(bytes: Seq<u8>, behind: Seq<u8>)
    requires
        forall|i: int| 0 <= i < bytes.len() ==> bytes[i] != 0,
    ensures
        before_nul(bytes.push(0) + behind) == bytes,
        before_nul(bytes) == bytes,
    decreases bytes.len(),
{
    let all = bytes.push(0) + behind;
    if bytes.len() == 0 {
        assert(all[0] == 0);
        assert(before_nul(all) =~= bytes);
        assert(before_nul(bytes) =~= bytes);
    } else {
        let rest = bytes.drop_first();
        a_zero_ends_the_payload(rest, behind);
        assert(all.drop_first() =~= rest.push(0) + behind);
        assert(seq![bytes[0]] + rest =~= bytes);
    }
}

/// A payload is filled with zero bytes up to the next multiple of four and no further; it stands in
/// front of them as it is.
pub proof fn a_payload_is_filled_to_whole_words(payload: Seq<u8>)
    ensures
        padded(payload).len() % 4 == 0,
        payload.len() <= padded(payload).len() < payload.len() + 4,
        padded(payload).take(payload.len() as int) == payload,
        forall|i: int| payload.len() <= i < padded(payload).len() ==> #[trigger] padded(payload)[i] == 0,
{
    assert(padded(payload).take(payload.len() as int) =~= payload);
}

/// A response ends with a zero byte and is otherwise as it was; one that ends so already gets no
/// second.
pub proof fn a_response_ends_with_one_zero_more_at_most(response: Seq<u8>)
    ensures
        nul_ended(response).last() == 0,
        nul_ended(response).take(response.len() as int) == response,
        nul_ended(response).len() <= response.len() + 1,
        response.len() > 0 && response.last() == 0 ==> nul_ended(response) == response,
        nul_ended(nul_ended(response)) == nul_ended(response),
{
    assert(nul_ended(response).take(response.len() as int) =~= response);
}

/// A message goes to the port it is for, carries its payload, and names its whole size. One that
/// expects no answer names no reply port; one with a reply port names it, and is known by it.
pub proof fn a_message_goes_to_its_port(
    port: u32,
    reply: u32,
    payload: &[u8],
    plain: Option<Outgoing>,
    answered: Option<Outgoing>,
    request: Outgoing,
    one_way: Outgoing,
)
    requires
        payload@.len() <= MAX_MESSAGE_SIZE,
        call_ensures(mach_try_send_message, (port, Some(payload)), plain),
        call_ensures(mach_send_message_with_reply_port, (port, Some(payload), reply), answered),
        call_ensures(request_message, (port, Some(reply), payload), request),
        call_ensures(request_message, (port, None::<u32>, payload), one_way),
    ensures
        plain is Some <==> port != 0,
        plain matches Some(out) ==> out.header.msgh_remote_port == port
            && out.header.msgh_local_port == 0 && out.header.msgh_id == 0
            && out.header.msgh_bits == 19 && out.header.msgh_size == 24 + out.data@.len()
            && out.data@.take(payload@.len() as int) == payload@,
        answered is Some <==> port != 0 && reply != 0,
        answered matches Some(out) ==> out.header.msgh_remote_port == port
            && out.header.msgh_local_port == reply && out.header.msgh_id == reply as i32
            && out.header.msgh_bits == 19 + 256 * 19 && out.header.msgh_size == 24
            + out.data@.len() && out.data@.take(payload@.len() as int) == payload@,
        request.header.msgh_remote_port == port && request.header.msgh_local_port == reply
            && request.header.msgh_bits == 19 + 256 * 20 && request.header.msgh_id == reply as i32,
        request.data@.take(payload@.len() as int) == payload@,
        one_way.header.msgh_remote_port == port && one_way.header.msgh_local_port == 0
            && one_way.header.msgh_bits == 19 && one_way.header.msgh_id == 0,
        one_way.data@.take(payload@.len() as int) == payload@,
        request.header.msgh_voucher_port == 0 && one_way.header.msgh_voucher_port == 0,
{
    assert(19u32 | (0u32 << 8) == 19) by (bit_vector);
    assert(19u32 | (19u32 << 8) == 19 + 256 * 19) by (bit_vector);
    assert(19u32 | (20u32 << 8) == 19 + 256 * 20) by (bit_vector);
    a_payload_is_filled_to_whole_words(payload@);
}

/// A message without bytes to send, or with more than one may carry, is refused.
pub proof fn an_oversized_message_is_refused(
    port: u32,
    reply: u32,
    payload: &[u8],
    header: mach_msg_header_t,
    none: Option<Outgoing>,
    plain: Option<Outgoing>,
    answered: Option<Outgoing>,
    back: Option<Outgoing>,
)
    requires
        call_ensures(mach_try_send_message, (port, None::<&[u8]>), none),
        call_ensures(mach_try_send_message, (port, Some(payload)), plain),
        call_ensures(mach_send_message_with_reply_port, (port, Some(payload), reply), answered),
        call_ensures(send_mach_reply, (Some(&header), Some(payload)), back),
        payload@.len() > 262_144,
    ensures
        none is None && plain is None && answered is None && back is None,
{
}

/// A reply goes back to the port the message came from, under the message's own number, and carries
/// the response; a message that left no port is not answered.
pub proof fn a_reply_goes_back_where_the_message_came_from(
    original: mach_msg_header_t,
    response: &[u8],
    reply: Option<Outgoing>,
    dispatched: bool,
)
    requires
        response@.len() <= 262_144,
        call_ensures(send_mach_reply, (Some(&original), Some(response)), reply),
        call_ensures(is_dispatched, (&original,), dispatched),
    ensures
        reply is Some <==> dispatched,
        dispatched <==> original.msgh_remote_port != 0,
        reply matches Some(out) ==> out.header.msgh_remote_port == original.msgh_remote_port
            && out.header.msgh_id == original.msgh_id && out.header.msgh_local_port == 0
            && out.header.msgh_bits == 19 && out.data@.take(response@.len() as int) == response@,
{
    assert(19u32 | (0u32 << 8) == 19) by (bit_vector);
    a_payload_is_filled_to_whole_words(response@);
}

/// What is received is as many bytes as the header's size leaves, from the front; a receive that
/// failed changes nothing.
pub proof fn what_is_received_is_behind_the_header(
    result: i32,
    header: mach_msg_header_t,
    data: &[u8],
    buffer: &mut Vec<u8>,
    received: bool,
)
    requires
        call_ensures(receive_message_on_port, (result, &header, data, buffer), received),
        result == 0 ==> header.msgh_size <= 24 + data@.len(),
    ensures
        received <==> result == 0,
        !received ==> final(buffer)@ == old(buffer)@,
        received && header.msgh_size >= 24 ==> final(buffer)@.len() == header.msgh_size - 24
            && final(buffer)@ == data@.take(header.msgh_size - 24),
        received && header.msgh_size < 24 ==> final(buffer)@.len() == 0,
{
}

/// What a message frames is what is received of it, the padding cut away.
pub proof fn a_message_sent_is_a_message_received(
    port: u32,
    payload: &[u8],
    sent: Option<Outgoing>,
    data: &[u8],
    header: mach_msg_header_t,
    buffer: &mut Vec<u8>,
    received: bool,
)
    requires
        port != 0,
        payload@.len() <= 262_144,
        forall|i: int| 0 <= i < payload@.len() ==> payload@[i] != 0,
        call_ensures(mach_try_send_message, (port, Some(payload)), sent),
        header == (sent->0).header,
        data@ == (sent->0).data@,
        call_ensures(receive_message_on_port, (0i32, &header, data, buffer), received),
    ensures
        received,
        before_nul(final(buffer)@) == payload@,
{
    a_framed_payload_is_read_back(payload@, sent->0);
}

/// Where a payload lies: behind the header of a plain message; where the first descriptor says for a
/// complex one, or behind the header where that says nothing; nowhere without a descriptor.
pub proof fn a_payload_lies_where_the_message_says(
    header: mach_msg_header_t,
    body: mach_msg_body_t,
    descriptor: mach_msg_ool_descriptor_t,
)
    ensures
        header.msgh_bits < 0x8000_0000 ==> located(header, body, descriptor) == (Payload::Inline {
            len: (if header.msgh_size >= 24 {
                header.msgh_size - 24
            } else {
                0
            }) as u32,
        }),
        header.msgh_bits >= 0x8000_0000 ==> {
            &&& body.msgh_descriptor_count == 0 ==> located(header, body, descriptor)
                == Payload::Absent
            &&& body.msgh_descriptor_count != 0 && descriptor.address != 0 && descriptor.size != 0
                ==> located(header, body, descriptor) == (Payload::OutOfLine {
                address: descriptor.address,
                len: descriptor.size,
            })
            &&& body.msgh_descriptor_count != 0 && (descriptor.address == 0 || descriptor.size == 0)
                ==> located(header, body, descriptor) is Inline
        },
{
    let bits = header.msgh_bits;
    assert(bits < 0x8000_0000 ==> bits & 0x8000_0000 == 0) by (bit_vector);
    assert(bits >= 0x8000_0000 ==> bits & 0x8000_0000 != 0) by (bit_vector);
}

/// There is something to read wherever a payload has bytes.
pub proof fn a_payload_with_bytes_is_read(
    address: u64,
    len: u32,
    absent: bool,
    inline: bool,
    outside: bool,
)
    requires
        call_ensures(is_readable, (Payload::Absent,), absent),
        call_ensures(is_readable, (Payload::Inline { len },), inline),
        call_ensures(is_readable, (Payload::OutOfLine { address, len },), outside),
    ensures
        !absent,
        inline <==> len > 0,
        outside <==> len > 0 && address > 0,
{
}

/// The first descriptor lies behind the header and the count, at the first multiple of eight.
pub proof fn a_descriptor_lies_at_a_multiple_of_eight(message: u64, address: u64)
    requires
        message <= u64::MAX - 64,
        call_ensures(descriptor_address, (message,), address),
    ensures
        address % 8 == 0,
        address >= message + 24 + 4,
        address - 8 < message + 24 + 4,
{
}

/// The payload found is where the message says, the response sent ends with a zero byte, and zero is
/// the only success.
pub proof fn a_payload_is_found_where_it_lies(
    header: mach_msg_header_t,
    body: mach_msg_body_t,
    descriptor: mach_msg_ool_descriptor_t,
    payload: Payload,
    response: Vec<u8>,
    terminated: Vec<u8>,
    result: i32,
    sent: bool,
)
    requires
        call_ensures(payload_of, (&header, &body, &descriptor), payload),
        call_ensures(terminate, (response,), terminated),
        call_ensures(was_sent, (result,), sent),
    ensures
        header.msgh_bits < 0x8000_0000 && header.msgh_size >= 24 ==> payload == (Payload::Inline {
            len: (header.msgh_size - 24) as u32,
        }),
        header.msgh_bits >= 0x8000_0000 && body.msgh_descriptor_count != 0 && descriptor.address != 0
            && descriptor.size != 0 ==> payload == (Payload::OutOfLine {
            address: descriptor.address,
            len: descriptor.size,
        }),
        header.msgh_bits >= 0x8000_0000 && body.msgh_descriptor_count == 0 ==> payload
            == Payload::Absent,
        terminated@.last() == 0 && terminated@.take(response@.len() as int) == response@,
        sent <==> result == 0,
{
    a_payload_lies_where_the_message_says(header, body, descriptor);
    a_response_ends_with_one_zero_more_at_most(response@);
}

} // verus!

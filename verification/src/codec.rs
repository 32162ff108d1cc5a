//! The frame codec: a frame to its bytes, and the front of a buffer back to
//! a frame. Neither keeps any state.

use crate::command::{
    c_string_fits, lemma_body_round_trip, lemma_body_written_back, lemma_parsed_body_wf, Bind, BindResp, BindRespView,
    BindView, Body, BodyView, Frame, FrameView, MessageResp, MessageRespView, ShortMessage,
    ShortMessageView, ADDRESS_LIMIT, ADDRESS_RANGE_LIMIT, BIND_TRANSCEIVER,
    BIND_TRANSCEIVER_RESP, CONTENT_MAX, DELIVER_SM, DELIVER_SM_RESP, HEADER_LEN,
    MESSAGE_ID_LIMIT, PASSWORD_LIMIT, SERVICE_TYPE_LIMIT, SUBMIT_SM, SUBMIT_SM_RESP,
    SYSTEM_ID_LIMIT, SYSTEM_TYPE_LIMIT, TIME_LIMIT, UNBIND, UNBIND_RESP,
};
use crate::wire::{
    be32, be32_at, get_u32, lemma_be32_round_trip, lemma_be32_written_back, put_c_string, put_octets, put_u32,
    Reader,
};
use vstd::prelude::*;
use vstd::slice::slice_subrange;

verus! {

/// Why the front of a buffer is no frame.
#[derive(Debug, Clone, Copy, PartialEq, Eq)]
pub enum FrameDecodeError {
    /// The declared length is below the sixteen bytes of a header. Where the
    /// next frame starts cannot be told any more.
    Malformed,
    /// The declared length is above the configured maximum. The frame is
    /// not read, so where the next one starts cannot be told either.
    TooLarge,
    /// The frame is all there, but its declared length is not that of a
    /// body of its command: a field is cut off or overruns its limit, or
    /// bytes follow where the command has none. The frame can be skipped.
    Truncated,
}

/// What `decode` finds at the front of `buf`, and how many bytes it uses up.
///
/// With fewer than four bytes, or fewer than the frame declares, there is
/// nothing yet and nothing is used up. A declared length outside
/// `16 ..= max_len` is an error that uses nothing up. Otherwise the declared
/// length is used up, whether the body reads under its identifier or not.
pub open spec fn decode_spec(buf: Seq<u8>, max_len: u32) -> (
    Result<Option<FrameView>, FrameDecodeError>,
    int,
) {
    let declared = be32_at(buf, 0);
    if buf.len() < 4 {
        (Ok(None), 0)
    } else if declared < HEADER_LEN {
        (Err(FrameDecodeError::Malformed), 0)
    } else if declared > max_len {
        (Err(FrameDecodeError::TooLarge), 0)
    } else if buf.len() < declared {
        (Ok(None), 0)
    } else {
        match BodyView::parse(be32_at(buf, 4), buf.subrange(HEADER_LEN as int, declared as int)) {
            Some(body) => (
                Ok(
                    Some(
                        FrameView {
                            command_status: be32_at(buf, 8),
                            sequence_number: be32_at(buf, 12),
                            body,
                        },
                    ),
                ),
                declared as int,
            ),
            None => (Err(FrameDecodeError::Truncated), declared as int),
        }
    }
}

/// What an outcome of `decode` stands for.
pub open spec fn decoded_view(r: Result<Option<Frame>, FrameDecodeError>) -> Result<
    Option<FrameView>,
    FrameDecodeError,
> {
    match r {
        Ok(Some(f)) => Ok(Some(f@)),
        Ok(None) => Ok(None),
        Err(e) => Err(e),
    }
}

/// A frame has as many bytes as it declares.
pub proof fn lemma_frame_length(f: FrameView)
    ensures
        f.bytes().len() == f.command_length(),
        f.command_length() >= HEADER_LEN,
{
}

/// Decoding the bytes of a frame gives the frame back and uses up exactly
/// its bytes, whatever follows them in the buffer: for every well-formed
/// frame, of every variant, that is no longer than the configured maximum.
pub proof fn lemma_decode_encode(f: FrameView, following: Seq<u8>, max_len: u32)
    requires
        f.wf(),
        f.command_length() <= max_len,
    ensures
        decode_spec(f.bytes() + following, max_len) == (Ok::<
            Option<FrameView>,
            FrameDecodeError,
        >(Some(f)), f.command_length()),
{
    let n = f.command_length();
    let buf = f.bytes() + following;
    let header = be32(n as u32) + be32(f.command_id()) + be32(f.command_status) + be32(
        f.sequence_number,
    );
    lemma_be32_round_trip(n as u32);
    lemma_be32_round_trip(f.command_id());
    lemma_be32_round_trip(f.command_status);
    lemma_be32_round_trip(f.sequence_number);
    assert forall|i: int| 0 <= i < 16 implies buf[i] == header[i] by {}
    assert(buf.subrange(HEADER_LEN as int, n) =~= f.body.bytes());
    lemma_body_round_trip(f.body);
}

/// Each error with the buffers on which it comes. A buffer of four bytes
/// or more is malformed where it declares fewer than sixteen, and only there;
/// too large where it declares more than `max_len`, and not fewer than
/// sixteen; truncated where the whole frame is there and its body is none of
/// its command. The first two use nothing up, whatever else the buffer holds.
pub proof fn lemma_decode_errors(buf: Seq<u8>, max_len: u32)
    ensures
        decode_spec(buf, max_len).0 == Err::<Option<FrameView>, FrameDecodeError>(
            FrameDecodeError::Malformed,
        ) <==> buf.len() >= 4 && be32_at(buf, 0) < HEADER_LEN,
        decode_spec(buf, max_len).0 == Err::<Option<FrameView>, FrameDecodeError>(
            FrameDecodeError::TooLarge,
        ) <==> buf.len() >= 4 && be32_at(buf, 0) >= HEADER_LEN && be32_at(buf, 0) > max_len,
        decode_spec(buf, max_len).0 == Err::<Option<FrameView>, FrameDecodeError>(
            FrameDecodeError::Truncated,
        ) <==> buf.len() >= 4 && HEADER_LEN <= be32_at(buf, 0) <= max_len && be32_at(buf, 0)
            <= buf.len() && BodyView::parse(
            be32_at(buf, 4),
            buf.subrange(HEADER_LEN as int, be32_at(buf, 0) as int),
        ) is None,
        decode_spec(buf, max_len).0 matches Err(e) && e != FrameDecodeError::Truncated
            ==> decode_spec(buf, max_len).1 == 0,
        decode_spec(buf, max_len).0 matches Ok(None) <==> buf.len() < 4 || (HEADER_LEN
            <= be32_at(buf, 0) <= max_len && buf.len() < be32_at(buf, 0)),
{
}

/// `s` has no zero byte and fewer than `limit` bytes.
pub fn fits(s: &Vec<u8>, limit: usize) -> (b: bool)
    ensures
        b == c_string_fits(s@, limit as int),
{
    if s.len() >= limit {
        return false;
    }
    let mut i: usize = 0;
    while i < s.len()
        invariant
            i <= s@.len(),
            forall|j: int| 0 <= j < i ==> s@[j] != 0,
        decreases s@.len() - i,
    {
        if s[i] == 0 {
            return false;
        }
        i = i + 1;
    }
    true
}

impl Body {
    pub fn command_id(&self) -> (id: u32)
        ensures
            id == self@.command_id(),
    {
        match self {
            Body::BindTransceiver(_) => BIND_TRANSCEIVER,
            Body::BindTransceiverResp(_) => BIND_TRANSCEIVER_RESP,
            Body::SubmitSm(_) => SUBMIT_SM,
            Body::SubmitSmResp(_) => SUBMIT_SM_RESP,
            Body::DeliverSm(_) => DELIVER_SM,
            Body::DeliverSmResp(_) => DELIVER_SM_RESP,
            Body::Unbind => UNBIND,
            Body::UnbindResp => UNBIND_RESP,
            Body::Other { command_id, body } => *command_id,
        }
    }

    /// Every field of the body is one that can stand on the wire.
    pub fn is_valid(&self) -> (b: bool)
        ensures
            b == self@.wf(),
    {
        match self {
            Body::BindTransceiver(v) => fits(&v.system_id, SYSTEM_ID_LIMIT) && fits(
                &v.password,
                PASSWORD_LIMIT,
            ) && fits(&v.system_type, SYSTEM_TYPE_LIMIT) && fits(
                &v.address_range,
                ADDRESS_RANGE_LIMIT,
            ),
            Body::BindTransceiverResp(v) => fits(&v.system_id, SYSTEM_ID_LIMIT),
            Body::SubmitSm(m) => short_message_is_valid(m),
            Body::SubmitSmResp(r) => fits(&r.message_id, MESSAGE_ID_LIMIT),
            Body::DeliverSm(m) => short_message_is_valid(m),
            Body::DeliverSmResp(r) => fits(&r.message_id, MESSAGE_ID_LIMIT),
            Body::Unbind => true,
            Body::UnbindResp => true,
            Body::Other { command_id, body } => {
                let id = *command_id;
                !(id == SUBMIT_SM || id == DELIVER_SM || id == UNBIND || id == BIND_TRANSCEIVER
                    || id == SUBMIT_SM_RESP || id == DELIVER_SM_RESP || id == UNBIND_RESP || id
                    == BIND_TRANSCEIVER_RESP)
            },
        }
    }

    /// The length that a frame with this body declares, where four bytes
    /// can hold it.
    pub fn frame_length(&self) -> (n: Option<u32>)
        requires
            self@.wf(),
        ensures
            n is Some <==> HEADER_LEN + self@.bytes().len() <= u32::MAX,
            n is Some ==> n->0 == HEADER_LEN + self@.bytes().len(),
    {
        // every body is a part of bounded length, then one that is not
        let (bounded, open): (usize, usize) = match self {
            Body::BindTransceiver(v) => (
                v.system_id.len() + v.password.len() + v.system_type.len() + v.address_range.len()
                    + 7,
                0,
            ),
            Body::BindTransceiverResp(v) => (v.system_id.len() + 1, v.optional.len()),
            Body::SubmitSm(m) => (short_message_fields_len(m), m.optional.len()),
            Body::SubmitSmResp(r) => (r.message_id.len() + 1, r.optional.len()),
            Body::DeliverSm(m) => (short_message_fields_len(m), m.optional.len()),
            Body::DeliverSmResp(r) => (r.message_id.len() + 1, r.optional.len()),
            Body::Unbind => (0, 0),
            Body::UnbindResp => (0, 0),
            Body::Other { command_id, body } => (0, body.len()),
        };
        assert(bounded + open == self@.bytes().len());
        assert(bounded <= 400);
        if open > 0xffff_ffff - HEADER_LEN - bounded {
            None
        } else {
            Some((HEADER_LEN + bounded + open) as u32)
        }
    }
}

fn short_message_is_valid(m: &ShortMessage) -> (b: bool)
    ensures
        b == m@.wf(),
{
    fits(&m.service_type, SERVICE_TYPE_LIMIT) && fits(&m.source_addr, ADDRESS_LIMIT) && fits(
        &m.destination_addr,
        ADDRESS_LIMIT,
    ) && fits(&m.schedule_delivery_time, TIME_LIMIT) && fits(&m.validity_period, TIME_LIMIT)
        && m.short_message.len() <= CONTENT_MAX
}

fn short_message_fields_len(m: &ShortMessage) -> (n: usize)
    requires
        m@.wf(),
    ensures
        n + m@.optional.len() == m@.bytes().len(),
        n <= 400,
{
    m.service_type.len() + m.source_addr.len() + m.destination_addr.len()
        + m.schedule_delivery_time.len() + m.validity_period.len() + m.short_message.len() + 17
}

impl Frame {
    pub fn command_id(&self) -> (id: u32)
        ensures
            id == self@.command_id(),
    {
        self.body.command_id()
    }

    /// The frame can be encoded: its body is valid and its length fits the
    /// four bytes that declare it.
    pub fn is_valid(&self) -> (b: bool)
        ensures
            b == self@.wf(),
    {
        self.body.is_valid() && self.body.frame_length().is_some()
    }

    /// The length that the frame declares of itself.
    pub fn command_length(&self) -> (n: u32)
        requires
            self@.wf(),
        ensures
            n == self@.command_length(),
    {
        self.body.frame_length().unwrap()
    }
}

fn put_bind(out: &mut Vec<u8>, v: &Bind)
    ensures
        final(out)@ == old(out)@ + v@.bytes(),
{
    put_c_string(out, &v.system_id);
    put_c_string(out, &v.password);
    put_c_string(out, &v.system_type);
    out.push(v.interface_version);
    out.push(v.addr_ton);
    out.push(v.addr_npi);
    put_c_string(out, &v.address_range);
    assert(out@ =~= old(out)@ + v@.bytes());
}

fn put_short_message(out: &mut Vec<u8>, m: &ShortMessage)
    requires
        m@.short_message.len() <= CONTENT_MAX,
    ensures
        final(out)@ == old(out)@ + m@.bytes(),
{
    put_c_string(out, &m.service_type);
    out.push(m.source_addr_ton);
    out.push(m.source_addr_npi);
    put_c_string(out, &m.source_addr);
    out.push(m.dest_addr_ton);
    out.push(m.dest_addr_npi);
    put_c_string(out, &m.destination_addr);
    let ghost front = out@;
    assert(front =~= old(out)@ + (m@.bytes().subrange(
        0,
        m@.bytes().len() - m@.bytes_from_class().len(),
    )));
    out.push(m.esm_class);
    out.push(m.protocol_id);
    out.push(m.priority_flag);
    put_c_string(out, &m.schedule_delivery_time);
    put_c_string(out, &m.validity_period);
    let ghost middle = out@;
    assert(middle =~= front + (m@.bytes_from_class().subrange(
        0,
        m@.bytes_from_class().len() - m@.bytes_from_flags().len(),
    )));
    out.push(m.registered_delivery);
    out.push(m.replace_if_present_flag);
    out.push(m.data_coding);
    out.push(m.sm_default_msg_id);
    put_octets(out, &m.short_message);
    out.extend_from_slice(m.optional.as_slice());
    assert(out@ =~= middle + m@.bytes_from_flags());
    assert(out@ =~= old(out)@ + m@.bytes());
}

fn put_body(out: &mut Vec<u8>, body: &Body)
    requires
        body@.wf(),
    ensures
        final(out)@ == old(out)@ + body@.bytes(),
{
    match body {
        Body::BindTransceiver(v) => {
            put_bind(out, v);
        },
        Body::BindTransceiverResp(v) => {
            put_c_string(out, &v.system_id);
            out.extend_from_slice(v.optional.as_slice());
            assert(out@ =~= old(out)@ + body@.bytes());
        },
        Body::SubmitSm(m) => {
            put_short_message(out, m);
        },
        Body::SubmitSmResp(r) => {
            put_c_string(out, &r.message_id);
            out.extend_from_slice(r.optional.as_slice());
            assert(out@ =~= old(out)@ + body@.bytes());
        },
        Body::DeliverSm(m) => {
            put_short_message(out, m);
        },
        Body::DeliverSmResp(r) => {
            put_c_string(out, &r.message_id);
            out.extend_from_slice(r.optional.as_slice());
            assert(out@ =~= old(out)@ + body@.bytes());
        },
        Body::Unbind => {
            assert(out@ =~= old(out)@ + body@.bytes());
        },
        Body::UnbindResp => {
            assert(out@ =~= old(out)@ + body@.bytes());
        },
        Body::Other { command_id, body: raw } => {
            out.extend_from_slice(raw.as_slice());
        },
    }
}

/// The bytes of a frame: its length, the identifier of its command, its
/// status and its sequence number, each in four bytes with the most
/// significant first, and then its body.
pub fn encode(frame: &Frame) -> (out: Vec<u8>)
    requires
        frame@.wf(),
    ensures
        out@ == frame@.bytes(),
        out@.len() == frame@.command_length(),
{
    let mut out: Vec<u8> = Vec::new();
    put_u32(&mut out, frame.command_length());
    put_u32(&mut out, frame.body.command_id());
    put_u32(&mut out, frame.command_status);
    put_u32(&mut out, frame.sequence_number);
    put_body(&mut out, &frame.body);
    assert(out@ =~= frame@.bytes());
    out
}

/// The bytes of a frame, or `None` for one that cannot stand on the wire.
pub fn try_encode(frame: &Frame) -> (out: Option<Vec<u8>>)
    ensures
        out is Some <==> frame@.wf(),
        out is Some ==> out->0@ == frame@.bytes(),
{
    if frame.is_valid() {
        Some(encode(frame))
    } else {
        None
    }
}

fn read_bind(body: &[u8]) -> (r: Option<Bind>)
    ensures
        r is Some <==> BindView::parse(body@) is Some,
        r is Some ==> r->0@ == BindView::parse(body@)->0,
{
    let mut rd = Reader::new(body);
    let system_id = rd.c_string(SYSTEM_ID_LIMIT);
    let password = rd.c_string(PASSWORD_LIMIT);
    let system_type = rd.c_string(SYSTEM_TYPE_LIMIT);
    let interface_version = rd.byte();
    let addr_ton = rd.byte();
    let addr_npi = rd.byte();
    let address_range = rd.c_string(ADDRESS_RANGE_LIMIT);
    if rd.at_end() {
        Some(
            Bind {
                system_id,
                password,
                system_type,
                interface_version,
                addr_ton,
                addr_npi,
                address_range,
            },
        )
    } else {
        None
    }
}

fn read_bind_resp(body: &[u8]) -> (r: Option<BindResp>)
    ensures
        r is Some <==> BindRespView::parse(body@) is Some,
        r is Some ==> r->0@ == BindRespView::parse(body@)->0,
{
    if body.len() == 0 {
        return Some(BindResp { system_id: Vec::new(), optional: Vec::new() });
    }
    let mut rd = Reader::new(body);
    let system_id = rd.c_string(SYSTEM_ID_LIMIT);
    let optional = rd.remainder();
    if rd.is_ok() {
        Some(BindResp { system_id, optional })
    } else {
        None
    }
}

fn read_message_resp(body: &[u8]) -> (r: Option<MessageResp>)
    ensures
        r is Some <==> MessageRespView::parse(body@) is Some,
        r is Some ==> r->0@ == MessageRespView::parse(body@)->0,
{
    if body.len() == 0 {
        return Some(MessageResp { message_id: Vec::new(), optional: Vec::new() });
    }
    let mut rd = Reader::new(body);
    let message_id = rd.c_string(MESSAGE_ID_LIMIT);
    let optional = rd.remainder();
    if rd.is_ok() {
        Some(MessageResp { message_id, optional })
    } else {
        None
    }
}

fn read_short_message(body: &[u8]) -> (r: Option<ShortMessage>)
    ensures
        r is Some <==> ShortMessageView::parse(body@) is Some,
        r is Some ==> r->0@ == ShortMessageView::parse(body@)->0,
{
    let mut rd = Reader::new(body);
    let service_type = rd.c_string(SERVICE_TYPE_LIMIT);
    let source_addr_ton = rd.byte();
    let source_addr_npi = rd.byte();
    let source_addr = rd.c_string(ADDRESS_LIMIT);
    let dest_addr_ton = rd.byte();
    let dest_addr_npi = rd.byte();
    let destination_addr = rd.c_string(ADDRESS_LIMIT);
    let esm_class = rd.byte();
    let protocol_id = rd.byte();
    let priority_flag = rd.byte();
    let schedule_delivery_time = rd.c_string(TIME_LIMIT);
    let validity_period = rd.c_string(TIME_LIMIT);
    let registered_delivery = rd.byte();
    let replace_if_present_flag = rd.byte();
    let data_coding = rd.byte();
    let sm_default_msg_id = rd.byte();
    let short_message = rd.octets();
    let optional = rd.remainder();
    if rd.is_ok() {
        Some(
            ShortMessage {
                service_type,
                source_addr_ton,
                source_addr_npi,
                source_addr,
                dest_addr_ton,
                dest_addr_npi,
                destination_addr,
                esm_class,
                protocol_id,
                priority_flag,
                schedule_delivery_time,
                validity_period,
                registered_delivery,
                replace_if_present_flag,
                data_coding,
                sm_default_msg_id,
                short_message,
                optional,
            },
        )
    } else {
        None
    }
}

fn read_body(command_id: u32, body: &[u8]) -> (r: Option<Body>)
    ensures
        r is Some <==> BodyView::parse(command_id, body@) is Some,
        r is Some ==> r->0@ == BodyView::parse(command_id, body@)->0,
{
    if command_id == BIND_TRANSCEIVER {
        match read_bind(body) {
            Some(v) => Some(Body::BindTransceiver(v)),
            None => None,
        }
    } else if command_id == BIND_TRANSCEIVER_RESP {
        match read_bind_resp(body) {
            Some(v) => Some(Body::BindTransceiverResp(v)),
            None => None,
        }
    } else if command_id == SUBMIT_SM {
        match read_short_message(body) {
            Some(v) => Some(Body::SubmitSm(v)),
            None => None,
        }
    } else if command_id == SUBMIT_SM_RESP {
        match read_message_resp(body) {
            Some(v) => Some(Body::SubmitSmResp(v)),
            None => None,
        }
    } else if command_id == DELIVER_SM {
        match read_short_message(body) {
            Some(v) => Some(Body::DeliverSm(v)),
            None => None,
        }
    } else if command_id == DELIVER_SM_RESP {
        match read_message_resp(body) {
            Some(v) => Some(Body::DeliverSmResp(v)),
            None => None,
        }
    } else if command_id == UNBIND {
        if body.len() == 0 {
            Some(Body::Unbind)
        } else {
            None
        }
    } else if command_id == UNBIND_RESP {
        if body.len() == 0 {
            Some(Body::UnbindResp)
        } else {
            None
        }
    } else {
        Some(Body::Other { command_id, body: vstd::slice::slice_to_vec(body) })
    }
}

/// Reads the frame at the front of `buffer`, if one is there in full, and
/// says how many bytes of the buffer are done with. It looks at nothing but
/// the buffer and `max_len`, the greatest length a frame may declare.
///
/// A frame that comes back is well formed, and the count that comes with it,
/// or with `Truncated`, is the length that the frame declared: the next frame
/// starts there. With `Ok(None)` more bytes are needed; with `Malformed` and
/// `TooLarge` the buffer holds no frame boundary any more. In those three
/// cases the count is zero.
pub fn decode(buffer: &[u8], max_len: u32) -> (r: (
    Result<Option<Frame>, FrameDecodeError>,
    usize,
))
    ensures
        decoded_view(r.0) == decode_spec(buffer@, max_len).0,
        r.1 == decode_spec(buffer@, max_len).1,
        r.1 <= buffer@.len(),
        r.0 is Ok && r.0->Ok_0 is Some ==> r.0->Ok_0->0@.wf() && r.1 >= HEADER_LEN,
{
    if buffer.len() < 4 {
        return (Ok(None), 0);
    }
    let declared = get_u32(buffer, 0);
    if declared < HEADER_LEN as u32 {
        return (Err(FrameDecodeError::Malformed), 0);
    }
    if declared > max_len {
        return (Err(FrameDecodeError::TooLarge), 0);
    }
    let length = declared as usize;
    if buffer.len() < length {
        return (Ok(None), 0);
    }
    let command_id = get_u32(buffer, 4);
    let command_status = get_u32(buffer, 8);
    let sequence_number = get_u32(buffer, 12);
    let body = slice_subrange(buffer, HEADER_LEN, length);
    match read_body(command_id, body) {
        Some(body) => {
            proof {
                lemma_parsed_body_wf(command_id, buffer@.subrange(HEADER_LEN as int, length as int));
                lemma_body_written_back(
                    command_id,
                    buffer@.subrange(HEADER_LEN as int, length as int),
                );
            }
            (Ok(Some(Frame { command_status, sequence_number, body })), length)
        },
        None => (Err(FrameDecodeError::Truncated), length),
    }
}

/// A frame has a body on the wire even where it is empty: the three
/// answers, whose body is at least the closing zero of a string.
pub open spec fn is_answer_with_body(body: BodyView) -> bool {
    body is BindTransceiverResp || body is SubmitSmResp || body is DeliverSmResp
}

/// A frame that was decoded is encoded as the bytes it was decoded from:
/// the decoder drops nothing and puts nothing in. The one exception is an
/// answer that came as a bare header where it has a body.
pub proof fn lemma_encode_decode(buf: Seq<u8>, max_len: u32)
    requires
        decode_spec(buf, max_len).0 is Ok,
        decode_spec(buf, max_len).0->Ok_0 is Some,
        decode_spec(buf, max_len).1 > HEADER_LEN || !is_answer_with_body(
            decode_spec(buf, max_len).0->Ok_0->0.body,
        ),
    ensures
        decode_spec(buf, max_len).0->Ok_0->0.bytes() == buf.subrange(
            0,
            decode_spec(buf, max_len).1,
        ),
{
    let f = decode_spec(buf, max_len).0->Ok_0->0;
    let n = decode_spec(buf, max_len).1;
    let body = buf.subrange(HEADER_LEN as int, n);
    lemma_parsed_body_wf(be32_at(buf, 4), body);
    lemma_body_written_back(be32_at(buf, 4), body);
    lemma_be32_written_back(buf, 0);
    lemma_be32_written_back(buf, 4);
    lemma_be32_written_back(buf, 8);
    lemma_be32_written_back(buf, 12);
    assert(f.bytes() =~= buf.subrange(0, n));
}

} // verus!

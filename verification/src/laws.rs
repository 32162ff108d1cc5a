//! What holds of every session, whatever is done to it and whatever the
//! peer sends.

use crate::codec::FrameDecodeError;
use crate::command::{
    FrameView, HEADER_LEN, PASSWORD_LIMIT, STATUS_OK, SYSTEM_ID_LIMIT, SYSTEM_TYPE_LIMIT,
};
use crate::wire::be32_at;
use crate::engine::{
    lemma_field_bytes_fit, ConfigError, CredentialsView, Fault, Field, SmsView,
};
use crate::session::{
    acknowledgement, lemma_after_request_wf, lemma_feed_wf, lemma_receive_wf, ActionView, AuthenticationError,
    CloseReason, PendingRequest, SessionState, SessionView, SubmitOutcomeView, FIRST_SEQUENCE,
    LAST_SEQUENCE,
};
use crate::text::{lemma_encoded_text_len, representable, DataCoding};
use vstd::prelude::*;
use vstd::utf8::encode_utf8;

verus! {

/// One thing that happens to a session.
pub enum Operation {
    Connect,
    Bind(CredentialsView),
    Submit(SmsView),
    Unbind,
    Receive(FrameView),
    TransportClosed,
    TimedOut,
    DecodeFailed(FrameDecodeError),
    Feed(Seq<u8>),
}

/// The sequence number of the request, where there is one.
pub open spec fn sent<E>(r: Result<FrameView, E>) -> Option<u32> {
    match r {
        Ok(f) => Some(f.sequence_number),
        Err(_) => None,
    }
}

/// The session after `op`, and the sequence number of the request that `op`
/// produced, where it produced one.
pub open spec fn apply(s: SessionView, op: Operation) -> (SessionView, Option<u32>) {
    match op {
        Operation::Connect => (s.connect().0, None),
        Operation::Bind(c) => (s.bind(c).0, sent(s.bind(c).1)),
        Operation::Submit(m) => (s.submit(m).0, sent(s.submit(m).1)),
        Operation::Unbind => (s.unbind().0, sent(s.unbind().1)),
        Operation::Receive(f) => (s.receive(f).0, None),
        Operation::TransportClosed => (s.transport_closed(), None),
        Operation::TimedOut => (s.timed_out(), None),
        Operation::DecodeFailed(e) => (s.decode_failed(e), None),
        Operation::Feed(bytes) => (s.feed(bytes).0, None),
    }
}

/// The session after all of `ops`, one after the other.
pub open spec fn after(s: SessionView, ops: Seq<Operation>) -> SessionView
    decreases ops.len(),
{
    if ops.len() == 0 {
        s
    } else {
        apply(after(s, ops.drop_last()), ops.last()).0
    }
}

/// The sequence numbers of the requests that `ops` produced, in the order
/// in which they were produced.
pub open spec fn sequence_numbers(s: SessionView, ops: Seq<Operation>) -> Seq<u32>
    decreases ops.len(),
{
    if ops.len() == 0 {
        Seq::empty()
    } else {
        let earlier = sequence_numbers(s, ops.drop_last());
        match apply(after(s, ops.drop_last()), ops.last()).1 {
            Some(n) => earlier.push(n),
            None => earlier,
        }
    }
}

/// Whatever happens to a well-formed session, it stays well formed.
pub proof fn lemma_apply_wf(s: SessionView, op: Operation)
    requires
        s.wf(),
    ensures
        apply(s, op).0.wf(),
{
    match op {
        Operation::Bind(c) => {
            if s.bind(c).1 is Ok {
                lemma_after_request_wf(
                    s,
                    PendingRequest::Bind,
                    SessionState::AwaitingBindResp,
                );
            }
        },
        Operation::Submit(m) => {
            if s.submit(m).1 is Ok {
                lemma_after_request_wf(
                    s,
                    PendingRequest::Submit { message: s.submitted },
                    SessionState::Bound,
                );
            }
        },
        Operation::Unbind => {
            if s.unbind().1 is Ok {
                lemma_after_request_wf(
                    s,
                    PendingRequest::Unbind,
                    SessionState::AwaitingUnbindResp,
                );
            }
        },
        Operation::Receive(f) => {
            lemma_receive_wf(s, f);
        },
        Operation::Feed(bytes) => {
            lemma_feed_wf(s, bytes);
        },
        _ => {},
    }
}

/// A request gets the sequence number that was next, and the one after it
/// is next then; what produces no request leaves the next number alone.
pub proof fn lemma_apply_counts(s: SessionView, op: Operation)
    requires
        s.wf(),
    ensures
        apply(s, op).1 is Some ==> apply(s, op).1->0 == s.next_sequence && apply(
            s,
            op,
        ).0.next_sequence == s.next_sequence + 1 && s.next_sequence <= LAST_SEQUENCE,
        apply(s, op).1 is None ==> apply(s, op).0.next_sequence == s.next_sequence,
{
    if let Operation::Feed(bytes) = op {
        lemma_feed_wf(s, bytes);
    }
}

/// The requests of a session are numbered in a row: the first gets the
/// number that was next when the operations began, and each later one the
/// number after that of the one before. So the sequence numbers of a session
/// rise strictly and none comes twice, whatever the operations are and in
/// whatever order, and none goes beyond the last one there is.
pub proof fn lemma_sequence_numbers_in_a_row(s: SessionView, ops: Seq<Operation>)
    requires
        s.wf(),
    ensures
        after(s, ops).wf(),
        after(s, ops).next_sequence == s.next_sequence + sequence_numbers(s, ops).len(),
        forall|i: int|
            0 <= i < sequence_numbers(s, ops).len() ==> #[trigger] sequence_numbers(s, ops)[i]
                == s.next_sequence + i,
        forall|i: int, j: int|
            0 <= i < j < sequence_numbers(s, ops).len() ==> sequence_numbers(s, ops)[i]
                < sequence_numbers(s, ops)[j],
        forall|i: int|
            0 <= i < sequence_numbers(s, ops).len() ==> FIRST_SEQUENCE <= #[trigger] sequence_numbers(
                s,
                ops,
            )[i] <= LAST_SEQUENCE,
    decreases ops.len(),
{
    if ops.len() > 0 {
        lemma_sequence_numbers_in_a_row(s, ops.drop_last());
        lemma_apply_wf(after(s, ops.drop_last()), ops.last());
        lemma_apply_counts(after(s, ops.drop_last()), ops.last());
    }
}

/// On a new session the requests are numbered 1, 2, 3 and so on.
pub proof fn lemma_sequence_numbers_start_at_one(
    coding: DataCoding,
    max_frame_len: u32,
    ops: Seq<Operation>,
)
    ensures
        forall|i: int|
            0 <= i < sequence_numbers(SessionView::initial(coding, max_frame_len), ops).len()
                ==> #[trigger] sequence_numbers(SessionView::initial(coding, max_frame_len), ops)[i]
                == i + 1,
{
    lemma_sequence_numbers_in_a_row(SessionView::initial(coding, max_frame_len), ops);
}

/// No two requests wait under one sequence number, and a number that a
/// request waits under is never given to a later request.
pub proof fn lemma_waiting_numbers_are_not_reused(s: SessionView, ops: Seq<Operation>, k: u32)
    requires
        s.wf(),
        s.pending.contains_key(k),
    ensures
        forall|i: int|
            0 <= i < sequence_numbers(s, ops).len() ==> #[trigger] sequence_numbers(s, ops)[i] != k,
{
    lemma_sequence_numbers_in_a_row(s, ops);
}

/// A session that is over stays as it is: nothing that happens changes it,
/// no request is produced, and a frame that still comes in is ignored.
pub proof fn lemma_closed_is_final(s: SessionView, op: Operation)
    requires
        s.state is Closed,
    ensures
        apply(s, op) == (s, None::<u32>),
        op matches Operation::Receive(f) ==> s.receive(f).1 is Ignored,
{
}

/// Once the unbind request is out, no request follows it: the session
/// refuses to bind, to submit and to unbind, and whatever happens leaves it
/// waiting for the answer or over.
pub proof fn lemma_no_request_after_unbind(s: SessionView, ops: Seq<Operation>)
    requires
        s.wf(),
        s.state is AwaitingUnbindResp || s.state is Closed,
    ensures
        after(s, ops).state is AwaitingUnbindResp || after(s, ops).state is Closed,
        sequence_numbers(s, ops).len() == 0,
    decreases ops.len(),
{
    if ops.len() > 0 {
        lemma_no_request_after_unbind(s, ops.drop_last());
        lemma_sequence_numbers_in_a_row(s, ops.drop_last());
        if let Operation::Feed(bytes) = ops.last() {
            lemma_feed_wf(after(s, ops.drop_last()), bytes);
        }
    }
}

/// A refused bind request ends the session as `AuthFailed`, with the
/// peer's status in the error, and nothing waits any more.
pub proof fn lemma_refused_bind_closes(s: SessionView, f: FrameView)
    requires
        s.state is AwaitingBindResp,
        f.body is BindTransceiverResp,
        f.command_status != STATUS_OK,
    ensures
        s.receive(f).0 == s.closed(CloseReason::AuthFailed),
        s.receive(f).1 == ActionView::Rejected(
            AuthenticationError::Rejected { status: f.command_status },
        ),
{
}

/// A message that the peer delivers while the session is bound, or while
/// the answer to its unbind request is due, is acknowledged with status
/// success under the sequence number it came with. The session itself stays
/// as it is.
pub proof fn lemma_delivery_is_acknowledged(s: SessionView, f: FrameView)
    requires
        s.state is Bound || s.state is AwaitingUnbindResp,
        f.body is DeliverSm,
    ensures
        s.receive(f).0 == s,
        s.receive(f).1 == (ActionView::Deliver {
            message: f.body->DeliverSm_0,
            reply: acknowledgement(f.sequence_number),
        }),
        acknowledgement(f.sequence_number).wf(),
        acknowledgement(f.sequence_number).command_status == STATUS_OK,
        acknowledgement(f.sequence_number).sequence_number == f.sequence_number,
        acknowledgement(f.sequence_number).body is DeliverSmResp,
{
    assert(acknowledgement(f.sequence_number).body.bytes() =~= seq![0u8]);
}

/// Bytes that declare a length below the header's leave a session that is
/// not over no frame boundary to go on from: it is over, as `Protocol`, the
/// failure is handed out to be logged, and none of the bytes is done with.
pub proof fn lemma_short_length_closes_as_protocol(s: SessionView, buf: Seq<u8>)
    requires
        !(s.state is Closed),
        buf.len() >= 4,
        be32_at(buf, 0) < HEADER_LEN,
    ensures
        s.feed(buf) == (
            s.closed(CloseReason::Protocol),
            seq![ActionView::Undecodable(FrameDecodeError::Malformed)],
            0int,
        ),
{
}

/// The answer to a submitted message under a sequence number that no
/// submitted message waits under changes nothing and fails nothing: the
/// session is as it was, and the answer is noted as orphaned.
pub proof fn lemma_orphaned_answer_changes_nothing(s: SessionView, f: FrameView)
    requires
        s.state is Bound || s.state is AwaitingUnbindResp,
        f.body is SubmitSmResp,
        !s.awaits_submit(f.sequence_number),
    ensures
        s.receive(f) == (s, ActionView::Orphaned { sequence: f.sequence_number }),
{
}

/// The answer to a submitted message that waits is reported once: after
/// it the message waits no more, so the same answer again is orphaned.
pub proof fn lemma_answer_is_reported_once(s: SessionView, f: FrameView)
    requires
        s.state is Bound || s.state is AwaitingUnbindResp,
        f.body is SubmitSmResp,
        s.awaits_submit(f.sequence_number),
    ensures
        s.receive(f).1 is Report,
        s.receive(f).1->Report_0.sequence == f.sequence_number,
        s.receive(f).1->Report_0.status == f.command_status,
        s.receive(f).1->Report_0.message_id == f.body->SubmitSmResp_0.message_id,
        s.receive(f).0.state == s.state,
        !s.receive(f).0.pending.contains_key(f.sequence_number),
        s.receive(f).0.receive(f).1 == (ActionView::Orphaned { sequence: f.sequence_number }),
{
}

/// A message that was accepted waits under the sequence number of its
/// request, and the answer under that number is reported for that message:
/// with the place the message was submitted at, the peer's status, and the
/// identifier that the peer gave it.
pub proof fn lemma_answer_finds_its_message(s: SessionView, sms: SmsView, f: FrameView)
    requires
        s.wf(),
        s.submit(sms).1 is Ok,
        f.body is SubmitSmResp,
        f.sequence_number == s.submit(sms).1->Ok_0.sequence_number,
    ensures
        s.submit(sms).1->Ok_0.sequence_number == s.next_sequence,
        s.submit(sms).0.awaits_submit(s.next_sequence),
        s.submit(sms).0.receive(f).1 == ActionView::Report(
            SubmitOutcomeView {
                sequence: s.next_sequence,
                message: s.submitted,
                status: f.command_status,
                message_id: f.body->SubmitSmResp_0.message_id,
            },
        ),
{
}

/// No two messages wait under the same place: the later of two waiting
/// requests carries the message that was submitted later.
pub proof fn lemma_waiting_messages_are_distinct(s: SessionView, j: u32, k: u32)
    requires
        s.wf(),
        s.awaits_submit(j),
        s.awaits_submit(k),
        j != k,
    ensures
        s.pending[j]->message != s.pending[k]->message,
        j < k <==> s.pending[j]->message < s.pending[k]->message,
{
}

/// How long a message may be: text that the charset can write is accepted
/// up to 255 characters, or up to 127 in UCS-2, and refused as too long
/// beyond that.
pub proof fn lemma_content_capacity(sms: SmsView, coding: DataCoding)
    requires
        representable(sms.content, coding),
    ensures
        sms.content_bytes(coding) is Ok <==> sms.content.len() <= if coding == DataCoding::Ucs2 {
            127int
        } else {
            255int
        },
        sms.content_bytes(coding) is Err ==> sms.content_bytes(coding) == Err::<Seq<u8>, Fault>(
            Fault::TooManyBytes,
        ),
{
    lemma_encoded_text_len(sms.content, coding);
}

/// Credentials with a system identifier of more than 15 bytes, a password
/// of more than 8 or a system type of more than 12 cannot be made: the
/// attempt fails with the field that is too long, the first of them in this
/// order where it is more than one.
pub proof fn lemma_oversized_credentials_are_refused(
    provider_name: Seq<char>,
    endpoint_addr: Seq<char>,
    system_id: Seq<char>,
    password: Seq<char>,
    system_type: Seq<char>,
)
    requires
        encode_utf8(system_id).len() >= SYSTEM_ID_LIMIT || encode_utf8(password).len()
            >= PASSWORD_LIMIT || encode_utf8(system_type).len() >= SYSTEM_TYPE_LIMIT,
    ensures
        CredentialsView::checked(provider_name, endpoint_addr, system_id, password, system_type)
            is Err,
        encode_utf8(system_id).len() >= SYSTEM_ID_LIMIT ==> CredentialsView::checked(
            provider_name,
            endpoint_addr,
            system_id,
            password,
            system_type,
        ) == Err::<CredentialsView, ConfigError>(
            ConfigError { field: Field::SystemId, fault: Fault::TooManyBytes },
        ),
{
}

/// Credentials that can be made give a bind request that can be encoded.
pub proof fn lemma_checked_credentials_wf(
    provider_name: Seq<char>,
    endpoint_addr: Seq<char>,
    system_id: Seq<char>,
    password: Seq<char>,
    system_type: Seq<char>,
)
    requires
        CredentialsView::checked(provider_name, endpoint_addr, system_id, password, system_type)
            is Ok,
    ensures
        CredentialsView::checked(
            provider_name,
            endpoint_addr,
            system_id,
            password,
            system_type,
        )->Ok_0.wf(),
        CredentialsView::checked(
            provider_name,
            endpoint_addr,
            system_id,
            password,
            system_type,
        )->Ok_0.bind().wf(),
{
    lemma_field_bytes_fit(system_id, SYSTEM_ID_LIMIT as int);
    lemma_field_bytes_fit(password, PASSWORD_LIMIT as int);
    lemma_field_bytes_fit(system_type, SYSTEM_TYPE_LIMIT as int);
}

} // verus!

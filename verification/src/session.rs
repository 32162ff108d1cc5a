//! The session state machine: which state a session is in, which sequence
//! number comes next, which requests still wait for their answer, and what
//! each event makes of the three.
//!
//! Nothing here reads or writes a connection. The outbound operations hand
//! back the frame to send; `receive` takes a frame that came in and hands
//! back what is to be done about it.

use crate::codec::{
    decode, decode_spec, lemma_decode_encode, lemma_frame_length, FrameDecodeError,
};
use crate::command::{
    Body, BodyView, Frame, FrameView, MessageResp, MessageRespView, ShortMessage,
    ShortMessageView, STATUS_OK,
};
use crate::engine::{ConfigError, CredentialsView, SMPPCredentials, SmsView, SMS};
use crate::text::DataCoding;
use std::collections::HashMap;
use vstd::prelude::*;
use vstd::slice::slice_subrange;

verus! {

broadcast use vstd::std_specs::hash::group_hash_axioms;

/// The first sequence number of a session.
pub const FIRST_SEQUENCE: u32 = 1;

/// The last sequence number that a session assigns. After it no request is
/// accepted any more: a number is never used twice.
pub const LAST_SEQUENCE: u32 = 0x7fff_ffff;

/// Why a session is over.
#[derive(Debug, Clone, Copy, PartialEq, Eq, Structural)]
pub enum CloseReason {
    /// The peer acknowledged the unbind request.
    Normal,
    /// The peer refused the bind request, or answered it with something
    /// else than its answer.
    AuthFailed,
    /// The transport closed while the session was not over.
    Unexpected,
    /// The peer did not answer a bind or unbind request in time.
    Timeout,
    /// The byte stream lost its frame boundaries.
    Protocol,
}

#[derive(Debug, Clone, Copy, PartialEq, Eq, Structural)]
pub enum SessionState {
    Idle,
    Connecting,
    AwaitingBindResp,
    Bound,
    AwaitingUnbindResp,
    Closed(CloseReason),
}

/// A request that was sent and not answered yet. A submitted message is
/// remembered with its place among the messages submitted on the session,
/// counted from zero.
#[derive(Debug, Clone, Copy, PartialEq, Eq, Structural)]
pub enum PendingRequest {
    Bind,
    Submit { message: u32 },
    Unbind,
}

/// An operation does not fit the state of the session.
#[derive(Debug, Clone, Copy, PartialEq, Eq, Structural)]
pub enum ProtocolError {
    /// Only an idle session can start to connect.
    NotIdle,
    /// Only a connecting session can bind.
    NotConnecting,
    /// Only a bound session can submit or unbind.
    NotBound,
    /// Every sequence number of the session was used.
    SequenceExhausted,
}

/// Why a message was not accepted for transmission.
#[derive(Debug, Clone, Copy, PartialEq, Eq, Structural)]
pub enum SessionError {
    Config(ConfigError),
    Protocol(ProtocolError),
}

/// Why a bind request did not lead to a bound session.
#[derive(Debug, Clone, Copy, PartialEq, Eq, Structural)]
pub enum AuthenticationError {
    /// The peer answered with this status, which is not success.
    Rejected { status: u32 },
    /// The peer sent this command where the answer was due.
    UnexpectedPdu { command_id: u32 },
}

/// The peer answered a submitted message with this status, which is not
/// success. It concerns that message alone.
#[derive(Debug, Clone, Copy, PartialEq, Eq, Structural)]
pub struct SubmitError {
    pub status: u32,
}

/// How a session ended, for the caller that started it.
#[derive(Debug, Clone, Copy, PartialEq, Eq, Structural)]
pub enum SessionOutcome {
    Success,
    AuthenticationFailed,
    ConnectionError,
    ProtocolError(CloseReason),
}

/// What became of one submitted message: the status that the peer answered
/// with, and the identifier that it gave the message.
#[derive(Debug, Clone, PartialEq, Eq)]
pub struct SubmitOutcome {
    /// The sequence number of the request and of its answer.
    pub sequence: u32,
    /// The place of the message among those submitted, counted from zero.
    pub message: u32,
    pub status: u32,
    pub message_id: Vec<u8>,
}

pub struct SubmitOutcomeView {
    pub sequence: u32,
    pub message: u32,
    pub status: u32,
    pub message_id: Seq<u8>,
}

impl View for SubmitOutcome {
    type V = SubmitOutcomeView;

    open spec fn view(&self) -> SubmitOutcomeView {
        SubmitOutcomeView {
            sequence: self.sequence,
            message: self.message,
            status: self.status,
            message_id: self.message_id@,
        }
    }
}

impl SubmitOutcomeView {
    /// The identifier of the message where the peer accepted it, the error
    /// with the peer's status where it did not.
    pub open spec fn result(self) -> Result<Seq<u8>, SubmitError> {
        if self.status == STATUS_OK {
            Ok(self.message_id)
        } else {
            Err(SubmitError { status: self.status })
        }
    }
}

impl SubmitOutcome {
    /// The identifier of the message where the peer accepted it, the error
    /// with the peer's status where it did not.
    pub fn result(&self) -> (r: Result<&Vec<u8>, SubmitError>)
        ensures
            r is Ok <==> self@.result() is Ok,
            r is Ok ==> r->Ok_0@ == self@.result()->Ok_0,
            r is Err ==> r->Err_0 == self@.result()->Err_0,
    {
        if self.status == STATUS_OK {
            Ok(&self.message_id)
        } else {
            Err(SubmitError { status: self.status })
        }
    }
}

/// What is to be done about a frame that came in.
#[derive(Debug, Clone, PartialEq, Eq)]
pub enum Action {
    /// The session is bound now. Nothing to send.
    Bound { system_id: Vec<u8> },
    /// The session is closed: the bind request failed. Nothing to send.
    Rejected(AuthenticationError),
    /// Hand the outcome to whoever submitted the message.
    Report(SubmitOutcome),
    /// An answer came for a sequence number that no submitted message
    /// waits under. It is to be logged as a warning and nothing else.
    Orphaned { sequence: u32 },
    /// Send `reply` before anything else is read, and hand `message` to the
    /// application.
    Deliver { message: ShortMessage, reply: Frame },
    /// The session is closed in good order: stop reading.
    Finished,
    /// The frame was not expected in this state. It is to be logged with
    /// its identifier and status and nothing else.
    Ignored { command_id: u32, status: u32 },
    /// What came in was no frame. It is to be logged; whether the session
    /// goes on is for its state to say.
    Undecodable(FrameDecodeError),
}

pub enum ActionView {
    Bound { system_id: Seq<u8> },
    Rejected(AuthenticationError),
    Report(SubmitOutcomeView),
    Orphaned { sequence: u32 },
    Deliver { message: ShortMessageView, reply: FrameView },
    Finished,
    Ignored { command_id: u32, status: u32 },
    Undecodable(FrameDecodeError),
}

impl View for Action {
    type V = ActionView;

    open spec fn view(&self) -> ActionView {
        match self {
            Action::Bound { system_id } => ActionView::Bound { system_id: system_id@ },
            Action::Rejected(e) => ActionView::Rejected(*e),
            Action::Report(o) => ActionView::Report(o@),
            Action::Orphaned { sequence } => ActionView::Orphaned { sequence: *sequence },
            Action::Deliver { message, reply } => ActionView::Deliver {
                message: message@,
                reply: reply@,
            },
            Action::Finished => ActionView::Finished,
            Action::Ignored { command_id, status } => ActionView::Ignored {
                command_id: *command_id,
                status: *status,
            },
            Action::Undecodable(e) => ActionView::Undecodable(*e),
        }
    }
}

/// The acknowledgement of a delivered message: success, under the sequence
/// number that the message came with.
pub open spec fn acknowledgement(sequence_number: u32) -> FrameView {
    FrameView {
        command_status: STATUS_OK,
        sequence_number,
        body: BodyView::DeliverSmResp(
            MessageRespView { message_id: Seq::empty(), optional: Seq::empty() },
        ),
    }
}

/// A session as the contracts see it.
pub struct SessionView {
    pub state: SessionState,
    /// The sequence number that the next request gets.
    pub next_sequence: u32,
    /// How many messages were accepted for transmission.
    pub submitted: u32,
    /// The requests that wait for their answer, by sequence number.
    pub pending: Map<u32, PendingRequest>,
    /// The charset that message text is sent in.
    pub data_coding: DataCoding,
    /// The greatest length that a frame from the peer may declare.
    pub max_frame_len: u32,
}

impl SessionView {
    /// A request that waits fits the state of the session: a bind request
    /// waits only while its answer is due, an unbind request likewise, and a
    /// submitted message only while the session is bound or unbinding, under
    /// a place that was given out.
    pub open spec fn fits(self, request: PendingRequest) -> bool {
        match request {
            PendingRequest::Bind => self.state is AwaitingBindResp,
            PendingRequest::Submit { message } => message < self.submitted && (self.state is Bound
                || self.state is AwaitingUnbindResp),
            PendingRequest::Unbind => self.state is AwaitingUnbindResp,
        }
    }

    /// Every waiting request has a sequence number that was assigned and
    /// fits the state of the session, messages wait in the order in which
    /// they were submitted, none waits before the session binds or after it
    /// is over, and fewer messages were submitted than numbers were
    /// assigned.
    pub open spec fn wf(self) -> bool {
        &&& FIRST_SEQUENCE <= self.next_sequence <= LAST_SEQUENCE + 1
        &&& self.submitted < self.next_sequence
        &&& self.pending.dom().finite()
        &&& forall|k: u32| #[trigger]
            self.pending.contains_key(k) ==> FIRST_SEQUENCE <= k < self.next_sequence
                && self.fits(self.pending[k])
        &&& forall|j: u32, k: u32|
            #![trigger self.pending.contains_key(j), self.pending.contains_key(k)]
            self.pending.contains_key(j) && self.pending.contains_key(k) && j < k
                && self.pending[j] is Submit && self.pending[k] is Submit
                ==> self.pending[j]->message < self.pending[k]->message
        &&& (self.state is Idle || self.state is Connecting || self.state is Closed)
            ==> self.pending == Map::<u32, PendingRequest>::empty()
    }

    pub open spec fn initial(data_coding: DataCoding, max_frame_len: u32) -> SessionView {
        SessionView {
            state: SessionState::Idle,
            next_sequence: FIRST_SEQUENCE,
            submitted: 0,
            pending: Map::empty(),
            data_coding,
            max_frame_len,
        }
    }

    /// The session in another state, with the same requests waiting.
    pub open spec fn moved_to(self, state: SessionState) -> SessionView {
        SessionView {
            state,
            next_sequence: self.next_sequence,
            submitted: self.submitted,
            pending: self.pending,
            data_coding: self.data_coding,
            max_frame_len: self.max_frame_len,
        }
    }

    /// The session bound: the bind request waits no more.
    pub open spec fn bound(self) -> SessionView {
        SessionView {
            state: SessionState::Bound,
            next_sequence: self.next_sequence,
            submitted: self.submitted,
            pending: Map::empty(),
            data_coding: self.data_coding,
            max_frame_len: self.max_frame_len,
        }
    }

    /// The session over: no request waits any more.
    pub open spec fn closed(self, reason: CloseReason) -> SessionView {
        SessionView {
            state: SessionState::Closed(reason),
            next_sequence: self.next_sequence,
            submitted: self.submitted,
            pending: Map::empty(),
            data_coding: self.data_coding,
            max_frame_len: self.max_frame_len,
        }
    }

    /// A sequence number is left to assign.
    pub open spec fn can_assign(self) -> bool {
        self.next_sequence <= LAST_SEQUENCE
    }

    /// The session after `request` was sent under the next sequence number.
    pub open spec fn after_request(self, request: PendingRequest, state: SessionState) -> SessionView {
        SessionView {
            state,
            next_sequence: (self.next_sequence + 1) as u32,
            submitted: if request is Submit {
                (self.submitted + 1) as u32
            } else {
                self.submitted
            },
            pending: self.pending.insert(self.next_sequence, request),
            data_coding: self.data_coding,
            max_frame_len: self.max_frame_len,
        }
    }

    /// A request frame under the next sequence number.
    pub open spec fn request(self, body: BodyView) -> FrameView {
        FrameView { command_status: STATUS_OK, sequence_number: self.next_sequence, body }
    }

    /// The transport is being dialled: an idle session starts to connect.
    pub open spec fn connect(self) -> (SessionView, Result<(), ProtocolError>) {
        if self.state is Idle {
            (self.moved_to(SessionState::Connecting), Ok(()))
        } else {
            (self, Err(ProtocolError::NotIdle))
        }
    }

    /// A connecting session binds: its request waits for the answer.
    pub open spec fn bind(self, credentials: CredentialsView) -> (
        SessionView,
        Result<FrameView, ProtocolError>,
    ) {
        if !(self.state is Connecting) {
            (self, Err(ProtocolError::NotConnecting))
        } else if !self.can_assign() {
            (self, Err(ProtocolError::SequenceExhausted))
        } else {
            (
                self.after_request(PendingRequest::Bind, SessionState::AwaitingBindResp),
                Ok(self.request(BodyView::BindTransceiver(credentials.bind()))),
            )
        }
    }

    /// A bound session submits a message, and stays bound. Outside that
    /// state the message is refused before it is even looked at.
    pub open spec fn submit(self, sms: SmsView) -> (SessionView, Result<FrameView, SessionError>) {
        if !(self.state is Bound) {
            (self, Err(SessionError::Protocol(ProtocolError::NotBound)))
        } else {
            match sms.submit_body(self.data_coding) {
                Err(e) => (self, Err(SessionError::Config(e))),
                Ok(body) => if !self.can_assign() {
                    (self, Err(SessionError::Protocol(ProtocolError::SequenceExhausted)))
                } else {
                    (
                        self.after_request(
                            PendingRequest::Submit { message: self.submitted },
                            SessionState::Bound,
                        ),
                        Ok(self.request(BodyView::SubmitSm(body))),
                    )
                },
            }
        }
    }

    /// A bound session unbinds: its request waits for the answer.
    pub open spec fn unbind(self) -> (SessionView, Result<FrameView, ProtocolError>) {
        if !(self.state is Bound) {
            (self, Err(ProtocolError::NotBound))
        } else if !self.can_assign() {
            (self, Err(ProtocolError::SequenceExhausted))
        } else {
            (
                self.after_request(PendingRequest::Unbind, SessionState::AwaitingUnbindResp),
                Ok(self.request(BodyView::Unbind)),
            )
        }
    }

    /// A submitted message waits for its answer under `sequence`.
    pub open spec fn awaits_submit(self, sequence: u32) -> bool {
        self.pending.contains_key(sequence) && self.pending[sequence] is Submit
    }

    /// What a frame from the peer makes of the session, and what is to be
    /// done about it.
    ///
    /// While the answer to the bind request is due, that answer with status
    /// success binds the session; the same answer with another status, and
    /// every other frame, closes it as `AuthFailed`.
    ///
    /// While the session is bound or waits for the answer to its unbind
    /// request: the answer to a submitted message is looked up by its
    /// sequence number, and either reported and forgotten or noted as
    /// orphaned; a delivered message is acknowledged; the answer to an
    /// unbind request that is due, with status success, closes the session
    /// as `Normal`. Everything else is ignored.
    ///
    /// In the other states every frame is ignored.
    pub open spec fn receive(self, f: FrameView) -> (SessionView, ActionView) {
        let ignored = ActionView::Ignored { command_id: f.command_id(), status: f.command_status };
        match self.state {
            SessionState::AwaitingBindResp => match f.body {
                BodyView::BindTransceiverResp(r) => if f.command_status == STATUS_OK {
                    (self.bound(), ActionView::Bound { system_id: r.system_id })
                } else {
                    (
                        self.closed(CloseReason::AuthFailed),
                        ActionView::Rejected(
                            AuthenticationError::Rejected { status: f.command_status },
                        ),
                    )
                },
                _ => (
                    self.closed(CloseReason::AuthFailed),
                    ActionView::Rejected(
                        AuthenticationError::UnexpectedPdu { command_id: f.command_id() },
                    ),
                ),
            },
            SessionState::Bound | SessionState::AwaitingUnbindResp => match f.body {
                BodyView::SubmitSmResp(r) => if self.awaits_submit(f.sequence_number) {
                    (
                        SessionView {
                            state: self.state,
                            next_sequence: self.next_sequence,
                            submitted: self.submitted,
                            pending: self.pending.remove(f.sequence_number),
                            data_coding: self.data_coding,
            max_frame_len: self.max_frame_len,
                        },
                        ActionView::Report(
                            SubmitOutcomeView {
                                sequence: f.sequence_number,
                                message: self.pending[f.sequence_number]->message,
                                status: f.command_status,
                                message_id: r.message_id,
                            },
                        ),
                    )
                } else {
                    (self, ActionView::Orphaned { sequence: f.sequence_number })
                },
                BodyView::DeliverSm(m) => (
                    self,
                    ActionView::Deliver { message: m, reply: acknowledgement(f.sequence_number) },
                ),
                BodyView::UnbindResp => if self.state is AwaitingUnbindResp && f.command_status
                    == STATUS_OK {
                    (self.closed(CloseReason::Normal), ActionView::Finished)
                } else {
                    (self, ignored)
                },
                _ => (self, ignored),
            },
            _ => (self, ignored),
        }
    }

    /// The transport closed: a session that was not over is over now, as
    /// `Unexpected`.
    pub open spec fn transport_closed(self) -> SessionView {
        if self.state is Closed {
            self
        } else {
            self.closed(CloseReason::Unexpected)
        }
    }

    /// The answer to a bind or unbind request did not come in time: the
    /// session is over, as `Timeout`. In every other state nothing was due.
    pub open spec fn timed_out(self) -> SessionView {
        if self.state is AwaitingBindResp || self.state is AwaitingUnbindResp {
            self.closed(CloseReason::Timeout)
        } else {
            self
        }
    }

    /// The codec refused what came in. A declared length that is too short
    /// or too large leaves no frame boundary to go on from: a session that
    /// was not over is over now, as `Protocol`. A body that does not read is
    /// one frame to skip.
    pub open spec fn decode_failed(self, error: FrameDecodeError) -> SessionView {
        if self.state is Closed || error is Truncated {
            self
        } else {
            self.closed(CloseReason::Protocol)
        }
    }

    /// What the bytes that were read make of the session: the actions for
    /// the frames at the front of `buf`, in the order of the frames, and how
    /// many bytes of `buf` are done with.
    ///
    /// Frame after frame is decoded and received, and a frame whose body
    /// does not read is skipped, until the session is over, the bytes left
    /// are no whole frame, or a declared length is too short or too large.
    pub open spec fn feed(self, buf: Seq<u8>) -> (SessionView, Seq<ActionView>, int)
        decreases buf.len(),
    {
        let (found, used) = decode_spec(buf, self.max_frame_len);
        let rest = buf.subrange(used, buf.len() as int);
        if self.state is Closed {
            (self, Seq::empty(), 0)
        } else {
            match found {
                Ok(None) => (self, Seq::empty(), 0),
                Ok(Some(f)) => if 0 < used <= buf.len() {
                    let (after, action) = self.receive(f);
                    let (last, more, n) = after.feed(rest);
                    (last, seq![action] + more, used + n)
                } else {
                    (self, Seq::empty(), 0)
                },
                Err(e) => if 0 < used <= buf.len() {
                    let (last, more, n) = self.decode_failed(e).feed(rest);
                    (last, seq![ActionView::Undecodable(e)] + more, used + n)
                } else {
                    (self.decode_failed(e), seq![ActionView::Undecodable(e)], 0)
                },
            }
        }
    }

    /// How the session ended, once it is over: with success after the peer
    /// acknowledged the unbind request, with a failed authentication after a
    /// bind request that led nowhere, with a connection error after the
    /// transport closed, and with a protocol error that names the reason
    /// after a timeout or a lost frame boundary.
    pub open spec fn outcome(self) -> Option<SessionOutcome> {
        match self.state {
            SessionState::Closed(CloseReason::Normal) => Some(SessionOutcome::Success),
            SessionState::Closed(CloseReason::AuthFailed) => Some(
                SessionOutcome::AuthenticationFailed,
            ),
            SessionState::Closed(CloseReason::Unexpected) => Some(SessionOutcome::ConnectionError),
            SessionState::Closed(reason) => Some(SessionOutcome::ProtocolError(reason)),
            _ => None,
        }
    }
}

/// What a list of actions stands for.
pub open spec fn actions_view(actions: Seq<Action>) -> Seq<ActionView> {
    actions.map_values(|a: Action| a@)
}

proof fn lemma_actions_view_push(actions: Seq<Action>, action: Action)
    ensures
        actions_view(actions.push(action)) == actions_view(actions).push(action@),
{
    assert(actions_view(actions.push(action)) =~= actions_view(actions).push(action@));
}

/// What a frame or its refusal stand for.
pub open spec fn frame_view<E>(r: Result<Frame, E>) -> Result<FrameView, E> {
    match r {
        Ok(f) => Ok(f@),
        Err(e) => Err(e),
    }
}

/// One session with a peer.
pub struct Session {
    state: SessionState,
    next_sequence: u32,
    submitted: u32,
    pending: HashMap<u32, PendingRequest>,
    data_coding: DataCoding,
    max_frame_len: u32,
}

impl View for Session {
    type V = SessionView;

    closed spec fn view(&self) -> SessionView {
        SessionView {
            state: self.state,
            next_sequence: self.next_sequence,
            submitted: self.submitted,
            pending: self.pending@,
            data_coding: self.data_coding,
            max_frame_len: self.max_frame_len,
        }
    }
}

impl Session {
    /// An idle session that will send message text in the charset of
    /// `data_coding` and take frames of up to `max_frame_len` bytes from the
    /// peer. Its first request gets the sequence number 1.
    pub fn new(data_coding: DataCoding, max_frame_len: u32) -> (s: Session)
        ensures
            s@ == SessionView::initial(data_coding, max_frame_len),
            s@.wf(),
    {
        Session {
            state: SessionState::Idle,
            next_sequence: FIRST_SEQUENCE,
            submitted: 0,
            pending: HashMap::new(),
            data_coding,
            max_frame_len,
        }
    }

    pub fn state(&self) -> (s: SessionState)
        ensures
            s == self@.state,
    {
        self.state
    }

    /// The sequence number that the next request gets.
    pub fn next_sequence(&self) -> (n: u32)
        ensures
            n == self@.next_sequence,
    {
        self.next_sequence
    }

    /// How many requests wait for their answer.
    pub fn pending_count(&self) -> (n: usize)
        ensures
            n == self@.pending.len(),
    {
        self.pending.len()
    }

    /// The request that waits for its answer under `sequence`, if one does.
    pub fn pending(&self, sequence: u32) -> (r: Option<PendingRequest>)
        ensures
            r is Some <==> self@.pending.contains_key(sequence),
            r is Some ==> r->0 == self@.pending[sequence],
    {
        match self.pending.get(&sequence) {
            Some(p) => Some(*p),
            None => None,
        }
    }

    /// How the session ended, once it is over.
    pub fn outcome(&self) -> (o: Option<SessionOutcome>)
        ensures
            o == self@.outcome(),
    {
        match self.state {
            SessionState::Closed(CloseReason::Normal) => Some(SessionOutcome::Success),
            SessionState::Closed(CloseReason::AuthFailed) => Some(
                SessionOutcome::AuthenticationFailed,
            ),
            SessionState::Closed(CloseReason::Unexpected) => Some(SessionOutcome::ConnectionError),
            SessionState::Closed(reason) => Some(SessionOutcome::ProtocolError(reason)),
            _ => None,
        }
    }

    fn close(&mut self, reason: CloseReason)
        ensures
            final(self)@ == old(self)@.closed(reason),
    {
        self.pending.clear();
        self.state = SessionState::Closed(reason);
    }

    /// Sends nothing yet: takes the next sequence number for `body` and
    /// remembers the request before the frame is handed out.
    fn assign(&mut self, request: PendingRequest, state: SessionState, body: Body) -> (f: Frame)
        requires
            old(self)@.wf(),
            old(self)@.can_assign(),
        ensures
            final(self)@ == old(self)@.after_request(request, state),
            f@ == old(self)@.request(body@),
    {
        let sequence_number = self.next_sequence;
        self.pending.insert(sequence_number, request);
        self.next_sequence = sequence_number + 1;
        match request {
            PendingRequest::Submit { .. } => {
                self.submitted = self.submitted + 1;
            },
            _ => {},
        }
        self.state = state;
        Frame { command_status: STATUS_OK, sequence_number, body }
    }

    /// The transport is being dialled.
    pub fn connect(&mut self) -> (r: Result<(), ProtocolError>)
        requires
            old(self)@.wf(),
        ensures
            (final(self)@, r) == old(self)@.connect(),
            final(self)@.wf(),
    {
        match self.state {
            SessionState::Idle => {
                self.state = SessionState::Connecting;
                Ok(())
            },
            _ => Err(ProtocolError::NotIdle),
        }
    }

    /// The bind request to send for `credentials`: interface version 3.4,
    /// type of number and numbering plan unknown, no address range.
    pub fn command_bind_transceiver(&mut self, credentials: &SMPPCredentials) -> (r: Result<
        Frame,
        ProtocolError,
    >)
        requires
            old(self)@.wf(),
        ensures
            (final(self)@, frame_view(r)) == old(self)@.bind(credentials@),
            final(self)@.wf(),
            r is Ok ==> r->Ok_0@.wf(),
    {
        match self.state {
            SessionState::Connecting => {},
            _ => {
                return Err(ProtocolError::NotConnecting);
            },
        }
        if self.next_sequence > LAST_SEQUENCE {
            return Err(ProtocolError::SequenceExhausted);
        }
        let body = Body::BindTransceiver(credentials.bind());
        let frame = self.assign(PendingRequest::Bind, SessionState::AwaitingBindResp, body);
        proof {
            lemma_after_request_wf(
                old(self)@,
                PendingRequest::Bind,
                SessionState::AwaitingBindResp,
            );
        }
        Ok(frame)
    }

    /// The request to send for `sms`, which from now on waits for its
    /// answer. Nothing is to be sent where this fails.
    pub fn command_submit_sm(&mut self, sms: &SMS) -> (r: Result<Frame, SessionError>)
        requires
            old(self)@.wf(),
        ensures
            (final(self)@, frame_view(r)) == old(self)@.submit(sms@),
            final(self)@.wf(),
            r is Ok ==> r->Ok_0@.wf(),
    {
        match self.state {
            SessionState::Bound => {},
            _ => {
                return Err(SessionError::Protocol(ProtocolError::NotBound));
            },
        }
        let message = match sms.submit_body(self.data_coding) {
            Ok(m) => m,
            Err(e) => {
                return Err(SessionError::Config(e));
            },
        };
        if self.next_sequence > LAST_SEQUENCE {
            return Err(SessionError::Protocol(ProtocolError::SequenceExhausted));
        }
        let request = PendingRequest::Submit { message: self.submitted };
        let frame = self.assign(request, SessionState::Bound, Body::SubmitSm(message));
        proof {
            lemma_after_request_wf(old(self)@, request, SessionState::Bound);
        }
        Ok(frame)
    }

    /// The unbind request to send. After it the session accepts no message
    /// any more.
    pub fn command_unbind(&mut self) -> (r: Result<Frame, ProtocolError>)
        requires
            old(self)@.wf(),
        ensures
            (final(self)@, frame_view(r)) == old(self)@.unbind(),
            final(self)@.wf(),
            r is Ok ==> r->Ok_0@.wf(),
    {
        match self.state {
            SessionState::Bound => {},
            _ => {
                return Err(ProtocolError::NotBound);
            },
        }
        if self.next_sequence > LAST_SEQUENCE {
            return Err(ProtocolError::SequenceExhausted);
        }
        let frame = self.assign(
            PendingRequest::Unbind,
            SessionState::AwaitingUnbindResp,
            Body::Unbind,
        );
        proof {
            lemma_after_request_wf(
                old(self)@,
                PendingRequest::Unbind,
                SessionState::AwaitingUnbindResp,
            );
        }
        Ok(frame)
    }

    /// Takes a frame that the peer sent and says what is to be done about
    /// it.
    pub fn receive(&mut self, frame: Frame) -> (action: Action)
        requires
            old(self)@.wf(),
        ensures
            (final(self)@, action@) == old(self)@.receive(frame@),
            final(self)@.wf(),
    {
        proof {
            lemma_receive_wf(old(self)@, frame@);
        }
        let command_id = frame.body.command_id();
        let status = frame.command_status;
        let sequence = frame.sequence_number;
        match self.state {
            SessionState::AwaitingBindResp => match frame.body {
                Body::BindTransceiverResp(r) => {
                    if status == STATUS_OK {
                        self.pending.clear();
                        self.state = SessionState::Bound;
                        Action::Bound { system_id: r.system_id }
                    } else {
                        self.close(CloseReason::AuthFailed);
                        Action::Rejected(AuthenticationError::Rejected { status })
                    }
                },
                _ => {
                    self.close(CloseReason::AuthFailed);
                    Action::Rejected(AuthenticationError::UnexpectedPdu { command_id })
                },
            },
            SessionState::Bound | SessionState::AwaitingUnbindResp => match frame.body {
                Body::SubmitSmResp(r) => {
                    match self.pending(sequence) {
                        Some(PendingRequest::Submit { message }) => {
                            self.pending.remove(&sequence);
                            Action::Report(
                                SubmitOutcome {
                                    sequence,
                                    message,
                                    status,
                                    message_id: r.message_id,
                                },
                            )
                        },
                        _ => Action::Orphaned { sequence },
                    }
                },
                Body::DeliverSm(message) => {
                    let reply = Frame {
                        command_status: STATUS_OK,
                        sequence_number: sequence,
                        body: Body::DeliverSmResp(
                            MessageResp { message_id: Vec::new(), optional: Vec::new() },
                        ),
                    };
                    Action::Deliver { message, reply }
                },
                Body::UnbindResp => {
                    let due = match self.state {
                        SessionState::AwaitingUnbindResp => true,
                        _ => false,
                    };
                    if due && status == STATUS_OK {
                        self.close(CloseReason::Normal);
                        Action::Finished
                    } else {
                        Action::Ignored { command_id, status }
                    }
                },
                _ => Action::Ignored { command_id, status },
            },
            _ => Action::Ignored { command_id, status },
        }
    }

    /// Takes the bytes that were read and not yet done with, and says what
    /// is to be done, action by action in the order of the frames, and how
    /// many of the bytes are done with. The caller carries each action out
    /// before the next, keeps the bytes that are left for the next read, and
    /// stops reading once the session is over.
    pub fn feed(&mut self, buffer: &[u8]) -> (r: (Vec<Action>, usize))
        requires
            old(self)@.wf(),
        ensures
            (final(self)@, actions_view(r.0@), r.1 as int) == old(self)@.feed(buffer@),
            final(self)@.wf(),
            r.1 <= buffer@.len(),
    {
        let mut actions: Vec<Action> = Vec::new();
        let mut pos: usize = 0;
        let mut done = false;
        proof {
            assert(actions_view(actions@) =~= Seq::<ActionView>::empty());
            assert(buffer@.subrange(0, buffer@.len() as int) =~= buffer@);
            let (last, more, n) = self@.feed(buffer@);
            assert(actions_view(actions@) + more =~= more);
        }
        while !done
            invariant
                self@.wf(),
                pos <= buffer@.len(),
                old(self)@.max_frame_len == self@.max_frame_len,
                old(self)@.feed(buffer@) == if done {
                    (self@, actions_view(actions@), pos as int)
                } else {
                    let (last, more, n) = self@.feed(
                        buffer@.subrange(pos as int, buffer@.len() as int),
                    );
                    (last, actions_view(actions@) + more, pos + n)
                },
            decreases buffer@.len() - pos + if done { 0int } else { 1int },
        {
            let ghost before = self@;
            let ghost sofar = actions_view(actions@);
            let ghost tail = buffer@.subrange(pos as int, buffer@.len() as int);
            let closed = match self.state {
                SessionState::Closed(_) => true,
                _ => false,
            };
            if closed {
                done = true;
                assert(sofar + Seq::<ActionView>::empty() =~= sofar);
            } else {
                let (found, used) = decode(slice_subrange(buffer, pos, buffer.len()), self.max_frame_len);
                proof {
                    assert(tail.subrange(used as int, tail.len() as int) =~= buffer@.subrange(
                        pos + used,
                        buffer@.len() as int,
                    ));
                }
                match found {
                    Ok(None) => {
                        done = true;
                        assert(sofar + Seq::<ActionView>::empty() =~= sofar);
                    },
                    Ok(Some(frame)) => {
                        let action = self.receive(frame);
                        proof {
                            let (last, more, n) = self@.feed(
                                buffer@.subrange(pos + used, buffer@.len() as int),
                            );
                            lemma_actions_view_push(actions@, action);
                            assert(sofar + (seq![action@] + more) =~= sofar.push(action@) + more);
                        }
                        actions.push(action);
                        pos = pos + used;
                    },
                    Err(error) => {
                        self.decode_failed(error);
                        let action = Action::Undecodable(error);
                        proof {
                            let (last, more, n) = self@.feed(
                                buffer@.subrange(pos + used, buffer@.len() as int),
                            );
                            lemma_actions_view_push(actions@, action);
                            assert(sofar + (seq![action@] + more) =~= sofar.push(action@) + more);
                            assert(sofar + seq![action@] =~= sofar.push(action@));
                        }
                        actions.push(action);
                        if used == 0 {
                            done = true;
                        } else {
                            pos = pos + used;
                        }
                    },
                }
            }
        }
        (actions, pos)
    }

    /// The transport closed.
    pub fn transport_closed(&mut self)
        requires
            old(self)@.wf(),
        ensures
            final(self)@ == old(self)@.transport_closed(),
            final(self)@.wf(),
    {
        match self.state {
            SessionState::Closed(_) => {},
            _ => {
                self.close(CloseReason::Unexpected);
            },
        }
    }

    /// The answer to a bind or unbind request did not come in time.
    pub fn timed_out(&mut self)
        requires
            old(self)@.wf(),
        ensures
            final(self)@ == old(self)@.timed_out(),
            final(self)@.wf(),
    {
        match self.state {
            SessionState::AwaitingBindResp | SessionState::AwaitingUnbindResp => {
                self.close(CloseReason::Timeout);
            },
            _ => {},
        }
    }

    /// The codec refused what came in.
    pub fn decode_failed(&mut self, error: FrameDecodeError)
        requires
            old(self)@.wf(),
        ensures
            final(self)@ == old(self)@.decode_failed(error),
            final(self)@.wf(),
    {
        match (self.state, error) {
            (SessionState::Closed(_), _) => {},
            (_, FrameDecodeError::Truncated) => {},
            _ => {
                self.close(CloseReason::Protocol);
            },
        }
    }
}

/// A request under the next sequence number keeps the session well formed,
/// where it is one of the three that the session sends: the bind request of a
/// connecting session, and a message or the unbind request of a bound one.
pub proof fn lemma_after_request_wf(s: SessionView, request: PendingRequest, state: SessionState)
    requires
        s.wf(),
        s.can_assign(),
        (s.state is Connecting && request is Bind && state is AwaitingBindResp) || (s.state
            is Bound && request == (PendingRequest::Submit { message: s.submitted }) && state
            is Bound) || (s.state is Bound && request is Unbind && state is AwaitingUnbindResp),
    ensures
        s.after_request(request, state).wf(),
{
    let t = s.after_request(request, state);
    assert forall|k: u32| #[trigger] t.pending.contains_key(k) implies FIRST_SEQUENCE <= k
        < t.next_sequence && t.fits(t.pending[k]) by {
        if k != s.next_sequence {
            assert(s.pending.contains_key(k));
        }
    }
}

/// Whatever comes in, the session stays well formed.
pub proof fn lemma_receive_wf(s: SessionView, f: FrameView)
    requires
        s.wf(),
    ensures
        s.receive(f).0.wf(),
{
    let t = s.receive(f).0;
    assert forall|k: u32| #[trigger] t.pending.contains_key(k) implies FIRST_SEQUENCE <= k
        < t.next_sequence && t.fits(t.pending[k]) by {
        assert(s.pending.contains_key(k));
    }
}

/// Whatever bytes come in, the session stays well formed and no sequence
/// number is taken; no more bytes are done with than came; and a session that
/// waits for the answer to its unbind request goes on waiting or is over.
pub proof fn lemma_feed_wf(s: SessionView, buf: Seq<u8>)
    requires
        s.wf(),
    ensures
        s.feed(buf).0.wf(),
        s.feed(buf).0.next_sequence == s.next_sequence,
        0 <= s.feed(buf).2 <= buf.len(),
        s.state is AwaitingUnbindResp || s.state is Closed ==> s.feed(buf).0.state
            is AwaitingUnbindResp || s.feed(buf).0.state is Closed,
    decreases buf.len(),
{
    let (found, used) = decode_spec(buf, s.max_frame_len);
    let rest = buf.subrange(used, buf.len() as int);
    if !(s.state is Closed) && 0 < used <= buf.len() {
        match found {
            Ok(Some(f)) => {
                lemma_receive_wf(s, f);
                lemma_feed_wf(s.receive(f).0, rest);
            },
            Err(e) => {
                lemma_feed_wf(s.decode_failed(e), rest);
            },
            _ => {},
        }
    }
}

/// The bytes of a frame, fed to a session that is not over, are received
/// as that frame, and what follows them is fed to the session after it.
pub proof fn lemma_feed_receives(s: SessionView, f: FrameView, following: Seq<u8>)
    requires
        !(s.state is Closed),
        f.wf(),
        f.command_length() <= s.max_frame_len,
    ensures
        s.feed(f.bytes() + following) == (
            s.receive(f).0.feed(following).0,
            seq![s.receive(f).1] + s.receive(f).0.feed(following).1,
            f.command_length() + s.receive(f).0.feed(following).2,
        ),
{
    let buf = f.bytes() + following;
    let n = f.command_length();
    assert(decode_spec(buf, s.max_frame_len) == (
        Ok::<Option<FrameView>, FrameDecodeError>(Some(f)),
        n,
    )) by {
        lemma_decode_encode(f, following, s.max_frame_len);
    }
    assert(0 < n <= buf.len() && buf.subrange(n, buf.len() as int) == following) by {
        lemma_frame_length(f);
        assert(buf.subrange(n, buf.len() as int) =~= following);
    }
}

} // verus!

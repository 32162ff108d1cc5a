//! The commands of a transceiver session as typed values, each with the
//! bytes of its body and with the reading of a body back into it.

use crate::wire::{
    be32, c_string_bytes, lemma_byte_written_back, lemma_c_string_written_back,
    lemma_nul_position_bounds, lemma_octets_written_back, lemma_take_byte, lemma_take_c_string,
    lemma_take_octets, nul_free, octets_bytes, Cursor,
};
use vstd::prelude::*;

verus! {

/// Bytes of the header: length, command identifier, status, sequence number.
pub const HEADER_LEN: usize = 16;

pub const SUBMIT_SM: u32 = 0x0000_0004;

pub const DELIVER_SM: u32 = 0x0000_0005;

pub const UNBIND: u32 = 0x0000_0006;

pub const BIND_TRANSCEIVER: u32 = 0x0000_0009;

pub const SUBMIT_SM_RESP: u32 = 0x8000_0004;

pub const DELIVER_SM_RESP: u32 = 0x8000_0005;

pub const UNBIND_RESP: u32 = 0x8000_0006;

pub const BIND_TRANSCEIVER_RESP: u32 = 0x8000_0009;

/// The status of a command that succeeded, and of every request.
pub const STATUS_OK: u32 = 0;

/// Each limit is the greatest length of the string on the wire, its closing
/// zero counted.
pub const SYSTEM_ID_LIMIT: usize = 16;

pub const PASSWORD_LIMIT: usize = 9;

pub const SYSTEM_TYPE_LIMIT: usize = 13;

pub const ADDRESS_RANGE_LIMIT: usize = 41;

pub const SERVICE_TYPE_LIMIT: usize = 6;

pub const ADDRESS_LIMIT: usize = 21;

pub const TIME_LIMIT: usize = 17;

pub const MESSAGE_ID_LIMIT: usize = 65;

/// The greatest length of message content: what one length byte announces.
pub const CONTENT_MAX: usize = 255;

/// The interface version byte of protocol version 3.4.
pub const INTERFACE_VERSION_3_4: u8 = 0x34;

/// Type of number and numbering plan indicator "unknown".
pub const TON_UNKNOWN: u8 = 0;

pub const NPI_UNKNOWN: u8 = 0;

/// The ESM class of a submitted message, which is that of `rusmpp`'s default
/// ESM class: default messaging mode, default message type, no GSM feature,
/// and of the two ANSI-41 bits the one for a delivery acknowledgement.
pub const ESM_CLASS_DEFAULT: u8 = 0x10;

/// Registered delivery that asks for every receipt: the final delivery
/// receipt, both acknowledgements of the receiving entity, and intermediate
/// notifications.
pub const REQUEST_ALL_RECEIPTS: u8 = 0x1d;

/// The identifier is one of the eight commands that have a variant of
/// their own.
pub open spec fn recognised(command_id: u32) -> bool {
    command_id == SUBMIT_SM || command_id == DELIVER_SM || command_id == UNBIND || command_id
        == BIND_TRANSCEIVER || command_id == SUBMIT_SM_RESP || command_id == DELIVER_SM_RESP
        || command_id == UNBIND_RESP || command_id == BIND_TRANSCEIVER_RESP
}

/// `s` can stand as a string under `limit`: no zero byte in it, and room for
/// the closing zero.
pub open spec fn c_string_fits(s: Seq<u8>, limit: int) -> bool {
    nul_free(s) && s.len() < limit
}

/// Body of a bind request.
#[derive(Debug, Clone, PartialEq, Eq)]
pub struct Bind {
    pub system_id: Vec<u8>,
    pub password: Vec<u8>,
    pub system_type: Vec<u8>,
    pub interface_version: u8,
    pub addr_ton: u8,
    pub addr_npi: u8,
    pub address_range: Vec<u8>,
}

pub struct BindView {
    pub system_id: Seq<u8>,
    pub password: Seq<u8>,
    pub system_type: Seq<u8>,
    pub interface_version: u8,
    pub addr_ton: u8,
    pub addr_npi: u8,
    pub address_range: Seq<u8>,
}

impl View for Bind {
    type V = BindView;

    open spec fn view(&self) -> BindView {
        BindView {
            system_id: self.system_id@,
            password: self.password@,
            system_type: self.system_type@,
            interface_version: self.interface_version,
            addr_ton: self.addr_ton,
            addr_npi: self.addr_npi,
            address_range: self.address_range@,
        }
    }
}

impl BindView {
    pub open spec fn wf(self) -> bool {
        &&& c_string_fits(self.system_id, SYSTEM_ID_LIMIT as int)
        &&& c_string_fits(self.password, PASSWORD_LIMIT as int)
        &&& c_string_fits(self.system_type, SYSTEM_TYPE_LIMIT as int)
        &&& c_string_fits(self.address_range, ADDRESS_RANGE_LIMIT as int)
    }

    pub open spec fn bytes(self) -> Seq<u8> {
        c_string_bytes(self.system_id) + (c_string_bytes(self.password) + (c_string_bytes(
            self.system_type,
        ) + (seq![self.interface_version] + (seq![self.addr_ton] + (seq![self.addr_npi] + (
        c_string_bytes(self.address_range) + Seq::<u8>::empty()))))))
    }

    /// The bind request that `b` is the body of, if it is one: the seven
    /// fields, and nothing behind them.
    pub open spec fn parse(b: Seq<u8>) -> Option<BindView> {
        let c0 = Cursor::start(b);
        let c1 = c0.after_c_string(SYSTEM_ID_LIMIT as int);
        let c2 = c1.after_c_string(PASSWORD_LIMIT as int);
        let c3 = c2.after_c_string(SYSTEM_TYPE_LIMIT as int);
        let c4 = c3.after_byte();
        let c5 = c4.after_byte();
        let c6 = c5.after_byte();
        let c7 = c6.after_c_string(ADDRESS_RANGE_LIMIT as int);
        if c7.at_end() {
            Some(
                BindView {
                    system_id: c0.c_string(SYSTEM_ID_LIMIT as int),
                    password: c1.c_string(PASSWORD_LIMIT as int),
                    system_type: c2.c_string(SYSTEM_TYPE_LIMIT as int),
                    interface_version: c3.byte(),
                    addr_ton: c4.byte(),
                    addr_npi: c5.byte(),
                    address_range: c6.c_string(ADDRESS_RANGE_LIMIT as int),
                },
            )
        } else {
            None
        }
    }
}

/// Body of the answer to a bind request. `optional` holds the optional
/// parameters that follow the system identifier, as they came.
#[derive(Debug, Clone, PartialEq, Eq)]
pub struct BindResp {
    pub system_id: Vec<u8>,
    pub optional: Vec<u8>,
}

pub struct BindRespView {
    pub system_id: Seq<u8>,
    pub optional: Seq<u8>,
}

impl View for BindResp {
    type V = BindRespView;

    open spec fn view(&self) -> BindRespView {
        BindRespView { system_id: self.system_id@, optional: self.optional@ }
    }
}

impl BindRespView {
    pub open spec fn wf(self) -> bool {
        c_string_fits(self.system_id, SYSTEM_ID_LIMIT as int)
    }

    pub open spec fn bytes(self) -> Seq<u8> {
        c_string_bytes(self.system_id) + self.optional
    }

    /// The answer that `b` is the body of. A peer that refuses leaves the
    /// body out: an empty body reads as an empty system identifier.
    pub open spec fn parse(b: Seq<u8>) -> Option<BindRespView> {
        let c0 = Cursor::start(b);
        let c1 = c0.after_c_string(SYSTEM_ID_LIMIT as int);
        if b.len() == 0 {
            Some(BindRespView { system_id: Seq::empty(), optional: Seq::empty() })
        } else if c1.ok {
            Some(
                BindRespView {
                    system_id: c0.c_string(SYSTEM_ID_LIMIT as int),
                    optional: c1.remainder(),
                },
            )
        } else {
            None
        }
    }
}

/// Body of a submitted and of a delivered message: the two have one layout.
/// `optional` holds the optional parameters behind the content, as they came.
#[derive(Debug, Clone, PartialEq, Eq)]
pub struct ShortMessage {
    pub service_type: Vec<u8>,
    pub source_addr_ton: u8,
    pub source_addr_npi: u8,
    pub source_addr: Vec<u8>,
    pub dest_addr_ton: u8,
    pub dest_addr_npi: u8,
    pub destination_addr: Vec<u8>,
    pub esm_class: u8,
    pub protocol_id: u8,
    pub priority_flag: u8,
    pub schedule_delivery_time: Vec<u8>,
    pub validity_period: Vec<u8>,
    pub registered_delivery: u8,
    pub replace_if_present_flag: u8,
    pub data_coding: u8,
    pub sm_default_msg_id: u8,
    pub short_message: Vec<u8>,
    pub optional: Vec<u8>,
}

pub struct ShortMessageView {
    pub service_type: Seq<u8>,
    pub source_addr_ton: u8,
    pub source_addr_npi: u8,
    pub source_addr: Seq<u8>,
    pub dest_addr_ton: u8,
    pub dest_addr_npi: u8,
    pub destination_addr: Seq<u8>,
    pub esm_class: u8,
    pub protocol_id: u8,
    pub priority_flag: u8,
    pub schedule_delivery_time: Seq<u8>,
    pub validity_period: Seq<u8>,
    pub registered_delivery: u8,
    pub replace_if_present_flag: u8,
    pub data_coding: u8,
    pub sm_default_msg_id: u8,
    pub short_message: Seq<u8>,
    pub optional: Seq<u8>,
}

impl View for ShortMessage {
    type V = ShortMessageView;

    open spec fn view(&self) -> ShortMessageView {
        ShortMessageView {
            service_type: self.service_type@,
            source_addr_ton: self.source_addr_ton,
            source_addr_npi: self.source_addr_npi,
            source_addr: self.source_addr@,
            dest_addr_ton: self.dest_addr_ton,
            dest_addr_npi: self.dest_addr_npi,
            destination_addr: self.destination_addr@,
            esm_class: self.esm_class,
            protocol_id: self.protocol_id,
            priority_flag: self.priority_flag,
            schedule_delivery_time: self.schedule_delivery_time@,
            validity_period: self.validity_period@,
            registered_delivery: self.registered_delivery,
            replace_if_present_flag: self.replace_if_present_flag,
            data_coding: self.data_coding,
            sm_default_msg_id: self.sm_default_msg_id,
            short_message: self.short_message@,
            optional: self.optional@,
        }
    }
}

impl ShortMessageView {
    pub open spec fn wf(self) -> bool {
        &&& c_string_fits(self.service_type, SERVICE_TYPE_LIMIT as int)
        &&& c_string_fits(self.source_addr, ADDRESS_LIMIT as int)
        &&& c_string_fits(self.destination_addr, ADDRESS_LIMIT as int)
        &&& c_string_fits(self.schedule_delivery_time, TIME_LIMIT as int)
        &&& c_string_fits(self.validity_period, TIME_LIMIT as int)
        &&& self.short_message.len() <= CONTENT_MAX
    }

    /// The bytes from the registered-delivery byte on.
    pub open spec fn bytes_from_flags(self) -> Seq<u8> {
        seq![self.registered_delivery] + (seq![self.replace_if_present_flag] + (seq![
            self.data_coding,
        ] + (seq![self.sm_default_msg_id] + (octets_bytes(self.short_message) + self.optional))))
    }

    /// The bytes from the ESM class byte on.
    pub open spec fn bytes_from_class(self) -> Seq<u8> {
        seq![self.esm_class] + (seq![self.protocol_id] + (seq![self.priority_flag] + (
        c_string_bytes(self.schedule_delivery_time) + (c_string_bytes(self.validity_period)
            + self.bytes_from_flags()))))
    }

    pub open spec fn bytes(self) -> Seq<u8> {
        c_string_bytes(self.service_type) + (seq![self.source_addr_ton] + (seq![
            self.source_addr_npi,
        ] + (c_string_bytes(self.source_addr) + (seq![self.dest_addr_ton] + (seq![
            self.dest_addr_npi,
        ] + (c_string_bytes(self.destination_addr) + self.bytes_from_class()))))))
    }

    /// The message that `b` is the body of, if it is one: the seventeen
    /// fields, and behind them whatever is left as optional parameters.
    pub open spec fn parse(b: Seq<u8>) -> Option<ShortMessageView> {
        let c0 = Cursor::start(b);
        let c1 = c0.after_c_string(SERVICE_TYPE_LIMIT as int);
        let c2 = c1.after_byte();
        let c3 = c2.after_byte();
        let c4 = c3.after_c_string(ADDRESS_LIMIT as int);
        let c5 = c4.after_byte();
        let c6 = c5.after_byte();
        let c7 = c6.after_c_string(ADDRESS_LIMIT as int);
        let c8 = c7.after_byte();
        let c9 = c8.after_byte();
        let c10 = c9.after_byte();
        let c11 = c10.after_c_string(TIME_LIMIT as int);
        let c12 = c11.after_c_string(TIME_LIMIT as int);
        let c13 = c12.after_byte();
        let c14 = c13.after_byte();
        let c15 = c14.after_byte();
        let c16 = c15.after_byte();
        let c17 = c16.after_octets();
        if c17.ok {
            Some(
                ShortMessageView {
                    service_type: c0.c_string(SERVICE_TYPE_LIMIT as int),
                    source_addr_ton: c1.byte(),
                    source_addr_npi: c2.byte(),
                    source_addr: c3.c_string(ADDRESS_LIMIT as int),
                    dest_addr_ton: c4.byte(),
                    dest_addr_npi: c5.byte(),
                    destination_addr: c6.c_string(ADDRESS_LIMIT as int),
                    esm_class: c7.byte(),
                    protocol_id: c8.byte(),
                    priority_flag: c9.byte(),
                    schedule_delivery_time: c10.c_string(TIME_LIMIT as int),
                    validity_period: c11.c_string(TIME_LIMIT as int),
                    registered_delivery: c12.byte(),
                    replace_if_present_flag: c13.byte(),
                    data_coding: c14.byte(),
                    sm_default_msg_id: c15.byte(),
                    short_message: c16.octets(),
                    optional: c17.remainder(),
                },
            )
        } else {
            None
        }
    }
}

/// Body of the answer to a submitted or a delivered message. `optional`
/// holds the optional parameters behind the message identifier, as they came.
#[derive(Debug, Clone, PartialEq, Eq)]
pub struct MessageResp {
    pub message_id: Vec<u8>,
    pub optional: Vec<u8>,
}

pub struct MessageRespView {
    pub message_id: Seq<u8>,
    pub optional: Seq<u8>,
}

impl View for MessageResp {
    type V = MessageRespView;

    open spec fn view(&self) -> MessageRespView {
        MessageRespView { message_id: self.message_id@, optional: self.optional@ }
    }
}

impl MessageRespView {
    pub open spec fn wf(self) -> bool {
        c_string_fits(self.message_id, MESSAGE_ID_LIMIT as int)
    }

    pub open spec fn bytes(self) -> Seq<u8> {
        c_string_bytes(self.message_id) + self.optional
    }

    /// The answer that `b` is the body of. A peer that refuses leaves the
    /// body out: an empty body reads as an empty message identifier.
    pub open spec fn parse(b: Seq<u8>) -> Option<MessageRespView> {
        let c0 = Cursor::start(b);
        let c1 = c0.after_c_string(MESSAGE_ID_LIMIT as int);
        if b.len() == 0 {
            Some(MessageRespView { message_id: Seq::empty(), optional: Seq::empty() })
        } else if c1.ok {
            Some(
                MessageRespView {
                    message_id: c0.c_string(MESSAGE_ID_LIMIT as int),
                    optional: c1.remainder(),
                },
            )
        } else {
            None
        }
    }
}

/// What a frame carries: one variant for each command of a transceiver
/// session, and `Other` for every other command identifier, with the body as
/// it came.
#[derive(Debug, Clone, PartialEq, Eq)]
pub enum Body {
    BindTransceiver(Bind),
    BindTransceiverResp(BindResp),
    SubmitSm(ShortMessage),
    SubmitSmResp(MessageResp),
    DeliverSm(ShortMessage),
    DeliverSmResp(MessageResp),
    Unbind,
    UnbindResp,
    Other { command_id: u32, body: Vec<u8> },
}

pub enum BodyView {
    BindTransceiver(BindView),
    BindTransceiverResp(BindRespView),
    SubmitSm(ShortMessageView),
    SubmitSmResp(MessageRespView),
    DeliverSm(ShortMessageView),
    DeliverSmResp(MessageRespView),
    Unbind,
    UnbindResp,
    Other { command_id: u32, body: Seq<u8> },
}

impl View for Body {
    type V = BodyView;

    open spec fn view(&self) -> BodyView {
        match self {
            Body::BindTransceiver(b) => BodyView::BindTransceiver(b@),
            Body::BindTransceiverResp(b) => BodyView::BindTransceiverResp(b@),
            Body::SubmitSm(m) => BodyView::SubmitSm(m@),
            Body::SubmitSmResp(r) => BodyView::SubmitSmResp(r@),
            Body::DeliverSm(m) => BodyView::DeliverSm(m@),
            Body::DeliverSmResp(r) => BodyView::DeliverSmResp(r@),
            Body::Unbind => BodyView::Unbind,
            Body::UnbindResp => BodyView::UnbindResp,
            Body::Other { command_id, body } => BodyView::Other {
                command_id: *command_id,
                body: body@,
            },
        }
    }
}

impl BodyView {
    /// Every string fits its limit, the content fits its length byte, and
    /// `Other` carries no identifier that has a variant of its own.
    pub open spec fn wf(self) -> bool {
        match self {
            BodyView::BindTransceiver(b) => b.wf(),
            BodyView::BindTransceiverResp(b) => b.wf(),
            BodyView::SubmitSm(m) => m.wf(),
            BodyView::SubmitSmResp(r) => r.wf(),
            BodyView::DeliverSm(m) => m.wf(),
            BodyView::DeliverSmResp(r) => r.wf(),
            BodyView::Unbind => true,
            BodyView::UnbindResp => true,
            BodyView::Other { command_id, body } => !recognised(command_id),
        }
    }

    pub open spec fn command_id(self) -> u32 {
        match self {
            BodyView::BindTransceiver(_) => BIND_TRANSCEIVER,
            BodyView::BindTransceiverResp(_) => BIND_TRANSCEIVER_RESP,
            BodyView::SubmitSm(_) => SUBMIT_SM,
            BodyView::SubmitSmResp(_) => SUBMIT_SM_RESP,
            BodyView::DeliverSm(_) => DELIVER_SM,
            BodyView::DeliverSmResp(_) => DELIVER_SM_RESP,
            BodyView::Unbind => UNBIND,
            BodyView::UnbindResp => UNBIND_RESP,
            BodyView::Other { command_id, body } => command_id,
        }
    }

    /// The body as it stands on the wire, behind the header.
    pub open spec fn bytes(self) -> Seq<u8> {
        match self {
            BodyView::BindTransceiver(b) => b.bytes(),
            BodyView::BindTransceiverResp(b) => b.bytes(),
            BodyView::SubmitSm(m) => m.bytes(),
            BodyView::SubmitSmResp(r) => r.bytes(),
            BodyView::DeliverSm(m) => m.bytes(),
            BodyView::DeliverSmResp(r) => r.bytes(),
            BodyView::Unbind => Seq::empty(),
            BodyView::UnbindResp => Seq::empty(),
            BodyView::Other { command_id, body } => body,
        }
    }

    /// What a body `b` under the identifier `command_id` carries, or `None`
    /// where `b` is no body of that command. An identifier without a variant
    /// of its own always reads, as `Other`.
    pub open spec fn parse(command_id: u32, b: Seq<u8>) -> Option<BodyView> {
        if command_id == BIND_TRANSCEIVER {
            match BindView::parse(b) {
                Some(v) => Some(BodyView::BindTransceiver(v)),
                None => None,
            }
        } else if command_id == BIND_TRANSCEIVER_RESP {
            match BindRespView::parse(b) {
                Some(v) => Some(BodyView::BindTransceiverResp(v)),
                None => None,
            }
        } else if command_id == SUBMIT_SM {
            match ShortMessageView::parse(b) {
                Some(v) => Some(BodyView::SubmitSm(v)),
                None => None,
            }
        } else if command_id == SUBMIT_SM_RESP {
            match MessageRespView::parse(b) {
                Some(v) => Some(BodyView::SubmitSmResp(v)),
                None => None,
            }
        } else if command_id == DELIVER_SM {
            match ShortMessageView::parse(b) {
                Some(v) => Some(BodyView::DeliverSm(v)),
                None => None,
            }
        } else if command_id == DELIVER_SM_RESP {
            match MessageRespView::parse(b) {
                Some(v) => Some(BodyView::DeliverSmResp(v)),
                None => None,
            }
        } else if command_id == UNBIND {
            if b.len() == 0 {
                Some(BodyView::Unbind)
            } else {
                None
            }
        } else if command_id == UNBIND_RESP {
            if b.len() == 0 {
                Some(BodyView::UnbindResp)
            } else {
                None
            }
        } else {
            Some(BodyView::Other { command_id, body: b })
        }
    }
}

/// One protocol data unit. Its command identifier is that of its body, and
/// its length on the wire is the header and the body's bytes: neither is
/// stored, so neither can disagree with the body.
#[derive(Debug, Clone, PartialEq, Eq)]
pub struct Frame {
    pub command_status: u32,
    pub sequence_number: u32,
    pub body: Body,
}

pub struct FrameView {
    pub command_status: u32,
    pub sequence_number: u32,
    pub body: BodyView,
}

impl View for Frame {
    type V = FrameView;

    open spec fn view(&self) -> FrameView {
        FrameView {
            command_status: self.command_status,
            sequence_number: self.sequence_number,
            body: self.body@,
        }
    }
}

impl FrameView {
    /// The length that the frame declares of itself: header and body.
    pub open spec fn command_length(self) -> int {
        HEADER_LEN + self.body.bytes().len()
    }

    pub open spec fn command_id(self) -> u32 {
        self.body.command_id()
    }

    /// The body is well formed, and the frame's length fits the four bytes
    /// that declare it.
    pub open spec fn wf(self) -> bool {
        self.body.wf() && self.command_length() <= u32::MAX
    }

    /// The frame as it stands on the wire.
    pub open spec fn bytes(self) -> Seq<u8> {
        be32(self.command_length() as u32) + be32(self.command_id()) + be32(self.command_status)
            + be32(self.sequence_number) + self.body.bytes()
    }
}

/// A string that was taken off a body fits the limit it was taken under.
pub proof fn lemma_taken_c_string_fits(c: Cursor, limit: int)
    requires
        limit > 0,
    ensures
        c_string_fits(c.c_string(limit), limit),
{
    lemma_nul_position_bounds(c.rest);
}

/// The bind request read from a body is well formed.
pub proof fn lemma_parsed_bind_wf(b: Seq<u8>)
    requires
        BindView::parse(b) is Some,
    ensures
        BindView::parse(b)->0.wf(),
{
    let c0 = Cursor::start(b);
    let c1 = c0.after_c_string(SYSTEM_ID_LIMIT as int);
    let c2 = c1.after_c_string(PASSWORD_LIMIT as int);
    let c3 = c2.after_c_string(SYSTEM_TYPE_LIMIT as int);
    let c6 = c3.after_byte().after_byte().after_byte();
    lemma_taken_c_string_fits(c0, SYSTEM_ID_LIMIT as int);
    lemma_taken_c_string_fits(c1, PASSWORD_LIMIT as int);
    lemma_taken_c_string_fits(c2, SYSTEM_TYPE_LIMIT as int);
    lemma_taken_c_string_fits(c6, ADDRESS_RANGE_LIMIT as int);
}

/// The message read from a body is well formed.
pub proof fn lemma_parsed_short_message_wf(b: Seq<u8>)
    requires
        ShortMessageView::parse(b) is Some,
    ensures
        ShortMessageView::parse(b)->0.wf(),
{
    let c0 = Cursor::start(b);
    let c3 = c0.after_c_string(SERVICE_TYPE_LIMIT as int).after_byte().after_byte();
    let c6 = c3.after_c_string(ADDRESS_LIMIT as int).after_byte().after_byte();
    let c10 = c6.after_c_string(ADDRESS_LIMIT as int).after_byte().after_byte().after_byte();
    let c11 = c10.after_c_string(TIME_LIMIT as int);
    lemma_taken_c_string_fits(c0, SERVICE_TYPE_LIMIT as int);
    lemma_taken_c_string_fits(c3, ADDRESS_LIMIT as int);
    lemma_taken_c_string_fits(c6, ADDRESS_LIMIT as int);
    lemma_taken_c_string_fits(c10, TIME_LIMIT as int);
    lemma_taken_c_string_fits(c11, TIME_LIMIT as int);
}

/// Whatever reads as a body is well formed.
pub proof fn lemma_parsed_body_wf(command_id: u32, b: Seq<u8>)
    requires
        BodyView::parse(command_id, b) is Some,
    ensures
        BodyView::parse(command_id, b)->0.wf(),
        BodyView::parse(command_id, b)->0.command_id() == command_id,
{
    if command_id == BIND_TRANSCEIVER {
        lemma_parsed_bind_wf(b);
    } else if command_id == BIND_TRANSCEIVER_RESP {
        lemma_taken_c_string_fits(Cursor::start(b), SYSTEM_ID_LIMIT as int);
    } else if command_id == SUBMIT_SM || command_id == DELIVER_SM {
        lemma_parsed_short_message_wf(b);
    } else if command_id == SUBMIT_SM_RESP || command_id == DELIVER_SM_RESP {
        lemma_taken_c_string_fits(Cursor::start(b), MESSAGE_ID_LIMIT as int);
    }
}

/// Reading the bytes of a well-formed bind request gives it back.
pub proof fn lemma_bind_round_trip(v: BindView)
    requires
        v.wf(),
    ensures
        BindView::parse(v.bytes()) == Some(v),
{
    let r7 = Seq::<u8>::empty();
    let r6 = c_string_bytes(v.address_range) + r7;
    let r5 = seq![v.addr_npi] + r6;
    let r4 = seq![v.addr_ton] + r5;
    let r3 = seq![v.interface_version] + r4;
    let r2 = c_string_bytes(v.system_type) + r3;
    let r1 = c_string_bytes(v.password) + r2;
    lemma_take_c_string(v.system_id, r1, SYSTEM_ID_LIMIT as int);
    lemma_take_c_string(v.password, r2, PASSWORD_LIMIT as int);
    lemma_take_c_string(v.system_type, r3, SYSTEM_TYPE_LIMIT as int);
    lemma_take_byte(v.interface_version, r4);
    lemma_take_byte(v.addr_ton, r5);
    lemma_take_byte(v.addr_npi, r6);
    lemma_take_c_string(v.address_range, r7, ADDRESS_RANGE_LIMIT as int);
}

/// Reading the bytes of a well-formed message gives it back.
pub proof fn lemma_short_message_round_trip(v: ShortMessageView)
    requires
        v.wf(),
    ensures
        ShortMessageView::parse(v.bytes()) == Some(v),
{
    let r17 = v.optional;
    let r16 = octets_bytes(v.short_message) + r17;
    let r15 = seq![v.sm_default_msg_id] + r16;
    let r14 = seq![v.data_coding] + r15;
    let r13 = seq![v.replace_if_present_flag] + r14;
    let r12 = seq![v.registered_delivery] + r13;
    let r11 = c_string_bytes(v.validity_period) + r12;
    let r10 = c_string_bytes(v.schedule_delivery_time) + r11;
    let r9 = seq![v.priority_flag] + r10;
    let r8 = seq![v.protocol_id] + r9;
    let r7 = seq![v.esm_class] + r8;
    let r6 = c_string_bytes(v.destination_addr) + r7;
    let r5 = seq![v.dest_addr_npi] + r6;
    let r4 = seq![v.dest_addr_ton] + r5;
    let r3 = c_string_bytes(v.source_addr) + r4;
    let r2 = seq![v.source_addr_npi] + r3;
    let r1 = seq![v.source_addr_ton] + r2;
    assert(r12 == v.bytes_from_flags());
    assert(r7 == v.bytes_from_class());
    lemma_take_c_string(v.service_type, r1, SERVICE_TYPE_LIMIT as int);
    lemma_take_byte(v.source_addr_ton, r2);
    lemma_take_byte(v.source_addr_npi, r3);
    lemma_take_c_string(v.source_addr, r4, ADDRESS_LIMIT as int);
    lemma_take_byte(v.dest_addr_ton, r5);
    lemma_take_byte(v.dest_addr_npi, r6);
    lemma_take_c_string(v.destination_addr, r7, ADDRESS_LIMIT as int);
    lemma_take_byte(v.esm_class, r8);
    lemma_take_byte(v.protocol_id, r9);
    lemma_take_byte(v.priority_flag, r10);
    lemma_take_c_string(v.schedule_delivery_time, r11, TIME_LIMIT as int);
    lemma_take_c_string(v.validity_period, r12, TIME_LIMIT as int);
    lemma_take_byte(v.registered_delivery, r13);
    lemma_take_byte(v.replace_if_present_flag, r14);
    lemma_take_byte(v.data_coding, r15);
    lemma_take_byte(v.sm_default_msg_id, r16);
    lemma_take_octets(v.short_message, r17);
}

/// Reading the bytes of a well-formed body under its own identifier gives it
/// back.
pub proof fn lemma_body_round_trip(v: BodyView)
    requires
        v.wf(),
    ensures
        BodyView::parse(v.command_id(), v.bytes()) == Some(v),
{
    match v {
        BodyView::BindTransceiver(b) => {
            lemma_bind_round_trip(b);
        },
        BodyView::BindTransceiverResp(b) => {
            lemma_take_c_string(b.system_id, b.optional, SYSTEM_ID_LIMIT as int);
        },
        BodyView::SubmitSm(m) => {
            lemma_short_message_round_trip(m);
        },
        BodyView::SubmitSmResp(r) => {
            lemma_take_c_string(r.message_id, r.optional, MESSAGE_ID_LIMIT as int);
        },
        BodyView::DeliverSm(m) => {
            lemma_short_message_round_trip(m);
        },
        BodyView::DeliverSmResp(r) => {
            lemma_take_c_string(r.message_id, r.optional, MESSAGE_ID_LIMIT as int);
        },
        BodyView::Unbind => {},
        BodyView::UnbindResp => {},
        BodyView::Other { command_id, body } => {},
    }
}

/// The bind request read from a body is written back as that body.
pub proof fn lemma_bind_written_back(b: Seq<u8>)
    requires
        BindView::parse(b) is Some,
    ensures
        BindView::parse(b)->0.bytes() == b,
{
    let c0 = Cursor::start(b);
    let c1 = c0.after_c_string(SYSTEM_ID_LIMIT as int);
    let c2 = c1.after_c_string(PASSWORD_LIMIT as int);
    let c3 = c2.after_c_string(SYSTEM_TYPE_LIMIT as int);
    let c4 = c3.after_byte();
    let c5 = c4.after_byte();
    let c6 = c5.after_byte();
    let c7 = c6.after_c_string(ADDRESS_RANGE_LIMIT as int);
    lemma_c_string_written_back(c0, SYSTEM_ID_LIMIT as int);
    lemma_c_string_written_back(c1, PASSWORD_LIMIT as int);
    lemma_c_string_written_back(c2, SYSTEM_TYPE_LIMIT as int);
    lemma_byte_written_back(c3);
    lemma_byte_written_back(c4);
    lemma_byte_written_back(c5);
    lemma_c_string_written_back(c6, ADDRESS_RANGE_LIMIT as int);
    assert(c7.rest =~= Seq::<u8>::empty());
}

/// The message read from a body is written back as that body: its optional
/// parameters too, byte for byte.
pub proof fn lemma_short_message_written_back(b: Seq<u8>)
    requires
        ShortMessageView::parse(b) is Some,
    ensures
        ShortMessageView::parse(b)->0.bytes() == b,
{
    let c0 = Cursor::start(b);
    let c1 = c0.after_c_string(SERVICE_TYPE_LIMIT as int);
    let c2 = c1.after_byte();
    let c3 = c2.after_byte();
    let c4 = c3.after_c_string(ADDRESS_LIMIT as int);
    let c5 = c4.after_byte();
    let c6 = c5.after_byte();
    let c7 = c6.after_c_string(ADDRESS_LIMIT as int);
    let c8 = c7.after_byte();
    let c9 = c8.after_byte();
    let c10 = c9.after_byte();
    let c11 = c10.after_c_string(TIME_LIMIT as int);
    let c12 = c11.after_c_string(TIME_LIMIT as int);
    let c13 = c12.after_byte();
    let c14 = c13.after_byte();
    let c15 = c14.after_byte();
    let c16 = c15.after_byte();
    let v = ShortMessageView::parse(b)->0;
    lemma_c_string_written_back(c0, SERVICE_TYPE_LIMIT as int);
    lemma_byte_written_back(c1);
    lemma_byte_written_back(c2);
    lemma_c_string_written_back(c3, ADDRESS_LIMIT as int);
    lemma_byte_written_back(c4);
    lemma_byte_written_back(c5);
    lemma_c_string_written_back(c6, ADDRESS_LIMIT as int);
    lemma_byte_written_back(c7);
    lemma_byte_written_back(c8);
    lemma_byte_written_back(c9);
    lemma_c_string_written_back(c10, TIME_LIMIT as int);
    lemma_c_string_written_back(c11, TIME_LIMIT as int);
    lemma_byte_written_back(c12);
    lemma_byte_written_back(c13);
    lemma_byte_written_back(c14);
    lemma_byte_written_back(c15);
    lemma_octets_written_back(c16);
    assert(c12.rest == v.bytes_from_flags());
    assert(c7.rest == v.bytes_from_class());
}

/// Whatever reads as a body is written back as the bytes it was read from:
/// nothing is dropped on the way, and nothing is put in. The one exception
/// is an answer that was read from no bytes at all, which is written as the
/// closing zero of its empty string.
pub proof fn lemma_body_written_back(command_id: u32, b: Seq<u8>)
    requires
        BodyView::parse(command_id, b) is Some,
    ensures
        b.len() > 0 ==> BodyView::parse(command_id, b)->0.bytes() == b,
        b.len() == 0 ==> BodyView::parse(command_id, b)->0.bytes().len() <= 1,
{
    if command_id == BIND_TRANSCEIVER {
        lemma_bind_written_back(b);
    } else if command_id == BIND_TRANSCEIVER_RESP {
        if b.len() > 0 {
            lemma_c_string_written_back(Cursor::start(b), SYSTEM_ID_LIMIT as int);
        }
    } else if command_id == SUBMIT_SM || command_id == DELIVER_SM {
        lemma_short_message_written_back(b);
    } else if command_id == SUBMIT_SM_RESP || command_id == DELIVER_SM_RESP {
        if b.len() > 0 {
            lemma_c_string_written_back(Cursor::start(b), MESSAGE_ID_LIMIT as int);
        }
    } else if command_id == UNBIND || command_id == UNBIND_RESP {
        assert(b =~= Seq::<u8>::empty());
    }
}

} // verus!

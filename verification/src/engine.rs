//! What a session is given to work with: the credentials it binds with and
//! the messages it submits, each checked before anything goes on the wire.

use crate::command::{
    c_string_fits, Bind, BindView, ShortMessage, ShortMessageView, ADDRESS_LIMIT, CONTENT_MAX,
    ESM_CLASS_DEFAULT, INTERFACE_VERSION_3_4, NPI_UNKNOWN, PASSWORD_LIMIT, REQUEST_ALL_RECEIPTS, SYSTEM_ID_LIMIT,
    SYSTEM_TYPE_LIMIT, TON_UNKNOWN,
};
use crate::text::{encode_text, encoded_text, representable, DataCoding};
use rusmpp::types::{COctetString, OctetString};
use std::str::FromStr;
use vstd::prelude::*;
use vstd::utf8::{encode_utf8, is_ascii_chars, is_ascii_chars_encode_utf8};

verus! {

/// What is wrong with a field.
#[derive(Debug, Clone, Copy, PartialEq, Eq, Structural)]
pub enum Fault {
    /// It is longer than its limit.
    TooManyBytes,
    /// It is shorter than its least length.
    TooFewBytes,
    /// It does not end in a zero byte.
    NotNullTerminated,
    /// It holds a character outside ASCII.
    NotAscii,
    /// It holds a zero byte.
    NullByteFound,
    /// It holds a character that the chosen charset cannot write.
    NotInCharset,
}

/// The field that a fault was found in.
#[derive(Debug, Clone, Copy, PartialEq, Eq, Structural)]
pub enum Field {
    SystemId,
    Password,
    SystemType,
    SourceAddr,
    DestinationAddr,
    Content,
}

/// A field that an operator supplied cannot be sent as it is. It is found
/// before any byte goes on the wire.
#[derive(Debug, Clone, Copy, PartialEq, Eq, Structural)]
pub struct ConfigError {
    pub field: Field,
    pub fault: Fault,
}

/// What becomes of `text` as a string of `min` to `max` bytes, the closing
/// zero counted: its bytes and the zero, or the first fault in this order:
/// too long, too short, not ASCII, a zero byte inside.
pub open spec fn c_octet_string(text: Seq<char>, min: int, max: int) -> Result<Seq<u8>, Fault> {
    let bytes = encode_utf8(text);
    if bytes.len() + 1 > max {
        Err(Fault::TooManyBytes)
    } else if bytes.len() + 1 < min {
        Err(Fault::TooFewBytes)
    } else if !is_ascii_chars(text) {
        Err(Fault::NotAscii)
    } else if text.contains('\0') {
        Err(Fault::NullByteFound)
    } else {
        Ok(bytes.push(0))
    }
}

/// What becomes of `bytes` as content of `min` to `max` bytes: the same
/// bytes, or the fault of being too long or too short.
pub open spec fn octet_string(bytes: Seq<u8>, min: int, max: int) -> Result<Seq<u8>, Fault> {
    if bytes.len() > max {
        Err(Fault::TooManyBytes)
    } else if bytes.len() < min {
        Err(Fault::TooFewBytes)
    } else {
        Ok(bytes)
    }
}

/// What a checked field stands for.
pub open spec fn checked_view(r: Result<Vec<u8>, Fault>) -> Result<Seq<u8>, Fault> {
    match r {
        Ok(v) => Ok(v@),
        Err(f) => Err(f),
    }
}

/// `rusmpp::types::COctetString::<MIN, MAX>::from_str`, and `into_bytes` on
/// what it accepts. The contract takes from its source that it appends a
/// zero byte to the UTF-8 bytes of the text and then tests, in this order:
/// more than `MAX` bytes, fewer than `MIN`, a byte outside ASCII, a zero byte
/// before the last one; and that it keeps the bytes as they are otherwise.
#[verifier::external_body]
fn c_octet_string_from_str<const MIN: usize, const MAX: usize>(text: &str) -> (r: Result<
    Vec<u8>,
    Fault,
>)
    ensures
        checked_view(r) == c_octet_string(text@, MIN as int, MAX as int),
{
    match COctetString::<MIN, MAX>::from_str(text) {
        Ok(s) => Ok(s.into_bytes()),
        Err(rusmpp::types::c_octet_string::Error::TooManyBytes { .. }) => Err(Fault::TooManyBytes),
        Err(rusmpp::types::c_octet_string::Error::TooFewBytes { .. }) => Err(Fault::TooFewBytes),
        Err(rusmpp::types::c_octet_string::Error::NotNullTerminated) => Err(
            Fault::NotNullTerminated,
        ),
        Err(rusmpp::types::c_octet_string::Error::NotAscii) => Err(Fault::NotAscii),
        Err(rusmpp::types::c_octet_string::Error::NullByteFound) => Err(Fault::NullByteFound),
    }
}

/// `rusmpp::types::OctetString::<MIN, MAX>::new`, and `into_bytes` on what
/// it accepts. The contract takes from its source that it refuses more than
/// `MAX` bytes, then fewer than `MIN`, and keeps the bytes as they are
/// otherwise.
#[verifier::external_body]
fn octet_string_new<const MIN: usize, const MAX: usize>(bytes: &Vec<u8>) -> (r: Result<
    Vec<u8>,
    Fault,
>)
    ensures
        checked_view(r) == octet_string(bytes@, MIN as int, MAX as int),
{
    match OctetString::<MIN, MAX>::new(bytes) {
        Ok(s) => Ok(s.into_bytes()),
        Err(rusmpp::types::octet_string::Error::TooManyBytes { .. }) => Err(Fault::TooManyBytes),
        Err(rusmpp::types::octet_string::Error::TooFewBytes { .. }) => Err(Fault::TooFewBytes),
    }
}

/// The bytes of `text` without a closing zero, where `text` can stand as a
/// string of at most `limit` bytes with it.
pub open spec fn field_bytes(text: Seq<char>, limit: int) -> Result<Seq<u8>, Fault> {
    match c_octet_string(text, 1, limit) {
        Ok(bytes) => Ok(encode_utf8(text)),
        Err(f) => Err(f),
    }
}

/// Every byte of `s` is an ASCII character.
pub open spec fn is_ascii_bytes(s: Seq<u8>) -> bool {
    forall|i: int| 0 <= i < s.len() ==> s[i] <= 0x7f
}

/// A field that passed is one that a body can hold under the same limit:
/// one byte for each character, all of them ASCII and none of them zero.
pub proof fn lemma_field_bytes_fit(text: Seq<char>, limit: int)
    requires
        field_bytes(text, limit) is Ok,
    ensures
        c_string_fits(field_bytes(text, limit)->Ok_0, limit),
        is_ascii_bytes(field_bytes(text, limit)->Ok_0),
        field_bytes(text, limit)->Ok_0.len() == text.len(),
{
    is_ascii_chars_encode_utf8(text);
    let bytes = encode_utf8(text);
    assert forall|i: int| 0 <= i < bytes.len() implies bytes[i] != 0 && bytes[i] <= 0x7f by {
        assert(bytes[i] == text[i] as u8);
        assert(text.contains(text[i]));
    }
}

fn checked_field<const MAX: usize>(text: &str) -> (r: Result<Vec<u8>, Fault>)
    ensures
        checked_view(r) == field_bytes(text@, MAX as int),
{
    match c_octet_string_from_str::<1, MAX>(text) {
        Ok(mut bytes) => {
            bytes.pop();
            assert(bytes@ =~= encode_utf8(text@));
            Ok(bytes)
        },
        Err(f) => Err(f),
    }
}

/// What a session binds with. The label and the address are free text; the
/// three others are held as the bytes that go on the wire, without the
/// closing zero, and a value of this type exists only where each of them fits
/// its limit, is ASCII and has no zero byte.
#[derive(Debug)]
pub struct SMPPCredentials {
    provider_name: String,
    endpoint_addr: String,
    system_id: Vec<u8>,
    password: Vec<u8>,
    system_type: Vec<u8>,
}

pub struct CredentialsView {
    pub provider_name: Seq<char>,
    pub endpoint_addr: Seq<char>,
    pub system_id: Seq<u8>,
    pub password: Seq<u8>,
    pub system_type: Seq<u8>,
}

impl View for SMPPCredentials {
    type V = CredentialsView;

    closed spec fn view(&self) -> CredentialsView {
        CredentialsView {
            provider_name: self.provider_name@,
            endpoint_addr: self.endpoint_addr@,
            system_id: self.system_id@,
            password: self.password@,
            system_type: self.system_type@,
        }
    }
}

impl CredentialsView {
    /// Each of the three fields fits its limit, is ASCII and has no zero
    /// byte.
    pub open spec fn wf(self) -> bool {
        &&& c_string_fits(self.system_id, SYSTEM_ID_LIMIT as int)
        &&& c_string_fits(self.password, PASSWORD_LIMIT as int)
        &&& c_string_fits(self.system_type, SYSTEM_TYPE_LIMIT as int)
        &&& is_ascii_bytes(self.system_id)
        &&& is_ascii_bytes(self.password)
        &&& is_ascii_bytes(self.system_type)
    }

    /// The credentials made of these five texts, or the fault of the first
    /// of system identifier, password and system type that has one.
    pub open spec fn checked(
        provider_name: Seq<char>,
        endpoint_addr: Seq<char>,
        system_id: Seq<char>,
        password: Seq<char>,
        system_type: Seq<char>,
    ) -> Result<CredentialsView, ConfigError> {
        match field_bytes(system_id, SYSTEM_ID_LIMIT as int) {
            Err(fault) => Err(ConfigError { field: Field::SystemId, fault }),
            Ok(id) => match field_bytes(password, PASSWORD_LIMIT as int) {
                Err(fault) => Err(ConfigError { field: Field::Password, fault }),
                Ok(pw) => match field_bytes(system_type, SYSTEM_TYPE_LIMIT as int) {
                    Err(fault) => Err(ConfigError { field: Field::SystemType, fault }),
                    Ok(ty) => Ok(
                        CredentialsView {
                            provider_name,
                            endpoint_addr,
                            system_id: id,
                            password: pw,
                            system_type: ty,
                        },
                    ),
                },
            },
        }
    }

    /// The body of the bind request for these credentials: interface
    /// version 3.4, type of number and numbering plan unknown, no address
    /// range.
    pub open spec fn bind(self) -> BindView {
        BindView {
            system_id: self.system_id,
            password: self.password,
            system_type: self.system_type,
            interface_version: INTERFACE_VERSION_3_4,
            addr_ton: TON_UNKNOWN,
            addr_npi: NPI_UNKNOWN,
            address_range: Seq::empty(),
        }
    }
}

impl Clone for SMPPCredentials {
    fn clone(&self) -> (c: SMPPCredentials)
        ensures
            c@ == self@,
    {
        proof {
            use_type_invariant(self);
        }
        SMPPCredentials {
            provider_name: self.provider_name.clone(),
            endpoint_addr: self.endpoint_addr.clone(),
            system_id: self.system_id.clone(),
            password: self.password.clone(),
            system_type: self.system_type.clone(),
        }
    }
}

/// What credentials or their refusal stand for.
pub open spec fn credentials_view(r: Result<SMPPCredentials, ConfigError>) -> Result<
    CredentialsView,
    ConfigError,
> {
    match r {
        Ok(c) => Ok(c@),
        Err(e) => Err(e),
    }
}

impl SMPPCredentials {
    #[verifier::type_invariant]
    spec fn inv(self) -> bool {
        self@.wf()
    }

    /// Credentials of these five texts. It fails on the first of system
    /// identifier, password and system type that is longer than its limit
    /// (15, 8 and 12 bytes), is not ASCII or holds a zero byte.
    pub fn new(
        provider_name: String,
        endpoint_addr: String,
        system_id: &str,
        password: &str,
        system_type: &str,
    ) -> (r: Result<SMPPCredentials, ConfigError>)
        ensures
            credentials_view(r) == CredentialsView::checked(
                provider_name@,
                endpoint_addr@,
                system_id@,
                password@,
                system_type@,
            ),
            r is Ok ==> r->Ok_0@.wf(),
    {
        let id = match checked_field::<SYSTEM_ID_LIMIT>(system_id) {
            Ok(v) => v,
            Err(fault) => {
                return Err(ConfigError { field: Field::SystemId, fault });
            },
        };
        let pw = match checked_field::<PASSWORD_LIMIT>(password) {
            Ok(v) => v,
            Err(fault) => {
                return Err(ConfigError { field: Field::Password, fault });
            },
        };
        let ty = match checked_field::<SYSTEM_TYPE_LIMIT>(system_type) {
            Ok(v) => v,
            Err(fault) => {
                return Err(ConfigError { field: Field::SystemType, fault });
            },
        };
        proof {
            lemma_field_bytes_fit(system_id@, SYSTEM_ID_LIMIT as int);
            lemma_field_bytes_fit(password@, PASSWORD_LIMIT as int);
            lemma_field_bytes_fit(system_type@, SYSTEM_TYPE_LIMIT as int);
        }
        Ok(SMPPCredentials { provider_name, endpoint_addr, system_id: id, password: pw, system_type: ty })
    }

    /// The provider's label, for display.
    pub fn provider_name(&self) -> (s: &String)
        ensures
            s@ == self@.provider_name,
    {
        &self.provider_name
    }

    /// The address to connect to, as host and port.
    pub fn endpoint_addr(&self) -> (s: &String)
        ensures
            s@ == self@.endpoint_addr,
    {
        &self.endpoint_addr
    }

    pub fn system_id(&self) -> (s: &Vec<u8>)
        ensures
            s@ == self@.system_id,
    {
        &self.system_id
    }

    pub fn password(&self) -> (s: &Vec<u8>)
        ensures
            s@ == self@.password,
    {
        &self.password
    }

    pub fn system_type(&self) -> (s: &Vec<u8>)
        ensures
            s@ == self@.system_type,
    {
        &self.system_type
    }

    /// The body of the bind request for these credentials.
    pub fn bind(&self) -> (b: Bind)
        ensures
            b@ == self@.bind(),
            b@.wf(),
            self@.wf(),
    {
        proof {
            use_type_invariant(self);
        }
        Bind {
            system_id: self.system_id.clone(),
            password: self.password.clone(),
            system_type: self.system_type.clone(),
            interface_version: INTERFACE_VERSION_3_4,
            addr_ton: TON_UNKNOWN,
            addr_npi: NPI_UNKNOWN,
            address_range: Vec::new(),
        }
    }
}

/// A message to submit: who it is from, who it is for, and its text.
#[derive(Debug, Clone, PartialEq, Eq)]
pub struct SMS {
    pub src: String,
    pub dst: String,
    pub content: String,
}

pub struct SmsView {
    pub src: Seq<char>,
    pub dst: Seq<char>,
    pub content: Seq<char>,
}

impl View for SMS {
    type V = SmsView;

    open spec fn view(&self) -> SmsView {
        SmsView { src: self.src@, dst: self.dst@, content: self.content@ }
    }
}

impl SmsView {
    /// The text in the charset of `coding`, where the charset can write it
    /// and it then fits the one length byte.
    pub open spec fn content_bytes(self, coding: DataCoding) -> Result<Seq<u8>, Fault> {
        if !representable(self.content, coding) {
            Err(Fault::NotInCharset)
        } else {
            octet_string(encoded_text(self.content, coding), 0, CONTENT_MAX as int)
        }
    }

    /// The body of the request that submits the message: default service
    /// type and ESM class, both addresses with type of number and numbering
    /// plan unknown, every delivery receipt asked for, no scheduling and no validity
    /// period, the text in the charset of `coding`. It fails on the first of
    /// source address, destination address and text that has a fault.
    pub open spec fn submit_body(self, coding: DataCoding) -> Result<
        ShortMessageView,
        ConfigError,
    > {
        match field_bytes(self.src, ADDRESS_LIMIT as int) {
            Err(fault) => Err(ConfigError { field: Field::SourceAddr, fault }),
            Ok(src) => match field_bytes(self.dst, ADDRESS_LIMIT as int) {
                Err(fault) => Err(ConfigError { field: Field::DestinationAddr, fault }),
                Ok(dst) => match self.content_bytes(coding) {
                    Err(fault) => Err(ConfigError { field: Field::Content, fault }),
                    Ok(text) => Ok(
                        ShortMessageView {
                            service_type: Seq::empty(),
                            source_addr_ton: TON_UNKNOWN,
                            source_addr_npi: NPI_UNKNOWN,
                            source_addr: src,
                            dest_addr_ton: TON_UNKNOWN,
                            dest_addr_npi: NPI_UNKNOWN,
                            destination_addr: dst,
                            esm_class: ESM_CLASS_DEFAULT,
                            protocol_id: 0,
                            priority_flag: 0,
                            schedule_delivery_time: Seq::empty(),
                            validity_period: Seq::empty(),
                            registered_delivery: REQUEST_ALL_RECEIPTS,
                            replace_if_present_flag: 0,
                            data_coding: coding.spec_code(),
                            sm_default_msg_id: 0,
                            short_message: text,
                            optional: Seq::empty(),
                        },
                    ),
                },
            },
        }
    }
}

/// What a body or its refusal stand for.
pub open spec fn body_view(r: Result<ShortMessage, ConfigError>) -> Result<
    ShortMessageView,
    ConfigError,
> {
    match r {
        Ok(m) => Ok(m@),
        Err(e) => Err(e),
    }
}

impl SMS {
    pub fn from(src: String, dst: String, content: String) -> (sms: SMS)
        ensures
            sms@ == (SmsView { src: src@, dst: dst@, content: content@ }),
    {
        SMS { src, dst, content }
    }

    /// The body of the request that submits this message in the charset of
    /// `coding`, or the first fault that keeps it from the wire.
    pub fn submit_body(&self, coding: DataCoding) -> (r: Result<ShortMessage, ConfigError>)
        ensures
            body_view(r) == self@.submit_body(coding),
            r is Ok ==> r->Ok_0@.wf(),
    {
        let source_addr = match checked_field::<ADDRESS_LIMIT>(self.src.as_str()) {
            Ok(v) => v,
            Err(fault) => {
                return Err(ConfigError { field: Field::SourceAddr, fault });
            },
        };
        let destination_addr = match checked_field::<ADDRESS_LIMIT>(self.dst.as_str()) {
            Ok(v) => v,
            Err(fault) => {
                return Err(ConfigError { field: Field::DestinationAddr, fault });
            },
        };
        let encoded = match encode_text(self.content.as_str(), coding) {
            Some(v) => v,
            None => {
                return Err(ConfigError { field: Field::Content, fault: Fault::NotInCharset });
            },
        };
        let short_message = match octet_string_new::<0, CONTENT_MAX>(&encoded) {
            Ok(v) => v,
            Err(fault) => {
                return Err(ConfigError { field: Field::Content, fault });
            },
        };
        proof {
            lemma_field_bytes_fit(self.src@, ADDRESS_LIMIT as int);
            lemma_field_bytes_fit(self.dst@, ADDRESS_LIMIT as int);
        }
        Ok(
            ShortMessage {
                service_type: Vec::new(),
                source_addr_ton: TON_UNKNOWN,
                source_addr_npi: NPI_UNKNOWN,
                source_addr,
                dest_addr_ton: TON_UNKNOWN,
                dest_addr_npi: NPI_UNKNOWN,
                destination_addr,
                esm_class: ESM_CLASS_DEFAULT,
                protocol_id: 0,
                priority_flag: 0,
                schedule_delivery_time: Vec::new(),
                validity_period: Vec::new(),
                registered_delivery: REQUEST_ALL_RECEIPTS,
                replace_if_present_flag: 0,
                data_coding: coding.code(),
                sm_default_msg_id: 0,
                short_message,
                optional: Vec::new(),
            },
        )
    }
}

} // verus!

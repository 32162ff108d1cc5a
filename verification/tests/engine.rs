use fyanrirt::args::{credentials, smsoneshot, Arguments};
use fyanrirt::command::Bind;
use fyanrirt::engine::{ConfigError, Fault, Field, SMPPCredentials, SMS};
use fyanrirt::misc::ratelimit;
use fyanrirt::text::DataCoding;

fn make(system_id: &str, password: &str, system_type: &str) -> Result<SMPPCredentials, ConfigError> {
    SMPPCredentials::new("A1".to_string(), "sms.example.com:2775".to_string(), system_id, password, system_type)
}

fn refused(field: Field, fault: Fault) -> ConfigError {
    ConfigError { field, fault }
}

fn sms(src: &str, dst: &str, content: &str) -> SMS {
    SMS::from(src.to_string(), dst.to_string(), content.to_string())
}

#[test]
fn credentials_hold_the_bytes_without_the_zero() {
    let c = make("smppclient1", "password", "test").unwrap();
    assert_eq!(c.provider_name(), "A1");
    assert_eq!(c.endpoint_addr(), "sms.example.com:2775");
    assert_eq!(c.system_id(), &b"smppclient1".to_vec());
    assert_eq!(c.password(), &b"password".to_vec());
    assert_eq!(c.system_type(), &b"test".to_vec());
}

#[test]
fn credentials_at_their_bounds_are_made() {
    let c = make("123456789012345", "12345678", "123456789012").unwrap();
    assert_eq!(c.system_id().len(), 15);
    assert_eq!(c.password().len(), 8);
    assert_eq!(c.system_type().len(), 12);
    let c = make("", "", "").unwrap();
    assert!(c.system_id().is_empty());
    assert!(c.password().is_empty());
    assert!(c.system_type().is_empty());
}

#[test]
fn system_id_over_its_bound_fails() {
    assert_eq!(
        make("1234567890123456", "password", "test").unwrap_err(),
        refused(Field::SystemId, Fault::TooManyBytes)
    );
    assert_eq!(
        make("a system identifier that is far too long", "password", "test").unwrap_err(),
        refused(Field::SystemId, Fault::TooManyBytes)
    );
}

#[test]
fn password_over_its_bound_fails() {
    assert_eq!(
        make("smppclient1", "123456789", "test").unwrap_err(),
        refused(Field::Password, Fault::TooManyBytes)
    );
}

#[test]
fn system_type_over_its_bound_fails() {
    assert_eq!(
        make("smppclient1", "password", "1234567890123").unwrap_err(),
        refused(Field::SystemType, Fault::TooManyBytes)
    );
}

#[test]
fn the_first_faulty_field_is_named() {
    assert_eq!(
        make("1234567890123456", "123456789", "1234567890123").unwrap_err(),
        refused(Field::SystemId, Fault::TooManyBytes)
    );
    assert_eq!(
        make("ok", "123456789", "1234567890123").unwrap_err(),
        refused(Field::Password, Fault::TooManyBytes)
    );
}

#[test]
fn bounds_count_bytes_not_characters() {
    // eight characters, sixteen bytes of UTF-8
    assert_eq!(
        make("\u{44f}\u{44f}\u{44f}\u{44f}\u{44f}\u{44f}\u{44f}\u{44f}", "password", "test").unwrap_err(),
        refused(Field::SystemId, Fault::TooManyBytes)
    );
}

#[test]
fn credentials_outside_ascii_fail() {
    assert_eq!(make("caf\u{e9}", "password", "test").unwrap_err(), refused(Field::SystemId, Fault::NotAscii));
    assert_eq!(make("id", "p\u{e4}ss", "test").unwrap_err(), refused(Field::Password, Fault::NotAscii));
    assert_eq!(make("id", "pass", "t\u{ea}te").unwrap_err(), refused(Field::SystemType, Fault::NotAscii));
}

#[test]
fn credentials_with_a_zero_byte_fail() {
    assert_eq!(make("ab\0cd", "password", "test").unwrap_err(), refused(Field::SystemId, Fault::NullByteFound));
    assert_eq!(make("id", "\0", "test").unwrap_err(), refused(Field::Password, Fault::NullByteFound));
    assert_eq!(make("id", "pw", "x\0").unwrap_err(), refused(Field::SystemType, Fault::NullByteFound));
}

#[test]
fn too_long_is_found_before_not_ascii_and_zero() {
    assert_eq!(
        make("\0\u{e9}34567890123456", "password", "test").unwrap_err(),
        refused(Field::SystemId, Fault::TooManyBytes)
    );
    assert_eq!(make("\0\u{e9}", "password", "test").unwrap_err(), refused(Field::SystemId, Fault::NotAscii));
}

#[test]
fn bind_body_of_credentials() {
    let c = make("smppclient1", "password", "test").unwrap();
    assert_eq!(
        c.bind(),
        Bind {
            system_id: b"smppclient1".to_vec(),
            password: b"password".to_vec(),
            system_type: b"test".to_vec(),
            interface_version: 0x34,
            addr_ton: 0,
            addr_npi: 0,
            address_range: Vec::new(),
        }
    );
}

#[test]
fn cloned_credentials_are_the_same() {
    let c = make("smppclient1", "password", "test").unwrap();
    let d = c.clone();
    assert_eq!(d.system_id(), c.system_id());
    assert_eq!(d.password(), c.password());
    assert_eq!(d.system_type(), c.system_type());
    assert_eq!(d.provider_name(), c.provider_name());
    assert_eq!(d.endpoint_addr(), c.endpoint_addr());
}

#[test]
fn sms_from_keeps_its_three_texts() {
    let m = sms("Alice", "375291234567", "Hi");
    assert_eq!(m.src, "Alice");
    assert_eq!(m.dst, "375291234567");
    assert_eq!(m.content, "Hi");
}

#[test]
fn submit_body_of_a_message() {
    let body = sms("Alice", "375291234567", "Hi").submit_body(DataCoding::Ucs2).unwrap();
    assert_eq!(body.service_type, Vec::<u8>::new());
    assert_eq!(body.source_addr_ton, 0);
    assert_eq!(body.source_addr_npi, 0);
    assert_eq!(body.source_addr, b"Alice".to_vec());
    assert_eq!(body.dest_addr_ton, 0);
    assert_eq!(body.dest_addr_npi, 0);
    assert_eq!(body.destination_addr, b"375291234567".to_vec());
    assert_eq!(body.esm_class, 0x10);
    assert_eq!(body.protocol_id, 0);
    assert_eq!(body.priority_flag, 0);
    assert_eq!(body.schedule_delivery_time, Vec::<u8>::new());
    assert_eq!(body.validity_period, Vec::<u8>::new());
    assert_eq!(body.registered_delivery, 0x1d);
    assert_eq!(body.replace_if_present_flag, 0);
    assert_eq!(body.data_coding, 8);
    assert_eq!(body.sm_default_msg_id, 0);
    assert_eq!(body.short_message, vec![0x00, 0x48, 0x00, 0x69]);
    assert_eq!(body.optional, Vec::<u8>::new());
}

#[test]
fn submit_body_follows_the_data_coding() {
    let m = sms("Alice", "375291234567", "caf\u{e9}");
    let latin = m.submit_body(DataCoding::Latin1).unwrap();
    assert_eq!(latin.data_coding, 3);
    assert_eq!(latin.short_message, vec![0x63, 0x61, 0x66, 0xe9]);
    let ucs2 = m.submit_body(DataCoding::Ucs2).unwrap();
    assert_eq!(ucs2.data_coding, 8);
    assert_eq!(ucs2.short_message, vec![0, 0x63, 0, 0x61, 0, 0x66, 0, 0xe9]);
    assert_eq!(m.submit_body(DataCoding::Ia5).unwrap_err(), refused(Field::Content, Fault::NotInCharset));
}

#[test]
fn addresses_have_twenty_bytes() {
    let twenty = "12345678901234567890";
    assert!(sms(twenty, twenty, "x").submit_body(DataCoding::Ia5).is_ok());
    assert_eq!(
        sms("123456789012345678901", twenty, "x").submit_body(DataCoding::Ia5).unwrap_err(),
        refused(Field::SourceAddr, Fault::TooManyBytes)
    );
    assert_eq!(
        sms(twenty, "123456789012345678901", "x").submit_body(DataCoding::Ia5).unwrap_err(),
        refused(Field::DestinationAddr, Fault::TooManyBytes)
    );
}

#[test]
fn addresses_are_ascii_without_zero() {
    assert_eq!(
        sms("\u{410}\u{43b}\u{438}\u{441}\u{430}", "1", "x").submit_body(DataCoding::Ucs2).unwrap_err(),
        refused(Field::SourceAddr, Fault::NotAscii)
    );
    assert_eq!(
        sms("Alice", "12\u{a0}34", "x").submit_body(DataCoding::Ucs2).unwrap_err(),
        refused(Field::DestinationAddr, Fault::NotAscii)
    );
    assert_eq!(
        sms("Al\0ice", "1", "x").submit_body(DataCoding::Ucs2).unwrap_err(),
        refused(Field::SourceAddr, Fault::NullByteFound)
    );
    assert_eq!(
        sms("Alice", "\0", "x").submit_body(DataCoding::Ucs2).unwrap_err(),
        refused(Field::DestinationAddr, Fault::NullByteFound)
    );
}

#[test]
fn the_source_is_looked_at_before_the_rest() {
    assert_eq!(
        sms("123456789012345678901", "\0", "\u{1f600}").submit_body(DataCoding::Ucs2).unwrap_err(),
        refused(Field::SourceAddr, Fault::TooManyBytes)
    );
    assert_eq!(
        sms("Alice", "\0", "\u{1f600}").submit_body(DataCoding::Ucs2).unwrap_err(),
        refused(Field::DestinationAddr, Fault::NullByteFound)
    );
}

#[test]
fn content_outside_the_charset_fails() {
    assert_eq!(
        sms("Alice", "1", "\u{1f600}").submit_body(DataCoding::Ucs2).unwrap_err(),
        refused(Field::Content, Fault::NotInCharset)
    );
    assert_eq!(
        sms("Alice", "1", "\u{20ac}").submit_body(DataCoding::Latin1).unwrap_err(),
        refused(Field::Content, Fault::NotInCharset)
    );
}

#[test]
fn content_has_255_bytes() {
    let text_255 = "x".repeat(255);
    let text_256 = "x".repeat(256);
    assert_eq!(sms("Alice", "1", &text_255).submit_body(DataCoding::Ia5).unwrap().short_message.len(), 255);
    assert_eq!(
        sms("Alice", "1", &text_256).submit_body(DataCoding::Ia5).unwrap_err(),
        refused(Field::Content, Fault::TooManyBytes)
    );
    // two bytes a character in UCS-2
    let text_127 = "x".repeat(127);
    let text_128 = "x".repeat(128);
    assert_eq!(sms("Alice", "1", &text_127).submit_body(DataCoding::Ucs2).unwrap().short_message.len(), 254);
    assert_eq!(
        sms("Alice", "1", &text_128).submit_body(DataCoding::Ucs2).unwrap_err(),
        refused(Field::Content, Fault::TooManyBytes)
    );
}

#[test]
fn unwritable_content_is_found_before_its_length() {
    let text = "\u{1f600}".repeat(300);
    assert_eq!(
        sms("Alice", "1", &text).submit_body(DataCoding::Ucs2).unwrap_err(),
        refused(Field::Content, Fault::NotInCharset)
    );
}

#[test]
fn empty_message_is_accepted() {
    let body = sms("", "", "").submit_body(DataCoding::Ucs2).unwrap();
    assert!(body.source_addr.is_empty());
    assert!(body.destination_addr.is_empty());
    assert!(body.short_message.is_empty());
}

fn arguments(system_id: &str, send: Option<SMS>) -> Arguments {
    Arguments {
        provider_name: "MTS".to_string(),
        endpoint_addr: "203.0.113.32:2775".to_string(),
        system_id: system_id.to_string(),
        password: "secret".to_string(),
        system_type: "".to_string(),
        send_sms: send,
    }
}

#[test]
fn credentials_from_arguments() {
    let c = credentials(&arguments("client", None)).unwrap();
    assert_eq!(c.provider_name(), "MTS");
    assert_eq!(c.endpoint_addr(), "203.0.113.32:2775");
    assert_eq!(c.system_id(), &b"client".to_vec());
    assert_eq!(c.password(), &b"secret".to_vec());
    assert_eq!(c.system_type(), &Vec::<u8>::new());
}

#[test]
fn faulty_arguments_give_no_credentials() {
    assert_eq!(
        credentials(&arguments("1234567890123456", None)).unwrap_err(),
        refused(Field::SystemId, Fault::TooManyBytes)
    );
}

#[test]
fn smsoneshot_is_the_message_of_the_subcommand() {
    let given = sms("Alice", "375291234567", "Hello");
    assert_eq!(smsoneshot(&arguments("client", Some(given.clone()))), given);
}

#[test]
fn ratelimit_divides_a_second() {
    assert_eq!(ratelimit(1), 1000);
    assert_eq!(ratelimit(3), 333);
    assert_eq!(ratelimit(10), 100);
    assert_eq!(ratelimit(1000), 1);
    assert_eq!(ratelimit(1001), 0);
    assert_eq!(ratelimit(u64::MAX), 0);
}

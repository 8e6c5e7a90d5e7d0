use wispmq_cli::error::Error;
use wispmq_cli::mqtt::error::{malformed, protocol, MqttError};
use wispmq_cli::mqtt::packet::{Disconnect, Packet, Properties, PubAck};
use wispmq_cli::mqtt::secret::SecretBytes;
use wispmq_cli::mqtt::types::{ProtocolVersion, QoS, ReasonCode};

fn reason(byte: u8) -> ReasonCode {
    ReasonCode::from_u8(byte).expect("an assigned reason code")
}

#[test]
fn deref_exposes_the_bytes() {
    let secret = SecretBytes::new(vec![1, 2, 3]);
    assert_eq!(&*secret, &[1, 2, 3]);
    assert_eq!(secret.as_slice(), &[1, 2, 3]);
}

#[test]
fn debug_never_shows_the_bytes() {
    let secret = SecretBytes::new(b"s3cret".to_vec());
    let debug = secret.redacted();
    assert!(!debug.contains("s3cret"), "leaked: {debug}");
    assert!(debug.contains("6 bytes"), "debug output was: {debug}");
    assert_eq!(debug, "SecretBytes(<redacted, 6 bytes>)");
}

#[test]
fn equality_compares_the_bytes() {
    assert!(SecretBytes::new(vec![1, 2]) == SecretBytes::new(vec![1, 2]));
    assert!(SecretBytes::new(vec![1, 2]) != SecretBytes::new(vec![1, 3]));
    assert!(SecretBytes::new(vec![1, 2]) != SecretBytes::new(vec![1]));
    let secret = SecretBytes::new(vec![7, 8]);
    assert!(secret.clone() == secret);
    assert!(SecretBytes::from(vec![7, 8]) == secret);
}

#[test]
fn drop_runs_cleanly_on_empty_and_nonempty_buffers() {
    drop(SecretBytes::new(Vec::new()));
    drop(SecretBytes::new(vec![0xffu8; 64]));
}

#[test]
fn every_error_has_its_reason_code() {
    assert_eq!(malformed("m".to_string()).reason_code().as_u8(), 0x81);
    assert_eq!(protocol("p".to_string()).reason_code().as_u8(), 0x82);
    assert_eq!(
        MqttError::Reason(reason(0x97), "q".to_string()).reason_code(),
        reason(0x97)
    );
    assert_eq!(MqttError::Io("i".to_string()).reason_code().as_u8(), 0x80);
}

#[test]
fn every_error_has_its_message() {
    assert_eq!(malformed("m".to_string()).message(), "malformed packet: m");
    assert_eq!(protocol("p".to_string()).message(), "protocol error: p");
    assert_eq!(
        MqttError::Reason(reason(0x97), "q".to_string()).message(),
        "protocol error (QuotaExceeded): q"
    );
    assert_eq!(MqttError::Io("i".to_string()).message(), "io error: i");
    assert_eq!(Error::Usage("u".to_string()).message(), "u");
    assert_eq!(
        Error::rejected("publish", reason(0x87)).message(),
        "publish rejected by broker: NotAuthorized (0x87)"
    );
    assert_eq!(
        Error::Disconnected("now".to_string()).message(),
        "broker closed the connection now"
    );
    assert_eq!(Error::Unsupported("x".to_string()).message(), "x");
    assert_eq!(
        Error::from(protocol("p".to_string())).message(),
        "protocol error: p"
    );
}

#[test]
fn reason_codes_are_the_assigned_bytes() {
    let assigned: Vec<u8> = (0..=255u8)
        .filter(|b| ReasonCode::from_u8(*b).is_ok())
        .collect();
    let mut want: Vec<u8> = vec![0, 1, 2, 4, 0x10, 0x11, 0x18, 0x19];
    want.extend(0x80..=0xA2u8);
    assert_eq!(assigned, want);
    assert_eq!(
        ReasonCode::from_u8(0x2B).unwrap_err().message(),
        "malformed packet: unknown reason code 0x2B"
    );
    assert!(!reason(0x19).is_error());
    assert!(reason(0x80).is_error());
    assert_eq!(reason(0).name(), "Success");
    assert_eq!(reason(0xA2).show(), "WildcardSubscriptionsNotSupported (0xA2)");
}

#[test]
fn quality_of_service_has_three_levels() {
    assert_eq!(QoS::from_u8(0).unwrap(), QoS::AtMostOnce);
    assert_eq!(QoS::from_u8(1).unwrap(), QoS::AtLeastOnce);
    assert_eq!(QoS::from_u8(2).unwrap(), QoS::ExactlyOnce);
    assert_eq!(
        QoS::from_u8(3).unwrap_err().message(),
        "malformed packet: invalid QoS 3"
    );
    assert_eq!(QoS::ExactlyOnce.as_u8(), 2);
}

#[test]
fn versions_have_their_level_and_name() {
    assert_eq!(ProtocolVersion::V3_1.level(), 3);
    assert_eq!(ProtocolVersion::V3_1_1.level(), 4);
    assert_eq!(ProtocolVersion::V5.level(), 5);
    assert_eq!(ProtocolVersion::V3_1.name(), "MQIsdp");
    assert_eq!(ProtocolVersion::V3_1_1.name(), "MQTT");
    assert!(ProtocolVersion::V5.has_properties());
    assert!(!ProtocolVersion::V3_1_1.has_properties());
}

#[test]
fn packets_are_named() {
    let ack = PubAck::success(1);
    assert_eq!(Packet::Puback(ack).name(), "PUBACK");
    assert_eq!(Packet::Pubrel(ack).name(), "PUBREL");
    assert_eq!(Packet::Pingresp.name(), "PINGRESP");
    let bye = Disconnect {
        reason_code: reason(0),
    };
    assert_eq!(Packet::Disconnect(bye).name(), "DISCONNECT");
}

#[test]
fn properties_copy_whole() {
    let mut properties = Properties::new();
    assert!(properties.is_empty());
    properties.user_properties.push(("k".to_string(), "v".to_string()));
    properties.receive_maximum = Some(9);
    let copy = properties.duplicate();
    assert!(!copy.is_empty());
    assert_eq!(copy.user_properties, properties.user_properties);
    assert_eq!(copy.receive_maximum, Some(9));
}

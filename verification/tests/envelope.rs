use job_queue::command::{DataValue, DecodeError, JobCommand};

#[test]
fn round_trip_every_variant() {
    // every constructible command decodes back from its serialized pair
    for c in [
        JobCommand::SyncBranch(0),
        JobCommand::SyncBranch(1),
        JobCommand::SyncBranch(u64::MAX),
    ] {
        let (kind, data) = c.serialize();
        assert_eq!(JobCommand::deserialize(kind.as_str(), &data), Ok(c));
    }
}

#[test]
fn serialize_wire_shape() {
    let (kind, data) = JobCommand::SyncBranch(9).serialize();
    assert_eq!(kind.as_str(), "sync-branch");
    assert!(matches!(data, DataValue::UInt(9)));
}

#[test]
fn deserialize_unknown_kind() {
    assert_eq!(
        JobCommand::deserialize("no-such-command", &DataValue::UInt(1)),
        Err(DecodeError::UnknownKind)
    );
}

#[test]
fn deserialize_bad_payload() {
    assert_eq!(
        JobCommand::deserialize("sync-branch", &DataValue::Bool(true)),
        Err(DecodeError::InvalidPayload)
    );
    assert_eq!(
        JobCommand::deserialize("sync-branch", &DataValue::Null),
        Err(DecodeError::InvalidPayload)
    );
}

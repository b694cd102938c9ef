use serde_json::Value;
use vfio_sensor_bridge::protocol::{
    is_valid_text, payload_length, read_ctl_request, read_ctl_response, read_frame,
    validate_message, write_ctl_request, write_ctl_response, write_frame, ErrorKind, FrameKind,
    Message, ProtocolError, SensorDescriptor, SensorKind, SensorValue, TextField, MAX_FRAME_SIZE,
    MAX_SENSORS, MAX_SENSOR_LABEL_BYTES,
};

fn sensor(id: &str, label: &str) -> SensorDescriptor {
    SensorDescriptor {
        id: id.to_string(),
        kind: SensorKind::Temperature,
        label: label.to_string(),
        persistent: false,
        default_value: None,
    }
}

fn schema(sensors: Vec<SensorDescriptor>) -> Message {
    Message::Schema { generation: 1, sensors }
}

fn hello(agent_version: &str, hostname: &str, hwmon_name: Option<&str>) -> Message {
    Message::Hello {
        agent_version: agent_version.to_string(),
        hostname: hostname.to_string(),
        hwmon_name: hwmon_name.map(|name| name.to_string()),
    }
}

fn sample(ids: &[&str]) -> Message {
    Message::Sample {
        generation: 3,
        values: ids.iter().map(|id| SensorValue { id: id.to_string(), value: 1 }).collect(),
    }
}

fn schema_json(generation: u64, sensors: &[SensorDescriptor]) -> Vec<u8> {
    let mut list = Vec::new();
    for sensor in sensors {
        let kind = match sensor.kind {
            SensorKind::Temperature => "temperature",
            SensorKind::Fan => "fan",
            SensorKind::Voltage => "voltage",
            SensorKind::Current => "current",
            SensorKind::Power => "power",
        };
        let mut entry = serde_json::Map::new();
        entry.insert("id".to_string(), Value::from(sensor.id.as_str()));
        entry.insert("kind".to_string(), Value::from(kind));
        entry.insert("label".to_string(), Value::from(sensor.label.as_str()));
        list.push(Value::Object(entry));
    }
    let mut object = serde_json::Map::new();
    object.insert("type".to_string(), Value::from("schema"));
    object.insert("generation".to_string(), Value::from(generation));
    object.insert("sensors".to_string(), Value::Array(list));
    serde_json::to_vec(&Value::Object(object)).unwrap()
}

fn schema_of(payload: &[u8]) -> Message {
    let value: Value = serde_json::from_slice(payload).unwrap();
    assert_eq!(value["type"].as_str(), Some("schema"));
    let mut sensors = Vec::new();
    for entry in value["sensors"].as_array().unwrap() {
        assert_eq!(entry["kind"].as_str(), Some("temperature"));
        sensors.push(sensor(entry["id"].as_str().unwrap(), entry["label"].as_str().unwrap()));
    }
    Message::Schema { generation: value["generation"].as_u64().unwrap(), sensors }
}

#[test]
fn round_trips_schema_frame() {
    let sensors = vec![SensorDescriptor {
        id: "hwmon0:temp1".to_string(),
        kind: SensorKind::Temperature,
        label: "GPU temp".to_string(),
        persistent: false,
        default_value: None,
    }];
    let payload = schema_json(7, &sensors);
    let message = Message::Schema { generation: 7, sensors };

    let buf = write_frame(&message, &payload).unwrap();
    let (decoded, used) = read_frame(&buf).unwrap();
    let decoded = schema_of(&decoded);
    validate_message(&decoded).unwrap();

    assert_eq!(used, buf.len());
    assert_eq!(decoded, message);
}

#[test]
fn rejects_oversized_frame() {
    let mut raw = Vec::new();
    raw.extend_from_slice(&((MAX_FRAME_SIZE as u32) + 1).to_le_bytes());

    let err = read_frame(&raw).unwrap_err();

    assert_eq!(err.kind(), ErrorKind::InvalidData);
    assert_eq!(err.message(), "frame exceeds maximum size");
}

#[test]
fn rejects_duplicate_schema_sensor_ids() {
    let message = Message::Schema {
        generation: 1,
        sensors: vec![
            SensorDescriptor {
                id: "dup".to_string(),
                kind: SensorKind::Temperature,
                label: "temp1".to_string(),
                persistent: false,
                default_value: None,
            },
            SensorDescriptor {
                id: "dup".to_string(),
                kind: SensorKind::Fan,
                label: "fan1".to_string(),
                persistent: false,
                default_value: None,
            },
        ],
    };

    assert_eq!(validate_message(&message).unwrap_err().kind(), ErrorKind::InvalidData);
}

#[test]
fn accepts_128_byte_sensor_label() {
    let message = Message::Schema {
        generation: 1,
        sensors: vec![SensorDescriptor {
            id: "long".to_string(),
            kind: SensorKind::Temperature,
            label: "x".repeat(MAX_SENSOR_LABEL_BYTES),
            persistent: false,
            default_value: None,
        }],
    };

    validate_message(&message).unwrap();
}

#[test]
fn rejects_129_byte_sensor_label() {
    let message = Message::Schema {
        generation: 1,
        sensors: vec![SensorDescriptor {
            id: "too-long".to_string(),
            kind: SensorKind::Temperature,
            label: "x".repeat(MAX_SENSOR_LABEL_BYTES + 1),
            persistent: false,
            default_value: None,
        }],
    };

    assert_eq!(validate_message(&message).unwrap_err().kind(), ErrorKind::InvalidData);
}

#[test]
fn requires_default_value_for_persistent_sensor() {
    let message = Message::Schema {
        generation: 1,
        sensors: vec![SensorDescriptor {
            id: "persistent-temp".to_string(),
            kind: SensorKind::Temperature,
            label: "Persistent Temp".to_string(),
            persistent: true,
            default_value: None,
        }],
    };

    assert_eq!(validate_message(&message).unwrap_err().kind(), ErrorKind::InvalidData);
}

#[test]
fn accepts_persistent_sensor_with_default_value() {
    let message = Message::Schema {
        generation: 1,
        sensors: vec![SensorDescriptor {
            id: "persistent-temp".to_string(),
            kind: SensorKind::Temperature,
            label: "Persistent Temp".to_string(),
            persistent: true,
            default_value: Some(65_000),
        }],
    };

    validate_message(&message).unwrap();
}

#[test]
fn every_message_fault_has_its_error() {
    let mut dynamic = sensor("a", "A");
    dynamic.default_value = Some(1);
    let crowd: Vec<SensorDescriptor> =
        (0..MAX_SENSORS + 1).map(|i| sensor(&format!("s{i}"), "S")).collect();
    let ids: Vec<String> = (0..MAX_SENSORS + 1).map(|i| format!("s{i}")).collect();
    let many: Vec<&str> = ids.iter().map(|id| id.as_str()).collect();
    let cases = vec![
        (hello("", "host", None), ProtocolError::InvalidText(TextField::AgentVersion)),
        (hello("1.0", "", None), ProtocolError::InvalidText(TextField::Hostname)),
        (hello("1.0", "a\nb", None), ProtocolError::InvalidText(TextField::Hostname)),
        (hello("1.0", "host", Some("")), ProtocolError::InvalidHwmonName),
        (hello("1.0", "host", Some("a-b")), ProtocolError::InvalidHwmonName),
        (hello("1.0", "host", Some(&"x".repeat(32))), ProtocolError::InvalidHwmonName),
        (schema(crowd), ProtocolError::TooManySensors),
        (schema(vec![sensor("", "A")]), ProtocolError::InvalidText(TextField::SensorId)),
        (schema(vec![sensor("a", "")]), ProtocolError::InvalidText(TextField::SensorLabel)),
        (schema(vec![sensor("a", "\u{7f}")]), ProtocolError::InvalidText(TextField::SensorLabel)),
        (schema(vec![dynamic]), ProtocolError::UnexpectedDefaultValue),
        (
            schema(vec![sensor("a", "A"), sensor("b", "B"), sensor("a", "C")]),
            ProtocolError::DuplicateSchemaId,
        ),
        (sample(&many), ProtocolError::TooManyValues),
        (sample(&["a", ""]), ProtocolError::InvalidText(TextField::SensorId)),
        (sample(&["a", "b", "a"]), ProtocolError::DuplicateSampleId),
    ];
    for (message, error) in cases {
        assert_eq!(validate_message(&message), Err(error));
        assert_eq!(write_frame(&message, b"{}"), Err(error));
        assert_eq!(error.kind(), ErrorKind::InvalidData);
    }
}

#[test]
fn sound_messages_pass() {
    validate_message(&hello("0.3.1", "guest", Some("vsb_guest_1"))).unwrap();
    validate_message(&hello("0.3.1", "gäst", None)).unwrap();
    validate_message(&schema(Vec::new())).unwrap();
    validate_message(&sample(&["a", "b"])).unwrap();
    validate_message(&Message::Heartbeat).unwrap();
    validate_message(&Message::Goodbye).unwrap();
    validate_message(&Message::RequestResync).unwrap();
}

#[test]
fn errors_say_what_is_wrong() {
    let messages = [
        (ProtocolError::InvalidText(TextField::AgentVersion), "invalid agent_version"),
        (ProtocolError::InvalidText(TextField::Hostname), "invalid hostname"),
        (ProtocolError::InvalidText(TextField::SensorId), "invalid sensor id"),
        (ProtocolError::InvalidText(TextField::SensorLabel), "invalid sensor label"),
        (ProtocolError::InvalidHwmonName, "invalid hwmon_name"),
        (ProtocolError::TooManySensors, "schema has too many sensors"),
        (ProtocolError::MissingDefaultValue, "persistent sensor is missing default_value"),
        (ProtocolError::UnexpectedDefaultValue, "dynamic sensor includes default_value"),
        (ProtocolError::DuplicateSchemaId, "schema has duplicate sensor id"),
        (ProtocolError::TooManyValues, "sample has too many values"),
        (ProtocolError::DuplicateSampleId, "sample has duplicate sensor id"),
        (ProtocolError::FrameTooLarge(FrameKind::Message), "frame exceeds maximum size"),
        (
            ProtocolError::FrameTooLarge(FrameKind::CtlRequest),
            "ctl request frame exceeds maximum size",
        ),
        (
            ProtocolError::FrameTooLarge(FrameKind::CtlResponse),
            "ctl response frame exceeds maximum size",
        ),
    ];
    for (error, message) in messages {
        assert_eq!(error.message(), message);
    }
    assert_eq!(ProtocolError::UnexpectedEof.kind(), ErrorKind::UnexpectedEof);
}

#[test]
fn lengths_of_texts_are_counted_in_bytes() {
    assert!(is_valid_text("ä", 2));
    assert!(!is_valid_text("ä", 1));
    assert!(!is_valid_text("", 10));
    assert!(!is_valid_text("tab\there", 100));
}

#[test]
fn frames_carry_length_and_payload() {
    let frame = write_frame(&Message::Heartbeat, b"abc").unwrap();
    assert_eq!(frame, vec![3, 0, 0, 0, b'a', b'b', b'c']);

    let mut stream = frame.clone();
    stream.extend_from_slice(b"next");
    let (payload, used) = read_frame(&stream).unwrap();
    assert_eq!(payload, b"abc");
    assert_eq!(used, 7);

    assert_eq!(read_frame(&frame[..3]), Err(ProtocolError::UnexpectedEof));
    assert_eq!(read_frame(&frame[..6]), Err(ProtocolError::UnexpectedEof));
}

#[test]
fn payloads_are_bounded() {
    let largest = vec![0x20; MAX_FRAME_SIZE];
    let frame = write_frame(&Message::Goodbye, &largest).unwrap();
    assert_eq!(frame.len(), MAX_FRAME_SIZE + 4);
    assert_eq!(read_frame(&frame).unwrap().0, largest);

    let mut larger = largest;
    larger.push(0x20);
    let kind = FrameKind::Message;
    assert_eq!(
        write_frame(&Message::Goodbye, &larger),
        Err(ProtocolError::FrameTooLarge(kind))
    );
    assert_eq!(
        write_ctl_request(&larger),
        Err(ProtocolError::FrameTooLarge(FrameKind::CtlRequest))
    );
    assert_eq!(
        write_ctl_response(&larger),
        Err(ProtocolError::FrameTooLarge(FrameKind::CtlResponse))
    );
}

#[test]
fn headers_are_little_endian() {
    assert_eq!(payload_length([0x01, 0x02, 0x00, 0x00], FrameKind::Message), Ok(0x0201));
    assert_eq!(payload_length([0, 0, 4, 0], FrameKind::Message), Ok(MAX_FRAME_SIZE));
    assert_eq!(
        payload_length([1, 0, 4, 0], FrameKind::CtlRequest),
        Err(ProtocolError::FrameTooLarge(FrameKind::CtlRequest))
    );
}

#[test]
fn management_frames_round_trip() {
    let request = br#"{"type":"get_vm","vmid":100}"#;
    let frame = write_ctl_request(request).unwrap();
    assert_eq!(read_ctl_request(&frame), Ok((request.to_vec(), frame.len())));

    let response = br#"{"type":"not_found","vmid":100}"#;
    let frame = write_ctl_response(response).unwrap();
    assert_eq!(read_ctl_response(&frame), Ok((response.to_vec(), frame.len())));

    let oversized = [0xff, 0xff, 0xff, 0xff];
    assert_eq!(
        read_ctl_request(&oversized),
        Err(ProtocolError::FrameTooLarge(FrameKind::CtlRequest))
    );
    assert_eq!(
        read_ctl_response(&oversized),
        Err(ProtocolError::FrameTooLarge(FrameKind::CtlResponse))
    );
}

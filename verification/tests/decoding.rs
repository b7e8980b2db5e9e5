use cs704_ui::codec::decode;
use cs704_ui::codec::encode;
use cs704_ui::msg::DebugMessage;
use cs704_ui::msg::Fixed;
use cs704_ui::msg::Location;
use cs704_ui::msg::Message;
use cs704_ui::msg::Raw;

fn loc(units_x: i64, units_y: i64, h: Option<i64>, mode: &str, rate: usize) -> Location {
    Location {
        x: Fixed::from_units(units_x),
        y: Fixed::from_units(units_y),
        h: h.map(Fixed::from_units),
        mode: mode.to_string(),
        update_rate: rate,
    }
}

#[test]
fn test_decode_location() {
    let s = r#"{ "type": "LOC", "x": 11.22, "y": 33.44, "h":1.57, "mode": "IMU", "update_rate": 100 }"#;

    let m: Message = decode(s).unwrap();

    if let Message::Location(_loc) = &m {
    } else {
        assert_eq!(1, 2);
    }
}

#[test]
fn test_decode_debug_message() {
    // The field names `gyro_r` and `mag` do not belong to the Raw schema,
    // so this record is not a recognized message.
    let s = r#"{ "type": "RAW","accel_x": 11.22, "accel_y": 33.44, "accel_z": 55.66, "gyro_r": 11.22, "gyro_y": 33.44, "gyro_z": 55.66, "mag_x": 11.22, "mag_y": 33.44, "mag": 55.66,"sampling_rate": 100 }"#;

    assert!(decode(s).is_none());
}

#[test]
fn decode_location_fields() {
    let s = r#"{"type":"LOC","x":11.22,"y":-3.5,"mode":"GPS","update_rate":7}"#;
    let m = decode(s).unwrap();
    match m {
        Message::Location(l) => {
            assert_eq!(l.x.units, 112200);
            assert_eq!(l.y.units, -35000);
            assert_eq!(l.h, None);
            assert_eq!(l.mode, "GPS");
            assert_eq!(l.update_rate, 7);
        },
        _ => panic!("wrong shape"),
    }
}

#[test]
fn round_trip_location_with_h() {
    let m = Message::Location(loc(112200, 334400, Some(15700), "IMU", 100));
    assert_eq!(decode(&encode(&m)), Some(m));
}

#[test]
fn round_trip_location_without_h() {
    let m = Message::Location(loc(-50000, 0, None, "GPS", 1));
    assert_eq!(decode(&encode(&m)), Some(m));
}

#[test]
fn round_trip_raw() {
    let f = Fixed::from_units;
    let m = Message::Raw(Raw {
        accel_x: f(10000),
        accel_y: f(-20000),
        accel_z: f(5),
        gyro_x: f(0),
        gyro_y: f(123456789),
        gyro_z: f(-1),
        mag_x: f(99999),
        mag_y: f(42),
        mag_z: f(-424242),
        sampling_rate: 200,
    });
    assert_eq!(decode(&encode(&m)), Some(m));
}

#[test]
fn round_trip_debug_message() {
    let m = Message::Message(DebugMessage {
        body: "hello there".to_string(),
        data: vec![
            ("k1".to_string(), "v1".to_string()),
            ("k2".to_string(), "".to_string()),
        ],
    });
    assert_eq!(decode(&encode(&m)), Some(m));
}

#[test]
fn round_trip_debug_message_empty_data() {
    let m = Message::Message(DebugMessage { body: "".to_string(), data: vec![] });
    assert_eq!(decode(&encode(&m)), Some(m));
}

#[test]
fn encode_location_exact() {
    let m = Message::Location(loc(112200, 334400, Some(15700), "IMU", 100));
    assert_eq!(
        encode(&m),
        r#"{"type":"LOC","x":11.2200,"y":33.4400,"h":1.5700,"mode":"IMU","update_rate":100}"#
    );
}

#[test]
fn encode_negative_coordinate_exact() {
    let m = Message::Location(loc(-5, 0, None, "IMU", 0));
    assert_eq!(
        encode(&m),
        r#"{"type":"LOC","x":-0.0005,"y":0.0000,"mode":"IMU","update_rate":0}"#
    );
}

#[test]
fn unknown_tag_not_recognized() {
    let s = r#"{"type":"GPS","x":1.0,"y":2.0,"mode":"IMU","update_rate":1}"#;
    assert!(decode(s).is_none());
}

#[test]
fn location_missing_mode_not_recognized() {
    let s = r#"{"type":"LOC","x":1.0,"y":2.0,"update_rate":1}"#;
    assert!(decode(s).is_none());
}

#[test]
fn location_missing_x_not_recognized() {
    let s = r#"{"type":"LOC","y":2.0,"mode":"IMU","update_rate":1}"#;
    assert!(decode(s).is_none());
}

#[test]
fn truncated_line_then_good_line() {
    let bad = r#"{"type":"LOC","x":11.22,"y":33."#;
    assert!(decode(bad).is_none());
    let good = r#"{"type":"LOC","x":11.22,"y":33.44,"mode":"IMU","update_rate":100}"#;
    assert!(decode(good).is_some());
}

#[test]
fn garbage_lines_not_recognized() {
    assert!(decode("").is_none());
    assert!(decode("nonsense").is_none());
    assert!(decode("{}").is_none());
    assert!(decode(r#"{"type":12}"#).is_none());
    assert!(decode(r#"{"type":"LOC","x":"oops","y":1.0,"mode":"m","update_rate":1}"#).is_none());
}

#[test]
fn fraction_digits_past_four_are_dropped() {
    let s = r#"{"type":"LOC","x":1.23456,"y":0.0,"mode":"m","update_rate":1}"#;
    match decode(s).unwrap() {
        Message::Location(l) => assert_eq!(l.x.units, 12345),
        _ => panic!("wrong shape"),
    }
}

#[test]
fn oversized_number_not_recognized() {
    let s = r#"{"type":"LOC","x":99999999999999999999.0,"y":0.0,"mode":"m","update_rate":1}"#;
    assert!(decode(s).is_none());
    let s2 = r#"{"type":"LOC","x":0.0,"y":0.0,"mode":"m","update_rate":99999999999999999999}"#;
    assert!(decode(s2).is_none());
}

#[test]
fn duplicate_data_keys_not_recognized() {
    let s = r#"{"type":"MSG","body":"b","data":{"k":"1","k":"2"}}"#;
    assert!(decode(s).is_none());
}

#[test]
fn trailing_garbage_not_recognized() {
    let s = r#"{"type":"LOC","x":1.0,"y":2.0,"mode":"m","update_rate":1} extra"#;
    assert!(decode(s).is_none());
    let ws = "{\"type\":\"LOC\",\"x\":1.0,\"y\":2.0,\"mode\":\"m\",\"update_rate\":1} \t";
    assert!(decode(ws).is_some());
}

#[test]
fn integer_coordinates_decode() {
    let s = r#"{"type":"LOC","x":5,"y":-7,"mode":"m","update_rate":1}"#;
    match decode(s).unwrap() {
        Message::Location(l) => {
            assert_eq!(l.x.units, 50000);
            assert_eq!(l.y.units, -70000);
        },
        _ => panic!("wrong shape"),
    }
}

#[test]
fn whitespace_between_tokens_is_ignored() {
    let s = "\t{ \"type\" : \"MSG\" , \"body\" : \"b\" , \"data\" : { \"k\" : \"v\" } } ";
    match decode(s).unwrap() {
        Message::Message(d) => {
            assert_eq!(d.body, "b");
            assert_eq!(d.data, vec![("k".to_string(), "v".to_string())]);
        },
        _ => panic!("wrong shape"),
    }
}

#[test]
fn decoded_messages_are_bounded() {
    let s = r#"{"type":"LOC","x":11.22,"y":33.44,"mode":"IMU","update_rate":100}"#;
    assert!(decode(s).unwrap().check_bounded());
}

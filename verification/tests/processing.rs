use cs704_ui::msg::DebugMessage;
use cs704_ui::msg::Fixed;
use cs704_ui::msg::Location;
use cs704_ui::msg::Message;
use cs704_ui::process::step;
use cs704_ui::process::Config;
use cs704_ui::process::Output;
use cs704_ui::process::ProcState;

fn loc_i(x: i32, y: i32, mode: &str) -> Message {
    Message::Location(Location {
        x: Fixed::from_int(x),
        y: Fixed::from_int(y),
        h: None,
        mode: mode.to_string(),
        update_rate: 10,
    })
}

fn display(out: Option<Output>) -> (i64, i64, String) {
    match out {
        Some(Output::Display { x, y, mode }) => (x.units, y.units, mode),
        _ => panic!("expected a display output"),
    }
}

#[test]
fn mode_filter_passes_only_matching_locations() {
    let cfg = Config { mode_filter: Some("IMU".to_string()), rezero: false };
    let mut st = ProcState::new();
    let out1 = step(&cfg, &mut st, loc_i(1, 1, "GPS"));
    assert_eq!(out1, None);
    let out2 = step(&cfg, &mut st, loc_i(2, 2, "IMU"));
    assert!(out2.is_some());
    let out3 = step(&cfg, &mut st, loc_i(3, 3, "IMU"));
    assert!(out3.is_some());
}

#[test]
fn calibration_zeroes_on_first_location() {
    let cfg = Config { mode_filter: None, rezero: true };
    let mut st = ProcState::new();
    let d1 = display(step(&cfg, &mut st, loc_i(10, 10, "IMU")));
    assert_eq!((d1.0, d1.1), (0, 0));
    assert_eq!(st.zero, Some((Fixed::from_int(10), Fixed::from_int(10))));
    let d2 = display(step(&cfg, &mut st, loc_i(12, 11, "IMU")));
    assert_eq!((d2.0, d2.1), (2 * 10000, 1 * 10000));
    let d3 = display(step(&cfg, &mut st, loc_i(15, 9, "IMU")));
    assert_eq!((d3.0, d3.1), (5 * 10000, -1 * 10000));
    assert_eq!(st.zero, Some((Fixed::from_int(10), Fixed::from_int(10))));
}

#[test]
fn calibration_skips_filtered_locations() {
    let cfg = Config { mode_filter: Some("IMU".to_string()), rezero: true };
    let mut st = ProcState::new();
    assert_eq!(step(&cfg, &mut st, loc_i(1, 1, "GPS")), None);
    assert_eq!(step(&cfg, &mut st, loc_i(2, 2, "GPS")), None);
    assert_eq!(st.zero, None);
    let d = display(step(&cfg, &mut st, loc_i(5, 5, "IMU")));
    assert_eq!((d.0, d.1), (0, 0));
    assert_eq!(st.zero, Some((Fixed::from_int(5), Fixed::from_int(5))));
}

#[test]
fn no_calibration_displays_raw_coordinates() {
    let cfg = Config { mode_filter: None, rezero: false };
    let mut st = ProcState::new();
    let d = display(step(&cfg, &mut st, loc_i(10, 20, "GPS")));
    assert_eq!((d.0, d.1), (10 * 10000, 20 * 10000));
    assert_eq!(d.2, "GPS");
    assert_eq!(st.zero, None);
}

#[test]
fn debug_and_raw_messages_pass_through() {
    let cfg = Config { mode_filter: Some("IMU".to_string()), rezero: true };
    let mut st = ProcState::new();
    let dm = DebugMessage {
        body: "note".to_string(),
        data: vec![("a".to_string(), "b".to_string())],
    };
    let out = step(&cfg, &mut st, Message::Message(dm.clone()));
    assert_eq!(out, Some(Output::Diagnostic(dm)));
    assert_eq!(st.zero, None);
}

#[test]
fn fixed_subtraction_is_exact() {
    let a = Fixed::from_units(112200);
    let b = Fixed::from_units(100000);
    assert_eq!(a.sub(b).units, 12200);
}

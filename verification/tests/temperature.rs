use irn_bru::bus::Attribute;
use irn_bru::device::OnewireDevice;
use irn_bru::memory_bus::MemoryBus;
use irn_bru::temperature::{
    celsius_e4_to_fahrenheit_e5, parse_decimal_e4, Fahrenheit, TemperatureSensor,
};
use irn_bru::MachineError;

fn probe() -> TemperatureSensor {
    TemperatureSensor {
        device: OnewireDevice::from_components(
            "/tmp/fakebus".to_string(),
            "10.999999".to_string(),
        ),
    }
}

#[test]
fn twenty_celsius_is_sixty_eight_fahrenheit() {
    let sensor = probe();
    let mut bus = MemoryBus::new();
    bus.set_file(&sensor.device, Attribute::Temperature12, b"20.0".to_vec());
    let t = sensor.get_temperature(&mut bus).unwrap();
    assert_eq!(t, Fahrenheit { e5: 6_800_000 });
    assert_eq!(t.e5 as f64 / 100_000.0, 68.0);
}

#[test]
fn probe_readings_convert_exactly() {
    let sensor = probe();
    // A 12-bit probe steps in 1/16 of a degree.
    let mut bus = MemoryBus::new();
    bus.set_file(&sensor.device, Attribute::Temperature12, b"20.0625".to_vec());
    let t = sensor.get_temperature(&mut bus).unwrap();
    assert_eq!(t.e5 as f64 / 100_000.0, 68.1125);

    let mut bus = MemoryBus::new();
    bus.set_file(&sensor.device, Attribute::Temperature12, b"-40".to_vec());
    let t = sensor.get_temperature(&mut bus).unwrap();
    assert_eq!(t, Fahrenheit { e5: -4_000_000 });
}

#[test]
fn non_numeric_reading_is_a_parse_error() {
    let sensor = probe();
    let mut bus = MemoryBus::new();
    bus.set_file(&sensor.device, Attribute::Temperature12, b"warm".to_vec());
    assert_eq!(sensor.get_temperature(&mut bus), Err(MachineError::Parse));
}

#[test]
fn unreadable_probe_is_an_io_error() {
    let sensor = probe();
    let mut bus = MemoryBus::new();
    assert_eq!(sensor.get_temperature(&mut bus), Err(MachineError::Io));
}

#[test]
fn parse_accepts_plain_decimals() {
    assert_eq!(parse_decimal_e4(&b"20.0".to_vec()), Ok(200_000));
    assert_eq!(parse_decimal_e4(&b"20.0625".to_vec()), Ok(200_625));
    assert_eq!(parse_decimal_e4(&b"0".to_vec()), Ok(0));
    assert_eq!(parse_decimal_e4(&b"20.".to_vec()), Ok(200_000));
    assert_eq!(parse_decimal_e4(&b".5".to_vec()), Ok(5_000));
    assert_eq!(parse_decimal_e4(&b"+3".to_vec()), Ok(30_000));
    assert_eq!(parse_decimal_e4(&b"-5.5".to_vec()), Ok(-55_000));
}

#[test]
fn parse_truncates_past_the_fourth_fraction_digit() {
    assert_eq!(parse_decimal_e4(&b"0.00009".to_vec()), Ok(0));
    assert_eq!(parse_decimal_e4(&b"1.23456".to_vec()), Ok(12_345));
    assert_eq!(parse_decimal_e4(&b"-0.00019".to_vec()), Ok(-1));
}

#[test]
fn parse_rejects_everything_else() {
    assert_eq!(parse_decimal_e4(&b"".to_vec()), Err(MachineError::Parse));
    assert_eq!(parse_decimal_e4(&b".".to_vec()), Err(MachineError::Parse));
    assert_eq!(parse_decimal_e4(&b"-".to_vec()), Err(MachineError::Parse));
    assert_eq!(parse_decimal_e4(&b"-.".to_vec()), Err(MachineError::Parse));
    assert_eq!(parse_decimal_e4(&b"1.2.3".to_vec()), Err(MachineError::Parse));
    assert_eq!(parse_decimal_e4(&b"1e5".to_vec()), Err(MachineError::Parse));
    assert_eq!(parse_decimal_e4(&b" 20".to_vec()), Err(MachineError::Parse));
    assert_eq!(parse_decimal_e4(&b"20 ".to_vec()), Err(MachineError::Parse));
    // Whole parts beyond nine digits cannot be a temperature.
    assert_eq!(
        parse_decimal_e4(&b"99999999999".to_vec()),
        Err(MachineError::Parse)
    );
    assert_eq!(parse_decimal_e4(&b"999999999".to_vec()), Ok(9_999_999_990_000));
}

#[test]
fn conversion_formula_matches_known_points() {
    assert_eq!(celsius_e4_to_fahrenheit_e5(0), 3_200_000);
    assert_eq!(celsius_e4_to_fahrenheit_e5(1_000_000), 21_200_000);
    assert_eq!(celsius_e4_to_fahrenheit_e5(-400_000), -4_000_000);
    assert_eq!(celsius_e4_to_fahrenheit_e5(370_000), 9_860_000);
}

//! Attribute-level tests: the symbol alphabet and each bitfield codec.

use ac_ir_codec::Code;
use ac_ir_codec::DecodeError;
use ac_ir_codec::Fan;
use ac_ir_codec::Mode;
use ac_ir_codec::SwingMode;
use ac_ir_codec::Temperature;
use ac_ir_codec::TemperatureDisplay;
use ac_ir_codec::TimerSetting;

#[test]
fn bits_map_to_pulse_lengths() {
    assert_eq!(Code::from_bit(false), Code::Short);
    assert_eq!(Code::from_bit(true), Code::Long);
    assert_eq!(Code::Short.to_bit(), Ok(false));
    assert_eq!(Code::Long.to_bit(), Ok(true));
    assert_eq!(Code::Short.to_byte(), Ok(0));
    assert_eq!(Code::Long.to_byte(), Ok(1));
}

#[test]
fn markers_convert_to_no_bit() {
    assert_eq!(Code::Start.to_bit(), Err(DecodeError::UnexpectedMarker));
    assert_eq!(Code::Continue.to_bit(), Err(DecodeError::UnexpectedMarker));
    assert_eq!(Code::End.to_bit(), Err(DecodeError::UnexpectedMarker));
    assert_eq!(Code::Start.to_byte(), Err(DecodeError::UnexpectedMarker));
    assert_eq!(Code::End.to_byte(), Err(DecodeError::UnexpectedMarker));
}

#[test]
fn from_centigrade_accepts_exactly_16_to_30() {
    assert_eq!(Temperature::from_centigrade(15), None);
    assert_eq!(Temperature::from_centigrade(16).unwrap().centigrade(), 16);
    assert_eq!(Temperature::from_centigrade(23).unwrap().centigrade(), 23);
    assert_eq!(Temperature::from_centigrade(30).unwrap().centigrade(), 30);
    assert_eq!(Temperature::from_centigrade(31), None);
    assert_eq!(Temperature::from_centigrade(0), None);
    assert_eq!(Temperature::from_centigrade(255), None);
}

#[test]
fn mode_encodes_three_bits_lsb_first() {
    let mut out: Vec<Code> = Vec::new();
    Mode::Hot.encode(&mut out);
    assert_eq!(out, vec![Code::Short, Code::Short, Code::Long]);
    let mut out: Vec<Code> = Vec::new();
    Mode::Cold.encode(&mut out);
    assert_eq!(out, vec![Code::Long, Code::Short, Code::Short]);
}

#[test]
fn mode_decode_rejects_out_of_range_patterns() {
    // 5, 6 and 7 name no mode.
    let five = [Code::Long, Code::Short, Code::Long];
    assert_eq!(Mode::decode(&five, 0), Err(DecodeError::InvalidMode));
    let seven = [Code::Long, Code::Long, Code::Long];
    assert_eq!(Mode::decode(&seven, 0), Err(DecodeError::InvalidMode));
    let four = [Code::Short, Code::Short, Code::Long];
    assert_eq!(Mode::decode(&four, 0), Ok(Mode::Hot));
}

#[test]
fn attribute_decoders_report_eof_on_short_input() {
    let one = [Code::Short];
    assert_eq!(Mode::decode(&one, 0), Err(DecodeError::Eof));
    assert_eq!(Fan::decode(&one, 1), Err(DecodeError::Eof));
    assert_eq!(Temperature::decode(&one, 0), Err(DecodeError::Eof));
    assert_eq!(TimerSetting::decode(&one, 0), Err(DecodeError::Eof));
    assert_eq!(SwingMode::decode(&one, 0), Err(DecodeError::Eof));
    assert_eq!(TemperatureDisplay::decode(&one, 0), Err(DecodeError::Eof));
}

#[test]
fn fan_decode_is_total_over_two_bits() {
    assert_eq!(Fan::decode(&[Code::Short, Code::Short], 0), Ok(Fan::Auto));
    assert_eq!(Fan::decode(&[Code::Long, Code::Short], 0), Ok(Fan::Level1));
    assert_eq!(Fan::decode(&[Code::Short, Code::Long], 0), Ok(Fan::Level2));
    assert_eq!(Fan::decode(&[Code::Long, Code::Long], 0), Ok(Fan::Level3));
}

#[test]
fn temperature_decodes_with_offset_16() {
    // 7 = 1110 read least significant bit first.
    let codes = [Code::Long, Code::Long, Code::Long, Code::Short];
    assert_eq!(Temperature::decode(&codes, 0).unwrap().centigrade(), 23);
    // 15 is past the ceiling of 30 degrees.
    let codes = [Code::Long, Code::Long, Code::Long, Code::Long];
    assert_eq!(Temperature::decode(&codes, 0), Err(DecodeError::InvalidTemperature));
}

#[test]
fn timer_packs_half_tens_enabled_units() {
    // 45 half hours: 22 hours and a half; tens 2, units 2, half 1.
    let setting = TimerSetting { enabled: false, half_hours: 45 };
    assert_eq!(setting.to_byte(), 0b0010_0101);
    assert_eq!(TimerSetting::from_byte(0b0010_0101), Ok(setting));

    let enabled = TimerSetting { enabled: true, half_hours: 0 };
    assert_eq!(enabled.to_byte(), 0b0000_1000);
    assert_eq!(TimerSetting::from_byte(0b0000_1000), Ok(enabled));
}

#[test]
fn timer_rejects_bad_tens_and_units() {
    // tens = 3
    assert_eq!(TimerSetting::from_byte(0b0000_0110), Err(DecodeError::InvalidTimerSetting));
    // units = 10
    assert_eq!(TimerSetting::from_byte(0b1010_0000), Err(DecodeError::InvalidTimerSetting));
    // units = 15 with tens = 3
    assert_eq!(TimerSetting::from_byte(0xF6), Err(DecodeError::InvalidTimerSetting));
}

#[test]
fn swing_decode_is_total_over_four_bits() {
    assert_eq!(SwingMode::decode(&[Code::Short, Code::Short, Code::Short, Code::Short], 0), Ok(SwingMode::Off));
    assert_eq!(SwingMode::decode(&[Code::Long, Code::Short, Code::Short, Code::Short], 0), Ok(SwingMode::On));
    assert_eq!(SwingMode::decode(&[Code::Long, Code::Short, Code::Long, Code::Long], 0), Ok(SwingMode::Unknown13));
    assert_eq!(SwingMode::decode(&[Code::Long, Code::Long, Code::Long, Code::Long], 0), Ok(SwingMode::Unknown15));
}

#[test]
fn display_decode_is_total_over_two_bits() {
    assert_eq!(TemperatureDisplay::decode(&[Code::Short, Code::Short], 0), Ok(TemperatureDisplay::Setting));
    assert_eq!(TemperatureDisplay::decode(&[Code::Long, Code::Short], 0), Ok(TemperatureDisplay::Room));
    assert_eq!(TemperatureDisplay::decode(&[Code::Short, Code::Long], 0), Ok(TemperatureDisplay::Indoor));
    assert_eq!(TemperatureDisplay::decode(&[Code::Long, Code::Long], 0), Ok(TemperatureDisplay::Outdoor));
}

#[test]
fn decoders_read_at_the_given_offset() {
    let codes = [Code::Start, Code::Long, Code::Short, Code::Short, Code::End];
    assert_eq!(Mode::decode(&codes, 1), Ok(Mode::Cold));
    assert_eq!(Fan::decode(&codes, 1), Ok(Fan::Level1));
    // Reading across the marker fails.
    assert_eq!(Mode::decode(&codes, 2), Err(DecodeError::UnexpectedMarker));
}

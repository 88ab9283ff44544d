//! Frame-level tests: round trips, marker, magic and checksum handling.

use ac_ir_codec::Code;
use ac_ir_codec::Controller;
use ac_ir_codec::DecodeError;
use ac_ir_codec::Fan;
use ac_ir_codec::Mode;
use ac_ir_codec::SwingMode;
use ac_ir_codec::Temperature;
use ac_ir_codec::TemperatureDisplay;
use ac_ir_codec::TimerSetting;

fn default_state() -> Controller {
    Controller {
        mode: Mode::Auto,
        on: false,
        fan: Fan::Auto,
        swing: false,
        sleep: false,
        temperature: Temperature::from_centigrade(16).unwrap(),
        timing: TimerSetting { enabled: false, half_hours: 0 },
        strong: false,
        light: false,
        anion: false,
        dry: false,
        ventilate: false,
        v_swing: SwingMode::Off,
        h_swing: SwingMode::Off,
        temperature_display: TemperatureDisplay::Setting,
        i_feel: false,
        wifi: false,
        econo: false,
    }
}

fn busy_state() -> Controller {
    Controller {
        mode: Mode::Hot,
        on: true,
        fan: Fan::Level3,
        swing: true,
        sleep: true,
        temperature: Temperature::from_centigrade(30).unwrap(),
        timing: TimerSetting { enabled: true, half_hours: 48 },
        strong: true,
        light: true,
        anion: true,
        dry: true,
        ventilate: true,
        v_swing: SwingMode::Unknown7,
        h_swing: SwingMode::On,
        temperature_display: TemperatureDisplay::Outdoor,
        i_feel: true,
        wifi: true,
        econo: true,
    }
}

#[test]
fn encode_has_frame_shape() {
    let frame = default_state().encode();
    assert_eq!(frame.len(), 70);
    assert_eq!(frame[0], Code::Start);
    assert_eq!(frame[36], Code::Continue);
    assert_eq!(frame[69], Code::End);
}

#[test]
fn default_state_round_trips() {
    let state = default_state();
    let frame = state.encode();
    assert_eq!(Controller::decode(&frame), Ok(state));
}

#[test]
fn busy_state_round_trips() {
    let state = busy_state();
    let frame = state.encode();
    assert_eq!(Controller::decode(&frame), Ok(state));
}

#[test]
fn every_swing_mode_round_trips() {
    let swings = vec![
        SwingMode::Off,
        SwingMode::On,
        SwingMode::Unknown2,
        SwingMode::Unknown3,
        SwingMode::Unknown4,
        SwingMode::Unknown5,
        SwingMode::Unknown6,
        SwingMode::Unknown7,
        SwingMode::Unknown8,
        SwingMode::Unknown9,
        SwingMode::Unknown10,
        SwingMode::Unknown11,
        SwingMode::Unknown12,
        SwingMode::Unknown13,
        SwingMode::Unknown14,
        SwingMode::Unknown15,
    ];
    for v in swings {
        let mut state = default_state();
        state.v_swing = v;
        state.h_swing = v;
        let frame = state.encode();
        assert_eq!(Controller::decode(&frame), Ok(state));
    }
}

#[test]
fn temperature_boundaries_round_trip() {
    for degrees in [16u8, 30u8] {
        let mut state = default_state();
        state.temperature = Temperature::from_centigrade(degrees).unwrap();
        let frame = state.encode();
        let back = Controller::decode(&frame).unwrap();
        assert_eq!(back.temperature.centigrade(), degrees);
    }
}

#[test]
fn timer_boundaries_round_trip() {
    for half_hours in [0u8, 48u8] {
        let mut state = default_state();
        state.timing = TimerSetting { enabled: true, half_hours };
        let frame = state.encode();
        let back = Controller::decode(&frame).unwrap();
        assert_eq!(back.timing.half_hours, half_hours);
        assert!(back.timing.enabled);
    }
}

#[test]
fn truncated_input_is_eof() {
    let frame = default_state().encode();
    assert_eq!(Controller::decode(&[]), Err(DecodeError::Eof));
    assert_eq!(Controller::decode(&frame[..69]), Err(DecodeError::Eof));
    assert_eq!(Controller::decode(&frame[..1]), Err(DecodeError::Eof));
}

#[test]
fn wrong_markers_are_rejected() {
    let frame = default_state().encode();

    let mut bad = frame.clone();
    bad[0] = Code::Short;
    assert_eq!(Controller::decode(&bad), Err(DecodeError::InvalidMarker));

    let mut bad = frame.clone();
    bad[0] = Code::End;
    assert_eq!(Controller::decode(&bad), Err(DecodeError::InvalidMarker));

    let mut bad = frame.clone();
    bad[36] = Code::Long;
    assert_eq!(Controller::decode(&bad), Err(DecodeError::InvalidMarker));

    let mut bad = frame.clone();
    bad[36] = Code::Start;
    assert_eq!(Controller::decode(&bad), Err(DecodeError::InvalidMarker));

    let mut bad = frame;
    bad[69] = Code::Short;
    assert_eq!(Controller::decode(&bad), Err(DecodeError::InvalidMarker));
}

#[test]
fn corrupt_magic_blocks_name_the_block() {
    let frame = default_state().encode();

    let mut bad = frame.clone();
    bad[26] = Code::Long;
    assert_eq!(Controller::decode(&bad), Err(DecodeError::InvalidMagic(1)));

    let mut bad = frame.clone();
    bad[34] = Code::Short;
    assert_eq!(Controller::decode(&bad), Err(DecodeError::InvalidMagic(2)));

    let mut bad = frame;
    bad[50] = Code::Short;
    assert_eq!(Controller::decode(&bad), Err(DecodeError::InvalidMagic(3)));
}

#[test]
fn alternative_first_magic_block_is_accepted() {
    // The first block accepts a second fingerprint, which differs from the
    // emitted one exactly at its fifth symbol.
    let state = default_state();
    let mut frame = state.encode();
    frame[30] = Code::Long;
    assert_eq!(Controller::decode(&frame), Ok(state));
}

#[test]
fn flipped_checksum_bit_is_reported_with_both_nibbles() {
    // The default state's checksum nibble is 12; its bits at positions
    // 65..=68 are 0, 0, 1, 1. Flipping the lowest bit transmits 13, so the
    // error byte is 13 << 4 | 12.
    let mut frame = default_state().encode();
    assert_eq!(frame[65], Code::Short);
    frame[65] = Code::Long;
    assert_eq!(Controller::decode(&frame), Err(DecodeError::Checksum(220)));
}

#[test]
fn flipped_data_bit_in_checksum_scope_is_caught() {
    // The `on` bit at position 4 feeds the checksum: flipping it makes the
    // recomputed nibble (12 + 8) mod 16 = 4 disagree with the stored 12.
    let mut frame = default_state().encode();
    frame[4] = Code::Long;
    assert_eq!(Controller::decode(&frame), Err(DecodeError::Checksum(196)));
}

#[test]
fn fan_bits_do_not_feed_the_checksum() {
    // The vendor checksum only covers some attributes; a flipped fan bit
    // decodes as a different fan without a checksum complaint.
    let mut frame = default_state().encode();
    frame[5] = Code::Long;
    let back = Controller::decode(&frame).unwrap();
    assert_eq!(back.fan, Fan::Level1);
}

#[test]
fn reserved_symbols_are_skipped_on_decode() {
    let state = default_state();
    let mut frame = state.encode();
    frame[52] = Code::Long;
    frame[62] = Code::Long;
    frame[64] = Code::Long;
    assert_eq!(Controller::decode(&frame), Ok(state));
}

#[test]
fn marker_in_data_position_is_unexpected() {
    let frame = default_state().encode();

    let mut bad = frame.clone();
    bad[4] = Code::End;
    assert_eq!(Controller::decode(&bad), Err(DecodeError::UnexpectedMarker));

    // A marker among the checksum symbols is reported before any checksum
    // comparison.
    let mut bad = frame;
    bad[65] = Code::Continue;
    assert_eq!(Controller::decode(&bad), Err(DecodeError::UnexpectedMarker));
}

#[test]
fn out_of_range_mode_is_rejected() {
    // Mode bits at positions 1..=3, least significant first: 5 = 101.
    let mut frame = default_state().encode();
    frame[1] = Code::Long;
    frame[2] = Code::Short;
    frame[3] = Code::Long;
    assert_eq!(Controller::decode(&frame), Err(DecodeError::InvalidMode));
}

#[test]
fn out_of_range_temperature_is_rejected() {
    // Temperature bits at positions 9..=12; 15 is above the 14 ceiling.
    let mut frame = default_state().encode();
    frame[9] = Code::Long;
    frame[10] = Code::Long;
    frame[11] = Code::Long;
    frame[12] = Code::Long;
    assert_eq!(Controller::decode(&frame), Err(DecodeError::InvalidTemperature));
}

#[test]
fn out_of_range_timer_is_rejected() {
    // Timer bits at positions 13..=20: setting the tens field (bits 1 and
    // 2 of the packed byte) to 3 is invalid.
    let mut frame = default_state().encode();
    frame[14] = Code::Long;
    frame[15] = Code::Long;
    assert_eq!(Controller::decode(&frame), Err(DecodeError::InvalidTimerSetting));

    // Units of 10 (bits 4..=7 of the packed byte) are invalid too.
    let mut frame = default_state().encode();
    frame[18] = Code::Long;
    frame[20] = Code::Long;
    assert_eq!(Controller::decode(&frame), Err(DecodeError::InvalidTimerSetting));
}

#[test]
fn checksum_block_follows_the_vendor_formula() {
    // 10 + low nibbles of the first four bytes + high nibbles of the next
    // three, reduced mod 16.
    assert_eq!(Controller::checksum_block(&[1, 2, 3, 4, 0x50, 0x20, 0x00]), (10 + 1 + 2 + 3 + 4 + 5 + 2) % 16);
    assert_eq!(Controller::checksum_block(&[]), 10);
    assert_eq!(Controller::checksum_block(&[0xFF, 0xFF, 0xFF, 0xFF, 0xFF, 0xFF, 0xFF]), (10 + 15 * 7) % 16);
    // Bytes past the seventh contribute nothing.
    assert_eq!(Controller::checksum_block(&[0, 0, 0, 0, 0, 0, 0, 0x99]), 10);
}

#[test]
fn checksum_value_of_default_state() {
    assert_eq!(default_state().checksum(), 12);
}

//! Per-attribute bitfield codecs.
//!
//! Each attribute encodes as a fixed-width group of data symbols, least
//! significant bit first, and decodes by reading exactly that width back.
//! `mode`, `fan`, `temperature` and the timer are partial (some bit patterns
//! are rejected); the swing and display attributes are total over their bit
//! width.

use vstd::prelude::*;

use crate::code::Code;
use crate::code::bits_le;
use crate::code::push_bits;
use crate::code::read_bits;
use crate::code::spec_field_int;
use crate::code::two_to;
use crate::code::lemma_two_to_small;
use crate::error::DecodeError;

verus! {

/// The air conditioner's operating mode. Three bits on the wire; the
/// patterns 5, 6 and 7 are invalid.
#[derive(Clone, Copy, Debug, PartialEq, Eq, Structural)]
pub enum Mode {
    Auto,
    Cold,
    Dry,
    Wind,
    Hot,
}

/// The wire value of a mode.
pub open spec fn mode_val(m: Mode) -> int {
    match m {
        Mode::Auto => 0,
        Mode::Cold => 1,
        Mode::Dry => 2,
        Mode::Wind => 3,
        Mode::Hot => 4,
    }
}

/// The mode a wire value stands for.
pub open spec fn mode_of_val(v: int) -> Result<Mode, DecodeError> {
    if v == 0 {
        Ok(Mode::Auto)
    } else if v == 1 {
        Ok(Mode::Cold)
    } else if v == 2 {
        Ok(Mode::Dry)
    } else if v == 3 {
        Ok(Mode::Wind)
    } else if v == 4 {
        Ok(Mode::Hot)
    } else {
        Err(DecodeError::InvalidMode)
    }
}

/// The mode stored in the three symbols at `at`.
pub open spec fn spec_decode_mode(codes: Seq<Code>, at: int) -> Result<Mode, DecodeError> {
    match spec_field_int(codes, at, 3) {
        Ok(v) => mode_of_val(v as int),
        Err(e) => Err(e),
    }
}

impl Mode {
    /// This mode's wire value.
    pub fn to_u8(self) -> (r: u8)
        ensures
            r as int == mode_val(self),
    {
        match self {
            Mode::Auto => 0,
            Mode::Cold => 1,
            Mode::Dry => 2,
            Mode::Wind => 3,
            Mode::Hot => 4,
        }
    }

    /// Append this mode's three bits, least significant first.
    pub fn encode(&self, out: &mut Vec<Code>)
        ensures
            final(out)@ == old(out)@ + bits_le(mode_val(*self), 3),
    {
        let v = self.to_u8();
        push_bits(out, v, 3);
    }

    /// Decode the three-bit mode stored at `at`.
    pub fn decode(codes: &[Code], at: usize) -> (r: Result<Mode, DecodeError>)
        ensures
            r == spec_decode_mode(codes@, at as int),
    {
        let v = match read_bits(codes, at, 3) {
            Ok(v) => v,
            Err(e) => {
                return Err(e);
            },
        };
        match v {
            0 => Ok(Mode::Auto),
            1 => Ok(Mode::Cold),
            2 => Ok(Mode::Dry),
            3 => Ok(Mode::Wind),
            4 => Ok(Mode::Hot),
            _ => Err(DecodeError::InvalidMode),
        }
    }
}

/// A mode's wire value is in range and decodes back to the mode.
pub proof fn lemma_mode_round_trip(m: Mode)
    ensures
        0 <= mode_val(m) < two_to(3),
        mode_of_val(mode_val(m)) == Ok::<Mode, DecodeError>(m),
{
    lemma_two_to_small();
}

/// The fan speed. Two bits on the wire; every pattern is valid.
#[derive(Clone, Copy, Debug, PartialEq, Eq, Structural)]
pub enum Fan {
    Auto,
    Level1,
    Level2,
    Level3,
}

/// The wire value of a fan speed.
pub open spec fn fan_val(f: Fan) -> int {
    match f {
        Fan::Auto => 0,
        Fan::Level1 => 1,
        Fan::Level2 => 2,
        Fan::Level3 => 3,
    }
}

/// The fan speed a wire value stands for.
pub open spec fn fan_of_val(v: int) -> Result<Fan, DecodeError> {
    if v == 0 {
        Ok(Fan::Auto)
    } else if v == 1 {
        Ok(Fan::Level1)
    } else if v == 2 {
        Ok(Fan::Level2)
    } else if v == 3 {
        Ok(Fan::Level3)
    } else {
        Err(DecodeError::InvalidFan)
    }
}

/// The fan speed stored in the two symbols at `at`.
pub open spec fn spec_decode_fan(codes: Seq<Code>, at: int) -> Result<Fan, DecodeError> {
    match spec_field_int(codes, at, 2) {
        Ok(v) => fan_of_val(v as int),
        Err(e) => Err(e),
    }
}

impl Fan {
    /// This fan speed's wire value.
    pub fn to_u8(self) -> (r: u8)
        ensures
            r as int == fan_val(self),
    {
        match self {
            Fan::Auto => 0,
            Fan::Level1 => 1,
            Fan::Level2 => 2,
            Fan::Level3 => 3,
        }
    }

    /// Append this fan speed's two bits, least significant first.
    pub fn encode(&self, out: &mut Vec<Code>)
        ensures
            final(out)@ == old(out)@ + bits_le(fan_val(*self), 2),
    {
        let v = self.to_u8();
        push_bits(out, v, 2);
    }

    /// Decode the two-bit fan speed stored at `at`.
    pub fn decode(codes: &[Code], at: usize) -> (r: Result<Fan, DecodeError>)
        ensures
            r == spec_decode_fan(codes@, at as int),
    {
        let v = match read_bits(codes, at, 2) {
            Ok(v) => v,
            Err(e) => {
                return Err(e);
            },
        };
        match v {
            0 => Ok(Fan::Auto),
            1 => Ok(Fan::Level1),
            2 => Ok(Fan::Level2),
            3 => Ok(Fan::Level3),
            _ => Err(DecodeError::InvalidFan),
        }
    }
}

/// A fan speed's wire value is in range and decodes back to the fan speed.
pub proof fn lemma_fan_round_trip(f: Fan)
    ensures
        0 <= fan_val(f) < two_to(2),
        fan_of_val(fan_val(f)) == Ok::<Fan, DecodeError>(f),
{
    lemma_two_to_small();
}

/// A temperature in whole degrees centigrade, 16 to 30. Four bits on the
/// wire, stored as the value minus 16.
#[derive(Clone, Copy, Debug, PartialEq, Eq, Structural)]
pub struct Temperature(pub u8);

/// The temperature a wire value stands for; values above 14 are invalid.
pub open spec fn temp_of_val(v: int) -> Result<Temperature, DecodeError> {
    if 0 <= v <= 14 {
        Ok(Temperature((v + 16) as u8))
    } else {
        Err(DecodeError::InvalidTemperature)
    }
}

/// The temperature stored in the four symbols at `at`.
pub open spec fn spec_decode_temp(codes: Seq<Code>, at: int) -> Result<Temperature, DecodeError> {
    match spec_field_int(codes, at, 4) {
        Ok(v) => temp_of_val(v as int),
        Err(e) => Err(e),
    }
}

impl Temperature {
    /// Degrees in the range the protocol can carry.
    pub open spec fn wf(self) -> bool {
        16 <= self.0 <= 30
    }

    /// Construct from whole degrees centigrade; out-of-range input yields
    /// no value.
    pub fn from_centigrade(degrees: u8) -> (r: Option<Temperature>)
        ensures
            r == (if 16 <= degrees <= 30 {
                Some(Temperature(degrees))
            } else {
                None::<Temperature>
            }),
            r is Some ==> r->0.wf(),
    {
        if degrees < 16 || degrees > 30 {
            None
        } else {
            Some(Temperature(degrees))
        }
    }

    /// The stored whole degrees centigrade.
    pub fn centigrade(&self) -> (r: u8)
        ensures
            r == self.0,
    {
        self.0
    }

    /// Append this temperature's four bits (the degrees minus 16), least
    /// significant first.
    pub fn encode(&self, out: &mut Vec<Code>)
        requires
            self.wf(),
        ensures
            final(out)@ == old(out)@ + bits_le(self.0 - 16, 4),
    {
        let v = self.0 - 16;
        push_bits(out, v, 4);
    }

    /// Decode the four-bit temperature stored at `at`.
    pub fn decode(codes: &[Code], at: usize) -> (r: Result<Temperature, DecodeError>)
        ensures
            r == spec_decode_temp(codes@, at as int),
            r is Ok ==> r->Ok_0.wf(),
    {
        let v = match read_bits(codes, at, 4) {
            Ok(v) => v,
            Err(e) => {
                return Err(e);
            },
        };
        if v > 14 {
            Err(DecodeError::InvalidTemperature)
        } else {
            Ok(Temperature(v + 16))
        }
    }
}

/// A well-formed temperature's wire value is in range and decodes back to
/// the temperature.
pub proof fn lemma_temp_round_trip(t: Temperature)
    requires
        t.wf(),
    ensures
        0 <= t.0 - 16 < two_to(4),
        temp_of_val(t.0 - 16) == Ok::<Temperature, DecodeError>(t),
{
    lemma_two_to_small();
}

/// The sleep timer: whether it is enabled, and its duration in half hours.
/// Eight bits on the wire, packed as half-hour flag, tens of hours, the
/// enable flag, then units of hours.
#[derive(Clone, Copy, Debug, PartialEq, Eq, Structural)]
pub struct TimerSetting {
    pub enabled: bool,
    pub half_hours: u8,
}

/// The packed timer byte: bit 0 the half-hour flag, bits 1 and 2 the tens
/// of hours, bit 3 the enable flag, bits 4 to 7 the units of hours.
pub open spec fn timer_byte(t: TimerSetting) -> int {
    let hours = t.half_hours / 2;
    let half = t.half_hours % 2;
    half + 2 * (hours / 10) + 8 * (if t.enabled {
        1int
    } else {
        0int
    }) + 16 * (hours % 10)
}

/// The timer setting a packed byte stands for; tens above 2 or units above
/// 9 are invalid.
pub open spec fn timer_of_val(v: int) -> Result<TimerSetting, DecodeError> {
    let half = v % 2;
    let tens = (v / 2) % 4;
    let enabled = (v / 8) % 2 == 1;
    let units = v / 16;
    if tens > 2 || units > 9 {
        Err(DecodeError::InvalidTimerSetting)
    } else {
        Ok(
            TimerSetting {
                enabled,
                half_hours: ((tens * 10 + units) * 2 + half) as u8,
            },
        )
    }
}

/// The timer setting stored in the eight symbols at `at`.
pub open spec fn spec_decode_timer(codes: Seq<Code>, at: int) -> Result<
    TimerSetting,
    DecodeError,
> {
    match spec_field_int(codes, at, 8) {
        Ok(v) => timer_of_val(v as int),
        Err(e) => Err(e),
    }
}

impl TimerSetting {
    /// A duration the packed encoding can carry: tens of hours at most 2
    /// and units at most 9, so at most 59 half hours.
    pub open spec fn wf(self) -> bool {
        self.half_hours <= 59
    }

    /// The packed timer byte.
    pub fn to_byte(&self) -> (r: u8)
        ensures
            r as int == timer_byte(*self),
    {
        let hours = self.half_hours / 2;
        let half = self.half_hours % 2;
        let tens = hours / 10;
        let units = hours % 10;
        half + 2 * tens + (if self.enabled {
            8
        } else {
            0
        }) + 16 * units
    }

    /// The timer setting a packed byte stands for.
    pub fn from_byte(value: u8) -> (r: Result<TimerSetting, DecodeError>)
        ensures
            r == timer_of_val(value as int),
            r is Ok ==> r->Ok_0.wf(),
    {
        let half = value % 2;
        let tens = (value / 2) % 4;
        let enabled = (value / 8) % 2 == 1;
        let units = value / 16;
        if tens > 2 || units > 9 {
            Err(DecodeError::InvalidTimerSetting)
        } else {
            Ok(TimerSetting { enabled, half_hours: (tens * 10 + units) * 2 + half })
        }
    }

    /// Append this timer setting's eight bits, least significant first.
    pub fn encode(&self, out: &mut Vec<Code>)
        ensures
            final(out)@ == old(out)@ + bits_le(timer_byte(*self), 8),
    {
        let v = self.to_byte();
        push_bits(out, v, 8);
    }

    /// Decode the eight-bit timer setting stored at `at`.
    pub fn decode(codes: &[Code], at: usize) -> (r: Result<TimerSetting, DecodeError>)
        ensures
            r == spec_decode_timer(codes@, at as int),
            r is Ok ==> r->Ok_0.wf(),
    {
        let v = match read_bits(codes, at, 8) {
            Ok(v) => v,
            Err(e) => {
                return Err(e);
            },
        };
        Self::from_byte(v)
    }
}

/// A well-formed timer setting's packed byte is in range and decodes back
/// to the setting.
pub proof fn lemma_timer_round_trip(t: TimerSetting)
    requires
        t.wf(),
    ensures
        0 <= timer_byte(t) < two_to(8),
        timer_of_val(timer_byte(t)) == Ok::<TimerSetting, DecodeError>(t),
{
    lemma_two_to_small();
    let h = t.half_hours as int;
    let hours = h / 2;
    let half = h % 2;
    let tens = hours / 10;
    let units = hours % 10;
    let e: int = if t.enabled {
        1
    } else {
        0
    };
    let v = timer_byte(t);
    assert(0 <= half < 2 && 0 <= tens <= 2 && 0 <= e < 2 && 0 <= units <= 9);
    assert(v == half + 2 * tens + 8 * e + 16 * units);
    assert(v % 2 == half && v / 2 == tens + 4 * e + 8 * units) by (nonlinear_arith)
        requires
            v == 2 * (tens + 4 * e + 8 * units) + half,
            0 <= half < 2,
            0 <= tens + 4 * e + 8 * units,
    ;
    assert((v / 2) % 4 == tens && (v / 2) / 4 == e + 2 * units) by (nonlinear_arith)
        requires
            v / 2 == 4 * (e + 2 * units) + tens,
            0 <= tens < 4,
            0 <= e + 2 * units,
    ;
    assert(v / 8 == e + 2 * units && v % 8 == half + 2 * tens) by (nonlinear_arith)
        requires
            v == 8 * (e + 2 * units) + (half + 2 * tens),
            0 <= half + 2 * tens < 8,
            0 <= e + 2 * units,
    ;
    assert((v / 8) % 2 == e) by (nonlinear_arith)
        requires
            v / 8 == 2 * units + e,
            0 <= e < 2,
            0 <= units,
    ;
    assert(v / 16 == units) by (nonlinear_arith)
        requires
            v == 16 * units + (half + 2 * tens + 8 * e),
            0 <= half + 2 * tens + 8 * e < 16,
            0 <= units,
    ;
    assert((tens * 10 + units) * 2 + half == h) by (nonlinear_arith)
        requires
            tens == hours / 10,
            units == hours % 10,
            hours == h / 2,
            half == h % 2,
            0 <= h,
    ;
}

/// A swing vane position: off, on, or one of the fourteen undocumented
/// patterns, preserved bit for bit. Four bits on the wire; every pattern is
/// valid.
#[derive(Clone, Copy, Debug, PartialEq, Eq, Structural)]
pub enum SwingMode {
    Off,
    On,
    Unknown2,
    Unknown3,
    Unknown4,
    Unknown5,
    Unknown6,
    Unknown7,
    Unknown8,
    Unknown9,
    Unknown10,
    Unknown11,
    Unknown12,
    Unknown13,
    Unknown14,
    Unknown15,
}

/// The wire value of a swing position.
pub open spec fn swing_val(s: SwingMode) -> int {
    match s {
        SwingMode::Off => 0,
        SwingMode::On => 1,
        SwingMode::Unknown2 => 2,
        SwingMode::Unknown3 => 3,
        SwingMode::Unknown4 => 4,
        SwingMode::Unknown5 => 5,
        SwingMode::Unknown6 => 6,
        SwingMode::Unknown7 => 7,
        SwingMode::Unknown8 => 8,
        SwingMode::Unknown9 => 9,
        SwingMode::Unknown10 => 10,
        SwingMode::Unknown11 => 11,
        SwingMode::Unknown12 => 12,
        SwingMode::Unknown13 => 13,
        SwingMode::Unknown14 => 14,
        SwingMode::Unknown15 => 15,
    }
}

/// The swing position a wire value stands for.
pub open spec fn swing_of_val(v: int) -> SwingMode {
    if v == 1 {
        SwingMode::On
    } else if v == 2 {
        SwingMode::Unknown2
    } else if v == 3 {
        SwingMode::Unknown3
    } else if v == 4 {
        SwingMode::Unknown4
    } else if v == 5 {
        SwingMode::Unknown5
    } else if v == 6 {
        SwingMode::Unknown6
    } else if v == 7 {
        SwingMode::Unknown7
    } else if v == 8 {
        SwingMode::Unknown8
    } else if v == 9 {
        SwingMode::Unknown9
    } else if v == 10 {
        SwingMode::Unknown10
    } else if v == 11 {
        SwingMode::Unknown11
    } else if v == 12 {
        SwingMode::Unknown12
    } else if v == 13 {
        SwingMode::Unknown13
    } else if v == 14 {
        SwingMode::Unknown14
    } else if v == 15 {
        SwingMode::Unknown15
    } else {
        SwingMode::Off
    }
}

/// The swing position stored in the four symbols at `at`.
pub open spec fn spec_decode_swing(codes: Seq<Code>, at: int) -> Result<SwingMode, DecodeError> {
    match spec_field_int(codes, at, 4) {
        Ok(v) => Ok(swing_of_val(v as int)),
        Err(e) => Err(e),
    }
}

impl SwingMode {
    /// This swing position's wire value.
    pub fn to_u8(self) -> (r: u8)
        ensures
            r as int == swing_val(self),
    {
        match self {
            SwingMode::Off => 0,
            SwingMode::On => 1,
            SwingMode::Unknown2 => 2,
            SwingMode::Unknown3 => 3,
            SwingMode::Unknown4 => 4,
            SwingMode::Unknown5 => 5,
            SwingMode::Unknown6 => 6,
            SwingMode::Unknown7 => 7,
            SwingMode::Unknown8 => 8,
            SwingMode::Unknown9 => 9,
            SwingMode::Unknown10 => 10,
            SwingMode::Unknown11 => 11,
            SwingMode::Unknown12 => 12,
            SwingMode::Unknown13 => 13,
            SwingMode::Unknown14 => 14,
            SwingMode::Unknown15 => 15,
        }
    }

    /// Append this swing position's four bits, least significant first.
    pub fn encode(&self, out: &mut Vec<Code>)
        ensures
            final(out)@ == old(out)@ + bits_le(swing_val(*self), 4),
    {
        let v = self.to_u8();
        push_bits(out, v, 4);
    }

    /// Decode the four-bit swing position stored at `at`.
    pub fn decode(codes: &[Code], at: usize) -> (r: Result<SwingMode, DecodeError>)
        ensures
            r == spec_decode_swing(codes@, at as int),
    {
        let v = match read_bits(codes, at, 4) {
            Ok(v) => v,
            Err(e) => {
                return Err(e);
            },
        };
        match v {
            1 => Ok(SwingMode::On),
            2 => Ok(SwingMode::Unknown2),
            3 => Ok(SwingMode::Unknown3),
            4 => Ok(SwingMode::Unknown4),
            5 => Ok(SwingMode::Unknown5),
            6 => Ok(SwingMode::Unknown6),
            7 => Ok(SwingMode::Unknown7),
            8 => Ok(SwingMode::Unknown8),
            9 => Ok(SwingMode::Unknown9),
            10 => Ok(SwingMode::Unknown10),
            11 => Ok(SwingMode::Unknown11),
            12 => Ok(SwingMode::Unknown12),
            13 => Ok(SwingMode::Unknown13),
            14 => Ok(SwingMode::Unknown14),
            15 => Ok(SwingMode::Unknown15),
            _ => Ok(SwingMode::Off),
        }
    }
}

/// A swing position's wire value is in range and decodes back to the
/// position.
pub proof fn lemma_swing_round_trip(s: SwingMode)
    ensures
        0 <= swing_val(s) < two_to(4),
        swing_of_val(swing_val(s)) == s,
{
    lemma_two_to_small();
}

/// Which temperature the display shows. Two bits on the wire; every
/// pattern is valid.
#[derive(Clone, Copy, Debug, PartialEq, Eq, Structural)]
pub enum TemperatureDisplay {
    Setting,
    Room,
    Indoor,
    Outdoor,
}

/// The wire value of a display selection.
pub open spec fn td_val(d: TemperatureDisplay) -> int {
    match d {
        TemperatureDisplay::Setting => 0,
        TemperatureDisplay::Room => 1,
        TemperatureDisplay::Indoor => 2,
        TemperatureDisplay::Outdoor => 3,
    }
}

/// The display selection a wire value stands for.
pub open spec fn td_of_val(v: int) -> TemperatureDisplay {
    if v == 1 {
        TemperatureDisplay::Room
    } else if v == 2 {
        TemperatureDisplay::Indoor
    } else if v == 3 {
        TemperatureDisplay::Outdoor
    } else {
        TemperatureDisplay::Setting
    }
}

/// The display selection stored in the two symbols at `at`.
pub open spec fn spec_decode_td(codes: Seq<Code>, at: int) -> Result<
    TemperatureDisplay,
    DecodeError,
> {
    match spec_field_int(codes, at, 2) {
        Ok(v) => Ok(td_of_val(v as int)),
        Err(e) => Err(e),
    }
}

impl TemperatureDisplay {
    /// This display selection's wire value.
    pub fn to_u8(self) -> (r: u8)
        ensures
            r as int == td_val(self),
    {
        match self {
            TemperatureDisplay::Setting => 0,
            TemperatureDisplay::Room => 1,
            TemperatureDisplay::Indoor => 2,
            TemperatureDisplay::Outdoor => 3,
        }
    }

    /// Append this display selection's two bits, least significant first.
    pub fn encode(&self, out: &mut Vec<Code>)
        ensures
            final(out)@ == old(out)@ + bits_le(td_val(*self), 2),
    {
        let v = self.to_u8();
        push_bits(out, v, 2);
    }

    /// Decode the two-bit display selection stored at `at`.
    pub fn decode(codes: &[Code], at: usize) -> (r: Result<TemperatureDisplay, DecodeError>)
        ensures
            r == spec_decode_td(codes@, at as int),
    {
        let v = match read_bits(codes, at, 2) {
            Ok(v) => v,
            Err(e) => {
                return Err(e);
            },
        };
        match v {
            1 => Ok(TemperatureDisplay::Room),
            2 => Ok(TemperatureDisplay::Indoor),
            3 => Ok(TemperatureDisplay::Outdoor),
            _ => Ok(TemperatureDisplay::Setting),
        }
    }
}

/// A display selection's wire value is in range and decodes back to the
/// selection.
pub proof fn lemma_td_round_trip(d: TemperatureDisplay)
    ensures
        0 <= td_val(d) < two_to(2),
        td_of_val(td_val(d)) == d,
{
    lemma_two_to_small();
}

} // verus!

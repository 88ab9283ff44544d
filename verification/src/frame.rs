//! Frame assembly and parsing.
//!
//! A frame is exactly 70 symbols: `Start`, 35 data and magic symbols,
//! `Continue`, 32 data and magic symbols, `End`. The attribute order, the
//! magic-block positions and the checksum live here and nowhere else.
//!
//! Frame layout, by symbol position:
//! 0 `Start`; 1-3 mode; 4 on; 5-6 fan; 7 swing; 8 sleep; 9-12 temperature;
//! 13-20 timer; 21 strong; 22 light; 23 anion; 24 dry; 25 ventilate;
//! 26-32 magic block 1; 33-35 magic block 2; 36 `Continue`; 37-40 v_swing;
//! 41-44 h_swing; 45-46 temperature display; 47 i_feel; 48-50 magic block
//! 3; 51 wifi; 52-62 reserved; 63 econo; 64 reserved; 65-68 checksum;
//! 69 `End`.

use vstd::prelude::*;

use crate::code::Code;
use crate::code::bits_le;
use crate::code::lemma_add_assoc;
use crate::code::lemma_bits_le_len;
use crate::code::lemma_push_is_add;
use crate::code::lemma_le_value_bound;
use crate::code::lemma_two_to_small;
use crate::code::push_bit;
use crate::code::push_bits;
use crate::code::read_bit;
use crate::code::read_bits;
use crate::code::spec_field_int;
use crate::code::spec_from_bit;
use crate::code::spec_read_bit;
use crate::error::DecodeError;
use crate::fields::Fan;
use crate::fields::Mode;
use crate::fields::SwingMode;
use crate::fields::Temperature;
use crate::fields::TemperatureDisplay;
use crate::fields::TimerSetting;
use crate::fields::fan_val;
use crate::fields::lemma_mode_round_trip;
use crate::fields::lemma_swing_round_trip;
use crate::fields::lemma_td_round_trip;
use crate::fields::mode_val;
use crate::fields::spec_decode_fan;
use crate::fields::spec_decode_mode;
use crate::fields::spec_decode_swing;
use crate::fields::spec_decode_td;
use crate::fields::spec_decode_temp;
use crate::fields::spec_decode_timer;
use crate::fields::swing_val;
use crate::fields::td_val;
use crate::fields::timer_byte;

verus! {

/// The primary pattern accepted for the first magic block, and the one the
/// encoder emits.
pub open spec fn magic_1() -> Seq<Code> {
    seq![
        Code::Short,
        Code::Short,
        Code::Short,
        Code::Long,
        Code::Short,
        Code::Long,
        Code::Short,
    ]
}

/// The alternative pattern accepted for the first magic block: a second
/// known hardware fingerprint.
pub open spec fn magic_2() -> Seq<Code> {
    seq![
        Code::Short,
        Code::Short,
        Code::Short,
        Code::Long,
        Code::Long,
        Code::Long,
        Code::Short,
    ]
}

/// The only pattern accepted for the second magic block.
pub open spec fn magic_3() -> Seq<Code> {
    seq![Code::Short, Code::Long, Code::Short]
}

/// The only pattern accepted for the third magic block.
pub open spec fn magic_4() -> Seq<Code> {
    seq![Code::Short, Code::Short, Code::Long]
}

/// The eleven reserved symbols between wifi and econo.
pub open spec fn reserved_11() -> Seq<Code> {
    seq![
        Code::Short,
        Code::Short,
        Code::Short,
        Code::Short,
        Code::Short,
        Code::Short,
        Code::Short,
        Code::Short,
        Code::Short,
        Code::Short,
        Code::Short,
    ]
}

/// What checking the first magic block at `at` yields: it accepts either
/// of two fixed patterns.
pub open spec fn spec_check_magic1(codes: Seq<Code>, at: int) -> Result<(), DecodeError> {
    if codes.len() < at + 7 {
        Err(DecodeError::Eof)
    } else if codes.subrange(at, at + 7) == magic_1() || codes.subrange(at, at + 7) == magic_2() {
        Ok(())
    } else {
        Err(DecodeError::InvalidMagic(1))
    }
}

/// What checking the second magic block at `at` yields: one exact pattern.
pub open spec fn spec_check_magic2(codes: Seq<Code>, at: int) -> Result<(), DecodeError> {
    if codes.len() < at + 3 {
        Err(DecodeError::Eof)
    } else if codes.subrange(at, at + 3) == magic_3() {
        Ok(())
    } else {
        Err(DecodeError::InvalidMagic(2))
    }
}

/// What checking the third magic block at `at` yields: one exact pattern.
pub open spec fn spec_check_magic3(codes: Seq<Code>, at: int) -> Result<(), DecodeError> {
    if codes.len() < at + 3 {
        Err(DecodeError::Eof)
    } else if codes.subrange(at, at + 3) == magic_4() {
        Ok(())
    } else {
        Err(DecodeError::InvalidMagic(3))
    }
}

/// Check the first magic block, which may be either of two accepted
/// fingerprints.
pub fn check_magic_code1(codes: &[Code], at: usize) -> (r: Result<(), DecodeError>)
    ensures
        r == spec_check_magic1(codes@, at as int),
{
    if codes.len() < at || codes.len() - at < 7 {
        return Err(DecodeError::Eof);
    }
    let ghost sub = codes@.subrange(at as int, at + 7);
    proof {
        assert(sub[0] == codes@[at as int]);
        assert(sub[1] == codes@[at + 1]);
        assert(sub[2] == codes@[at + 2]);
        assert(sub[3] == codes@[at + 3]);
        assert(sub[4] == codes@[at + 4]);
        assert(sub[5] == codes@[at + 5]);
        assert(sub[6] == codes@[at + 6]);
    }
    let shared = codes[at] == Code::Short && codes[at + 1] == Code::Short && codes[at + 2]
        == Code::Short && codes[at + 3] == Code::Long && codes[at + 5] == Code::Long && codes[at
        + 6] == Code::Short;
    if shared && codes[at + 4] == Code::Short {
        proof {
            assert(sub =~= magic_1());
        }
        Ok(())
    } else if shared && codes[at + 4] == Code::Long {
        proof {
            assert(sub =~= magic_2());
        }
        Ok(())
    } else {
        proof {
            assert(sub != magic_1() && sub != magic_2());
        }
        Err(DecodeError::InvalidMagic(1))
    }
}

/// Check the second magic block against its single accepted pattern.
pub fn check_magic_code2(codes: &[Code], at: usize) -> (r: Result<(), DecodeError>)
    ensures
        r == spec_check_magic2(codes@, at as int),
{
    if codes.len() < at || codes.len() - at < 3 {
        return Err(DecodeError::Eof);
    }
    let ghost sub = codes@.subrange(at as int, at + 3);
    proof {
        assert(sub[0] == codes@[at as int]);
        assert(sub[1] == codes@[at + 1]);
        assert(sub[2] == codes@[at + 2]);
    }
    if codes[at] == Code::Short && codes[at + 1] == Code::Long && codes[at + 2] == Code::Short {
        proof {
            assert(sub =~= magic_3());
        }
        Ok(())
    } else {
        proof {
            assert(sub != magic_3());
        }
        Err(DecodeError::InvalidMagic(2))
    }
}

/// Check the third magic block against its single accepted pattern.
pub fn check_magic_code3(codes: &[Code], at: usize) -> (r: Result<(), DecodeError>)
    ensures
        r == spec_check_magic3(codes@, at as int),
{
    if codes.len() < at || codes.len() - at < 3 {
        return Err(DecodeError::Eof);
    }
    let ghost sub = codes@.subrange(at as int, at + 3);
    proof {
        assert(sub[0] == codes@[at as int]);
        assert(sub[1] == codes@[at + 1]);
        assert(sub[2] == codes@[at + 2]);
    }
    if codes[at] == Code::Short && codes[at + 1] == Code::Short && codes[at + 2] == Code::Long {
        proof {
            assert(sub =~= magic_4());
        }
        Ok(())
    } else {
        proof {
            assert(sub != magic_4());
        }
        Err(DecodeError::InvalidMagic(3))
    }
}

fn emit_magic_1(out: &mut Vec<Code>)
    ensures
        final(out)@ == old(out)@ + magic_1(),
{
    out.push(Code::Short);
    out.push(Code::Short);
    out.push(Code::Short);
    out.push(Code::Long);
    out.push(Code::Short);
    out.push(Code::Long);
    out.push(Code::Short);
    proof {
        assert(out@ =~= old(out)@ + magic_1());
    }
}

fn emit_magic_3(out: &mut Vec<Code>)
    ensures
        final(out)@ == old(out)@ + magic_3(),
{
    out.push(Code::Short);
    out.push(Code::Long);
    out.push(Code::Short);
    proof {
        assert(out@ =~= old(out)@ + magic_3());
    }
}

fn emit_magic_4(out: &mut Vec<Code>)
    ensures
        final(out)@ == old(out)@ + magic_4(),
{
    out.push(Code::Short);
    out.push(Code::Short);
    out.push(Code::Long);
    proof {
        assert(out@ =~= old(out)@ + magic_4());
    }
}

fn emit_reserved_11(out: &mut Vec<Code>)
    ensures
        final(out)@ == old(out)@ + reserved_11(),
{
    let mut k: usize = 0;
    while k < 11
        invariant
            k <= 11,
            out@ == old(out)@ + reserved_11().take(k as int),
        decreases 11 - k,
    {
        proof {
            assert(reserved_11().take(k + 1) =~= reserved_11().take(k as int).push(Code::Short));
            assert(out@.push(Code::Short) =~= old(out)@ + reserved_11().take(k + 1));
        }
        out.push(Code::Short);
        k = k + 1;
    }
    proof {
        assert(reserved_11().take(11) =~= reserved_11());
    }
}

/// The decoded set of air-conditioner control attributes one frame
/// carries.
#[derive(Clone, Copy, Debug, PartialEq, Eq, Structural)]
pub struct Controller {
    pub mode: Mode,
    pub on: bool,
    pub fan: Fan,
    pub swing: bool,
    pub sleep: bool,
    pub temperature: Temperature,
    pub timing: TimerSetting,
    pub strong: bool,
    pub light: bool,
    pub anion: bool,
    pub dry: bool,
    pub ventilate: bool,
    pub v_swing: SwingMode,
    pub h_swing: SwingMode,
    pub temperature_display: TemperatureDisplay,
    pub i_feel: bool,
    pub wifi: bool,
    pub econo: bool,
}

impl Controller {
    /// The temperature is in range and the timer duration is one the packed
    /// encoding can carry.
    pub open spec fn wf(self) -> bool {
        self.temperature.wf() && self.timing.wf()
    }
}

/// The nibble the checksum takes from byte `i` of a block: the low nibble
/// of each of the first four bytes, the high nibble of each of the next
/// three, and nothing from bytes past the end.
pub open spec fn nibble_at(data: Seq<u8>, i: int) -> int {
    if 0 <= i < data.len() {
        if i < 4 {
            (data[i] % 16) as int
        } else {
            (data[i] / 16) as int
        }
    } else {
        0
    }
}

/// The sum of the first `n` checksum nibbles of a block.
pub open spec fn nibble_sum(data: Seq<u8>, n: int) -> int
    decreases n,
{
    if n <= 0 {
        0
    } else {
        nibble_sum(data, n - 1) + nibble_at(data, n - 1)
    }
}

/// The vendor checksum of a block: 10 plus the low nibbles of the first
/// four bytes plus the high nibbles of the next three, reduced mod 16.
pub open spec fn spec_checksum_block(data: Seq<u8>) -> int {
    (10 + nibble_sum(data, 7)) % 16
}

/// The seven attribute bytes the checksum is computed over. Only the
/// nibbles `spec_checksum_block` reads matter: the timer byte and the last
/// byte contribute nothing by construction.
pub open spec fn checksum_blocks(s: Controller) -> Seq<u8> {
    seq![
        (mode_val(s.mode) + (if s.on {
            8int
        } else {
            0int
        })) as u8,
        (s.temperature.0 - 16) as u8,
        0u8,
        ((if s.ventilate {
            1int
        } else {
            0int
        }) + 80) as u8,
        (swing_val(s.v_swing) + 16 * swing_val(s.h_swing)) as u8,
        (td_val(s.temperature_display) + (if s.i_feel {
            4int
        } else {
            0int
        }) + 32) as u8,
        0u8,
    ]
}

/// The checksum nibble of a device state.
pub open spec fn spec_checksum(s: Controller) -> int {
    spec_checksum_block(checksum_blocks(s))
}

/// The 35 data and magic symbols between the `Start` and `Continue`
/// markers.
pub open spec fn segment_a(s: Controller) -> Seq<Code> {
    bits_le(mode_val(s.mode), 3) + seq![spec_from_bit(s.on)] + bits_le(fan_val(s.fan), 2) + seq![
        spec_from_bit(s.swing),
    ] + seq![spec_from_bit(s.sleep)] + bits_le(s.temperature.0 - 16, 4) + bits_le(
        timer_byte(s.timing),
        8,
    ) + seq![spec_from_bit(s.strong)] + seq![spec_from_bit(s.light)] + seq![spec_from_bit(s.anion)]
        + seq![spec_from_bit(s.dry)] + seq![spec_from_bit(s.ventilate)] + magic_1() + magic_3()
}

/// The 32 data and magic symbols between the `Continue` and `End` markers.
pub open spec fn segment_b(s: Controller) -> Seq<Code> {
    bits_le(swing_val(s.v_swing), 4) + bits_le(swing_val(s.h_swing), 4) + bits_le(
        td_val(s.temperature_display),
        2,
    ) + seq![spec_from_bit(s.i_feel)] + magic_4() + seq![spec_from_bit(s.wifi)] + reserved_11()
        + seq![spec_from_bit(s.econo)] + seq![Code::Short] + bits_le(spec_checksum(s), 4)
}

/// The 70-symbol frame that encodes a device state.
pub open spec fn frame_of(s: Controller) -> Seq<Code> {
    seq![Code::Start] + segment_a(s) + seq![Code::Continue] + segment_b(s) + seq![Code::End]
}

/// The two segments have their fixed lengths, so the frame has 70 symbols.
pub proof fn lemma_segment_lens(s: Controller)
    ensures
        segment_a(s).len() == 35,
        segment_b(s).len() == 32,
        frame_of(s).len() == 70,
{
    lemma_bits_le_len(mode_val(s.mode), 3);
    lemma_bits_le_len(fan_val(s.fan), 2);
    lemma_bits_le_len(s.temperature.0 - 16, 4);
    lemma_bits_le_len(timer_byte(s.timing), 8);
    lemma_bits_le_len(swing_val(s.v_swing), 4);
    lemma_bits_le_len(swing_val(s.h_swing), 4);
    lemma_bits_le_len(td_val(s.temperature_display), 2);
    lemma_bits_le_len(spec_checksum(s), 4);
}

/// The decoded meaning of a symbol sequence: the device state its first 70
/// symbols encode, or the first error the decoder reports. Errors are
/// found in this order: a sequence shorter than one frame, then the three
/// markers, then each attribute and magic block in frame order, then the
/// checksum comparison.
pub open spec fn spec_decode(codes: Seq<Code>) -> Result<Controller, DecodeError> {
    if codes.len() < 70 {
        Err(DecodeError::Eof)
    } else if !(codes[0] == Code::Start && codes[36] == Code::Continue && codes[69]
        == Code::End) {
        Err(DecodeError::InvalidMarker)
    } else if spec_decode_mode(codes, 1) is Err {
        Err(spec_decode_mode(codes, 1)->Err_0)
    } else if spec_read_bit(codes, 4) is Err {
        Err(spec_read_bit(codes, 4)->Err_0)
    } else if spec_decode_fan(codes, 5) is Err {
        Err(spec_decode_fan(codes, 5)->Err_0)
    } else if spec_read_bit(codes, 7) is Err {
        Err(spec_read_bit(codes, 7)->Err_0)
    } else if spec_read_bit(codes, 8) is Err {
        Err(spec_read_bit(codes, 8)->Err_0)
    } else if spec_decode_temp(codes, 9) is Err {
        Err(spec_decode_temp(codes, 9)->Err_0)
    } else if spec_decode_timer(codes, 13) is Err {
        Err(spec_decode_timer(codes, 13)->Err_0)
    } else if spec_read_bit(codes, 21) is Err {
        Err(spec_read_bit(codes, 21)->Err_0)
    } else if spec_read_bit(codes, 22) is Err {
        Err(spec_read_bit(codes, 22)->Err_0)
    } else if spec_read_bit(codes, 23) is Err {
        Err(spec_read_bit(codes, 23)->Err_0)
    } else if spec_read_bit(codes, 24) is Err {
        Err(spec_read_bit(codes, 24)->Err_0)
    } else if spec_read_bit(codes, 25) is Err {
        Err(spec_read_bit(codes, 25)->Err_0)
    } else if spec_check_magic1(codes, 26) is Err {
        Err(spec_check_magic1(codes, 26)->Err_0)
    } else if spec_check_magic2(codes, 33) is Err {
        Err(spec_check_magic2(codes, 33)->Err_0)
    } else if spec_decode_swing(codes, 37) is Err {
        Err(spec_decode_swing(codes, 37)->Err_0)
    } else if spec_decode_swing(codes, 41) is Err {
        Err(spec_decode_swing(codes, 41)->Err_0)
    } else if spec_decode_td(codes, 45) is Err {
        Err(spec_decode_td(codes, 45)->Err_0)
    } else if spec_read_bit(codes, 47) is Err {
        Err(spec_read_bit(codes, 47)->Err_0)
    } else if spec_check_magic3(codes, 48) is Err {
        Err(spec_check_magic3(codes, 48)->Err_0)
    } else if spec_read_bit(codes, 51) is Err {
        Err(spec_read_bit(codes, 51)->Err_0)
    } else if spec_read_bit(codes, 63) is Err {
        Err(spec_read_bit(codes, 63)->Err_0)
    } else if spec_field_int(codes, 65, 4) is Err {
        Err(spec_field_int(codes, 65, 4)->Err_0)
    } else {
        let st = Controller {
            mode: spec_decode_mode(codes, 1)->Ok_0,
            on: spec_read_bit(codes, 4)->Ok_0,
            fan: spec_decode_fan(codes, 5)->Ok_0,
            swing: spec_read_bit(codes, 7)->Ok_0,
            sleep: spec_read_bit(codes, 8)->Ok_0,
            temperature: spec_decode_temp(codes, 9)->Ok_0,
            timing: spec_decode_timer(codes, 13)->Ok_0,
            strong: spec_read_bit(codes, 21)->Ok_0,
            light: spec_read_bit(codes, 22)->Ok_0,
            anion: spec_read_bit(codes, 23)->Ok_0,
            dry: spec_read_bit(codes, 24)->Ok_0,
            ventilate: spec_read_bit(codes, 25)->Ok_0,
            v_swing: spec_decode_swing(codes, 37)->Ok_0,
            h_swing: spec_decode_swing(codes, 41)->Ok_0,
            temperature_display: spec_decode_td(codes, 45)->Ok_0,
            i_feel: spec_read_bit(codes, 47)->Ok_0,
            wifi: spec_read_bit(codes, 51)->Ok_0,
            econo: spec_read_bit(codes, 63)->Ok_0,
        };
        let tx = spec_field_int(codes, 65, 4)->Ok_0;
        if tx as int == spec_checksum(st) {
            Ok(st)
        } else {
            Err(DecodeError::Checksum((tx * 16 + spec_checksum(st)) as u8))
        }
    }
}

impl Controller {
    /// The vendor checksum of a block of attribute bytes: 10 plus the low
    /// nibbles of the first four bytes plus the high nibbles of the next
    /// three, reduced to four bits.
    pub fn checksum_block(data: &[u8]) -> (r: u8)
        ensures
            r as int == spec_checksum_block(data@),
    {
        let mut sum: u8 = 10;
        let mut i: usize = 0;
        while i < 7
            invariant
                i <= 7,
                sum as int == 10 + nibble_sum(data@, i as int),
                sum <= 10 + 15 * i,
            decreases 7 - i,
        {
            if i < data.len() {
                let b = data[i];
                let nib = if i < 4 {
                    b % 16
                } else {
                    b / 16
                };
                sum = sum + nib;
            }
            i = i + 1;
        }
        sum % 16
    }

    /// The checksum nibble of this state.
    pub fn checksum(&self) -> (r: u8)
        requires
            self.wf(),
        ensures
            r as int == spec_checksum(*self),
            r < 16,
    {
        proof {
            lemma_mode_round_trip(self.mode);
            lemma_swing_round_trip(self.v_swing);
            lemma_swing_round_trip(self.h_swing);
            lemma_td_round_trip(self.temperature_display);
            lemma_two_to_small();
        }
        let mut blocks: Vec<u8> = Vec::new();
        blocks.push(self.mode.to_u8() + (if self.on {
            8
        } else {
            0
        }));
        blocks.push(self.temperature.0 - 16);
        blocks.push(0);
        blocks.push((if self.ventilate {
            1
        } else {
            0
        }) + 80);
        blocks.push(self.v_swing.to_u8() + 16 * self.h_swing.to_u8());
        blocks.push(self.temperature_display.to_u8() + (if self.i_feel {
            4
        } else {
            0
        }) + 32);
        blocks.push(0);
        proof {
            assert(blocks@ =~= checksum_blocks(*self));
        }
        Self::checksum_block(blocks.as_slice())
    }

    /// Append the data and magic symbols of the frame's first segment.
    fn encode_segment_a(&self, out: &mut Vec<Code>)
        requires
            self.wf(),
        ensures
            final(out)@ == old(out)@ + segment_a(*self),
    {
        let ghost o = old(out)@;
        let ghost mut acc: Seq<Code> = bits_le(mode_val(self.mode), 3);
        self.mode.encode(out);
        push_bit(out, self.on);
        proof {
            lemma_push_is_add(o + acc, spec_from_bit(self.on));
            lemma_add_assoc(o, acc, seq![spec_from_bit(self.on)]);
            acc = acc + seq![spec_from_bit(self.on)];
        }
        self.fan.encode(out);
        proof {
            lemma_add_assoc(o, acc, bits_le(fan_val(self.fan), 2));
            acc = acc + bits_le(fan_val(self.fan), 2);
        }
        push_bit(out, self.swing);
        proof {
            lemma_push_is_add(o + acc, spec_from_bit(self.swing));
            lemma_add_assoc(o, acc, seq![spec_from_bit(self.swing)]);
            acc = acc + seq![spec_from_bit(self.swing)];
        }
        push_bit(out, self.sleep);
        proof {
            lemma_push_is_add(o + acc, spec_from_bit(self.sleep));
            lemma_add_assoc(o, acc, seq![spec_from_bit(self.sleep)]);
            acc = acc + seq![spec_from_bit(self.sleep)];
        }
        self.temperature.encode(out);
        proof {
            lemma_add_assoc(o, acc, bits_le(self.temperature.0 - 16, 4));
            acc = acc + bits_le(self.temperature.0 - 16, 4);
        }
        self.timing.encode(out);
        proof {
            lemma_add_assoc(o, acc, bits_le(timer_byte(self.timing), 8));
            acc = acc + bits_le(timer_byte(self.timing), 8);
        }
        push_bit(out, self.strong);
        proof {
            lemma_push_is_add(o + acc, spec_from_bit(self.strong));
            lemma_add_assoc(o, acc, seq![spec_from_bit(self.strong)]);
            acc = acc + seq![spec_from_bit(self.strong)];
        }
        push_bit(out, self.light);
        proof {
            lemma_push_is_add(o + acc, spec_from_bit(self.light));
            lemma_add_assoc(o, acc, seq![spec_from_bit(self.light)]);
            acc = acc + seq![spec_from_bit(self.light)];
        }
        push_bit(out, self.anion);
        proof {
            lemma_push_is_add(o + acc, spec_from_bit(self.anion));
            lemma_add_assoc(o, acc, seq![spec_from_bit(self.anion)]);
            acc = acc + seq![spec_from_bit(self.anion)];
        }
        push_bit(out, self.dry);
        proof {
            lemma_push_is_add(o + acc, spec_from_bit(self.dry));
            lemma_add_assoc(o, acc, seq![spec_from_bit(self.dry)]);
            acc = acc + seq![spec_from_bit(self.dry)];
        }
        push_bit(out, self.ventilate);
        proof {
            lemma_push_is_add(o + acc, spec_from_bit(self.ventilate));
            lemma_add_assoc(o, acc, seq![spec_from_bit(self.ventilate)]);
            acc = acc + seq![spec_from_bit(self.ventilate)];
        }
        emit_magic_1(out);
        proof {
            lemma_add_assoc(o, acc, magic_1());
            acc = acc + magic_1();
        }
        emit_magic_3(out);
        proof {
            lemma_add_assoc(o, acc, magic_3());
            acc = acc + magic_3();
            assert(out@ == o + acc);
            assert(acc == segment_a(*self));
        }
    }

    /// Append the data and magic symbols of the frame's second segment.
    fn encode_segment_b(&self, out: &mut Vec<Code>)
        requires
            self.wf(),
        ensures
            final(out)@ == old(out)@ + segment_b(*self),
    {
        let ghost o = old(out)@;
        let ghost mut acc: Seq<Code> = bits_le(swing_val(self.v_swing), 4);
        self.v_swing.encode(out);
        self.h_swing.encode(out);
        proof {
            lemma_add_assoc(o, acc, bits_le(swing_val(self.h_swing), 4));
            acc = acc + bits_le(swing_val(self.h_swing), 4);
        }
        self.temperature_display.encode(out);
        proof {
            lemma_add_assoc(o, acc, bits_le(td_val(self.temperature_display), 2));
            acc = acc + bits_le(td_val(self.temperature_display), 2);
        }
        push_bit(out, self.i_feel);
        proof {
            lemma_push_is_add(o + acc, spec_from_bit(self.i_feel));
            lemma_add_assoc(o, acc, seq![spec_from_bit(self.i_feel)]);
            acc = acc + seq![spec_from_bit(self.i_feel)];
        }
        emit_magic_4(out);
        proof {
            lemma_add_assoc(o, acc, magic_4());
            acc = acc + magic_4();
        }
        push_bit(out, self.wifi);
        proof {
            lemma_push_is_add(o + acc, spec_from_bit(self.wifi));
            lemma_add_assoc(o, acc, seq![spec_from_bit(self.wifi)]);
            acc = acc + seq![spec_from_bit(self.wifi)];
        }
        emit_reserved_11(out);
        proof {
            lemma_add_assoc(o, acc, reserved_11());
            acc = acc + reserved_11();
        }
        push_bit(out, self.econo);
        proof {
            lemma_push_is_add(o + acc, spec_from_bit(self.econo));
            lemma_add_assoc(o, acc, seq![spec_from_bit(self.econo)]);
            acc = acc + seq![spec_from_bit(self.econo)];
        }
        out.push(Code::Short);
        proof {
            lemma_push_is_add(o + acc, Code::Short);
            lemma_add_assoc(o, acc, seq![Code::Short]);
            acc = acc + seq![Code::Short];
        }
        let cs = self.checksum();
        push_bits(out, cs, 4);
        proof {
            lemma_add_assoc(o, acc, bits_le(cs as int, 4));
            acc = acc + bits_le(cs as int, 4);
            assert(out@ == o + acc);
            assert(acc == segment_b(*self));
        }
    }

    /// Serialize this state into its 70-symbol frame. Total for every
    /// well-formed state; the result always decodes back to this state.
    pub fn encode(&self) -> (r: Vec<Code>)
        requires
            self.wf(),
        ensures
            r@ == frame_of(*self),
            r@.len() == 70,
    {
        let mut out: Vec<Code> = Vec::new();
        out.push(Code::Start);
        proof {
            assert(out@ =~= seq![Code::Start]);
        }
        self.encode_segment_a(&mut out);
        out.push(Code::Continue);
        proof {
            lemma_push_is_add(seq![Code::Start] + segment_a(*self), Code::Continue);
        }
        self.encode_segment_b(&mut out);
        out.push(Code::End);
        proof {
            lemma_push_is_add(
                seq![Code::Start] + segment_a(*self) + seq![Code::Continue] + segment_b(*self),
                Code::End,
            );
            lemma_segment_lens(*self);
            assert(out@ == frame_of(*self));
        }
        out
    }

    /// Parse a received symbol sequence into the state its first 70
    /// symbols encode. A sequence shorter than one frame is `Eof`; wrong
    /// markers, a failing attribute, a foreign magic block or a checksum
    /// mismatch yield the matching error, in frame order.
    pub fn decode(codes: &[Code]) -> (r: Result<Controller, DecodeError>)
        ensures
            r == spec_decode(codes@),
            r is Ok ==> r->Ok_0.wf(),
    {
        if codes.len() < 70 {
            return Err(DecodeError::Eof);
        }
        if !(codes[0] == Code::Start) || !(codes[36] == Code::Continue) || !(codes[69]
            == Code::End) {
            return Err(DecodeError::InvalidMarker);
        }
        let mode = match Mode::decode(codes, 1) {
            Ok(v) => v,
            Err(e) => {
                return Err(e);
            },
        };
        let on = match read_bit(codes, 4) {
            Ok(v) => v,
            Err(e) => {
                return Err(e);
            },
        };
        let fan = match Fan::decode(codes, 5) {
            Ok(v) => v,
            Err(e) => {
                return Err(e);
            },
        };
        let swing = match read_bit(codes, 7) {
            Ok(v) => v,
            Err(e) => {
                return Err(e);
            },
        };
        let sleep = match read_bit(codes, 8) {
            Ok(v) => v,
            Err(e) => {
                return Err(e);
            },
        };
        let temperature = match Temperature::decode(codes, 9) {
            Ok(v) => v,
            Err(e) => {
                return Err(e);
            },
        };
        let timing = match TimerSetting::decode(codes, 13) {
            Ok(v) => v,
            Err(e) => {
                return Err(e);
            },
        };
        let strong = match read_bit(codes, 21) {
            Ok(v) => v,
            Err(e) => {
                return Err(e);
            },
        };
        let light = match read_bit(codes, 22) {
            Ok(v) => v,
            Err(e) => {
                return Err(e);
            },
        };
        let anion = match read_bit(codes, 23) {
            Ok(v) => v,
            Err(e) => {
                return Err(e);
            },
        };
        let dry = match read_bit(codes, 24) {
            Ok(v) => v,
            Err(e) => {
                return Err(e);
            },
        };
        let ventilate = match read_bit(codes, 25) {
            Ok(v) => v,
            Err(e) => {
                return Err(e);
            },
        };
        match check_magic_code1(codes, 26) {
            Ok(_) => {},
            Err(e) => {
                return Err(e);
            },
        };
        match check_magic_code2(codes, 33) {
            Ok(_) => {},
            Err(e) => {
                return Err(e);
            },
        };
        let v_swing = match SwingMode::decode(codes, 37) {
            Ok(v) => v,
            Err(e) => {
                return Err(e);
            },
        };
        let h_swing = match SwingMode::decode(codes, 41) {
            Ok(v) => v,
            Err(e) => {
                return Err(e);
            },
        };
        let temperature_display = match TemperatureDisplay::decode(codes, 45) {
            Ok(v) => v,
            Err(e) => {
                return Err(e);
            },
        };
        let i_feel = match read_bit(codes, 47) {
            Ok(v) => v,
            Err(e) => {
                return Err(e);
            },
        };
        match check_magic_code3(codes, 48) {
            Ok(_) => {},
            Err(e) => {
                return Err(e);
            },
        };
        let wifi = match read_bit(codes, 51) {
            Ok(v) => v,
            Err(e) => {
                return Err(e);
            },
        };
        let econo = match read_bit(codes, 63) {
            Ok(v) => v,
            Err(e) => {
                return Err(e);
            },
        };
        let tx = match read_bits(codes, 65, 4) {
            Ok(v) => v,
            Err(e) => {
                return Err(e);
            },
        };
        let value = Controller {
            mode,
            on,
            fan,
            swing,
            sleep,
            temperature,
            timing,
            strong,
            light,
            anion,
            dry,
            ventilate,
            v_swing,
            h_swing,
            temperature_display,
            i_feel,
            wifi,
            econo,
        };
        proof {
            lemma_le_value_bound(codes@.subrange(65, 69));
            lemma_two_to_small();
        }
        let calc = value.checksum();
        if tx != calc {
            return Err(DecodeError::Checksum(tx * 16 + calc));
        }
        Ok(value)
    }
}

} // verus!

//! The laws the codec obeys, proved once and for all states.
//!
//! The central one is the round trip: decoding the frame a well-formed
//! state encodes gives that state back. Around it stand the corruption
//! laws: what the decoder reports when a marker, a magic block or a
//! checksum symbol of a valid frame is replaced.

use vstd::prelude::*;

use crate::code::Code;
use crate::code::all_data;
use crate::code::bits_le;
use crate::code::is_data_code;
use crate::code::le_value;
use crate::code::lemma_bits_le_all_data;
use crate::code::lemma_bits_le_len;
use crate::code::lemma_le_value_bits_le;
use crate::code::lemma_le_value_bound;
use crate::code::lemma_le_value_injective;
use crate::code::lemma_index_left;
use crate::code::lemma_index_right;
use crate::code::lemma_subrange_full;
use crate::code::lemma_subrange_left;
use crate::code::lemma_subrange_right;
use crate::code::lemma_two_to_small;
use crate::code::spec_field_int;
use crate::code::spec_from_bit;
use crate::code::spec_read_bit;
use crate::error::DecodeError;
use crate::fields::Fan;
use crate::fields::Mode;
use crate::fields::SwingMode;
use crate::fields::Temperature;
use crate::fields::TemperatureDisplay;
use crate::fields::TimerSetting;
use crate::fields::fan_val;
use crate::fields::lemma_fan_round_trip;
use crate::fields::lemma_mode_round_trip;
use crate::fields::lemma_swing_round_trip;
use crate::fields::lemma_td_round_trip;
use crate::fields::lemma_temp_round_trip;
use crate::fields::lemma_timer_round_trip;
use crate::fields::mode_val;
use crate::fields::spec_decode_fan;
use crate::fields::spec_decode_mode;
use crate::fields::spec_decode_swing;
use crate::fields::spec_decode_td;
use crate::fields::spec_decode_temp;
use crate::fields::spec_decode_timer;
use crate::fields::swing_val;
use crate::fields::td_val;
use crate::fields::timer_byte;
use crate::frame::Controller;
use crate::frame::frame_of;
use crate::frame::lemma_segment_lens;
use crate::frame::reserved_11;
use crate::frame::segment_a;
use crate::frame::segment_b;
use crate::frame::magic_1;
use crate::frame::magic_2;
use crate::frame::magic_3;
use crate::frame::magic_4;
use crate::frame::spec_check_magic1;
use crate::frame::spec_check_magic2;
use crate::frame::spec_check_magic3;
use crate::frame::spec_checksum;
use crate::frame::spec_decode;

verus! {

/// Where each attribute of the frame's first segment lies: the three
/// markers, and each attribute's symbols as a subrange.
#[verifier::rlimit(100)]
pub proof fn lemma_frame_layout_a(s: Controller)
    requires
        s.wf(),
    ensures
        frame_of(s).len() == 70,
        frame_of(s)[0] == Code::Start,
        frame_of(s)[36] == Code::Continue,
        frame_of(s)[69] == Code::End,
        frame_of(s).subrange(1, 4) == bits_le(mode_val(s.mode), 3),
        frame_of(s)[4] == spec_from_bit(s.on),
        frame_of(s).subrange(5, 7) == bits_le(fan_val(s.fan), 2),
        frame_of(s)[7] == spec_from_bit(s.swing),
        frame_of(s)[8] == spec_from_bit(s.sleep),
        frame_of(s).subrange(9, 13) == bits_le(s.temperature.0 - 16, 4),
        frame_of(s).subrange(13, 21) == bits_le(timer_byte(s.timing), 8),
        frame_of(s)[21] == spec_from_bit(s.strong),
        frame_of(s)[22] == spec_from_bit(s.light),
        frame_of(s)[23] == spec_from_bit(s.anion),
        frame_of(s)[24] == spec_from_bit(s.dry),
        frame_of(s)[25] == spec_from_bit(s.ventilate),
        frame_of(s).subrange(26, 33) == magic_1(),
        frame_of(s).subrange(33, 36) == magic_3(),
{
    lemma_segment_lens(s);
    lemma_bits_le_len(mode_val(s.mode), 3);
    lemma_bits_le_len(fan_val(s.fan), 2);
    lemma_bits_le_len(s.temperature.0 - 16, 4);
    lemma_bits_le_len(timer_byte(s.timing), 8);
    lemma_bits_le_len(swing_val(s.v_swing), 4);
    lemma_bits_le_len(swing_val(s.h_swing), 4);
    lemma_bits_le_len(td_val(s.temperature_display), 2);
    lemma_bits_le_len(spec_checksum(s), 4);
    let sa = segment_a(s);
    let sb = segment_b(s);
    let c1 = seq![Code::Start] + sa;
    let c2 = c1 + seq![Code::Continue];
    let c3 = c2 + sb;
    lemma_index_left(seq![Code::Start], sa, 0);
    lemma_index_left(c1, seq![Code::Continue], 0);
    lemma_index_left(c2, sb, 0);
    lemma_index_left(c3, seq![Code::End], 0);
    lemma_index_right(c1, seq![Code::Continue], 36);
    lemma_index_left(c2, sb, 36);
    lemma_index_left(c3, seq![Code::End], 36);
    lemma_index_right(c3, seq![Code::End], 69);
    lemma_subrange_left(c3, seq![Code::End], 1, 36);
    lemma_subrange_left(c2, sb, 1, 36);
    lemma_subrange_left(c1, seq![Code::Continue], 1, 36);
    lemma_subrange_right(seq![Code::Start], sa, 1, 36);
    lemma_subrange_full(sa);
    assert(frame_of(s).subrange(1, 36) == sa);
    lemma_subrange_left(c3, seq![Code::End], 37, 69);
    lemma_subrange_right(c2, sb, 37, 69);
    lemma_subrange_full(sb);
    assert(frame_of(s).subrange(37, 69) == sb);
    lemma_subrange_left(c3, seq![Code::End], 1, 4);
    lemma_subrange_left(c2, sb, 1, 4);
    lemma_subrange_left(c1, seq![Code::Continue], 1, 4);
    lemma_subrange_right(seq![Code::Start], sa, 1, 4);
    lemma_subrange_left(bits_le(mode_val(s.mode), 3) + seq![spec_from_bit(s.on)] + bits_le(fan_val(s.fan), 2) + seq![spec_from_bit(s.swing)] + seq![spec_from_bit(s.sleep)] + bits_le(s.temperature.0 - 16, 4) + bits_le(timer_byte(s.timing), 8) + seq![spec_from_bit(s.strong)] + seq![spec_from_bit(s.light)] + seq![spec_from_bit(s.anion)] + seq![spec_from_bit(s.dry)] + seq![spec_from_bit(s.ventilate)] + magic_1(), magic_3(), 0, 3);
    lemma_subrange_left(bits_le(mode_val(s.mode), 3) + seq![spec_from_bit(s.on)] + bits_le(fan_val(s.fan), 2) + seq![spec_from_bit(s.swing)] + seq![spec_from_bit(s.sleep)] + bits_le(s.temperature.0 - 16, 4) + bits_le(timer_byte(s.timing), 8) + seq![spec_from_bit(s.strong)] + seq![spec_from_bit(s.light)] + seq![spec_from_bit(s.anion)] + seq![spec_from_bit(s.dry)] + seq![spec_from_bit(s.ventilate)], magic_1(), 0, 3);
    lemma_subrange_left(bits_le(mode_val(s.mode), 3) + seq![spec_from_bit(s.on)] + bits_le(fan_val(s.fan), 2) + seq![spec_from_bit(s.swing)] + seq![spec_from_bit(s.sleep)] + bits_le(s.temperature.0 - 16, 4) + bits_le(timer_byte(s.timing), 8) + seq![spec_from_bit(s.strong)] + seq![spec_from_bit(s.light)] + seq![spec_from_bit(s.anion)] + seq![spec_from_bit(s.dry)], seq![spec_from_bit(s.ventilate)], 0, 3);
    lemma_subrange_left(bits_le(mode_val(s.mode), 3) + seq![spec_from_bit(s.on)] + bits_le(fan_val(s.fan), 2) + seq![spec_from_bit(s.swing)] + seq![spec_from_bit(s.sleep)] + bits_le(s.temperature.0 - 16, 4) + bits_le(timer_byte(s.timing), 8) + seq![spec_from_bit(s.strong)] + seq![spec_from_bit(s.light)] + seq![spec_from_bit(s.anion)], seq![spec_from_bit(s.dry)], 0, 3);
    lemma_subrange_left(bits_le(mode_val(s.mode), 3) + seq![spec_from_bit(s.on)] + bits_le(fan_val(s.fan), 2) + seq![spec_from_bit(s.swing)] + seq![spec_from_bit(s.sleep)] + bits_le(s.temperature.0 - 16, 4) + bits_le(timer_byte(s.timing), 8) + seq![spec_from_bit(s.strong)] + seq![spec_from_bit(s.light)], seq![spec_from_bit(s.anion)], 0, 3);
    lemma_subrange_left(bits_le(mode_val(s.mode), 3) + seq![spec_from_bit(s.on)] + bits_le(fan_val(s.fan), 2) + seq![spec_from_bit(s.swing)] + seq![spec_from_bit(s.sleep)] + bits_le(s.temperature.0 - 16, 4) + bits_le(timer_byte(s.timing), 8) + seq![spec_from_bit(s.strong)], seq![spec_from_bit(s.light)], 0, 3);
    lemma_subrange_left(bits_le(mode_val(s.mode), 3) + seq![spec_from_bit(s.on)] + bits_le(fan_val(s.fan), 2) + seq![spec_from_bit(s.swing)] + seq![spec_from_bit(s.sleep)] + bits_le(s.temperature.0 - 16, 4) + bits_le(timer_byte(s.timing), 8), seq![spec_from_bit(s.strong)], 0, 3);
    lemma_subrange_left(bits_le(mode_val(s.mode), 3) + seq![spec_from_bit(s.on)] + bits_le(fan_val(s.fan), 2) + seq![spec_from_bit(s.swing)] + seq![spec_from_bit(s.sleep)] + bits_le(s.temperature.0 - 16, 4), bits_le(timer_byte(s.timing), 8), 0, 3);
    lemma_subrange_left(bits_le(mode_val(s.mode), 3) + seq![spec_from_bit(s.on)] + bits_le(fan_val(s.fan), 2) + seq![spec_from_bit(s.swing)] + seq![spec_from_bit(s.sleep)], bits_le(s.temperature.0 - 16, 4), 0, 3);
    lemma_subrange_left(bits_le(mode_val(s.mode), 3) + seq![spec_from_bit(s.on)] + bits_le(fan_val(s.fan), 2) + seq![spec_from_bit(s.swing)], seq![spec_from_bit(s.sleep)], 0, 3);
    lemma_subrange_left(bits_le(mode_val(s.mode), 3) + seq![spec_from_bit(s.on)] + bits_le(fan_val(s.fan), 2), seq![spec_from_bit(s.swing)], 0, 3);
    lemma_subrange_left(bits_le(mode_val(s.mode), 3) + seq![spec_from_bit(s.on)], bits_le(fan_val(s.fan), 2), 0, 3);
    lemma_subrange_left(bits_le(mode_val(s.mode), 3), seq![spec_from_bit(s.on)], 0, 3);
    lemma_subrange_full(bits_le(mode_val(s.mode), 3));
    assert(frame_of(s).subrange(1, 4) == bits_le(mode_val(s.mode), 3));
    lemma_subrange_left(c3, seq![Code::End], 4, 5);
    lemma_subrange_left(c2, sb, 4, 5);
    lemma_subrange_left(c1, seq![Code::Continue], 4, 5);
    lemma_subrange_right(seq![Code::Start], sa, 4, 5);
    lemma_subrange_left(bits_le(mode_val(s.mode), 3) + seq![spec_from_bit(s.on)] + bits_le(fan_val(s.fan), 2) + seq![spec_from_bit(s.swing)] + seq![spec_from_bit(s.sleep)] + bits_le(s.temperature.0 - 16, 4) + bits_le(timer_byte(s.timing), 8) + seq![spec_from_bit(s.strong)] + seq![spec_from_bit(s.light)] + seq![spec_from_bit(s.anion)] + seq![spec_from_bit(s.dry)] + seq![spec_from_bit(s.ventilate)] + magic_1(), magic_3(), 3, 4);
    lemma_subrange_left(bits_le(mode_val(s.mode), 3) + seq![spec_from_bit(s.on)] + bits_le(fan_val(s.fan), 2) + seq![spec_from_bit(s.swing)] + seq![spec_from_bit(s.sleep)] + bits_le(s.temperature.0 - 16, 4) + bits_le(timer_byte(s.timing), 8) + seq![spec_from_bit(s.strong)] + seq![spec_from_bit(s.light)] + seq![spec_from_bit(s.anion)] + seq![spec_from_bit(s.dry)] + seq![spec_from_bit(s.ventilate)], magic_1(), 3, 4);
    lemma_subrange_left(bits_le(mode_val(s.mode), 3) + seq![spec_from_bit(s.on)] + bits_le(fan_val(s.fan), 2) + seq![spec_from_bit(s.swing)] + seq![spec_from_bit(s.sleep)] + bits_le(s.temperature.0 - 16, 4) + bits_le(timer_byte(s.timing), 8) + seq![spec_from_bit(s.strong)] + seq![spec_from_bit(s.light)] + seq![spec_from_bit(s.anion)] + seq![spec_from_bit(s.dry)], seq![spec_from_bit(s.ventilate)], 3, 4);
    lemma_subrange_left(bits_le(mode_val(s.mode), 3) + seq![spec_from_bit(s.on)] + bits_le(fan_val(s.fan), 2) + seq![spec_from_bit(s.swing)] + seq![spec_from_bit(s.sleep)] + bits_le(s.temperature.0 - 16, 4) + bits_le(timer_byte(s.timing), 8) + seq![spec_from_bit(s.strong)] + seq![spec_from_bit(s.light)] + seq![spec_from_bit(s.anion)], seq![spec_from_bit(s.dry)], 3, 4);
    lemma_subrange_left(bits_le(mode_val(s.mode), 3) + seq![spec_from_bit(s.on)] + bits_le(fan_val(s.fan), 2) + seq![spec_from_bit(s.swing)] + seq![spec_from_bit(s.sleep)] + bits_le(s.temperature.0 - 16, 4) + bits_le(timer_byte(s.timing), 8) + seq![spec_from_bit(s.strong)] + seq![spec_from_bit(s.light)], seq![spec_from_bit(s.anion)], 3, 4);
    lemma_subrange_left(bits_le(mode_val(s.mode), 3) + seq![spec_from_bit(s.on)] + bits_le(fan_val(s.fan), 2) + seq![spec_from_bit(s.swing)] + seq![spec_from_bit(s.sleep)] + bits_le(s.temperature.0 - 16, 4) + bits_le(timer_byte(s.timing), 8) + seq![spec_from_bit(s.strong)], seq![spec_from_bit(s.light)], 3, 4);
    lemma_subrange_left(bits_le(mode_val(s.mode), 3) + seq![spec_from_bit(s.on)] + bits_le(fan_val(s.fan), 2) + seq![spec_from_bit(s.swing)] + seq![spec_from_bit(s.sleep)] + bits_le(s.temperature.0 - 16, 4) + bits_le(timer_byte(s.timing), 8), seq![spec_from_bit(s.strong)], 3, 4);
    lemma_subrange_left(bits_le(mode_val(s.mode), 3) + seq![spec_from_bit(s.on)] + bits_le(fan_val(s.fan), 2) + seq![spec_from_bit(s.swing)] + seq![spec_from_bit(s.sleep)] + bits_le(s.temperature.0 - 16, 4), bits_le(timer_byte(s.timing), 8), 3, 4);
    lemma_subrange_left(bits_le(mode_val(s.mode), 3) + seq![spec_from_bit(s.on)] + bits_le(fan_val(s.fan), 2) + seq![spec_from_bit(s.swing)] + seq![spec_from_bit(s.sleep)], bits_le(s.temperature.0 - 16, 4), 3, 4);
    lemma_subrange_left(bits_le(mode_val(s.mode), 3) + seq![spec_from_bit(s.on)] + bits_le(fan_val(s.fan), 2) + seq![spec_from_bit(s.swing)], seq![spec_from_bit(s.sleep)], 3, 4);
    lemma_subrange_left(bits_le(mode_val(s.mode), 3) + seq![spec_from_bit(s.on)] + bits_le(fan_val(s.fan), 2), seq![spec_from_bit(s.swing)], 3, 4);
    lemma_subrange_left(bits_le(mode_val(s.mode), 3) + seq![spec_from_bit(s.on)], bits_le(fan_val(s.fan), 2), 3, 4);
    lemma_subrange_right(bits_le(mode_val(s.mode), 3), seq![spec_from_bit(s.on)], 3, 4);
    lemma_subrange_full(seq![spec_from_bit(s.on)]);
    assert(frame_of(s).subrange(4, 5) == seq![spec_from_bit(s.on)]);
    lemma_subrange_left(c3, seq![Code::End], 5, 7);
    lemma_subrange_left(c2, sb, 5, 7);
    lemma_subrange_left(c1, seq![Code::Continue], 5, 7);
    lemma_subrange_right(seq![Code::Start], sa, 5, 7);
    lemma_subrange_left(bits_le(mode_val(s.mode), 3) + seq![spec_from_bit(s.on)] + bits_le(fan_val(s.fan), 2) + seq![spec_from_bit(s.swing)] + seq![spec_from_bit(s.sleep)] + bits_le(s.temperature.0 - 16, 4) + bits_le(timer_byte(s.timing), 8) + seq![spec_from_bit(s.strong)] + seq![spec_from_bit(s.light)] + seq![spec_from_bit(s.anion)] + seq![spec_from_bit(s.dry)] + seq![spec_from_bit(s.ventilate)] + magic_1(), magic_3(), 4, 6);
    lemma_subrange_left(bits_le(mode_val(s.mode), 3) + seq![spec_from_bit(s.on)] + bits_le(fan_val(s.fan), 2) + seq![spec_from_bit(s.swing)] + seq![spec_from_bit(s.sleep)] + bits_le(s.temperature.0 - 16, 4) + bits_le(timer_byte(s.timing), 8) + seq![spec_from_bit(s.strong)] + seq![spec_from_bit(s.light)] + seq![spec_from_bit(s.anion)] + seq![spec_from_bit(s.dry)] + seq![spec_from_bit(s.ventilate)], magic_1(), 4, 6);
    lemma_subrange_left(bits_le(mode_val(s.mode), 3) + seq![spec_from_bit(s.on)] + bits_le(fan_val(s.fan), 2) + seq![spec_from_bit(s.swing)] + seq![spec_from_bit(s.sleep)] + bits_le(s.temperature.0 - 16, 4) + bits_le(timer_byte(s.timing), 8) + seq![spec_from_bit(s.strong)] + seq![spec_from_bit(s.light)] + seq![spec_from_bit(s.anion)] + seq![spec_from_bit(s.dry)], seq![spec_from_bit(s.ventilate)], 4, 6);
    lemma_subrange_left(bits_le(mode_val(s.mode), 3) + seq![spec_from_bit(s.on)] + bits_le(fan_val(s.fan), 2) + seq![spec_from_bit(s.swing)] + seq![spec_from_bit(s.sleep)] + bits_le(s.temperature.0 - 16, 4) + bits_le(timer_byte(s.timing), 8) + seq![spec_from_bit(s.strong)] + seq![spec_from_bit(s.light)] + seq![spec_from_bit(s.anion)], seq![spec_from_bit(s.dry)], 4, 6);
    lemma_subrange_left(bits_le(mode_val(s.mode), 3) + seq![spec_from_bit(s.on)] + bits_le(fan_val(s.fan), 2) + seq![spec_from_bit(s.swing)] + seq![spec_from_bit(s.sleep)] + bits_le(s.temperature.0 - 16, 4) + bits_le(timer_byte(s.timing), 8) + seq![spec_from_bit(s.strong)] + seq![spec_from_bit(s.light)], seq![spec_from_bit(s.anion)], 4, 6);
    lemma_subrange_left(bits_le(mode_val(s.mode), 3) + seq![spec_from_bit(s.on)] + bits_le(fan_val(s.fan), 2) + seq![spec_from_bit(s.swing)] + seq![spec_from_bit(s.sleep)] + bits_le(s.temperature.0 - 16, 4) + bits_le(timer_byte(s.timing), 8) + seq![spec_from_bit(s.strong)], seq![spec_from_bit(s.light)], 4, 6);
    lemma_subrange_left(bits_le(mode_val(s.mode), 3) + seq![spec_from_bit(s.on)] + bits_le(fan_val(s.fan), 2) + seq![spec_from_bit(s.swing)] + seq![spec_from_bit(s.sleep)] + bits_le(s.temperature.0 - 16, 4) + bits_le(timer_byte(s.timing), 8), seq![spec_from_bit(s.strong)], 4, 6);
    lemma_subrange_left(bits_le(mode_val(s.mode), 3) + seq![spec_from_bit(s.on)] + bits_le(fan_val(s.fan), 2) + seq![spec_from_bit(s.swing)] + seq![spec_from_bit(s.sleep)] + bits_le(s.temperature.0 - 16, 4), bits_le(timer_byte(s.timing), 8), 4, 6);
    lemma_subrange_left(bits_le(mode_val(s.mode), 3) + seq![spec_from_bit(s.on)] + bits_le(fan_val(s.fan), 2) + seq![spec_from_bit(s.swing)] + seq![spec_from_bit(s.sleep)], bits_le(s.temperature.0 - 16, 4), 4, 6);
    lemma_subrange_left(bits_le(mode_val(s.mode), 3) + seq![spec_from_bit(s.on)] + bits_le(fan_val(s.fan), 2) + seq![spec_from_bit(s.swing)], seq![spec_from_bit(s.sleep)], 4, 6);
    lemma_subrange_left(bits_le(mode_val(s.mode), 3) + seq![spec_from_bit(s.on)] + bits_le(fan_val(s.fan), 2), seq![spec_from_bit(s.swing)], 4, 6);
    lemma_subrange_right(bits_le(mode_val(s.mode), 3) + seq![spec_from_bit(s.on)], bits_le(fan_val(s.fan), 2), 4, 6);
    lemma_subrange_full(bits_le(fan_val(s.fan), 2));
    assert(frame_of(s).subrange(5, 7) == bits_le(fan_val(s.fan), 2));
    lemma_subrange_left(c3, seq![Code::End], 7, 8);
    lemma_subrange_left(c2, sb, 7, 8);
    lemma_subrange_left(c1, seq![Code::Continue], 7, 8);
    lemma_subrange_right(seq![Code::Start], sa, 7, 8);
    lemma_subrange_left(bits_le(mode_val(s.mode), 3) + seq![spec_from_bit(s.on)] + bits_le(fan_val(s.fan), 2) + seq![spec_from_bit(s.swing)] + seq![spec_from_bit(s.sleep)] + bits_le(s.temperature.0 - 16, 4) + bits_le(timer_byte(s.timing), 8) + seq![spec_from_bit(s.strong)] + seq![spec_from_bit(s.light)] + seq![spec_from_bit(s.anion)] + seq![spec_from_bit(s.dry)] + seq![spec_from_bit(s.ventilate)] + magic_1(), magic_3(), 6, 7);
    lemma_subrange_left(bits_le(mode_val(s.mode), 3) + seq![spec_from_bit(s.on)] + bits_le(fan_val(s.fan), 2) + seq![spec_from_bit(s.swing)] + seq![spec_from_bit(s.sleep)] + bits_le(s.temperature.0 - 16, 4) + bits_le(timer_byte(s.timing), 8) + seq![spec_from_bit(s.strong)] + seq![spec_from_bit(s.light)] + seq![spec_from_bit(s.anion)] + seq![spec_from_bit(s.dry)] + seq![spec_from_bit(s.ventilate)], magic_1(), 6, 7);
    lemma_subrange_left(bits_le(mode_val(s.mode), 3) + seq![spec_from_bit(s.on)] + bits_le(fan_val(s.fan), 2) + seq![spec_from_bit(s.swing)] + seq![spec_from_bit(s.sleep)] + bits_le(s.temperature.0 - 16, 4) + bits_le(timer_byte(s.timing), 8) + seq![spec_from_bit(s.strong)] + seq![spec_from_bit(s.light)] + seq![spec_from_bit(s.anion)] + seq![spec_from_bit(s.dry)], seq![spec_from_bit(s.ventilate)], 6, 7);
    lemma_subrange_left(bits_le(mode_val(s.mode), 3) + seq![spec_from_bit(s.on)] + bits_le(fan_val(s.fan), 2) + seq![spec_from_bit(s.swing)] + seq![spec_from_bit(s.sleep)] + bits_le(s.temperature.0 - 16, 4) + bits_le(timer_byte(s.timing), 8) + seq![spec_from_bit(s.strong)] + seq![spec_from_bit(s.light)] + seq![spec_from_bit(s.anion)], seq![spec_from_bit(s.dry)], 6, 7);
    lemma_subrange_left(bits_le(mode_val(s.mode), 3) + seq![spec_from_bit(s.on)] + bits_le(fan_val(s.fan), 2) + seq![spec_from_bit(s.swing)] + seq![spec_from_bit(s.sleep)] + bits_le(s.temperature.0 - 16, 4) + bits_le(timer_byte(s.timing), 8) + seq![spec_from_bit(s.strong)] + seq![spec_from_bit(s.light)], seq![spec_from_bit(s.anion)], 6, 7);
    lemma_subrange_left(bits_le(mode_val(s.mode), 3) + seq![spec_from_bit(s.on)] + bits_le(fan_val(s.fan), 2) + seq![spec_from_bit(s.swing)] + seq![spec_from_bit(s.sleep)] + bits_le(s.temperature.0 - 16, 4) + bits_le(timer_byte(s.timing), 8) + seq![spec_from_bit(s.strong)], seq![spec_from_bit(s.light)], 6, 7);
    lemma_subrange_left(bits_le(mode_val(s.mode), 3) + seq![spec_from_bit(s.on)] + bits_le(fan_val(s.fan), 2) + seq![spec_from_bit(s.swing)] + seq![spec_from_bit(s.sleep)] + bits_le(s.temperature.0 - 16, 4) + bits_le(timer_byte(s.timing), 8), seq![spec_from_bit(s.strong)], 6, 7);
    lemma_subrange_left(bits_le(mode_val(s.mode), 3) + seq![spec_from_bit(s.on)] + bits_le(fan_val(s.fan), 2) + seq![spec_from_bit(s.swing)] + seq![spec_from_bit(s.sleep)] + bits_le(s.temperature.0 - 16, 4), bits_le(timer_byte(s.timing), 8), 6, 7);
    lemma_subrange_left(bits_le(mode_val(s.mode), 3) + seq![spec_from_bit(s.on)] + bits_le(fan_val(s.fan), 2) + seq![spec_from_bit(s.swing)] + seq![spec_from_bit(s.sleep)], bits_le(s.temperature.0 - 16, 4), 6, 7);
    lemma_subrange_left(bits_le(mode_val(s.mode), 3) + seq![spec_from_bit(s.on)] + bits_le(fan_val(s.fan), 2) + seq![spec_from_bit(s.swing)], seq![spec_from_bit(s.sleep)], 6, 7);
    lemma_subrange_right(bits_le(mode_val(s.mode), 3) + seq![spec_from_bit(s.on)] + bits_le(fan_val(s.fan), 2), seq![spec_from_bit(s.swing)], 6, 7);
    lemma_subrange_full(seq![spec_from_bit(s.swing)]);
    assert(frame_of(s).subrange(7, 8) == seq![spec_from_bit(s.swing)]);
    lemma_subrange_left(c3, seq![Code::End], 8, 9);
    lemma_subrange_left(c2, sb, 8, 9);
    lemma_subrange_left(c1, seq![Code::Continue], 8, 9);
    lemma_subrange_right(seq![Code::Start], sa, 8, 9);
    lemma_subrange_left(bits_le(mode_val(s.mode), 3) + seq![spec_from_bit(s.on)] + bits_le(fan_val(s.fan), 2) + seq![spec_from_bit(s.swing)] + seq![spec_from_bit(s.sleep)] + bits_le(s.temperature.0 - 16, 4) + bits_le(timer_byte(s.timing), 8) + seq![spec_from_bit(s.strong)] + seq![spec_from_bit(s.light)] + seq![spec_from_bit(s.anion)] + seq![spec_from_bit(s.dry)] + seq![spec_from_bit(s.ventilate)] + magic_1(), magic_3(), 7, 8);
    lemma_subrange_left(bits_le(mode_val(s.mode), 3) + seq![spec_from_bit(s.on)] + bits_le(fan_val(s.fan), 2) + seq![spec_from_bit(s.swing)] + seq![spec_from_bit(s.sleep)] + bits_le(s.temperature.0 - 16, 4) + bits_le(timer_byte(s.timing), 8) + seq![spec_from_bit(s.strong)] + seq![spec_from_bit(s.light)] + seq![spec_from_bit(s.anion)] + seq![spec_from_bit(s.dry)] + seq![spec_from_bit(s.ventilate)], magic_1(), 7, 8);
    lemma_subrange_left(bits_le(mode_val(s.mode), 3) + seq![spec_from_bit(s.on)] + bits_le(fan_val(s.fan), 2) + seq![spec_from_bit(s.swing)] + seq![spec_from_bit(s.sleep)] + bits_le(s.temperature.0 - 16, 4) + bits_le(timer_byte(s.timing), 8) + seq![spec_from_bit(s.strong)] + seq![spec_from_bit(s.light)] + seq![spec_from_bit(s.anion)] + seq![spec_from_bit(s.dry)], seq![spec_from_bit(s.ventilate)], 7, 8);
    lemma_subrange_left(bits_le(mode_val(s.mode), 3) + seq![spec_from_bit(s.on)] + bits_le(fan_val(s.fan), 2) + seq![spec_from_bit(s.swing)] + seq![spec_from_bit(s.sleep)] + bits_le(s.temperature.0 - 16, 4) + bits_le(timer_byte(s.timing), 8) + seq![spec_from_bit(s.strong)] + seq![spec_from_bit(s.light)] + seq![spec_from_bit(s.anion)], seq![spec_from_bit(s.dry)], 7, 8);
    lemma_subrange_left(bits_le(mode_val(s.mode), 3) + seq![spec_from_bit(s.on)] + bits_le(fan_val(s.fan), 2) + seq![spec_from_bit(s.swing)] + seq![spec_from_bit(s.sleep)] + bits_le(s.temperature.0 - 16, 4) + bits_le(timer_byte(s.timing), 8) + seq![spec_from_bit(s.strong)] + seq![spec_from_bit(s.light)], seq![spec_from_bit(s.anion)], 7, 8);
    lemma_subrange_left(bits_le(mode_val(s.mode), 3) + seq![spec_from_bit(s.on)] + bits_le(fan_val(s.fan), 2) + seq![spec_from_bit(s.swing)] + seq![spec_from_bit(s.sleep)] + bits_le(s.temperature.0 - 16, 4) + bits_le(timer_byte(s.timing), 8) + seq![spec_from_bit(s.strong)], seq![spec_from_bit(s.light)], 7, 8);
    lemma_subrange_left(bits_le(mode_val(s.mode), 3) + seq![spec_from_bit(s.on)] + bits_le(fan_val(s.fan), 2) + seq![spec_from_bit(s.swing)] + seq![spec_from_bit(s.sleep)] + bits_le(s.temperature.0 - 16, 4) + bits_le(timer_byte(s.timing), 8), seq![spec_from_bit(s.strong)], 7, 8);
    lemma_subrange_left(bits_le(mode_val(s.mode), 3) + seq![spec_from_bit(s.on)] + bits_le(fan_val(s.fan), 2) + seq![spec_from_bit(s.swing)] + seq![spec_from_bit(s.sleep)] + bits_le(s.temperature.0 - 16, 4), bits_le(timer_byte(s.timing), 8), 7, 8);
    lemma_subrange_left(bits_le(mode_val(s.mode), 3) + seq![spec_from_bit(s.on)] + bits_le(fan_val(s.fan), 2) + seq![spec_from_bit(s.swing)] + seq![spec_from_bit(s.sleep)], bits_le(s.temperature.0 - 16, 4), 7, 8);
    lemma_subrange_right(bits_le(mode_val(s.mode), 3) + seq![spec_from_bit(s.on)] + bits_le(fan_val(s.fan), 2) + seq![spec_from_bit(s.swing)], seq![spec_from_bit(s.sleep)], 7, 8);
    lemma_subrange_full(seq![spec_from_bit(s.sleep)]);
    assert(frame_of(s).subrange(8, 9) == seq![spec_from_bit(s.sleep)]);
    lemma_subrange_left(c3, seq![Code::End], 9, 13);
    lemma_subrange_left(c2, sb, 9, 13);
    lemma_subrange_left(c1, seq![Code::Continue], 9, 13);
    lemma_subrange_right(seq![Code::Start], sa, 9, 13);
    lemma_subrange_left(bits_le(mode_val(s.mode), 3) + seq![spec_from_bit(s.on)] + bits_le(fan_val(s.fan), 2) + seq![spec_from_bit(s.swing)] + seq![spec_from_bit(s.sleep)] + bits_le(s.temperature.0 - 16, 4) + bits_le(timer_byte(s.timing), 8) + seq![spec_from_bit(s.strong)] + seq![spec_from_bit(s.light)] + seq![spec_from_bit(s.anion)] + seq![spec_from_bit(s.dry)] + seq![spec_from_bit(s.ventilate)] + magic_1(), magic_3(), 8, 12);
    lemma_subrange_left(bits_le(mode_val(s.mode), 3) + seq![spec_from_bit(s.on)] + bits_le(fan_val(s.fan), 2) + seq![spec_from_bit(s.swing)] + seq![spec_from_bit(s.sleep)] + bits_le(s.temperature.0 - 16, 4) + bits_le(timer_byte(s.timing), 8) + seq![spec_from_bit(s.strong)] + seq![spec_from_bit(s.light)] + seq![spec_from_bit(s.anion)] + seq![spec_from_bit(s.dry)] + seq![spec_from_bit(s.ventilate)], magic_1(), 8, 12);
    lemma_subrange_left(bits_le(mode_val(s.mode), 3) + seq![spec_from_bit(s.on)] + bits_le(fan_val(s.fan), 2) + seq![spec_from_bit(s.swing)] + seq![spec_from_bit(s.sleep)] + bits_le(s.temperature.0 - 16, 4) + bits_le(timer_byte(s.timing), 8) + seq![spec_from_bit(s.strong)] + seq![spec_from_bit(s.light)] + seq![spec_from_bit(s.anion)] + seq![spec_from_bit(s.dry)], seq![spec_from_bit(s.ventilate)], 8, 12);
    lemma_subrange_left(bits_le(mode_val(s.mode), 3) + seq![spec_from_bit(s.on)] + bits_le(fan_val(s.fan), 2) + seq![spec_from_bit(s.swing)] + seq![spec_from_bit(s.sleep)] + bits_le(s.temperature.0 - 16, 4) + bits_le(timer_byte(s.timing), 8) + seq![spec_from_bit(s.strong)] + seq![spec_from_bit(s.light)] + seq![spec_from_bit(s.anion)], seq![spec_from_bit(s.dry)], 8, 12);
    lemma_subrange_left(bits_le(mode_val(s.mode), 3) + seq![spec_from_bit(s.on)] + bits_le(fan_val(s.fan), 2) + seq![spec_from_bit(s.swing)] + seq![spec_from_bit(s.sleep)] + bits_le(s.temperature.0 - 16, 4) + bits_le(timer_byte(s.timing), 8) + seq![spec_from_bit(s.strong)] + seq![spec_from_bit(s.light)], seq![spec_from_bit(s.anion)], 8, 12);
    lemma_subrange_left(bits_le(mode_val(s.mode), 3) + seq![spec_from_bit(s.on)] + bits_le(fan_val(s.fan), 2) + seq![spec_from_bit(s.swing)] + seq![spec_from_bit(s.sleep)] + bits_le(s.temperature.0 - 16, 4) + bits_le(timer_byte(s.timing), 8) + seq![spec_from_bit(s.strong)], seq![spec_from_bit(s.light)], 8, 12);
    lemma_subrange_left(bits_le(mode_val(s.mode), 3) + seq![spec_from_bit(s.on)] + bits_le(fan_val(s.fan), 2) + seq![spec_from_bit(s.swing)] + seq![spec_from_bit(s.sleep)] + bits_le(s.temperature.0 - 16, 4) + bits_le(timer_byte(s.timing), 8), seq![spec_from_bit(s.strong)], 8, 12);
    lemma_subrange_left(bits_le(mode_val(s.mode), 3) + seq![spec_from_bit(s.on)] + bits_le(fan_val(s.fan), 2) + seq![spec_from_bit(s.swing)] + seq![spec_from_bit(s.sleep)] + bits_le(s.temperature.0 - 16, 4), bits_le(timer_byte(s.timing), 8), 8, 12);
    lemma_subrange_right(bits_le(mode_val(s.mode), 3) + seq![spec_from_bit(s.on)] + bits_le(fan_val(s.fan), 2) + seq![spec_from_bit(s.swing)] + seq![spec_from_bit(s.sleep)], bits_le(s.temperature.0 - 16, 4), 8, 12);
    lemma_subrange_full(bits_le(s.temperature.0 - 16, 4));
    assert(frame_of(s).subrange(9, 13) == bits_le(s.temperature.0 - 16, 4));
    lemma_subrange_left(c3, seq![Code::End], 13, 21);
    lemma_subrange_left(c2, sb, 13, 21);
    lemma_subrange_left(c1, seq![Code::Continue], 13, 21);
    lemma_subrange_right(seq![Code::Start], sa, 13, 21);
    lemma_subrange_left(bits_le(mode_val(s.mode), 3) + seq![spec_from_bit(s.on)] + bits_le(fan_val(s.fan), 2) + seq![spec_from_bit(s.swing)] + seq![spec_from_bit(s.sleep)] + bits_le(s.temperature.0 - 16, 4) + bits_le(timer_byte(s.timing), 8) + seq![spec_from_bit(s.strong)] + seq![spec_from_bit(s.light)] + seq![spec_from_bit(s.anion)] + seq![spec_from_bit(s.dry)] + seq![spec_from_bit(s.ventilate)] + magic_1(), magic_3(), 12, 20);
    lemma_subrange_left(bits_le(mode_val(s.mode), 3) + seq![spec_from_bit(s.on)] + bits_le(fan_val(s.fan), 2) + seq![spec_from_bit(s.swing)] + seq![spec_from_bit(s.sleep)] + bits_le(s.temperature.0 - 16, 4) + bits_le(timer_byte(s.timing), 8) + seq![spec_from_bit(s.strong)] + seq![spec_from_bit(s.light)] + seq![spec_from_bit(s.anion)] + seq![spec_from_bit(s.dry)] + seq![spec_from_bit(s.ventilate)], magic_1(), 12, 20);
    lemma_subrange_left(bits_le(mode_val(s.mode), 3) + seq![spec_from_bit(s.on)] + bits_le(fan_val(s.fan), 2) + seq![spec_from_bit(s.swing)] + seq![spec_from_bit(s.sleep)] + bits_le(s.temperature.0 - 16, 4) + bits_le(timer_byte(s.timing), 8) + seq![spec_from_bit(s.strong)] + seq![spec_from_bit(s.light)] + seq![spec_from_bit(s.anion)] + seq![spec_from_bit(s.dry)], seq![spec_from_bit(s.ventilate)], 12, 20);
    lemma_subrange_left(bits_le(mode_val(s.mode), 3) + seq![spec_from_bit(s.on)] + bits_le(fan_val(s.fan), 2) + seq![spec_from_bit(s.swing)] + seq![spec_from_bit(s.sleep)] + bits_le(s.temperature.0 - 16, 4) + bits_le(timer_byte(s.timing), 8) + seq![spec_from_bit(s.strong)] + seq![spec_from_bit(s.light)] + seq![spec_from_bit(s.anion)], seq![spec_from_bit(s.dry)], 12, 20);
    lemma_subrange_left(bits_le(mode_val(s.mode), 3) + seq![spec_from_bit(s.on)] + bits_le(fan_val(s.fan), 2) + seq![spec_from_bit(s.swing)] + seq![spec_from_bit(s.sleep)] + bits_le(s.temperature.0 - 16, 4) + bits_le(timer_byte(s.timing), 8) + seq![spec_from_bit(s.strong)] + seq![spec_from_bit(s.light)], seq![spec_from_bit(s.anion)], 12, 20);
    lemma_subrange_left(bits_le(mode_val(s.mode), 3) + seq![spec_from_bit(s.on)] + bits_le(fan_val(s.fan), 2) + seq![spec_from_bit(s.swing)] + seq![spec_from_bit(s.sleep)] + bits_le(s.temperature.0 - 16, 4) + bits_le(timer_byte(s.timing), 8) + seq![spec_from_bit(s.strong)], seq![spec_from_bit(s.light)], 12, 20);
    lemma_subrange_left(bits_le(mode_val(s.mode), 3) + seq![spec_from_bit(s.on)] + bits_le(fan_val(s.fan), 2) + seq![spec_from_bit(s.swing)] + seq![spec_from_bit(s.sleep)] + bits_le(s.temperature.0 - 16, 4) + bits_le(timer_byte(s.timing), 8), seq![spec_from_bit(s.strong)], 12, 20);
    lemma_subrange_right(bits_le(mode_val(s.mode), 3) + seq![spec_from_bit(s.on)] + bits_le(fan_val(s.fan), 2) + seq![spec_from_bit(s.swing)] + seq![spec_from_bit(s.sleep)] + bits_le(s.temperature.0 - 16, 4), bits_le(timer_byte(s.timing), 8), 12, 20);
    lemma_subrange_full(bits_le(timer_byte(s.timing), 8));
    assert(frame_of(s).subrange(13, 21) == bits_le(timer_byte(s.timing), 8));
    lemma_subrange_left(c3, seq![Code::End], 21, 22);
    lemma_subrange_left(c2, sb, 21, 22);
    lemma_subrange_left(c1, seq![Code::Continue], 21, 22);
    lemma_subrange_right(seq![Code::Start], sa, 21, 22);
    lemma_subrange_left(bits_le(mode_val(s.mode), 3) + seq![spec_from_bit(s.on)] + bits_le(fan_val(s.fan), 2) + seq![spec_from_bit(s.swing)] + seq![spec_from_bit(s.sleep)] + bits_le(s.temperature.0 - 16, 4) + bits_le(timer_byte(s.timing), 8) + seq![spec_from_bit(s.strong)] + seq![spec_from_bit(s.light)] + seq![spec_from_bit(s.anion)] + seq![spec_from_bit(s.dry)] + seq![spec_from_bit(s.ventilate)] + magic_1(), magic_3(), 20, 21);
    lemma_subrange_left(bits_le(mode_val(s.mode), 3) + seq![spec_from_bit(s.on)] + bits_le(fan_val(s.fan), 2) + seq![spec_from_bit(s.swing)] + seq![spec_from_bit(s.sleep)] + bits_le(s.temperature.0 - 16, 4) + bits_le(timer_byte(s.timing), 8) + seq![spec_from_bit(s.strong)] + seq![spec_from_bit(s.light)] + seq![spec_from_bit(s.anion)] + seq![spec_from_bit(s.dry)] + seq![spec_from_bit(s.ventilate)], magic_1(), 20, 21);
    lemma_subrange_left(bits_le(mode_val(s.mode), 3) + seq![spec_from_bit(s.on)] + bits_le(fan_val(s.fan), 2) + seq![spec_from_bit(s.swing)] + seq![spec_from_bit(s.sleep)] + bits_le(s.temperature.0 - 16, 4) + bits_le(timer_byte(s.timing), 8) + seq![spec_from_bit(s.strong)] + seq![spec_from_bit(s.light)] + seq![spec_from_bit(s.anion)] + seq![spec_from_bit(s.dry)], seq![spec_from_bit(s.ventilate)], 20, 21);
    lemma_subrange_left(bits_le(mode_val(s.mode), 3) + seq![spec_from_bit(s.on)] + bits_le(fan_val(s.fan), 2) + seq![spec_from_bit(s.swing)] + seq![spec_from_bit(s.sleep)] + bits_le(s.temperature.0 - 16, 4) + bits_le(timer_byte(s.timing), 8) + seq![spec_from_bit(s.strong)] + seq![spec_from_bit(s.light)] + seq![spec_from_bit(s.anion)], seq![spec_from_bit(s.dry)], 20, 21);
    lemma_subrange_left(bits_le(mode_val(s.mode), 3) + seq![spec_from_bit(s.on)] + bits_le(fan_val(s.fan), 2) + seq![spec_from_bit(s.swing)] + seq![spec_from_bit(s.sleep)] + bits_le(s.temperature.0 - 16, 4) + bits_le(timer_byte(s.timing), 8) + seq![spec_from_bit(s.strong)] + seq![spec_from_bit(s.light)], seq![spec_from_bit(s.anion)], 20, 21);
    lemma_subrange_left(bits_le(mode_val(s.mode), 3) + seq![spec_from_bit(s.on)] + bits_le(fan_val(s.fan), 2) + seq![spec_from_bit(s.swing)] + seq![spec_from_bit(s.sleep)] + bits_le(s.temperature.0 - 16, 4) + bits_le(timer_byte(s.timing), 8) + seq![spec_from_bit(s.strong)], seq![spec_from_bit(s.light)], 20, 21);
    lemma_subrange_right(bits_le(mode_val(s.mode), 3) + seq![spec_from_bit(s.on)] + bits_le(fan_val(s.fan), 2) + seq![spec_from_bit(s.swing)] + seq![spec_from_bit(s.sleep)] + bits_le(s.temperature.0 - 16, 4) + bits_le(timer_byte(s.timing), 8), seq![spec_from_bit(s.strong)], 20, 21);
    lemma_subrange_full(seq![spec_from_bit(s.strong)]);
    assert(frame_of(s).subrange(21, 22) == seq![spec_from_bit(s.strong)]);
    lemma_subrange_left(c3, seq![Code::End], 22, 23);
    lemma_subrange_left(c2, sb, 22, 23);
    lemma_subrange_left(c1, seq![Code::Continue], 22, 23);
    lemma_subrange_right(seq![Code::Start], sa, 22, 23);
    lemma_subrange_left(bits_le(mode_val(s.mode), 3) + seq![spec_from_bit(s.on)] + bits_le(fan_val(s.fan), 2) + seq![spec_from_bit(s.swing)] + seq![spec_from_bit(s.sleep)] + bits_le(s.temperature.0 - 16, 4) + bits_le(timer_byte(s.timing), 8) + seq![spec_from_bit(s.strong)] + seq![spec_from_bit(s.light)] + seq![spec_from_bit(s.anion)] + seq![spec_from_bit(s.dry)] + seq![spec_from_bit(s.ventilate)] + magic_1(), magic_3(), 21, 22);
    lemma_subrange_left(bits_le(mode_val(s.mode), 3) + seq![spec_from_bit(s.on)] + bits_le(fan_val(s.fan), 2) + seq![spec_from_bit(s.swing)] + seq![spec_from_bit(s.sleep)] + bits_le(s.temperature.0 - 16, 4) + bits_le(timer_byte(s.timing), 8) + seq![spec_from_bit(s.strong)] + seq![spec_from_bit(s.light)] + seq![spec_from_bit(s.anion)] + seq![spec_from_bit(s.dry)] + seq![spec_from_bit(s.ventilate)], magic_1(), 21, 22);
    lemma_subrange_left(bits_le(mode_val(s.mode), 3) + seq![spec_from_bit(s.on)] + bits_le(fan_val(s.fan), 2) + seq![spec_from_bit(s.swing)] + seq![spec_from_bit(s.sleep)] + bits_le(s.temperature.0 - 16, 4) + bits_le(timer_byte(s.timing), 8) + seq![spec_from_bit(s.strong)] + seq![spec_from_bit(s.light)] + seq![spec_from_bit(s.anion)] + seq![spec_from_bit(s.dry)], seq![spec_from_bit(s.ventilate)], 21, 22);
    lemma_subrange_left(bits_le(mode_val(s.mode), 3) + seq![spec_from_bit(s.on)] + bits_le(fan_val(s.fan), 2) + seq![spec_from_bit(s.swing)] + seq![spec_from_bit(s.sleep)] + bits_le(s.temperature.0 - 16, 4) + bits_le(timer_byte(s.timing), 8) + seq![spec_from_bit(s.strong)] + seq![spec_from_bit(s.light)] + seq![spec_from_bit(s.anion)], seq![spec_from_bit(s.dry)], 21, 22);
    lemma_subrange_left(bits_le(mode_val(s.mode), 3) + seq![spec_from_bit(s.on)] + bits_le(fan_val(s.fan), 2) + seq![spec_from_bit(s.swing)] + seq![spec_from_bit(s.sleep)] + bits_le(s.temperature.0 - 16, 4) + bits_le(timer_byte(s.timing), 8) + seq![spec_from_bit(s.strong)] + seq![spec_from_bit(s.light)], seq![spec_from_bit(s.anion)], 21, 22);
    lemma_subrange_right(bits_le(mode_val(s.mode), 3) + seq![spec_from_bit(s.on)] + bits_le(fan_val(s.fan), 2) + seq![spec_from_bit(s.swing)] + seq![spec_from_bit(s.sleep)] + bits_le(s.temperature.0 - 16, 4) + bits_le(timer_byte(s.timing), 8) + seq![spec_from_bit(s.strong)], seq![spec_from_bit(s.light)], 21, 22);
    lemma_subrange_full(seq![spec_from_bit(s.light)]);
    assert(frame_of(s).subrange(22, 23) == seq![spec_from_bit(s.light)]);
    lemma_subrange_left(c3, seq![Code::End], 23, 24);
    lemma_subrange_left(c2, sb, 23, 24);
    lemma_subrange_left(c1, seq![Code::Continue], 23, 24);
    lemma_subrange_right(seq![Code::Start], sa, 23, 24);
    lemma_subrange_left(bits_le(mode_val(s.mode), 3) + seq![spec_from_bit(s.on)] + bits_le(fan_val(s.fan), 2) + seq![spec_from_bit(s.swing)] + seq![spec_from_bit(s.sleep)] + bits_le(s.temperature.0 - 16, 4) + bits_le(timer_byte(s.timing), 8) + seq![spec_from_bit(s.strong)] + seq![spec_from_bit(s.light)] + seq![spec_from_bit(s.anion)] + seq![spec_from_bit(s.dry)] + seq![spec_from_bit(s.ventilate)] + magic_1(), magic_3(), 22, 23);
    lemma_subrange_left(bits_le(mode_val(s.mode), 3) + seq![spec_from_bit(s.on)] + bits_le(fan_val(s.fan), 2) + seq![spec_from_bit(s.swing)] + seq![spec_from_bit(s.sleep)] + bits_le(s.temperature.0 - 16, 4) + bits_le(timer_byte(s.timing), 8) + seq![spec_from_bit(s.strong)] + seq![spec_from_bit(s.light)] + seq![spec_from_bit(s.anion)] + seq![spec_from_bit(s.dry)] + seq![spec_from_bit(s.ventilate)], magic_1(), 22, 23);
    lemma_subrange_left(bits_le(mode_val(s.mode), 3) + seq![spec_from_bit(s.on)] + bits_le(fan_val(s.fan), 2) + seq![spec_from_bit(s.swing)] + seq![spec_from_bit(s.sleep)] + bits_le(s.temperature.0 - 16, 4) + bits_le(timer_byte(s.timing), 8) + seq![spec_from_bit(s.strong)] + seq![spec_from_bit(s.light)] + seq![spec_from_bit(s.anion)] + seq![spec_from_bit(s.dry)], seq![spec_from_bit(s.ventilate)], 22, 23);
    lemma_subrange_left(bits_le(mode_val(s.mode), 3) + seq![spec_from_bit(s.on)] + bits_le(fan_val(s.fan), 2) + seq![spec_from_bit(s.swing)] + seq![spec_from_bit(s.sleep)] + bits_le(s.temperature.0 - 16, 4) + bits_le(timer_byte(s.timing), 8) + seq![spec_from_bit(s.strong)] + seq![spec_from_bit(s.light)] + seq![spec_from_bit(s.anion)], seq![spec_from_bit(s.dry)], 22, 23);
    lemma_subrange_right(bits_le(mode_val(s.mode), 3) + seq![spec_from_bit(s.on)] + bits_le(fan_val(s.fan), 2) + seq![spec_from_bit(s.swing)] + seq![spec_from_bit(s.sleep)] + bits_le(s.temperature.0 - 16, 4) + bits_le(timer_byte(s.timing), 8) + seq![spec_from_bit(s.strong)] + seq![spec_from_bit(s.light)], seq![spec_from_bit(s.anion)], 22, 23);
    lemma_subrange_full(seq![spec_from_bit(s.anion)]);
    assert(frame_of(s).subrange(23, 24) == seq![spec_from_bit(s.anion)]);
    lemma_subrange_left(c3, seq![Code::End], 24, 25);
    lemma_subrange_left(c2, sb, 24, 25);
    lemma_subrange_left(c1, seq![Code::Continue], 24, 25);
    lemma_subrange_right(seq![Code::Start], sa, 24, 25);
    lemma_subrange_left(bits_le(mode_val(s.mode), 3) + seq![spec_from_bit(s.on)] + bits_le(fan_val(s.fan), 2) + seq![spec_from_bit(s.swing)] + seq![spec_from_bit(s.sleep)] + bits_le(s.temperature.0 - 16, 4) + bits_le(timer_byte(s.timing), 8) + seq![spec_from_bit(s.strong)] + seq![spec_from_bit(s.light)] + seq![spec_from_bit(s.anion)] + seq![spec_from_bit(s.dry)] + seq![spec_from_bit(s.ventilate)] + magic_1(), magic_3(), 23, 24);
    lemma_subrange_left(bits_le(mode_val(s.mode), 3) + seq![spec_from_bit(s.on)] + bits_le(fan_val(s.fan), 2) + seq![spec_from_bit(s.swing)] + seq![spec_from_bit(s.sleep)] + bits_le(s.temperature.0 - 16, 4) + bits_le(timer_byte(s.timing), 8) + seq![spec_from_bit(s.strong)] + seq![spec_from_bit(s.light)] + seq![spec_from_bit(s.anion)] + seq![spec_from_bit(s.dry)] + seq![spec_from_bit(s.ventilate)], magic_1(), 23, 24);
    lemma_subrange_left(bits_le(mode_val(s.mode), 3) + seq![spec_from_bit(s.on)] + bits_le(fan_val(s.fan), 2) + seq![spec_from_bit(s.swing)] + seq![spec_from_bit(s.sleep)] + bits_le(s.temperature.0 - 16, 4) + bits_le(timer_byte(s.timing), 8) + seq![spec_from_bit(s.strong)] + seq![spec_from_bit(s.light)] + seq![spec_from_bit(s.anion)] + seq![spec_from_bit(s.dry)], seq![spec_from_bit(s.ventilate)], 23, 24);
    lemma_subrange_right(bits_le(mode_val(s.mode), 3) + seq![spec_from_bit(s.on)] + bits_le(fan_val(s.fan), 2) + seq![spec_from_bit(s.swing)] + seq![spec_from_bit(s.sleep)] + bits_le(s.temperature.0 - 16, 4) + bits_le(timer_byte(s.timing), 8) + seq![spec_from_bit(s.strong)] + seq![spec_from_bit(s.light)] + seq![spec_from_bit(s.anion)], seq![spec_from_bit(s.dry)], 23, 24);
    lemma_subrange_full(seq![spec_from_bit(s.dry)]);
    assert(frame_of(s).subrange(24, 25) == seq![spec_from_bit(s.dry)]);
    lemma_subrange_left(c3, seq![Code::End], 25, 26);
    lemma_subrange_left(c2, sb, 25, 26);
    lemma_subrange_left(c1, seq![Code::Continue], 25, 26);
    lemma_subrange_right(seq![Code::Start], sa, 25, 26);
    lemma_subrange_left(bits_le(mode_val(s.mode), 3) + seq![spec_from_bit(s.on)] + bits_le(fan_val(s.fan), 2) + seq![spec_from_bit(s.swing)] + seq![spec_from_bit(s.sleep)] + bits_le(s.temperature.0 - 16, 4) + bits_le(timer_byte(s.timing), 8) + seq![spec_from_bit(s.strong)] + seq![spec_from_bit(s.light)] + seq![spec_from_bit(s.anion)] + seq![spec_from_bit(s.dry)] + seq![spec_from_bit(s.ventilate)] + magic_1(), magic_3(), 24, 25);
    lemma_subrange_left(bits_le(mode_val(s.mode), 3) + seq![spec_from_bit(s.on)] + bits_le(fan_val(s.fan), 2) + seq![spec_from_bit(s.swing)] + seq![spec_from_bit(s.sleep)] + bits_le(s.temperature.0 - 16, 4) + bits_le(timer_byte(s.timing), 8) + seq![spec_from_bit(s.strong)] + seq![spec_from_bit(s.light)] + seq![spec_from_bit(s.anion)] + seq![spec_from_bit(s.dry)] + seq![spec_from_bit(s.ventilate)], magic_1(), 24, 25);
    lemma_subrange_right(bits_le(mode_val(s.mode), 3) + seq![spec_from_bit(s.on)] + bits_le(fan_val(s.fan), 2) + seq![spec_from_bit(s.swing)] + seq![spec_from_bit(s.sleep)] + bits_le(s.temperature.0 - 16, 4) + bits_le(timer_byte(s.timing), 8) + seq![spec_from_bit(s.strong)] + seq![spec_from_bit(s.light)] + seq![spec_from_bit(s.anion)] + seq![spec_from_bit(s.dry)], seq![spec_from_bit(s.ventilate)], 24, 25);
    lemma_subrange_full(seq![spec_from_bit(s.ventilate)]);
    assert(frame_of(s).subrange(25, 26) == seq![spec_from_bit(s.ventilate)]);
    lemma_subrange_left(c3, seq![Code::End], 26, 33);
    lemma_subrange_left(c2, sb, 26, 33);
    lemma_subrange_left(c1, seq![Code::Continue], 26, 33);
    lemma_subrange_right(seq![Code::Start], sa, 26, 33);
    lemma_subrange_left(bits_le(mode_val(s.mode), 3) + seq![spec_from_bit(s.on)] + bits_le(fan_val(s.fan), 2) + seq![spec_from_bit(s.swing)] + seq![spec_from_bit(s.sleep)] + bits_le(s.temperature.0 - 16, 4) + bits_le(timer_byte(s.timing), 8) + seq![spec_from_bit(s.strong)] + seq![spec_from_bit(s.light)] + seq![spec_from_bit(s.anion)] + seq![spec_from_bit(s.dry)] + seq![spec_from_bit(s.ventilate)] + magic_1(), magic_3(), 25, 32);
    lemma_subrange_right(bits_le(mode_val(s.mode), 3) + seq![spec_from_bit(s.on)] + bits_le(fan_val(s.fan), 2) + seq![spec_from_bit(s.swing)] + seq![spec_from_bit(s.sleep)] + bits_le(s.temperature.0 - 16, 4) + bits_le(timer_byte(s.timing), 8) + seq![spec_from_bit(s.strong)] + seq![spec_from_bit(s.light)] + seq![spec_from_bit(s.anion)] + seq![spec_from_bit(s.dry)] + seq![spec_from_bit(s.ventilate)], magic_1(), 25, 32);
    lemma_subrange_full(magic_1());
    assert(frame_of(s).subrange(26, 33) == magic_1());
    lemma_subrange_left(c3, seq![Code::End], 33, 36);
    lemma_subrange_left(c2, sb, 33, 36);
    lemma_subrange_left(c1, seq![Code::Continue], 33, 36);
    lemma_subrange_right(seq![Code::Start], sa, 33, 36);
    lemma_subrange_right(bits_le(mode_val(s.mode), 3) + seq![spec_from_bit(s.on)] + bits_le(fan_val(s.fan), 2) + seq![spec_from_bit(s.swing)] + seq![spec_from_bit(s.sleep)] + bits_le(s.temperature.0 - 16, 4) + bits_le(timer_byte(s.timing), 8) + seq![spec_from_bit(s.strong)] + seq![spec_from_bit(s.light)] + seq![spec_from_bit(s.anion)] + seq![spec_from_bit(s.dry)] + seq![spec_from_bit(s.ventilate)] + magic_1(), magic_3(), 32, 35);
    lemma_subrange_full(magic_3());
    assert(frame_of(s).subrange(33, 36) == magic_3());
    assert(frame_of(s)[4] == frame_of(s).subrange(4, 5)[0]);
    assert(frame_of(s)[7] == frame_of(s).subrange(7, 8)[0]);
    assert(frame_of(s)[8] == frame_of(s).subrange(8, 9)[0]);
    assert(frame_of(s)[21] == frame_of(s).subrange(21, 22)[0]);
    assert(frame_of(s)[22] == frame_of(s).subrange(22, 23)[0]);
    assert(frame_of(s)[23] == frame_of(s).subrange(23, 24)[0]);
    assert(frame_of(s)[24] == frame_of(s).subrange(24, 25)[0]);
    assert(frame_of(s)[25] == frame_of(s).subrange(25, 26)[0]);
}

/// Where each attribute of the frame's second segment lies.
#[verifier::rlimit(100)]
pub proof fn lemma_frame_layout_b(s: Controller)
    requires
        s.wf(),
    ensures
        frame_of(s).subrange(37, 41) == bits_le(swing_val(s.v_swing), 4),
        frame_of(s).subrange(41, 45) == bits_le(swing_val(s.h_swing), 4),
        frame_of(s).subrange(45, 47) == bits_le(td_val(s.temperature_display), 2),
        frame_of(s)[47] == spec_from_bit(s.i_feel),
        frame_of(s).subrange(48, 51) == magic_4(),
        frame_of(s)[51] == spec_from_bit(s.wifi),
        frame_of(s)[63] == spec_from_bit(s.econo),
        frame_of(s)[64] == Code::Short,
        frame_of(s).subrange(65, 69) == bits_le(spec_checksum(s), 4),
{
    lemma_segment_lens(s);
    lemma_bits_le_len(mode_val(s.mode), 3);
    lemma_bits_le_len(fan_val(s.fan), 2);
    lemma_bits_le_len(s.temperature.0 - 16, 4);
    lemma_bits_le_len(timer_byte(s.timing), 8);
    lemma_bits_le_len(swing_val(s.v_swing), 4);
    lemma_bits_le_len(swing_val(s.h_swing), 4);
    lemma_bits_le_len(td_val(s.temperature_display), 2);
    lemma_bits_le_len(spec_checksum(s), 4);
    let sa = segment_a(s);
    let sb = segment_b(s);
    let c1 = seq![Code::Start] + sa;
    let c2 = c1 + seq![Code::Continue];
    let c3 = c2 + sb;
    lemma_index_left(seq![Code::Start], sa, 0);
    lemma_index_left(c1, seq![Code::Continue], 0);
    lemma_index_left(c2, sb, 0);
    lemma_index_left(c3, seq![Code::End], 0);
    lemma_index_right(c1, seq![Code::Continue], 36);
    lemma_index_left(c2, sb, 36);
    lemma_index_left(c3, seq![Code::End], 36);
    lemma_index_right(c3, seq![Code::End], 69);
    lemma_subrange_left(c3, seq![Code::End], 1, 36);
    lemma_subrange_left(c2, sb, 1, 36);
    lemma_subrange_left(c1, seq![Code::Continue], 1, 36);
    lemma_subrange_right(seq![Code::Start], sa, 1, 36);
    lemma_subrange_full(sa);
    assert(frame_of(s).subrange(1, 36) == sa);
    lemma_subrange_left(c3, seq![Code::End], 37, 69);
    lemma_subrange_right(c2, sb, 37, 69);
    lemma_subrange_full(sb);
    assert(frame_of(s).subrange(37, 69) == sb);
    lemma_subrange_left(c3, seq![Code::End], 37, 41);
    lemma_subrange_right(c2, sb, 37, 41);
    lemma_subrange_left(bits_le(swing_val(s.v_swing), 4) + bits_le(swing_val(s.h_swing), 4) + bits_le(td_val(s.temperature_display), 2) + seq![spec_from_bit(s.i_feel)] + magic_4() + seq![spec_from_bit(s.wifi)] + reserved_11() + seq![spec_from_bit(s.econo)] + seq![Code::Short], bits_le(spec_checksum(s), 4), 0, 4);
    lemma_subrange_left(bits_le(swing_val(s.v_swing), 4) + bits_le(swing_val(s.h_swing), 4) + bits_le(td_val(s.temperature_display), 2) + seq![spec_from_bit(s.i_feel)] + magic_4() + seq![spec_from_bit(s.wifi)] + reserved_11() + seq![spec_from_bit(s.econo)], seq![Code::Short], 0, 4);
    lemma_subrange_left(bits_le(swing_val(s.v_swing), 4) + bits_le(swing_val(s.h_swing), 4) + bits_le(td_val(s.temperature_display), 2) + seq![spec_from_bit(s.i_feel)] + magic_4() + seq![spec_from_bit(s.wifi)] + reserved_11(), seq![spec_from_bit(s.econo)], 0, 4);
    lemma_subrange_left(bits_le(swing_val(s.v_swing), 4) + bits_le(swing_val(s.h_swing), 4) + bits_le(td_val(s.temperature_display), 2) + seq![spec_from_bit(s.i_feel)] + magic_4() + seq![spec_from_bit(s.wifi)], reserved_11(), 0, 4);
    lemma_subrange_left(bits_le(swing_val(s.v_swing), 4) + bits_le(swing_val(s.h_swing), 4) + bits_le(td_val(s.temperature_display), 2) + seq![spec_from_bit(s.i_feel)] + magic_4(), seq![spec_from_bit(s.wifi)], 0, 4);
    lemma_subrange_left(bits_le(swing_val(s.v_swing), 4) + bits_le(swing_val(s.h_swing), 4) + bits_le(td_val(s.temperature_display), 2) + seq![spec_from_bit(s.i_feel)], magic_4(), 0, 4);
    lemma_subrange_left(bits_le(swing_val(s.v_swing), 4) + bits_le(swing_val(s.h_swing), 4) + bits_le(td_val(s.temperature_display), 2), seq![spec_from_bit(s.i_feel)], 0, 4);
    lemma_subrange_left(bits_le(swing_val(s.v_swing), 4) + bits_le(swing_val(s.h_swing), 4), bits_le(td_val(s.temperature_display), 2), 0, 4);
    lemma_subrange_left(bits_le(swing_val(s.v_swing), 4), bits_le(swing_val(s.h_swing), 4), 0, 4);
    lemma_subrange_full(bits_le(swing_val(s.v_swing), 4));
    assert(frame_of(s).subrange(37, 41) == bits_le(swing_val(s.v_swing), 4));
    lemma_subrange_left(c3, seq![Code::End], 41, 45);
    lemma_subrange_right(c2, sb, 41, 45);
    lemma_subrange_left(bits_le(swing_val(s.v_swing), 4) + bits_le(swing_val(s.h_swing), 4) + bits_le(td_val(s.temperature_display), 2) + seq![spec_from_bit(s.i_feel)] + magic_4() + seq![spec_from_bit(s.wifi)] + reserved_11() + seq![spec_from_bit(s.econo)] + seq![Code::Short], bits_le(spec_checksum(s), 4), 4, 8);
    lemma_subrange_left(bits_le(swing_val(s.v_swing), 4) + bits_le(swing_val(s.h_swing), 4) + bits_le(td_val(s.temperature_display), 2) + seq![spec_from_bit(s.i_feel)] + magic_4() + seq![spec_from_bit(s.wifi)] + reserved_11() + seq![spec_from_bit(s.econo)], seq![Code::Short], 4, 8);
    lemma_subrange_left(bits_le(swing_val(s.v_swing), 4) + bits_le(swing_val(s.h_swing), 4) + bits_le(td_val(s.temperature_display), 2) + seq![spec_from_bit(s.i_feel)] + magic_4() + seq![spec_from_bit(s.wifi)] + reserved_11(), seq![spec_from_bit(s.econo)], 4, 8);
    lemma_subrange_left(bits_le(swing_val(s.v_swing), 4) + bits_le(swing_val(s.h_swing), 4) + bits_le(td_val(s.temperature_display), 2) + seq![spec_from_bit(s.i_feel)] + magic_4() + seq![spec_from_bit(s.wifi)], reserved_11(), 4, 8);
    lemma_subrange_left(bits_le(swing_val(s.v_swing), 4) + bits_le(swing_val(s.h_swing), 4) + bits_le(td_val(s.temperature_display), 2) + seq![spec_from_bit(s.i_feel)] + magic_4(), seq![spec_from_bit(s.wifi)], 4, 8);
    lemma_subrange_left(bits_le(swing_val(s.v_swing), 4) + bits_le(swing_val(s.h_swing), 4) + bits_le(td_val(s.temperature_display), 2) + seq![spec_from_bit(s.i_feel)], magic_4(), 4, 8);
    lemma_subrange_left(bits_le(swing_val(s.v_swing), 4) + bits_le(swing_val(s.h_swing), 4) + bits_le(td_val(s.temperature_display), 2), seq![spec_from_bit(s.i_feel)], 4, 8);
    lemma_subrange_left(bits_le(swing_val(s.v_swing), 4) + bits_le(swing_val(s.h_swing), 4), bits_le(td_val(s.temperature_display), 2), 4, 8);
    lemma_subrange_right(bits_le(swing_val(s.v_swing), 4), bits_le(swing_val(s.h_swing), 4), 4, 8);
    lemma_subrange_full(bits_le(swing_val(s.h_swing), 4));
    assert(frame_of(s).subrange(41, 45) == bits_le(swing_val(s.h_swing), 4));
    lemma_subrange_left(c3, seq![Code::End], 45, 47);
    lemma_subrange_right(c2, sb, 45, 47);
    lemma_subrange_left(bits_le(swing_val(s.v_swing), 4) + bits_le(swing_val(s.h_swing), 4) + bits_le(td_val(s.temperature_display), 2) + seq![spec_from_bit(s.i_feel)] + magic_4() + seq![spec_from_bit(s.wifi)] + reserved_11() + seq![spec_from_bit(s.econo)] + seq![Code::Short], bits_le(spec_checksum(s), 4), 8, 10);
    lemma_subrange_left(bits_le(swing_val(s.v_swing), 4) + bits_le(swing_val(s.h_swing), 4) + bits_le(td_val(s.temperature_display), 2) + seq![spec_from_bit(s.i_feel)] + magic_4() + seq![spec_from_bit(s.wifi)] + reserved_11() + seq![spec_from_bit(s.econo)], seq![Code::Short], 8, 10);
    lemma_subrange_left(bits_le(swing_val(s.v_swing), 4) + bits_le(swing_val(s.h_swing), 4) + bits_le(td_val(s.temperature_display), 2) + seq![spec_from_bit(s.i_feel)] + magic_4() + seq![spec_from_bit(s.wifi)] + reserved_11(), seq![spec_from_bit(s.econo)], 8, 10);
    lemma_subrange_left(bits_le(swing_val(s.v_swing), 4) + bits_le(swing_val(s.h_swing), 4) + bits_le(td_val(s.temperature_display), 2) + seq![spec_from_bit(s.i_feel)] + magic_4() + seq![spec_from_bit(s.wifi)], reserved_11(), 8, 10);
    lemma_subrange_left(bits_le(swing_val(s.v_swing), 4) + bits_le(swing_val(s.h_swing), 4) + bits_le(td_val(s.temperature_display), 2) + seq![spec_from_bit(s.i_feel)] + magic_4(), seq![spec_from_bit(s.wifi)], 8, 10);
    lemma_subrange_left(bits_le(swing_val(s.v_swing), 4) + bits_le(swing_val(s.h_swing), 4) + bits_le(td_val(s.temperature_display), 2) + seq![spec_from_bit(s.i_feel)], magic_4(), 8, 10);
    lemma_subrange_left(bits_le(swing_val(s.v_swing), 4) + bits_le(swing_val(s.h_swing), 4) + bits_le(td_val(s.temperature_display), 2), seq![spec_from_bit(s.i_feel)], 8, 10);
    lemma_subrange_right(bits_le(swing_val(s.v_swing), 4) + bits_le(swing_val(s.h_swing), 4), bits_le(td_val(s.temperature_display), 2), 8, 10);
    lemma_subrange_full(bits_le(td_val(s.temperature_display), 2));
    assert(frame_of(s).subrange(45, 47) == bits_le(td_val(s.temperature_display), 2));
    lemma_subrange_left(c3, seq![Code::End], 47, 48);
    lemma_subrange_right(c2, sb, 47, 48);
    lemma_subrange_left(bits_le(swing_val(s.v_swing), 4) + bits_le(swing_val(s.h_swing), 4) + bits_le(td_val(s.temperature_display), 2) + seq![spec_from_bit(s.i_feel)] + magic_4() + seq![spec_from_bit(s.wifi)] + reserved_11() + seq![spec_from_bit(s.econo)] + seq![Code::Short], bits_le(spec_checksum(s), 4), 10, 11);
    lemma_subrange_left(bits_le(swing_val(s.v_swing), 4) + bits_le(swing_val(s.h_swing), 4) + bits_le(td_val(s.temperature_display), 2) + seq![spec_from_bit(s.i_feel)] + magic_4() + seq![spec_from_bit(s.wifi)] + reserved_11() + seq![spec_from_bit(s.econo)], seq![Code::Short], 10, 11);
    lemma_subrange_left(bits_le(swing_val(s.v_swing), 4) + bits_le(swing_val(s.h_swing), 4) + bits_le(td_val(s.temperature_display), 2) + seq![spec_from_bit(s.i_feel)] + magic_4() + seq![spec_from_bit(s.wifi)] + reserved_11(), seq![spec_from_bit(s.econo)], 10, 11);
    lemma_subrange_left(bits_le(swing_val(s.v_swing), 4) + bits_le(swing_val(s.h_swing), 4) + bits_le(td_val(s.temperature_display), 2) + seq![spec_from_bit(s.i_feel)] + magic_4() + seq![spec_from_bit(s.wifi)], reserved_11(), 10, 11);
    lemma_subrange_left(bits_le(swing_val(s.v_swing), 4) + bits_le(swing_val(s.h_swing), 4) + bits_le(td_val(s.temperature_display), 2) + seq![spec_from_bit(s.i_feel)] + magic_4(), seq![spec_from_bit(s.wifi)], 10, 11);
    lemma_subrange_left(bits_le(swing_val(s.v_swing), 4) + bits_le(swing_val(s.h_swing), 4) + bits_le(td_val(s.temperature_display), 2) + seq![spec_from_bit(s.i_feel)], magic_4(), 10, 11);
    lemma_subrange_right(bits_le(swing_val(s.v_swing), 4) + bits_le(swing_val(s.h_swing), 4) + bits_le(td_val(s.temperature_display), 2), seq![spec_from_bit(s.i_feel)], 10, 11);
    lemma_subrange_full(seq![spec_from_bit(s.i_feel)]);
    assert(frame_of(s).subrange(47, 48) == seq![spec_from_bit(s.i_feel)]);
    lemma_subrange_left(c3, seq![Code::End], 48, 51);
    lemma_subrange_right(c2, sb, 48, 51);
    lemma_subrange_left(bits_le(swing_val(s.v_swing), 4) + bits_le(swing_val(s.h_swing), 4) + bits_le(td_val(s.temperature_display), 2) + seq![spec_from_bit(s.i_feel)] + magic_4() + seq![spec_from_bit(s.wifi)] + reserved_11() + seq![spec_from_bit(s.econo)] + seq![Code::Short], bits_le(spec_checksum(s), 4), 11, 14);
    lemma_subrange_left(bits_le(swing_val(s.v_swing), 4) + bits_le(swing_val(s.h_swing), 4) + bits_le(td_val(s.temperature_display), 2) + seq![spec_from_bit(s.i_feel)] + magic_4() + seq![spec_from_bit(s.wifi)] + reserved_11() + seq![spec_from_bit(s.econo)], seq![Code::Short], 11, 14);
    lemma_subrange_left(bits_le(swing_val(s.v_swing), 4) + bits_le(swing_val(s.h_swing), 4) + bits_le(td_val(s.temperature_display), 2) + seq![spec_from_bit(s.i_feel)] + magic_4() + seq![spec_from_bit(s.wifi)] + reserved_11(), seq![spec_from_bit(s.econo)], 11, 14);
    lemma_subrange_left(bits_le(swing_val(s.v_swing), 4) + bits_le(swing_val(s.h_swing), 4) + bits_le(td_val(s.temperature_display), 2) + seq![spec_from_bit(s.i_feel)] + magic_4() + seq![spec_from_bit(s.wifi)], reserved_11(), 11, 14);
    lemma_subrange_left(bits_le(swing_val(s.v_swing), 4) + bits_le(swing_val(s.h_swing), 4) + bits_le(td_val(s.temperature_display), 2) + seq![spec_from_bit(s.i_feel)] + magic_4(), seq![spec_from_bit(s.wifi)], 11, 14);
    lemma_subrange_right(bits_le(swing_val(s.v_swing), 4) + bits_le(swing_val(s.h_swing), 4) + bits_le(td_val(s.temperature_display), 2) + seq![spec_from_bit(s.i_feel)], magic_4(), 11, 14);
    lemma_subrange_full(magic_4());
    assert(frame_of(s).subrange(48, 51) == magic_4());
    lemma_subrange_left(c3, seq![Code::End], 51, 52);
    lemma_subrange_right(c2, sb, 51, 52);
    lemma_subrange_left(bits_le(swing_val(s.v_swing), 4) + bits_le(swing_val(s.h_swing), 4) + bits_le(td_val(s.temperature_display), 2) + seq![spec_from_bit(s.i_feel)] + magic_4() + seq![spec_from_bit(s.wifi)] + reserved_11() + seq![spec_from_bit(s.econo)] + seq![Code::Short], bits_le(spec_checksum(s), 4), 14, 15);
    lemma_subrange_left(bits_le(swing_val(s.v_swing), 4) + bits_le(swing_val(s.h_swing), 4) + bits_le(td_val(s.temperature_display), 2) + seq![spec_from_bit(s.i_feel)] + magic_4() + seq![spec_from_bit(s.wifi)] + reserved_11() + seq![spec_from_bit(s.econo)], seq![Code::Short], 14, 15);
    lemma_subrange_left(bits_le(swing_val(s.v_swing), 4) + bits_le(swing_val(s.h_swing), 4) + bits_le(td_val(s.temperature_display), 2) + seq![spec_from_bit(s.i_feel)] + magic_4() + seq![spec_from_bit(s.wifi)] + reserved_11(), seq![spec_from_bit(s.econo)], 14, 15);
    lemma_subrange_left(bits_le(swing_val(s.v_swing), 4) + bits_le(swing_val(s.h_swing), 4) + bits_le(td_val(s.temperature_display), 2) + seq![spec_from_bit(s.i_feel)] + magic_4() + seq![spec_from_bit(s.wifi)], reserved_11(), 14, 15);
    lemma_subrange_right(bits_le(swing_val(s.v_swing), 4) + bits_le(swing_val(s.h_swing), 4) + bits_le(td_val(s.temperature_display), 2) + seq![spec_from_bit(s.i_feel)] + magic_4(), seq![spec_from_bit(s.wifi)], 14, 15);
    lemma_subrange_full(seq![spec_from_bit(s.wifi)]);
    assert(frame_of(s).subrange(51, 52) == seq![spec_from_bit(s.wifi)]);
    lemma_subrange_left(c3, seq![Code::End], 52, 63);
    lemma_subrange_right(c2, sb, 52, 63);
    lemma_subrange_left(bits_le(swing_val(s.v_swing), 4) + bits_le(swing_val(s.h_swing), 4) + bits_le(td_val(s.temperature_display), 2) + seq![spec_from_bit(s.i_feel)] + magic_4() + seq![spec_from_bit(s.wifi)] + reserved_11() + seq![spec_from_bit(s.econo)] + seq![Code::Short], bits_le(spec_checksum(s), 4), 15, 26);
    lemma_subrange_left(bits_le(swing_val(s.v_swing), 4) + bits_le(swing_val(s.h_swing), 4) + bits_le(td_val(s.temperature_display), 2) + seq![spec_from_bit(s.i_feel)] + magic_4() + seq![spec_from_bit(s.wifi)] + reserved_11() + seq![spec_from_bit(s.econo)], seq![Code::Short], 15, 26);
    lemma_subrange_left(bits_le(swing_val(s.v_swing), 4) + bits_le(swing_val(s.h_swing), 4) + bits_le(td_val(s.temperature_display), 2) + seq![spec_from_bit(s.i_feel)] + magic_4() + seq![spec_from_bit(s.wifi)] + reserved_11(), seq![spec_from_bit(s.econo)], 15, 26);
    lemma_subrange_right(bits_le(swing_val(s.v_swing), 4) + bits_le(swing_val(s.h_swing), 4) + bits_le(td_val(s.temperature_display), 2) + seq![spec_from_bit(s.i_feel)] + magic_4() + seq![spec_from_bit(s.wifi)], reserved_11(), 15, 26);
    lemma_subrange_full(reserved_11());
    assert(frame_of(s).subrange(52, 63) == reserved_11());
    lemma_subrange_left(c3, seq![Code::End], 63, 64);
    lemma_subrange_right(c2, sb, 63, 64);
    lemma_subrange_left(bits_le(swing_val(s.v_swing), 4) + bits_le(swing_val(s.h_swing), 4) + bits_le(td_val(s.temperature_display), 2) + seq![spec_from_bit(s.i_feel)] + magic_4() + seq![spec_from_bit(s.wifi)] + reserved_11() + seq![spec_from_bit(s.econo)] + seq![Code::Short], bits_le(spec_checksum(s), 4), 26, 27);
    lemma_subrange_left(bits_le(swing_val(s.v_swing), 4) + bits_le(swing_val(s.h_swing), 4) + bits_le(td_val(s.temperature_display), 2) + seq![spec_from_bit(s.i_feel)] + magic_4() + seq![spec_from_bit(s.wifi)] + reserved_11() + seq![spec_from_bit(s.econo)], seq![Code::Short], 26, 27);
    lemma_subrange_right(bits_le(swing_val(s.v_swing), 4) + bits_le(swing_val(s.h_swing), 4) + bits_le(td_val(s.temperature_display), 2) + seq![spec_from_bit(s.i_feel)] + magic_4() + seq![spec_from_bit(s.wifi)] + reserved_11(), seq![spec_from_bit(s.econo)], 26, 27);
    lemma_subrange_full(seq![spec_from_bit(s.econo)]);
    assert(frame_of(s).subrange(63, 64) == seq![spec_from_bit(s.econo)]);
    lemma_subrange_left(c3, seq![Code::End], 64, 65);
    lemma_subrange_right(c2, sb, 64, 65);
    lemma_subrange_left(bits_le(swing_val(s.v_swing), 4) + bits_le(swing_val(s.h_swing), 4) + bits_le(td_val(s.temperature_display), 2) + seq![spec_from_bit(s.i_feel)] + magic_4() + seq![spec_from_bit(s.wifi)] + reserved_11() + seq![spec_from_bit(s.econo)] + seq![Code::Short], bits_le(spec_checksum(s), 4), 27, 28);
    lemma_subrange_right(bits_le(swing_val(s.v_swing), 4) + bits_le(swing_val(s.h_swing), 4) + bits_le(td_val(s.temperature_display), 2) + seq![spec_from_bit(s.i_feel)] + magic_4() + seq![spec_from_bit(s.wifi)] + reserved_11() + seq![spec_from_bit(s.econo)], seq![Code::Short], 27, 28);
    lemma_subrange_full(seq![Code::Short]);
    assert(frame_of(s).subrange(64, 65) == seq![Code::Short]);
    lemma_subrange_left(c3, seq![Code::End], 65, 69);
    lemma_subrange_right(c2, sb, 65, 69);
    lemma_subrange_right(bits_le(swing_val(s.v_swing), 4) + bits_le(swing_val(s.h_swing), 4) + bits_le(td_val(s.temperature_display), 2) + seq![spec_from_bit(s.i_feel)] + magic_4() + seq![spec_from_bit(s.wifi)] + reserved_11() + seq![spec_from_bit(s.econo)] + seq![Code::Short], bits_le(spec_checksum(s), 4), 28, 32);
    lemma_subrange_full(bits_le(spec_checksum(s), 4));
    assert(frame_of(s).subrange(65, 69) == bits_le(spec_checksum(s), 4));
    assert(frame_of(s)[47] == frame_of(s).subrange(47, 48)[0]);
    assert(frame_of(s)[51] == frame_of(s).subrange(51, 52)[0]);
    assert(frame_of(s)[63] == frame_of(s).subrange(63, 64)[0]);
    assert(frame_of(s)[64] == frame_of(s).subrange(64, 65)[0]);
}

/// Where each field of a well-formed state lies in its frame.
pub proof fn lemma_frame_layout(s: Controller)
    requires
        s.wf(),
    ensures
        frame_of(s).len() == 70,
        frame_of(s)[0] == Code::Start,
        frame_of(s)[36] == Code::Continue,
        frame_of(s)[69] == Code::End,
        frame_of(s).subrange(1, 4) == bits_le(mode_val(s.mode), 3),
        frame_of(s)[4] == spec_from_bit(s.on),
        frame_of(s).subrange(5, 7) == bits_le(fan_val(s.fan), 2),
        frame_of(s)[7] == spec_from_bit(s.swing),
        frame_of(s)[8] == spec_from_bit(s.sleep),
        frame_of(s).subrange(9, 13) == bits_le(s.temperature.0 - 16, 4),
        frame_of(s).subrange(13, 21) == bits_le(timer_byte(s.timing), 8),
        frame_of(s)[21] == spec_from_bit(s.strong),
        frame_of(s)[22] == spec_from_bit(s.light),
        frame_of(s)[23] == spec_from_bit(s.anion),
        frame_of(s)[24] == spec_from_bit(s.dry),
        frame_of(s)[25] == spec_from_bit(s.ventilate),
        frame_of(s).subrange(26, 33) == magic_1(),
        frame_of(s).subrange(33, 36) == magic_3(),
        frame_of(s).subrange(37, 41) == bits_le(swing_val(s.v_swing), 4),
        frame_of(s).subrange(41, 45) == bits_le(swing_val(s.h_swing), 4),
        frame_of(s).subrange(45, 47) == bits_le(td_val(s.temperature_display), 2),
        frame_of(s)[47] == spec_from_bit(s.i_feel),
        frame_of(s).subrange(48, 51) == magic_4(),
        frame_of(s)[51] == spec_from_bit(s.wifi),
        frame_of(s)[63] == spec_from_bit(s.econo),
        frame_of(s)[64] == Code::Short,
        frame_of(s).subrange(65, 69) == bits_le(spec_checksum(s), 4),
{
    lemma_frame_layout_a(s);
    lemma_frame_layout_b(s);
}


/// On the frame of a well-formed state, every attribute decodes to that
/// state's field, every magic block passes, and the stored checksum is the
/// state's checksum.
#[verifier::rlimit(100)]
pub proof fn lemma_frame_decodes(s: Controller)
    requires
        s.wf(),
    ensures
        frame_of(s).len() == 70,
        frame_of(s)[0] == Code::Start,
        frame_of(s)[36] == Code::Continue,
        frame_of(s)[69] == Code::End,
        spec_decode_mode(frame_of(s), 1) == Ok::<Mode, DecodeError>(s.mode),
        spec_read_bit(frame_of(s), 4) == Ok::<bool, DecodeError>(s.on),
        spec_decode_fan(frame_of(s), 5) == Ok::<Fan, DecodeError>(s.fan),
        spec_read_bit(frame_of(s), 7) == Ok::<bool, DecodeError>(s.swing),
        spec_read_bit(frame_of(s), 8) == Ok::<bool, DecodeError>(s.sleep),
        spec_decode_temp(frame_of(s), 9) == Ok::<Temperature, DecodeError>(s.temperature),
        spec_decode_timer(frame_of(s), 13) == Ok::<TimerSetting, DecodeError>(s.timing),
        spec_read_bit(frame_of(s), 21) == Ok::<bool, DecodeError>(s.strong),
        spec_read_bit(frame_of(s), 22) == Ok::<bool, DecodeError>(s.light),
        spec_read_bit(frame_of(s), 23) == Ok::<bool, DecodeError>(s.anion),
        spec_read_bit(frame_of(s), 24) == Ok::<bool, DecodeError>(s.dry),
        spec_read_bit(frame_of(s), 25) == Ok::<bool, DecodeError>(s.ventilate),
        spec_check_magic1(frame_of(s), 26) == Ok::<(), DecodeError>(()),
        spec_check_magic2(frame_of(s), 33) == Ok::<(), DecodeError>(()),
        spec_decode_swing(frame_of(s), 37) == Ok::<SwingMode, DecodeError>(s.v_swing),
        spec_decode_swing(frame_of(s), 41) == Ok::<SwingMode, DecodeError>(s.h_swing),
        spec_decode_td(frame_of(s), 45) == Ok::<TemperatureDisplay, DecodeError>(
            s.temperature_display,
        ),
        spec_read_bit(frame_of(s), 47) == Ok::<bool, DecodeError>(s.i_feel),
        spec_check_magic3(frame_of(s), 48) == Ok::<(), DecodeError>(()),
        spec_read_bit(frame_of(s), 51) == Ok::<bool, DecodeError>(s.wifi),
        spec_read_bit(frame_of(s), 63) == Ok::<bool, DecodeError>(s.econo),
        spec_field_int(frame_of(s), 65, 4) == Ok::<u8, DecodeError>(spec_checksum(s) as u8),
        0 <= spec_checksum(s) < 16,
{
    lemma_frame_layout(s);
    lemma_two_to_small();
    let f = frame_of(s);
    lemma_mode_round_trip(s.mode);
    lemma_bits_le_all_data(mode_val(s.mode), 3);
    lemma_bits_le_len(mode_val(s.mode), 3);
    lemma_le_value_bits_le(mode_val(s.mode), 3);
    assert(spec_field_int(f, 1, 3) == Ok::<u8, DecodeError>(mode_val(s.mode) as u8));
    lemma_fan_round_trip(s.fan);
    lemma_bits_le_all_data(fan_val(s.fan), 2);
    lemma_bits_le_len(fan_val(s.fan), 2);
    lemma_le_value_bits_le(fan_val(s.fan), 2);
    assert(spec_field_int(f, 5, 2) == Ok::<u8, DecodeError>(fan_val(s.fan) as u8));
    lemma_temp_round_trip(s.temperature);
    lemma_bits_le_all_data(s.temperature.0 - 16, 4);
    lemma_bits_le_len(s.temperature.0 - 16, 4);
    lemma_le_value_bits_le(s.temperature.0 - 16, 4);
    assert(spec_field_int(f, 9, 4) == Ok::<u8, DecodeError>((s.temperature.0 - 16) as u8));
    lemma_timer_round_trip(s.timing);
    lemma_bits_le_all_data(timer_byte(s.timing), 8);
    lemma_bits_le_len(timer_byte(s.timing), 8);
    lemma_le_value_bits_le(timer_byte(s.timing), 8);
    assert(spec_field_int(f, 13, 8) == Ok::<u8, DecodeError>(timer_byte(s.timing) as u8));
    lemma_swing_round_trip(s.v_swing);
    lemma_bits_le_all_data(swing_val(s.v_swing), 4);
    lemma_bits_le_len(swing_val(s.v_swing), 4);
    lemma_le_value_bits_le(swing_val(s.v_swing), 4);
    assert(spec_field_int(f, 37, 4) == Ok::<u8, DecodeError>(swing_val(s.v_swing) as u8));
    lemma_swing_round_trip(s.h_swing);
    lemma_bits_le_all_data(swing_val(s.h_swing), 4);
    lemma_bits_le_len(swing_val(s.h_swing), 4);
    lemma_le_value_bits_le(swing_val(s.h_swing), 4);
    assert(spec_field_int(f, 41, 4) == Ok::<u8, DecodeError>(swing_val(s.h_swing) as u8));
    lemma_td_round_trip(s.temperature_display);
    lemma_bits_le_all_data(td_val(s.temperature_display), 2);
    lemma_bits_le_len(td_val(s.temperature_display), 2);
    lemma_le_value_bits_le(td_val(s.temperature_display), 2);
    assert(spec_field_int(f, 45, 2) == Ok::<u8, DecodeError>(
        td_val(s.temperature_display) as u8,
    ));
    lemma_bits_le_all_data(spec_checksum(s), 4);
    lemma_bits_le_len(spec_checksum(s), 4);
    lemma_le_value_bits_le(spec_checksum(s), 4);
    assert(spec_field_int(f, 65, 4) == Ok::<u8, DecodeError>(spec_checksum(s) as u8));
}

/// The round trip: decoding the frame a well-formed state encodes gives
/// exactly that state back.
pub proof fn lemma_round_trip(s: Controller)
    requires
        s.wf(),
    ensures
        spec_decode(frame_of(s)) == Ok::<Controller, DecodeError>(s),
{
    lemma_frame_decodes(s);
}

/// A symbol sequence shorter than one frame always decodes to `Eof`.
pub proof fn lemma_truncated_input(codes: Seq<Code>)
    requires
        codes.len() < 70,
    ensures
        spec_decode(codes) == Err::<Controller, DecodeError>(DecodeError::Eof),
{
}

/// A wrong symbol at any of the three marker positions makes decoding
/// fail with `InvalidMarker`, whatever else the sequence holds.
pub proof fn lemma_marker_integrity(codes: Seq<Code>)
    requires
        codes.len() >= 70,
        codes[0] != Code::Start || codes[36] != Code::Continue || codes[69] != Code::End,
    ensures
        spec_decode(codes) == Err::<Controller, DecodeError>(DecodeError::InvalidMarker),
{
}



/// The decoder reports the first magic block's failure when everything
/// before it passes.
proof fn lemma_decode_stops_at_magic1(codes: Seq<Code>)
    requires
        codes.len() >= 70,
        codes[0] == Code::Start && codes[36] == Code::Continue && codes[69] == Code::End,
        spec_decode_mode(codes, 1) is Ok,
        spec_read_bit(codes, 4) is Ok,
        spec_decode_fan(codes, 5) is Ok,
        spec_read_bit(codes, 7) is Ok,
        spec_read_bit(codes, 8) is Ok,
        spec_decode_temp(codes, 9) is Ok,
        spec_decode_timer(codes, 13) is Ok,
        spec_read_bit(codes, 21) is Ok,
        spec_read_bit(codes, 22) is Ok,
        spec_read_bit(codes, 23) is Ok,
        spec_read_bit(codes, 24) is Ok,
        spec_read_bit(codes, 25) is Ok,
        spec_check_magic1(codes, 26) is Err,
    ensures
        spec_decode(codes) == Err::<Controller, DecodeError>(
            spec_check_magic1(codes, 26)->Err_0,
        ),
{
}

/// The decoder reports the second magic block's failure when everything
/// before it passes.
proof fn lemma_decode_stops_at_magic2(codes: Seq<Code>)
    requires
        codes.len() >= 70,
        codes[0] == Code::Start && codes[36] == Code::Continue && codes[69] == Code::End,
        spec_decode_mode(codes, 1) is Ok,
        spec_read_bit(codes, 4) is Ok,
        spec_decode_fan(codes, 5) is Ok,
        spec_read_bit(codes, 7) is Ok,
        spec_read_bit(codes, 8) is Ok,
        spec_decode_temp(codes, 9) is Ok,
        spec_decode_timer(codes, 13) is Ok,
        spec_read_bit(codes, 21) is Ok,
        spec_read_bit(codes, 22) is Ok,
        spec_read_bit(codes, 23) is Ok,
        spec_read_bit(codes, 24) is Ok,
        spec_read_bit(codes, 25) is Ok,
        spec_check_magic1(codes, 26) is Ok,
        spec_check_magic2(codes, 33) is Err,
    ensures
        spec_decode(codes) == Err::<Controller, DecodeError>(
            spec_check_magic2(codes, 33)->Err_0,
        ),
{
}

/// The decoder reports the third magic block's failure when everything
/// before it passes.
proof fn lemma_decode_stops_at_magic3(codes: Seq<Code>)
    requires
        codes.len() >= 70,
        codes[0] == Code::Start && codes[36] == Code::Continue && codes[69] == Code::End,
        spec_decode_mode(codes, 1) is Ok,
        spec_read_bit(codes, 4) is Ok,
        spec_decode_fan(codes, 5) is Ok,
        spec_read_bit(codes, 7) is Ok,
        spec_read_bit(codes, 8) is Ok,
        spec_decode_temp(codes, 9) is Ok,
        spec_decode_timer(codes, 13) is Ok,
        spec_read_bit(codes, 21) is Ok,
        spec_read_bit(codes, 22) is Ok,
        spec_read_bit(codes, 23) is Ok,
        spec_read_bit(codes, 24) is Ok,
        spec_read_bit(codes, 25) is Ok,
        spec_check_magic1(codes, 26) is Ok,
        spec_check_magic2(codes, 33) is Ok,
        spec_decode_swing(codes, 37) is Ok,
        spec_decode_swing(codes, 41) is Ok,
        spec_decode_td(codes, 45) is Ok,
        spec_read_bit(codes, 47) is Ok,
        spec_check_magic3(codes, 48) is Err,
    ensures
        spec_decode(codes) == Err::<Controller, DecodeError>(
            spec_check_magic3(codes, 48)->Err_0,
        ),
{
}

/// The decoder reports a checksum mismatch, with both nibbles, when every
/// attribute decodes to `s`'s fields and the stored nibble disagrees with
/// `s`'s checksum.
proof fn lemma_decode_checksum_mismatch(codes: Seq<Code>, s: Controller)
    requires
        codes.len() >= 70,
        codes[0] == Code::Start && codes[36] == Code::Continue && codes[69] == Code::End,
        spec_decode_mode(codes, 1) == Ok::<Mode, DecodeError>(s.mode),
        spec_read_bit(codes, 4) == Ok::<bool, DecodeError>(s.on),
        spec_decode_fan(codes, 5) == Ok::<Fan, DecodeError>(s.fan),
        spec_read_bit(codes, 7) == Ok::<bool, DecodeError>(s.swing),
        spec_read_bit(codes, 8) == Ok::<bool, DecodeError>(s.sleep),
        spec_decode_temp(codes, 9) == Ok::<Temperature, DecodeError>(s.temperature),
        spec_decode_timer(codes, 13) == Ok::<TimerSetting, DecodeError>(s.timing),
        spec_read_bit(codes, 21) == Ok::<bool, DecodeError>(s.strong),
        spec_read_bit(codes, 22) == Ok::<bool, DecodeError>(s.light),
        spec_read_bit(codes, 23) == Ok::<bool, DecodeError>(s.anion),
        spec_read_bit(codes, 24) == Ok::<bool, DecodeError>(s.dry),
        spec_read_bit(codes, 25) == Ok::<bool, DecodeError>(s.ventilate),
        spec_check_magic1(codes, 26) is Ok,
        spec_check_magic2(codes, 33) is Ok,
        spec_decode_swing(codes, 37) == Ok::<SwingMode, DecodeError>(s.v_swing),
        spec_decode_swing(codes, 41) == Ok::<SwingMode, DecodeError>(s.h_swing),
        spec_decode_td(codes, 45) == Ok::<TemperatureDisplay, DecodeError>(
            s.temperature_display,
        ),
        spec_read_bit(codes, 47) == Ok::<bool, DecodeError>(s.i_feel),
        spec_check_magic3(codes, 48) is Ok,
        spec_read_bit(codes, 51) == Ok::<bool, DecodeError>(s.wifi),
        spec_read_bit(codes, 63) == Ok::<bool, DecodeError>(s.econo),
        spec_field_int(codes, 65, 4) is Ok,
        spec_field_int(codes, 65, 4)->Ok_0 as int != spec_checksum(s),
    ensures
        spec_decode(codes) == Err::<Controller, DecodeError>(
            DecodeError::Checksum(
                (spec_field_int(codes, 65, 4)->Ok_0 * 16 + spec_checksum(s)) as u8,
            ),
        ),
{
}

/// Replacing any symbol of the first magic block in a valid frame makes
/// decoding fail with `InvalidMagic(1)`, unless the change happens to turn
/// the block into the other accepted fingerprint.
#[verifier::rlimit(100)]
pub proof fn lemma_magic1_corrupt(s: Controller, i: int, c: Code)
    requires
        s.wf(),
        26 <= i < 33,
        c != frame_of(s)[i],
        frame_of(s).update(i, c).subrange(26, 33) != magic_2(),
    ensures
        spec_decode(frame_of(s).update(i, c)) == Err::<Controller, DecodeError>(
            DecodeError::InvalidMagic(1),
        ),
{
    lemma_frame_decodes(s);
    lemma_frame_layout(s);
    let f = frame_of(s);
    let f2 = f.update(i, c);
    assert(f2.subrange(1, 4) =~= f.subrange(1, 4));
    assert(f2.subrange(5, 7) =~= f.subrange(5, 7));
    assert(f2.subrange(9, 13) =~= f.subrange(9, 13));
    assert(f2.subrange(13, 21) =~= f.subrange(13, 21));
    assert(spec_decode_mode(f2, 1) == Ok::<Mode, DecodeError>(s.mode));
    assert(spec_read_bit(f2, 4) == Ok::<bool, DecodeError>(s.on));
    assert(spec_decode_fan(f2, 5) == Ok::<Fan, DecodeError>(s.fan));
    assert(spec_read_bit(f2, 7) == Ok::<bool, DecodeError>(s.swing));
    assert(spec_read_bit(f2, 8) == Ok::<bool, DecodeError>(s.sleep));
    assert(spec_decode_temp(f2, 9) == Ok::<Temperature, DecodeError>(s.temperature));
    assert(spec_decode_timer(f2, 13) == Ok::<TimerSetting, DecodeError>(s.timing));
    assert(spec_read_bit(f2, 21) == Ok::<bool, DecodeError>(s.strong));
    assert(spec_read_bit(f2, 22) == Ok::<bool, DecodeError>(s.light));
    assert(spec_read_bit(f2, 23) == Ok::<bool, DecodeError>(s.anion));
    assert(spec_read_bit(f2, 24) == Ok::<bool, DecodeError>(s.dry));
    assert(spec_read_bit(f2, 25) == Ok::<bool, DecodeError>(s.ventilate));
    let sub2 = f2.subrange(26, 33);
    assert(sub2[i - 26] == c);
    assert(magic_1()[i - 26] == f.subrange(26, 33)[i - 26]);
    assert(sub2 != magic_1());
    assert(spec_check_magic1(f2, 26) == Err::<(), DecodeError>(DecodeError::InvalidMagic(1)));
    lemma_decode_stops_at_magic1(f2);
}

/// Replacing any symbol of the second magic block in a valid frame makes
/// decoding fail with `InvalidMagic(2)`.
#[verifier::rlimit(100)]
pub proof fn lemma_magic2_corrupt(s: Controller, i: int, c: Code)
    requires
        s.wf(),
        33 <= i < 36,
        c != frame_of(s)[i],
    ensures
        spec_decode(frame_of(s).update(i, c)) == Err::<Controller, DecodeError>(
            DecodeError::InvalidMagic(2),
        ),
{
    lemma_frame_decodes(s);
    let f = frame_of(s);
    let f2 = f.update(i, c);
    assert(f2.subrange(1, 4) =~= f.subrange(1, 4));
    assert(f2.subrange(5, 7) =~= f.subrange(5, 7));
    assert(f2.subrange(9, 13) =~= f.subrange(9, 13));
    assert(f2.subrange(13, 21) =~= f.subrange(13, 21));
    assert(f2.subrange(26, 33) =~= f.subrange(26, 33));
    assert(spec_decode_mode(f2, 1) == Ok::<Mode, DecodeError>(s.mode));
    assert(spec_read_bit(f2, 4) == Ok::<bool, DecodeError>(s.on));
    assert(spec_decode_fan(f2, 5) == Ok::<Fan, DecodeError>(s.fan));
    assert(spec_read_bit(f2, 7) == Ok::<bool, DecodeError>(s.swing));
    assert(spec_read_bit(f2, 8) == Ok::<bool, DecodeError>(s.sleep));
    assert(spec_decode_temp(f2, 9) == Ok::<Temperature, DecodeError>(s.temperature));
    assert(spec_decode_timer(f2, 13) == Ok::<TimerSetting, DecodeError>(s.timing));
    assert(spec_read_bit(f2, 21) == Ok::<bool, DecodeError>(s.strong));
    assert(spec_read_bit(f2, 22) == Ok::<bool, DecodeError>(s.light));
    assert(spec_read_bit(f2, 23) == Ok::<bool, DecodeError>(s.anion));
    assert(spec_read_bit(f2, 24) == Ok::<bool, DecodeError>(s.dry));
    assert(spec_read_bit(f2, 25) == Ok::<bool, DecodeError>(s.ventilate));
    assert(spec_check_magic1(f2, 26) == Ok::<(), DecodeError>(()));
    let sub2 = f2.subrange(33, 36);
    assert(sub2[i - 33] == c);
    assert(magic_3()[i - 33] == f.subrange(33, 36)[i - 33]);
    assert(sub2 != magic_3());
    assert(spec_check_magic2(f2, 33) == Err::<(), DecodeError>(DecodeError::InvalidMagic(2)));
    lemma_decode_stops_at_magic2(f2);
}

/// Replacing any symbol of the third magic block in a valid frame makes
/// decoding fail with `InvalidMagic(3)`.
#[verifier::rlimit(100)]
pub proof fn lemma_magic3_corrupt(s: Controller, i: int, c: Code)
    requires
        s.wf(),
        48 <= i < 51,
        c != frame_of(s)[i],
    ensures
        spec_decode(frame_of(s).update(i, c)) == Err::<Controller, DecodeError>(
            DecodeError::InvalidMagic(3),
        ),
{
    lemma_frame_decodes(s);
    let f = frame_of(s);
    let f2 = f.update(i, c);
    assert(f2.subrange(1, 4) =~= f.subrange(1, 4));
    assert(f2.subrange(5, 7) =~= f.subrange(5, 7));
    assert(f2.subrange(9, 13) =~= f.subrange(9, 13));
    assert(f2.subrange(13, 21) =~= f.subrange(13, 21));
    assert(f2.subrange(26, 33) =~= f.subrange(26, 33));
    assert(f2.subrange(33, 36) =~= f.subrange(33, 36));
    assert(f2.subrange(37, 41) =~= f.subrange(37, 41));
    assert(f2.subrange(41, 45) =~= f.subrange(41, 45));
    assert(f2.subrange(45, 47) =~= f.subrange(45, 47));
    assert(spec_decode_mode(f2, 1) == Ok::<Mode, DecodeError>(s.mode));
    assert(spec_read_bit(f2, 4) == Ok::<bool, DecodeError>(s.on));
    assert(spec_decode_fan(f2, 5) == Ok::<Fan, DecodeError>(s.fan));
    assert(spec_read_bit(f2, 7) == Ok::<bool, DecodeError>(s.swing));
    assert(spec_read_bit(f2, 8) == Ok::<bool, DecodeError>(s.sleep));
    assert(spec_decode_temp(f2, 9) == Ok::<Temperature, DecodeError>(s.temperature));
    assert(spec_decode_timer(f2, 13) == Ok::<TimerSetting, DecodeError>(s.timing));
    assert(spec_read_bit(f2, 21) == Ok::<bool, DecodeError>(s.strong));
    assert(spec_read_bit(f2, 22) == Ok::<bool, DecodeError>(s.light));
    assert(spec_read_bit(f2, 23) == Ok::<bool, DecodeError>(s.anion));
    assert(spec_read_bit(f2, 24) == Ok::<bool, DecodeError>(s.dry));
    assert(spec_read_bit(f2, 25) == Ok::<bool, DecodeError>(s.ventilate));
    assert(spec_check_magic1(f2, 26) == Ok::<(), DecodeError>(()));
    assert(spec_check_magic2(f2, 33) == Ok::<(), DecodeError>(()));
    assert(spec_decode_swing(f2, 37) == Ok::<SwingMode, DecodeError>(s.v_swing));
    assert(spec_decode_swing(f2, 41) == Ok::<SwingMode, DecodeError>(s.h_swing));
    assert(spec_decode_td(f2, 45) == Ok::<TemperatureDisplay, DecodeError>(
        s.temperature_display,
    ));
    assert(spec_read_bit(f2, 47) == Ok::<bool, DecodeError>(s.i_feel));
    let sub2 = f2.subrange(48, 51);
    assert(sub2[i - 48] == c);
    assert(magic_4()[i - 48] == f.subrange(48, 51)[i - 48]);
    assert(sub2 != magic_4());
    assert(spec_check_magic3(f2, 48) == Err::<(), DecodeError>(DecodeError::InvalidMagic(3)));
    lemma_decode_stops_at_magic3(f2);
}

/// Replacing any checksum symbol of a valid frame with a different data
/// symbol always makes decoding fail with `Checksum`, carrying the changed
/// transmitted nibble beside the recomputed one.
#[verifier::rlimit(100)]
pub proof fn lemma_checksum_corrupt(s: Controller, i: int, c: Code)
    requires
        s.wf(),
        65 <= i < 69,
        is_data_code(c),
        c != frame_of(s)[i],
    ensures
        le_value(frame_of(s).update(i, c).subrange(65, 69)) != spec_checksum(s),
        spec_decode(frame_of(s).update(i, c)) == Err::<Controller, DecodeError>(
            DecodeError::Checksum(
                (le_value(frame_of(s).update(i, c).subrange(65, 69)) * 16 + spec_checksum(
                    s,
                )) as u8,
            ),
        ),
{
    lemma_frame_decodes(s);
    lemma_frame_layout(s);
    lemma_two_to_small();
    let f = frame_of(s);
    let f2 = f.update(i, c);
    assert(f2.subrange(1, 4) =~= f.subrange(1, 4));
    assert(f2.subrange(5, 7) =~= f.subrange(5, 7));
    assert(f2.subrange(9, 13) =~= f.subrange(9, 13));
    assert(f2.subrange(13, 21) =~= f.subrange(13, 21));
    assert(f2.subrange(26, 33) =~= f.subrange(26, 33));
    assert(f2.subrange(33, 36) =~= f.subrange(33, 36));
    assert(f2.subrange(37, 41) =~= f.subrange(37, 41));
    assert(f2.subrange(41, 45) =~= f.subrange(41, 45));
    assert(f2.subrange(45, 47) =~= f.subrange(45, 47));
    assert(f2.subrange(48, 51) =~= f.subrange(48, 51));
    let w1 = f.subrange(65, 69);
    let w2 = f2.subrange(65, 69);
    lemma_bits_le_all_data(spec_checksum(s), 4);
    lemma_bits_le_len(spec_checksum(s), 4);
    lemma_le_value_bits_le(spec_checksum(s), 4);
    assert(w2[i - 65] == c);
    assert(w1[i - 65] == f[i]);
    assert(all_data(w2)) by {
        assert forall|j: int| 0 <= j < w2.len() implies is_data_code(w2[j]) by {
            if j != i - 65 {
                assert(w2[j] == w1[j]);
            }
        }
    }
    assert(w2 != w1);
    lemma_le_value_injective(w1, w2);
    assert(le_value(w1) == spec_checksum(s));
    lemma_le_value_bound(w2);
    assert(spec_field_int(f2, 65, 4) == Ok::<u8, DecodeError>(le_value(w2) as u8));
    assert(spec_decode_mode(f2, 1) == Ok::<Mode, DecodeError>(s.mode));
    assert(spec_read_bit(f2, 4) == Ok::<bool, DecodeError>(s.on));
    assert(spec_decode_fan(f2, 5) == Ok::<Fan, DecodeError>(s.fan));
    assert(spec_read_bit(f2, 7) == Ok::<bool, DecodeError>(s.swing));
    assert(spec_read_bit(f2, 8) == Ok::<bool, DecodeError>(s.sleep));
    assert(spec_decode_temp(f2, 9) == Ok::<Temperature, DecodeError>(s.temperature));
    assert(spec_decode_timer(f2, 13) == Ok::<TimerSetting, DecodeError>(s.timing));
    assert(spec_read_bit(f2, 21) == Ok::<bool, DecodeError>(s.strong));
    assert(spec_read_bit(f2, 22) == Ok::<bool, DecodeError>(s.light));
    assert(spec_read_bit(f2, 23) == Ok::<bool, DecodeError>(s.anion));
    assert(spec_read_bit(f2, 24) == Ok::<bool, DecodeError>(s.dry));
    assert(spec_read_bit(f2, 25) == Ok::<bool, DecodeError>(s.ventilate));
    assert(spec_check_magic1(f2, 26) == Ok::<(), DecodeError>(()));
    assert(spec_check_magic2(f2, 33) == Ok::<(), DecodeError>(()));
    assert(spec_decode_swing(f2, 37) == Ok::<SwingMode, DecodeError>(s.v_swing));
    assert(spec_decode_swing(f2, 41) == Ok::<SwingMode, DecodeError>(s.h_swing));
    assert(spec_decode_td(f2, 45) == Ok::<TemperatureDisplay, DecodeError>(
        s.temperature_display,
    ));
    assert(spec_read_bit(f2, 47) == Ok::<bool, DecodeError>(s.i_feel));
    assert(spec_check_magic3(f2, 48) == Ok::<(), DecodeError>(()));
    assert(spec_read_bit(f2, 51) == Ok::<bool, DecodeError>(s.wifi));
    assert(spec_read_bit(f2, 63) == Ok::<bool, DecodeError>(s.econo));
    lemma_decode_checksum_mismatch(f2, s);
}

} // verus!

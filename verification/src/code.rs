//! The five-symbol code alphabet and the little-endian bitfield model.
//!
//! `Start`, `Continue` and `End` are frame markers and never carry data;
//! `Short` and `Long` are the two pulse-duration classes standing for the
//! bits 0 and 1. Every attribute of the device state travels as a
//! fixed-width group of data symbols, least significant bit first.

use vstd::prelude::*;

use crate::error::DecodeError;

verus! {

/// One pulse code of the infrared transmission.
#[derive(Clone, Copy, Debug, PartialEq, Eq, Structural)]
pub enum Code {
    Start,
    Continue,
    End,
    /// Data symbol for a 0 bit.
    Short,
    /// Data symbol for a 1 bit.
    Long,
}

/// The data symbol that stands for the bit `b`.
pub open spec fn spec_from_bit(b: bool) -> Code {
    if b {
        Code::Long
    } else {
        Code::Short
    }
}

/// Whether `c` is a data symbol (`Short` or `Long`) rather than a marker.
pub open spec fn is_data_code(c: Code) -> bool {
    c == Code::Short || c == Code::Long
}

/// The bit a data symbol stands for. Meaningful only for data symbols.
pub open spec fn spec_bit_of(c: Code) -> bool {
    c == Code::Long
}

/// Whether every symbol of `s` is a data symbol.
pub open spec fn all_data(s: Seq<Code>) -> bool {
    forall|i: int| 0 <= i < s.len() ==> is_data_code(s[i])
}

/// 2 to the power `w`.
pub open spec fn two_to(w: nat) -> int
    decreases w,
{
    if w == 0 {
        1
    } else {
        2 * two_to((w - 1) as nat)
    }
}

/// The `width` least significant bits of `n` as data symbols, least
/// significant bit first.
pub open spec fn bits_le(n: int, width: nat) -> Seq<Code>
    decreases width,
{
    if width == 0 {
        Seq::empty()
    } else {
        seq![spec_from_bit(n % 2 == 1)] + bits_le(n / 2, (width - 1) as nat)
    }
}

/// The integer a sequence of data symbols stands for, first symbol least
/// significant.
pub open spec fn le_value(s: Seq<Code>) -> int
    decreases s.len(),
{
    if s.len() == 0 {
        0
    } else {
        (if spec_bit_of(s[0]) {
            1int
        } else {
            0int
        }) + 2 * le_value(s.drop_first())
    }
}

pub proof fn lemma_two_to_pos(w: nat)
    ensures
        two_to(w) >= 1,
    decreases w,
{
    if w > 0 {
        lemma_two_to_pos((w - 1) as nat);
    }
}

pub proof fn lemma_two_to_monotone(w1: nat, w2: nat)
    requires
        w1 <= w2,
    ensures
        two_to(w1) <= two_to(w2),
    decreases w2,
{
    if w1 < w2 {
        lemma_two_to_monotone(w1, (w2 - 1) as nat);
        lemma_two_to_pos((w2 - 1) as nat);
    }
}

/// The values of `two_to` on the widths the protocol uses.
pub proof fn lemma_two_to_small()
    ensures
        two_to(0) == 1,
        two_to(1) == 2,
        two_to(2) == 4,
        two_to(3) == 8,
        two_to(4) == 16,
        two_to(5) == 32,
        two_to(6) == 64,
        two_to(7) == 128,
        two_to(8) == 256,
{
    reveal_with_fuel(two_to, 9);
}

pub proof fn lemma_bits_le_len(n: int, width: nat)
    ensures
        bits_le(n, width).len() == width,
    decreases width,
{
    if width > 0 {
        lemma_bits_le_len(n / 2, (width - 1) as nat);
    }
}

pub proof fn lemma_bits_le_all_data(n: int, width: nat)
    ensures
        all_data(bits_le(n, width)),
    decreases width,
{
    if width > 0 {
        let rest = bits_le(n / 2, (width - 1) as nat);
        lemma_bits_le_all_data(n / 2, (width - 1) as nat);
        lemma_bits_le_len(n / 2, (width - 1) as nat);
        assert forall|i: int| 0 <= i < bits_le(n, width).len() implies is_data_code(
            bits_le(n, width)[i],
        ) by {
            if i > 0 {
                assert(bits_le(n, width)[i] == rest[i - 1]);
            }
        }
    }
}

/// Reading back the bits of an in-range value gives that value.
pub proof fn lemma_le_value_bits_le(n: int, width: nat)
    requires
        0 <= n < two_to(width),
    ensures
        le_value(bits_le(n, width)) == n,
    decreases width,
{
    if width > 0 {
        let rest = bits_le(n / 2, (width - 1) as nat);
        lemma_bits_le_len(n / 2, (width - 1) as nat);
        assert(n / 2 < two_to((width - 1) as nat));
        lemma_le_value_bits_le(n / 2, (width - 1) as nat);
        let s = bits_le(n, width);
        assert(s[0] == spec_from_bit(n % 2 == 1));
        assert(s.drop_first() =~= rest);
    }
}

pub proof fn lemma_le_value_bound(s: Seq<Code>)
    ensures
        0 <= le_value(s) < two_to(s.len()),
    decreases s.len(),
{
    if s.len() > 0 {
        lemma_le_value_bound(s.drop_first());
    }
}

/// The bits of the value a data sequence stands for are that sequence:
/// `bits_le` and `le_value` are mutually inverse.
pub proof fn lemma_bits_le_le_value(s: Seq<Code>)
    requires
        all_data(s),
    ensures
        bits_le(le_value(s), s.len()) == s,
    decreases s.len(),
{
    if s.len() == 0 {
        assert(bits_le(le_value(s), s.len()) =~= s);
    } else {
        let rest = s.drop_first();
        assert(all_data(rest)) by {
            assert forall|i: int| 0 <= i < rest.len() implies is_data_code(rest[i]) by {
                assert(rest[i] == s[i + 1]);
            }
        }
        lemma_bits_le_le_value(rest);
        lemma_le_value_bound(rest);
        let v = le_value(s);
        assert(v % 2 == (if spec_bit_of(s[0]) {
            1int
        } else {
            0int
        }));
        assert(v / 2 == le_value(rest));
        assert(spec_from_bit(v % 2 == 1) == s[0]);
        assert(bits_le(v, s.len()) =~= s);
    }
}

/// Appending one data symbol adds its bit at the next binary weight.
pub proof fn lemma_le_value_push(s: Seq<Code>, c: Code)
    ensures
        le_value(s.push(c)) == le_value(s) + (if spec_bit_of(c) {
            1int
        } else {
            0int
        }) * two_to(s.len()),
    decreases s.len(),
{
    let bc: int = if spec_bit_of(c) {
        1
    } else {
        0
    };
    if s.len() == 0 {
        assert(s.push(c).drop_first() =~= Seq::<Code>::empty());
        assert(s.push(c)[0] == c);
        assert(s.push(c).len() == 1);
        assert(le_value(s.push(c).drop_first()) == 0);
        assert(le_value(s.push(c)) == bc);
        assert(bc * two_to(0) == bc);
    } else {
        assert(s.push(c).drop_first() =~= s.drop_first().push(c));
        lemma_le_value_push(s.drop_first(), c);
        assert(s.push(c)[0] == s[0]);
        let b0: int = if spec_bit_of(s[0]) {
            1
        } else {
            0
        };
        let t = two_to((s.len() - 1) as nat);
        assert(two_to(s.len()) == 2 * t);
        assert(le_value(s.push(c)) == b0 + 2 * le_value(s.drop_first().push(c)));
        assert(le_value(s.drop_first().push(c)) == le_value(s.drop_first()) + bc * t);
        assert(2 * (le_value(s.drop_first()) + bc * t) == 2 * le_value(s.drop_first()) + bc * (2
            * t)) by (nonlinear_arith);
        assert(le_value(s) == b0 + 2 * le_value(s.drop_first()));
    }
}

/// Two distinct data sequences of one length stand for distinct values.
pub proof fn lemma_le_value_injective(s1: Seq<Code>, s2: Seq<Code>)
    requires
        all_data(s1),
        all_data(s2),
        s1.len() == s2.len(),
        s1 != s2,
    ensures
        le_value(s1) != le_value(s2),
{
    if le_value(s1) == le_value(s2) {
        lemma_bits_le_le_value(s1);
        lemma_bits_le_le_value(s2);
    }
}

/// Appending one symbol is the same as adding its singleton sequence.
pub proof fn lemma_push_is_add(a: Seq<Code>, x: Code)
    ensures
        a.push(x) == a + seq![x],
{
    assert(a.push(x) =~= a + seq![x]);
}

/// Concatenation of symbol sequences is associative.
pub proof fn lemma_add_assoc(a: Seq<Code>, b: Seq<Code>, c: Seq<Code>)
    ensures
        (a + b) + c == a + (b + c),
{
    assert((a + b) + c =~= a + (b + c));
}

/// A subrange that lies inside the left part of a concatenation.
pub proof fn lemma_subrange_left(x: Seq<Code>, y: Seq<Code>, i: int, j: int)
    requires
        0 <= i <= j <= x.len(),
    ensures
        (x + y).subrange(i, j) == x.subrange(i, j),
{
    assert((x + y).subrange(i, j) =~= x.subrange(i, j));
}

/// A subrange that lies inside the right part of a concatenation.
pub proof fn lemma_subrange_right(x: Seq<Code>, y: Seq<Code>, i: int, j: int)
    requires
        x.len() <= i <= j <= x.len() + y.len(),
    ensures
        (x + y).subrange(i, j) == y.subrange(i - x.len(), j - x.len()),
{
    assert((x + y).subrange(i, j) =~= y.subrange(i - x.len(), j - x.len()));
}

/// A sequence is its own subrange over its full length.
pub proof fn lemma_subrange_full(x: Seq<Code>)
    ensures
        x.subrange(0, x.len() as int) == x,
{
    assert(x.subrange(0, x.len() as int) =~= x);
}

/// An element taken from the left part of a concatenation.
pub proof fn lemma_index_left(x: Seq<Code>, y: Seq<Code>, i: int)
    requires
        0 <= i < x.len(),
    ensures
        (x + y)[i] == x[i],
{
}

/// An element taken from the right part of a concatenation.
pub proof fn lemma_index_right(x: Seq<Code>, y: Seq<Code>, i: int)
    requires
        x.len() <= i < x.len() + y.len(),
    ensures
        (x + y)[i] == y[i - x.len()],
{
}

impl Code {
    /// `true` becomes `Long`, `false` becomes `Short`.
    pub fn from_bit(b: bool) -> (r: Code)
        ensures
            r == spec_from_bit(b),
    {
        if b {
            Code::Long
        } else {
            Code::Short
        }
    }

    /// The bit a data symbol stands for; a marker symbol is an error.
    pub fn to_bit(self) -> (r: Result<bool, DecodeError>)
        ensures
            r == (if is_data_code(self) {
                Ok::<bool, DecodeError>(spec_bit_of(self))
            } else {
                Err::<bool, DecodeError>(DecodeError::UnexpectedMarker)
            }),
    {
        match self {
            Code::Short => Ok(false),
            Code::Long => Ok(true),
            _ => Err(DecodeError::UnexpectedMarker),
        }
    }

    /// The bit a data symbol stands for, as 0 or 1; a marker symbol is an
    /// error.
    pub fn to_byte(self) -> (r: Result<u8, DecodeError>)
        ensures
            r == (if is_data_code(self) {
                Ok::<u8, DecodeError>(
                    if spec_bit_of(self) {
                        1u8
                    } else {
                        0u8
                    },
                )
            } else {
                Err::<u8, DecodeError>(DecodeError::UnexpectedMarker)
            }),
    {
        match self {
            Code::Short => Ok(0),
            Code::Long => Ok(1),
            _ => Err(DecodeError::UnexpectedMarker),
        }
    }
}

/// The `width`-bit little-endian integer stored at `at`: `Eof` past the end
/// of the sequence, `UnexpectedMarker` when a marker stands among the data
/// symbols.
pub open spec fn spec_field_int(codes: Seq<Code>, at: int, width: nat) -> Result<u8, DecodeError> {
    if codes.len() < at + width {
        Err(DecodeError::Eof)
    } else if !all_data(codes.subrange(at, at + width)) {
        Err(DecodeError::UnexpectedMarker)
    } else {
        Ok(le_value(codes.subrange(at, at + width)) as u8)
    }
}

/// The bit stored at `at`: `Eof` past the end of the sequence,
/// `UnexpectedMarker` when a marker stands there.
pub open spec fn spec_read_bit(codes: Seq<Code>, at: int) -> Result<bool, DecodeError> {
    if codes.len() <= at {
        Err(DecodeError::Eof)
    } else if !is_data_code(codes[at]) {
        Err(DecodeError::UnexpectedMarker)
    } else {
        Ok(spec_bit_of(codes[at]))
    }
}

/// Read the `width`-bit little-endian integer at `at`.
pub fn read_bits(codes: &[Code], at: usize, width: usize) -> (r: Result<u8, DecodeError>)
    requires
        width <= 8,
    ensures
        r == spec_field_int(codes@, at as int, width as nat),
{
    if codes.len() < at || codes.len() - at < width {
        return Err(DecodeError::Eof);
    }
    let ghost window = codes@.subrange(at as int, at + width);
    let mut acc: u8 = 0;
    let mut p: u8 = 1;
    let mut i: usize = 0;
    while i < width
        invariant
            i <= width,
            width <= 8,
            at + width <= codes@.len(),
            codes@.len() <= usize::MAX,
            window == codes@.subrange(at as int, at + width),
            all_data(window.take(i as int)),
            acc as int == le_value(window.take(i as int)),
            i < width ==> p as int == two_to(i as nat),
        decreases width - i,
    {
        let c = codes[at + i];
        proof {
            assert(c == window[i as int]);
        }
        let t = match c.to_bit() {
            Ok(b) => b,
            Err(_) => {
                proof {
                    assert(!all_data(window)) by {
                        assert(!is_data_code(window[i as int]));
                    }
                }
                return Err(DecodeError::UnexpectedMarker);
            },
        };
        proof {
            assert(window.take(i + 1) =~= window.take(i as int).push(window[i as int]));
            lemma_le_value_push(window.take(i as int), window[i as int]);
            lemma_le_value_bound(window.take(i as int));
            lemma_two_to_small();
            lemma_two_to_monotone((i + 1) as nat, 8);
            if i + 1 < width {
                lemma_two_to_monotone((i + 2) as nat, 8);
            }
        }
        if t {
            acc = acc + p;
        }
        if i + 1 < width {
            p = p * 2;
        }
        i = i + 1;
    }
    proof {
        assert(window.take(width as int) =~= window);
        assert(acc as int == le_value(window));
    }
    Ok(acc)
}

/// Read the bit at `at`.
pub fn read_bit(codes: &[Code], at: usize) -> (r: Result<bool, DecodeError>)
    ensures
        r == spec_read_bit(codes@, at as int),
{
    if at >= codes.len() {
        return Err(DecodeError::Eof);
    }
    codes[at].to_bit()
}

/// Append the `width` least significant bits of `n`, least significant
/// first.
pub fn push_bits(out: &mut Vec<Code>, n: u8, width: usize)
    ensures
        final(out)@ == old(out)@ + bits_le(n as int, width as nat),
{
    let mut x = n;
    let mut i: usize = 0;
    while i < width
        invariant
            i <= width,
            old(out)@ + bits_le(n as int, width as nat) == out@ + bits_le(
                x as int,
                (width - i) as nat,
            ),
        decreases width - i,
    {
        proof {
            assert(out@ + bits_le(x as int, (width - i) as nat) =~= out@.push(
                spec_from_bit(x % 2 == 1),
            ) + bits_le(x as int / 2, (width - i - 1) as nat));
        }
        out.push(Code::from_bit(x % 2 == 1));
        x = x / 2;
        i = i + 1;
    }
    proof {
        assert(out@ + bits_le(x as int, 0) =~= out@);
    }
}

/// Append the data symbol for one bit.
pub fn push_bit(out: &mut Vec<Code>, b: bool)
    ensures
        final(out)@ == old(out)@.push(spec_from_bit(b)),
{
    out.push(Code::from_bit(b));
}

} // verus!

//! Errors that decoding a frame can report. Encoding never fails.

use vstd::prelude::*;

verus! {

/// Why a symbol sequence was rejected by the decoder.
///
/// `InvalidMagic` carries the identifier (1, 2 or 3) of the magic block
/// that did not match an accepted pattern. `Checksum` carries the
/// transmitted checksum nibble in its high four bits and the recomputed
/// nibble in its low four bits, for diagnostics.
#[derive(Clone, Copy, Debug, PartialEq, Eq, Structural)]
pub enum DecodeError {
    InvalidMarker,
    UnexpectedMarker,
    InvalidMode,
    InvalidTimerSetting,
    InvalidFan,
    InvalidTemperature,
    InvalidSwingMode,
    InvalidMagic(u8),
    Eof,
    Checksum(u8),
}

} // verus!

//! Bidirectional codec for the infrared command protocol of a split
//! air-conditioner remote control.
//!
//! The codec translates between a 70-symbol sequence of timing-class pulse
//! codes and a structured in-memory representation of the air conditioner's
//! desired operating state. Encoding lays the state's attributes out as
//! fixed-width little-endian bitfields between framing markers and vendor
//! magic sequences, and appends a nibble-sum checksum; decoding validates
//! markers, magic blocks and the checksum before yielding a state value or
//! a decode error. The codec consumes and produces only the abstract symbol
//! sequence and the state value; it has no I/O of its own.

pub mod code;
pub mod error;
pub mod fields;
pub mod frame;
pub mod laws;

pub use code::Code;
pub use error::DecodeError;
pub use fields::Fan;
pub use fields::Mode;
pub use fields::SwingMode;
pub use fields::Temperature;
pub use fields::TemperatureDisplay;
pub use fields::TimerSetting;
pub use frame::Controller;

//! Wire codec for MIDI 1.0 and MIDI 2.0 Universal MIDI Packet messages.
//!
//! `bits` and `packet` form the generic engine: fields described by a unit
//! index and an in-place mask, read and written inside buffers of 32-bit words
//! or of bytes. The message modules bind field tables to concrete records,
//! validate their discriminants, and build them.
pub mod bits;
pub mod chord;
pub mod error;
pub mod packet;
pub mod set_chord_name;
pub mod song_select;
pub mod midi1_channel_voice;
pub mod midi2_channel_voice;

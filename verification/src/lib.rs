//! Host-side driver core for a contact-less EMV card reader spoken to over a
//! USB-HID byte channel.
//!
//! The crate is layered from the wire upward: big-endian and LRC helpers
//! (`number`), the fixed-size report layout (`frame_channel`), the
//! STX/LEN/UNIT/OPCODE/LRC/ETX envelope over a frame channel
//! (`message_channel`), the TLV tree codec (`tlv_parser`) with typed tag
//! values (`tag_value`) and extensions (`tlv`, `tlv_channel`), and the
//! device layer: typed messages (`device_channel`), notification fan-out
//! (`dispatcher`), and the scripted operations with the cancellable poll
//! (`device_ops`).  The loop that owns a real transport performs each step
//! these functions decide.

pub mod device;
pub mod device_channel;
pub mod device_ops;
pub mod dispatcher;
pub mod error;
pub mod frame_channel;
pub mod message_channel;
pub mod number;
pub mod tag_value;
pub mod text;
pub mod tlv;
pub mod tlv_channel;
pub mod tlv_parser;

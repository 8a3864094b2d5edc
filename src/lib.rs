//! Driver for the HX1230 monochrome dot-matrix LCD controller.
//!
//! The panel speaks 9-bit serial words (one command/data bit followed by
//! eight data bits) while the host peripheral only moves 8-bit words. This
//! library holds the verified logic: opcode encoding, the bit packing of
//! 9-bit words into bytes, the bus transaction sequencing, the frame buffer
//! and the message plans of the driver operations.
pub mod command;
pub mod packing;
pub mod transmit;
pub mod interface;
pub mod buffer;
pub mod driver;

pub use buffer::ArrayDisplayBuffer;
pub use interface::DisplayBuffer;

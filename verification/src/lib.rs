//! Core logic of a handheld LoRa communicator: the scan-code keyboard decoder
//! with its edit buffer, the Morse signalling encoder, the radio session state
//! machine and the model behind the log display.

pub mod input;
pub mod interface;
pub mod keyboard;
pub mod keys;
pub mod morse;
pub mod session;
pub mod text;

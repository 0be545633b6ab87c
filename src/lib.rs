//! Protocol client for a BLE control surface: GATT handle resolution, the
//! vendor handshake and the notification decoder, each as a state machine
//! driven by the caller, plus the outcome of the shutdown signal they race against.
pub mod shutdown;
pub mod decode;
pub mod resolve;
pub mod handshake;
pub mod listen;

//! Chunked transfer of large payloads over a single notify-capable endpoint
//! of a Bluetooth LE peripheral, together with the small device profile of
//! an LED controller that uses it.
//!
//! The crate holds the decisions of the protocol as pure state machines: the
//! caller performs the radio operations (write, read, await a notification)
//! and feeds every outcome back into the machine, which answers with the next
//! operation. Nothing here blocks or touches the radio.
//!
//! - [`transmission`] holds the protocol: its messages and their encoding,
//!   the send and the receive, and what is proved of whole transfers.
//! - [`payload`] turns JSON values into payloads and back.
//! - [`led`] is the controller's profile: endpoints, commands, and the
//!   routing of its notifications.
//! - [`scan`] picks the peripherals that are shown to the user.
//! - [`error`] names the ways in which a transfer fails.
//! - [`wire`] reads and writes integers.

pub mod error;
pub mod led;
pub mod payload;
pub mod scan;
pub mod transmission;
pub mod wire;

//! Headset battery notifier: verified core.
//!
//! Tracks the battery and connection state of wireless headsets across poll
//! cycles and decides which desktop notifications to emit on meaningful
//! changes (connect, disconnect, low battery, charge milestones).
//!
//! The library is the pure core: parsing one textual status block into a
//! device snapshot, the per-device registry of remembered state, and the
//! notification decision engine.  Running the external status command,
//! dispatching notifications and sleeping between polls are left to the
//! surrounding binary, which feeds this library plain strings and carries
//! out the notification intents it returns.

pub mod device;
pub mod engine;
pub mod notify;
pub mod numbers;
pub mod parser;
pub mod poll;
pub mod registry;
pub mod text;

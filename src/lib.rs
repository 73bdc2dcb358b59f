//! Core of a live CAN/CANopen bus viewer: a bounded log of received frames,
//! streaming bus statistics, CANopen command encoding, and the decision logic
//! of the driver loop that ties them together.

pub mod bus_stats;
pub mod canopen_types;
pub mod driver;
pub mod encoder;
pub mod message_log;
pub mod message_sender;

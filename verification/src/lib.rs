//! Core logic of a parking-gate server: the messages exchanged with the
//! gates, the registry of parked cars with its fee settlement, the routing of
//! request topics and the decoding steps of licence-plate recognition.

pub mod car;
pub mod db;
pub mod message;
pub mod mqtt;
pub mod ocr;

//! Commands and responses that concern the LoRaWAN link: identifiers and
//! keys, region and class, joining, and sending and receiving data.
pub mod commands;
pub mod responses;
pub mod types;

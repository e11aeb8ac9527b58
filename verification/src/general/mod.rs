//! Commands and responses that concern the modem itself rather than the radio
//! link: liveness, echo, sleep and reset.
pub mod commands;
pub mod responses;

//! The general commands.
use vstd::prelude::*;
use vstd::string::StringSliceAdditionalSpecFns;
use crate::encoder::{encode_plain, encode_query, encode_set, plain_line, query_line, set_line};
use crate::wire::to_vec;

verus! {

/// Asks the modem whether it is there.
#[derive(Clone, Debug)]
pub struct VerifyComIsWorking {}

impl VerifyComIsWorking {
    /// The command line: the bare prefix.
    pub fn as_bytes(&self) -> (line: Vec<u8>)
        ensures
            line@ == plain_line(Seq::empty()),
            line@.len() == 4,
    {
        let line = encode_plain("");
        proof {
            reveal_strlit("");
            assert("".spec_bytes() =~= Seq::<u8>::empty()) by {
                vstd::string::is_ascii_spec_bytes("");
            }
        }
        line
    }
}

/// Asks whether the modem echoes what it receives.
#[derive(Clone, Debug)]
pub struct AteGet {}

impl AteGet {
    /// The command line.
    pub fn as_bytes(&self) -> (line: Vec<u8>)
        ensures
            line@ == query_line("+ATE".spec_bytes()),
            line@.len() == 10,
    {
        proof {
            reveal_strlit("+ATE");
            vstd::string::is_ascii_spec_bytes("+ATE");
        }
        encode_query("+ATE")
    }
}

/// Switches the echo on or off.
#[derive(Clone, Debug)]
pub struct AteSet {
    pub on: Vec<u8>,
}

impl AteSet {
    /// The command that switches the echo on.
    pub fn on() -> (r: Self)
        ensures
            r.on@ == "ON".spec_bytes(),
    {
        Self { on: to_vec("ON".as_bytes()) }
    }

    /// The command that switches the echo off.
    pub fn off() -> (r: Self)
        ensures
            r.on@ == "OFF".spec_bytes(),
    {
        Self { on: to_vec("OFF".as_bytes()) }
    }

    /// The command line.
    pub fn as_bytes(&self) -> (line: Vec<u8>)
        ensures
            line@ == set_line("+ATE".spec_bytes(), self.on@),
            line@.len() == 9 + self.on@.len(),
    {
        proof {
            reveal_strlit("+ATE");
            vstd::string::is_ascii_spec_bytes("+ATE");
        }
        encode_set("+ATE", self.on.as_slice())
    }
}

/// Asks whether the modem is allowed to sleep.
#[derive(Clone, Debug)]
pub struct SleepGet {}

impl SleepGet {
    /// The command line.
    pub fn as_bytes(&self) -> (line: Vec<u8>)
        ensures
            line@ == query_line("+SLEEP".spec_bytes()),
            line@.len() == 12,
    {
        proof {
            reveal_strlit("+SLEEP");
            vstd::string::is_ascii_spec_bytes("+SLEEP");
        }
        encode_query("+SLEEP")
    }
}

/// Allows or forbids the modem to sleep.
#[derive(Clone, Debug)]
pub struct SleepSet {
    pub on: Vec<u8>,
}

impl SleepSet {
    /// The command that allows sleep.
    pub fn on() -> (r: Self)
        ensures
            r.on@ == "ON".spec_bytes(),
    {
        Self { on: to_vec("ON".as_bytes()) }
    }

    /// The command that forbids sleep.
    pub fn off() -> (r: Self)
        ensures
            r.on@ == "OFF".spec_bytes(),
    {
        Self { on: to_vec("OFF".as_bytes()) }
    }

    /// The command line.
    pub fn as_bytes(&self) -> (line: Vec<u8>)
        ensures
            line@ == set_line("+SLEEP".spec_bytes(), self.on@),
            line@.len() == 11 + self.on@.len(),
    {
        proof {
            reveal_strlit("+SLEEP");
            vstd::string::is_ascii_spec_bytes("+SLEEP");
        }
        encode_set("+SLEEP", self.on.as_slice())
    }
}

/// Restarts the modem.
#[derive(Clone, Debug)]
pub struct Reset {}

impl Reset {
    /// The command line.
    pub fn as_bytes(&self) -> (line: Vec<u8>)
        ensures
            line@ == plain_line("+RESET".spec_bytes()),
            line@.len() == 10,
    {
        proof {
            reveal_strlit("+RESET");
            vstd::string::is_ascii_spec_bytes("+RESET");
        }
        encode_plain("+RESET")
    }
}

} // verus!

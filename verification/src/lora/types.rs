//! The enumerated values of the LoRaWAN commands, and their tokens on the
//! wire.
//!
//! Every value but `Unknown` has one token and every token one value. A token
//! that the library does not know stands for `Unknown`; `Unknown` itself has
//! the empty token.
use vstd::prelude::*;
use vstd::std_specs::convert::FromSpecImpl;
use vstd::string::StringSliceAdditionalSpecFns;
use crate::wire::{same_bytes, to_vec};

verus! {

/// How the modem joins the network.
#[derive(Debug, Clone, Copy, PartialEq, Eq, Structural)]
pub enum LoraJoinMode {
    /// Over the air activation.
    Otaa,
    /// Activation by personalisation.
    Abp,
    Unknown,
}

/// The frequency plan.
#[derive(Debug, Clone, Copy, PartialEq, Eq, Structural)]
pub enum LoraRegion {
    Eu868,
    In865,
    Ru864,
    Us915,
    Au915,
    As923,
    Unknown,
}

/// The device class.
#[derive(Debug, Clone, Copy, PartialEq, Eq, Structural)]
pub enum LoraClass {
    ClassA,
    ClassB,
    ClassC,
    Unknown,
}

/// How far joining has come.
#[derive(Debug, Clone, Copy, PartialEq, Eq, Structural)]
pub enum LoraJoiningStatus {
    Joining,
    Joined,
    JoinFailed,
    /// The modem is busy.
    BusyError,
    /// The modem is in the mode of activation by personalisation, in which
    /// there is nothing to join.
    InAbpModeError,
    Unknown,
}

/// The token of a join mode.
pub open spec fn join_mode_token(mode: LoraJoinMode) -> Seq<u8> {
    match mode {
        LoraJoinMode::Otaa => "OTAA".spec_bytes(),
        LoraJoinMode::Abp => "ABP".spec_bytes(),
        LoraJoinMode::Unknown => Seq::empty(),
    }
}

/// The join mode that a token stands for.
pub open spec fn join_mode_of_token(token: Seq<u8>) -> LoraJoinMode {
    if token == "OTAA".spec_bytes() {
        LoraJoinMode::Otaa
    } else if token == "ABP".spec_bytes() {
        LoraJoinMode::Abp
    } else {
        LoraJoinMode::Unknown
    }
}

/// The token of a region.
pub open spec fn region_token(region: LoraRegion) -> Seq<u8> {
    match region {
        LoraRegion::Eu868 => "EU868".spec_bytes(),
        LoraRegion::In865 => "IN865".spec_bytes(),
        LoraRegion::Ru864 => "RU864".spec_bytes(),
        LoraRegion::Us915 => "US915".spec_bytes(),
        LoraRegion::Au915 => "AU915".spec_bytes(),
        LoraRegion::As923 => "AS923".spec_bytes(),
        LoraRegion::Unknown => Seq::empty(),
    }
}

/// The region that a token stands for.
pub open spec fn region_of_token(token: Seq<u8>) -> LoraRegion {
    if token == "EU868".spec_bytes() {
        LoraRegion::Eu868
    } else if token == "IN865".spec_bytes() {
        LoraRegion::In865
    } else if token == "RU864".spec_bytes() {
        LoraRegion::Ru864
    } else if token == "US915".spec_bytes() {
        LoraRegion::Us915
    } else if token == "AU915".spec_bytes() {
        LoraRegion::Au915
    } else if token == "AS923".spec_bytes() {
        LoraRegion::As923
    } else {
        LoraRegion::Unknown
    }
}

/// The token of a device class.
pub open spec fn class_token(class: LoraClass) -> Seq<u8> {
    match class {
        LoraClass::ClassA => "A".spec_bytes(),
        LoraClass::ClassB => "B".spec_bytes(),
        LoraClass::ClassC => "C".spec_bytes(),
        LoraClass::Unknown => Seq::empty(),
    }
}

/// The device class that a token stands for.
pub open spec fn class_of_token(token: Seq<u8>) -> LoraClass {
    if token == "A".spec_bytes() {
        LoraClass::ClassA
    } else if token == "B".spec_bytes() {
        LoraClass::ClassB
    } else if token == "C".spec_bytes() {
        LoraClass::ClassC
    } else {
        LoraClass::Unknown
    }
}

/// The joining status that a token stands for.
pub open spec fn joining_status_of_token(token: Seq<u8>) -> LoraJoiningStatus {
    if token == "JOINING".spec_bytes() {
        LoraJoiningStatus::Joining
    } else if token == "JOINED".spec_bytes() {
        LoraJoiningStatus::Joined
    } else if token == "JOIN FAILED".spec_bytes() {
        LoraJoiningStatus::JoinFailed
    } else if token == "ERROR(-3)".spec_bytes() {
        LoraJoiningStatus::BusyError
    } else if token == "ERROR(-2)".spec_bytes() {
        LoraJoiningStatus::InAbpModeError
    } else {
        LoraJoiningStatus::Unknown
    }
}

impl LoraJoinMode {
    /// The token of this join mode.
    pub fn token(&self) -> (r: Vec<u8>)
        ensures
            r@ == join_mode_token(*self),
    {
        match self {
            LoraJoinMode::Otaa => to_vec("OTAA".as_bytes()),
            LoraJoinMode::Abp => to_vec("ABP".as_bytes()),
            LoraJoinMode::Unknown => Vec::new(),
        }
    }

    /// The join mode that `token` stands for.
    pub fn from_token(token: &[u8]) -> (r: Self)
        ensures
            r == join_mode_of_token(token@),
    {
        if same_bytes(token, "OTAA".as_bytes()) {
            LoraJoinMode::Otaa
        } else if same_bytes(token, "ABP".as_bytes()) {
            LoraJoinMode::Abp
        } else {
            LoraJoinMode::Unknown
        }
    }
}

impl LoraRegion {
    /// The token of this region.
    pub fn token(&self) -> (r: Vec<u8>)
        ensures
            r@ == region_token(*self),
    {
        match self {
            LoraRegion::Eu868 => to_vec("EU868".as_bytes()),
            LoraRegion::In865 => to_vec("IN865".as_bytes()),
            LoraRegion::Ru864 => to_vec("RU864".as_bytes()),
            LoraRegion::Us915 => to_vec("US915".as_bytes()),
            LoraRegion::Au915 => to_vec("AU915".as_bytes()),
            LoraRegion::As923 => to_vec("AS923".as_bytes()),
            LoraRegion::Unknown => Vec::new(),
        }
    }

    /// The region that `token` stands for.
    pub fn from_token(token: &[u8]) -> (r: Self)
        ensures
            r == region_of_token(token@),
    {
        if same_bytes(token, "EU868".as_bytes()) {
            LoraRegion::Eu868
        } else if same_bytes(token, "IN865".as_bytes()) {
            LoraRegion::In865
        } else if same_bytes(token, "RU864".as_bytes()) {
            LoraRegion::Ru864
        } else if same_bytes(token, "US915".as_bytes()) {
            LoraRegion::Us915
        } else if same_bytes(token, "AU915".as_bytes()) {
            LoraRegion::Au915
        } else if same_bytes(token, "AS923".as_bytes()) {
            LoraRegion::As923
        } else {
            LoraRegion::Unknown
        }
    }
}

impl LoraClass {
    /// The token of this device class.
    pub fn token(&self) -> (r: Vec<u8>)
        ensures
            r@ == class_token(*self),
    {
        match self {
            LoraClass::ClassA => to_vec("A".as_bytes()),
            LoraClass::ClassB => to_vec("B".as_bytes()),
            LoraClass::ClassC => to_vec("C".as_bytes()),
            LoraClass::Unknown => Vec::new(),
        }
    }

    /// The device class that `token` stands for.
    pub fn from_token(token: &[u8]) -> (r: Self)
        ensures
            r == class_of_token(token@),
    {
        if same_bytes(token, "A".as_bytes()) {
            LoraClass::ClassA
        } else if same_bytes(token, "B".as_bytes()) {
            LoraClass::ClassB
        } else if same_bytes(token, "C".as_bytes()) {
            LoraClass::ClassC
        } else {
            LoraClass::Unknown
        }
    }
}

impl LoraJoiningStatus {
    /// The joining status that `token` stands for.
    pub fn from_token(token: &[u8]) -> (r: Self)
        ensures
            r == joining_status_of_token(token@),
    {
        if same_bytes(token, "JOINING".as_bytes()) {
            LoraJoiningStatus::Joining
        } else if same_bytes(token, "JOINED".as_bytes()) {
            LoraJoiningStatus::Joined
        } else if same_bytes(token, "JOIN FAILED".as_bytes()) {
            LoraJoiningStatus::JoinFailed
        } else if same_bytes(token, "ERROR(-3)".as_bytes()) {
            LoraJoiningStatus::BusyError
        } else if same_bytes(token, "ERROR(-2)".as_bytes()) {
            LoraJoiningStatus::InAbpModeError
        } else {
            LoraJoiningStatus::Unknown
        }
    }
}

impl From<Vec<u8>> for LoraRegion {
    fn from(value: Vec<u8>) -> (r: LoraRegion) {
        LoraRegion::from_token(value.as_slice())
    }
}

impl FromSpecImpl<Vec<u8>> for LoraRegion {
    open spec fn obeys_from_spec() -> bool {
        true
    }

    open spec fn from_spec(value: Vec<u8>) -> LoraRegion {
        region_of_token(value@)
    }
}

impl From<Vec<u8>> for LoraClass {
    fn from(value: Vec<u8>) -> (r: LoraClass) {
        LoraClass::from_token(value.as_slice())
    }
}

impl FromSpecImpl<Vec<u8>> for LoraClass {
    open spec fn obeys_from_spec() -> bool {
        true
    }

    open spec fn from_spec(value: Vec<u8>) -> LoraClass {
        class_of_token(value@)
    }
}

impl From<Vec<u8>> for LoraJoiningStatus {
    fn from(value: Vec<u8>) -> (r: LoraJoiningStatus) {
        LoraJoiningStatus::from_token(value.as_slice())
    }
}

impl FromSpecImpl<Vec<u8>> for LoraJoiningStatus {
    open spec fn obeys_from_spec() -> bool {
        true
    }

    open spec fn from_spec(value: Vec<u8>) -> LoraJoiningStatus {
        joining_status_of_token(value@)
    }
}

/// Round trip of the join modes: the token of a mode stands for that mode.
pub proof fn lemma_join_mode_round_trip(mode: LoraJoinMode)
    ensures
        join_mode_of_token(join_mode_token(mode)) == mode,
{
    reveal_strlit("OTAA");
    reveal_strlit("ABP");
    vstd::string::is_ascii_spec_bytes("OTAA");
    vstd::string::is_ascii_spec_bytes("ABP");
    assert("OTAA".spec_bytes().len() == 4);
    assert("ABP".spec_bytes().len() == 3);
}

/// Round trip of the regions: the token of a region stands for that region.
pub proof fn lemma_region_round_trip(region: LoraRegion)
    ensures
        region_of_token(region_token(region)) == region,
{
    reveal_strlit("EU868");
    reveal_strlit("IN865");
    reveal_strlit("RU864");
    reveal_strlit("US915");
    reveal_strlit("AU915");
    reveal_strlit("AS923");
    vstd::string::is_ascii_spec_bytes("EU868");
    vstd::string::is_ascii_spec_bytes("IN865");
    vstd::string::is_ascii_spec_bytes("RU864");
    vstd::string::is_ascii_spec_bytes("US915");
    vstd::string::is_ascii_spec_bytes("AU915");
    vstd::string::is_ascii_spec_bytes("AS923");
    let eu = "EU868".spec_bytes();
    let inn = "IN865".spec_bytes();
    let ru = "RU864".spec_bytes();
    let us = "US915".spec_bytes();
    let au = "AU915".spec_bytes();
    let asia = "AS923".spec_bytes();
    assert(eu.len() == 5 && eu[0] == 0x45 && eu[1] == 0x55);
    assert(inn[0] == 0x49);
    assert(ru[0] == 0x52);
    assert(us[0] == 0x55);
    assert(au[0] == 0x41 && au[1] == 0x55);
    assert(asia[0] == 0x41 && asia[1] == 0x53);
}

/// Round trip of the device classes: the token of a class stands for that
/// class.
pub proof fn lemma_class_round_trip(class: LoraClass)
    ensures
        class_of_token(class_token(class)) == class,
{
    reveal_strlit("A");
    reveal_strlit("B");
    reveal_strlit("C");
    vstd::string::is_ascii_spec_bytes("A");
    vstd::string::is_ascii_spec_bytes("B");
    vstd::string::is_ascii_spec_bytes("C");
    let a = "A".spec_bytes();
    let b = "B".spec_bytes();
    let c = "C".spec_bytes();
    assert(a.len() == 1 && a[0] == 0x41);
    assert(b[0] == 0x42);
    assert(c[0] == 0x43);
}

} // verus!

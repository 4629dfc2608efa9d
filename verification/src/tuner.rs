//! Frontend tuning: the DVB v5 property vocabulary and the property batch
//! that tunes a DVB-T channel.
//!
//! The kernel transaction itself (the property-set ioctl and the lock
//! poll) happens outside the library; this module computes the batch and
//! decides what a status word means.

use vstd::prelude::*;
use vstd::string::StringExecFns;
use crate::channel::Channel;
use crate::strutil::str_eq;

verus! {

pub const DTV_TUNE: u32 = 1;

pub const DTV_CLEAR: u32 = 2;

pub const DTV_FREQUENCY: u32 = 3;

pub const DTV_MODULATION: u32 = 4;

pub const DTV_BANDWIDTH_HZ: u32 = 5;

pub const DTV_INVERSION: u32 = 6;

pub const DTV_DELIVERY_SYSTEM: u32 = 17;

pub const DTV_CODE_RATE_HP: u32 = 36;

pub const DTV_CODE_RATE_LP: u32 = 37;

pub const DTV_GUARD_INTERVAL: u32 = 38;

pub const DTV_TRANSMISSION_MODE: u32 = 39;

pub const DTV_HIERARCHY: u32 = 40;

pub const SYS_DVBT: u32 = 3;

pub const FE_HAS_LOCK: u32 = 0x10;

/// A zap vocabulary entry outside the fixed table; holds the rejected
/// spelling.
#[derive(Debug)]
pub struct UnknownEnum {
    pub value: String,
}

/// The DVB v5 code of a zap bandwidth spelling.
pub open spec fn bandwidth_code(s: Seq<char>) -> Option<u32> {
    if s == "BANDWIDTH_6_MHZ"@ {
        Some(6000000u32)
    } else if s == "BANDWIDTH_7_MHZ"@ {
        Some(7000000u32)
    } else if s == "BANDWIDTH_8_MHZ"@ {
        Some(8000000u32)
    } else if s == "BANDWIDTH_5_MHZ"@ {
        Some(5000000u32)
    } else if s == "BANDWIDTH_10_MHZ"@ {
        Some(10000000u32)
    } else if s == "BANDWIDTH_1_712_MHZ"@ {
        Some(1712000u32)
    } else if s == "BANDWIDTH_AUTO"@ {
        Some(0u32)
    } else {
        None
    }
}

/// The DVB v5 code of a zap modulation spelling.
pub open spec fn modulation_code(s: Seq<char>) -> Option<u32> {
    if s == "QPSK"@ {
        Some(0u32)
    } else if s == "QAM_16"@ {
        Some(1u32)
    } else if s == "QAM_32"@ {
        Some(2u32)
    } else if s == "QAM_64"@ {
        Some(3u32)
    } else if s == "QAM_128"@ {
        Some(4u32)
    } else if s == "QAM_256"@ {
        Some(5u32)
    } else if s == "QAM_AUTO"@ {
        Some(6u32)
    } else {
        None
    }
}

/// The DVB v5 code of a zap code-rate spelling.
pub open spec fn fec_code(s: Seq<char>) -> Option<u32> {
    if s == "FEC_NONE"@ {
        Some(0u32)
    } else if s == "FEC_1_2"@ {
        Some(1u32)
    } else if s == "FEC_2_3"@ {
        Some(2u32)
    } else if s == "FEC_3_4"@ {
        Some(3u32)
    } else if s == "FEC_4_5"@ {
        Some(4u32)
    } else if s == "FEC_5_6"@ {
        Some(5u32)
    } else if s == "FEC_6_7"@ {
        Some(6u32)
    } else if s == "FEC_7_8"@ {
        Some(7u32)
    } else if s == "FEC_8_9"@ {
        Some(8u32)
    } else if s == "FEC_AUTO"@ {
        Some(9u32)
    } else {
        None
    }
}

/// The DVB v5 code of a zap inversion spelling.
pub open spec fn inversion_code(s: Seq<char>) -> Option<u32> {
    if s == "INVERSION_OFF"@ {
        Some(0u32)
    } else if s == "INVERSION_ON"@ {
        Some(1u32)
    } else if s == "INVERSION_AUTO"@ {
        Some(2u32)
    } else {
        None
    }
}

/// The DVB v5 code of a zap transmission-mode spelling.
pub open spec fn transmission_mode_code(s: Seq<char>) -> Option<u32> {
    if s == "TRANSMISSION_MODE_2K"@ {
        Some(0u32)
    } else if s == "TRANSMISSION_MODE_8K"@ {
        Some(1u32)
    } else if s == "TRANSMISSION_MODE_AUTO"@ {
        Some(2u32)
    } else if s == "TRANSMISSION_MODE_4K"@ {
        Some(3u32)
    } else if s == "TRANSMISSION_MODE_1K"@ {
        Some(4u32)
    } else if s == "TRANSMISSION_MODE_16K"@ {
        Some(5u32)
    } else if s == "TRANSMISSION_MODE_32K"@ {
        Some(6u32)
    } else {
        None
    }
}

/// The DVB v5 code of a zap guard-interval spelling.
pub open spec fn guard_interval_code(s: Seq<char>) -> Option<u32> {
    if s == "GUARD_INTERVAL_1_32"@ {
        Some(0u32)
    } else if s == "GUARD_INTERVAL_1_16"@ {
        Some(1u32)
    } else if s == "GUARD_INTERVAL_1_8"@ {
        Some(2u32)
    } else if s == "GUARD_INTERVAL_1_4"@ {
        Some(3u32)
    } else if s == "GUARD_INTERVAL_AUTO"@ {
        Some(4u32)
    } else {
        None
    }
}

/// The DVB v5 code of a zap hierarchy spelling.
pub open spec fn hierarchy_code(s: Seq<char>) -> Option<u32> {
    if s == "HIERARCHY_NONE"@ {
        Some(0u32)
    } else if s == "HIERARCHY_1"@ {
        Some(1u32)
    } else if s == "HIERARCHY_2"@ {
        Some(2u32)
    } else if s == "HIERARCHY_4"@ {
        Some(3u32)
    } else if s == "HIERARCHY_AUTO"@ {
        Some(4u32)
    } else {
        None
    }
}

/// Parse a zap bandwidth spelling; fails exactly outside the fixed table.
pub fn parse_bandwidth(s: &str) -> (r: Result<u32, UnknownEnum>)
    ensures
        r is Ok <==> bandwidth_code(s@) is Some,
        r matches Ok(v) ==> bandwidth_code(s@) == Some(v),
        r matches Err(e) ==> e.value@ == s@,
{
    if str_eq(s, "BANDWIDTH_6_MHZ") {
        Ok(6000000)
    } else if str_eq(s, "BANDWIDTH_7_MHZ") {
        Ok(7000000)
    } else if str_eq(s, "BANDWIDTH_8_MHZ") {
        Ok(8000000)
    } else if str_eq(s, "BANDWIDTH_5_MHZ") {
        Ok(5000000)
    } else if str_eq(s, "BANDWIDTH_10_MHZ") {
        Ok(10000000)
    } else if str_eq(s, "BANDWIDTH_1_712_MHZ") {
        Ok(1712000)
    } else if str_eq(s, "BANDWIDTH_AUTO") {
        Ok(0)
    } else {
        Err(UnknownEnum { value: String::from_str(s) })
    }
}

/// Parse a zap modulation spelling; fails exactly outside the fixed table.
pub fn parse_modulation(s: &str) -> (r: Result<u32, UnknownEnum>)
    ensures
        r is Ok <==> modulation_code(s@) is Some,
        r matches Ok(v) ==> modulation_code(s@) == Some(v),
        r matches Err(e) ==> e.value@ == s@,
{
    if str_eq(s, "QPSK") {
        Ok(0)
    } else if str_eq(s, "QAM_16") {
        Ok(1)
    } else if str_eq(s, "QAM_32") {
        Ok(2)
    } else if str_eq(s, "QAM_64") {
        Ok(3)
    } else if str_eq(s, "QAM_128") {
        Ok(4)
    } else if str_eq(s, "QAM_256") {
        Ok(5)
    } else if str_eq(s, "QAM_AUTO") {
        Ok(6)
    } else {
        Err(UnknownEnum { value: String::from_str(s) })
    }
}

/// Parse a zap code-rate spelling; fails exactly outside the fixed table.
pub fn parse_fec(s: &str) -> (r: Result<u32, UnknownEnum>)
    ensures
        r is Ok <==> fec_code(s@) is Some,
        r matches Ok(v) ==> fec_code(s@) == Some(v),
        r matches Err(e) ==> e.value@ == s@,
{
    if str_eq(s, "FEC_NONE") {
        Ok(0)
    } else if str_eq(s, "FEC_1_2") {
        Ok(1)
    } else if str_eq(s, "FEC_2_3") {
        Ok(2)
    } else if str_eq(s, "FEC_3_4") {
        Ok(3)
    } else if str_eq(s, "FEC_4_5") {
        Ok(4)
    } else if str_eq(s, "FEC_5_6") {
        Ok(5)
    } else if str_eq(s, "FEC_6_7") {
        Ok(6)
    } else if str_eq(s, "FEC_7_8") {
        Ok(7)
    } else if str_eq(s, "FEC_8_9") {
        Ok(8)
    } else if str_eq(s, "FEC_AUTO") {
        Ok(9)
    } else {
        Err(UnknownEnum { value: String::from_str(s) })
    }
}

/// Parse a zap inversion spelling; fails exactly outside the fixed table.
pub fn parse_inversion(s: &str) -> (r: Result<u32, UnknownEnum>)
    ensures
        r is Ok <==> inversion_code(s@) is Some,
        r matches Ok(v) ==> inversion_code(s@) == Some(v),
        r matches Err(e) ==> e.value@ == s@,
{
    if str_eq(s, "INVERSION_OFF") {
        Ok(0)
    } else if str_eq(s, "INVERSION_ON") {
        Ok(1)
    } else if str_eq(s, "INVERSION_AUTO") {
        Ok(2)
    } else {
        Err(UnknownEnum { value: String::from_str(s) })
    }
}

/// Parse a zap transmission-mode spelling; fails exactly outside the fixed
/// table.
pub fn parse_transmission_mode(s: &str) -> (r: Result<u32, UnknownEnum>)
    ensures
        r is Ok <==> transmission_mode_code(s@) is Some,
        r matches Ok(v) ==> transmission_mode_code(s@) == Some(v),
        r matches Err(e) ==> e.value@ == s@,
{
    if str_eq(s, "TRANSMISSION_MODE_2K") {
        Ok(0)
    } else if str_eq(s, "TRANSMISSION_MODE_8K") {
        Ok(1)
    } else if str_eq(s, "TRANSMISSION_MODE_AUTO") {
        Ok(2)
    } else if str_eq(s, "TRANSMISSION_MODE_4K") {
        Ok(3)
    } else if str_eq(s, "TRANSMISSION_MODE_1K") {
        Ok(4)
    } else if str_eq(s, "TRANSMISSION_MODE_16K") {
        Ok(5)
    } else if str_eq(s, "TRANSMISSION_MODE_32K") {
        Ok(6)
    } else {
        Err(UnknownEnum { value: String::from_str(s) })
    }
}

/// Parse a zap guard-interval spelling; fails exactly outside the fixed
/// table.
pub fn parse_guard_interval(s: &str) -> (r: Result<u32, UnknownEnum>)
    ensures
        r is Ok <==> guard_interval_code(s@) is Some,
        r matches Ok(v) ==> guard_interval_code(s@) == Some(v),
        r matches Err(e) ==> e.value@ == s@,
{
    if str_eq(s, "GUARD_INTERVAL_1_32") {
        Ok(0)
    } else if str_eq(s, "GUARD_INTERVAL_1_16") {
        Ok(1)
    } else if str_eq(s, "GUARD_INTERVAL_1_8") {
        Ok(2)
    } else if str_eq(s, "GUARD_INTERVAL_1_4") {
        Ok(3)
    } else if str_eq(s, "GUARD_INTERVAL_AUTO") {
        Ok(4)
    } else {
        Err(UnknownEnum { value: String::from_str(s) })
    }
}

/// Parse a zap hierarchy spelling; fails exactly outside the fixed table.
pub fn parse_hierarchy(s: &str) -> (r: Result<u32, UnknownEnum>)
    ensures
        r is Ok <==> hierarchy_code(s@) is Some,
        r matches Ok(v) ==> hierarchy_code(s@) == Some(v),
        r matches Err(e) ==> e.value@ == s@,
{
    if str_eq(s, "HIERARCHY_NONE") {
        Ok(0)
    } else if str_eq(s, "HIERARCHY_1") {
        Ok(1)
    } else if str_eq(s, "HIERARCHY_2") {
        Ok(2)
    } else if str_eq(s, "HIERARCHY_4") {
        Ok(3)
    } else if str_eq(s, "HIERARCHY_AUTO") {
        Ok(4)
    } else {
        Err(UnknownEnum { value: String::from_str(s) })
    }
}

/// One DVB v5 tuning property: a command and its 32-bit datum.  The kernel
/// record around it (reserved words, the 56-byte union, the result word)
/// is composed at the ioctl boundary.
#[derive(Clone, Copy, PartialEq, Eq, Structural, Debug)]
pub struct DtvProperty {
    pub cmd: u32,
    pub data: u32,
}

impl DtvProperty {
    /// A property with this command and datum.
    pub fn new(cmd: u32, data: u32) -> (r: DtvProperty)
        ensures
            r == (DtvProperty { cmd, data }),
    {
        DtvProperty { cmd, data }
    }
}

/// The commands and data of a property batch, in order.
pub open spec fn batch_model(v: Vec<DtvProperty>) -> Seq<DtvProperty> {
    v@
}

/// Whether every enumerated field of a channel is in its zap vocabulary.
pub open spec fn tunable(m: crate::channel::ChannelModel) -> bool {
    &&& bandwidth_code(m.bandwidth) is Some
    &&& modulation_code(m.modulation) is Some
    &&& fec_code(m.fec_hp) is Some
    &&& fec_code(m.fec_lp) is Some
    &&& inversion_code(m.inversion) is Some
    &&& transmission_mode_code(m.transmission_mode) is Some
    &&& guard_interval_code(m.guard_interval) is Some
    &&& hierarchy_code(m.hierarchy) is Some
}

/// The eleven-property DVB-T tuning batch of a channel, in the order the
/// frontend expects, ending with the tune command.
pub open spec fn tune_batch(m: crate::channel::ChannelModel) -> Seq<DtvProperty>
    recommends
        tunable(m),
{
    seq![
        DtvProperty { cmd: DTV_DELIVERY_SYSTEM, data: SYS_DVBT },
        DtvProperty { cmd: DTV_FREQUENCY, data: (m.frequency % 0x1_0000_0000) as u32 },
        DtvProperty { cmd: DTV_BANDWIDTH_HZ, data: bandwidth_code(m.bandwidth)->Some_0 },
        DtvProperty { cmd: DTV_MODULATION, data: modulation_code(m.modulation)->Some_0 },
        DtvProperty { cmd: DTV_CODE_RATE_HP, data: fec_code(m.fec_hp)->Some_0 },
        DtvProperty { cmd: DTV_CODE_RATE_LP, data: fec_code(m.fec_lp)->Some_0 },
        DtvProperty { cmd: DTV_INVERSION, data: inversion_code(m.inversion)->Some_0 },
        DtvProperty {
            cmd: DTV_TRANSMISSION_MODE,
            data: transmission_mode_code(m.transmission_mode)->Some_0,
        },
        DtvProperty { cmd: DTV_GUARD_INTERVAL, data: guard_interval_code(m.guard_interval)->Some_0 },
        DtvProperty { cmd: DTV_HIERARCHY, data: hierarchy_code(m.hierarchy)->Some_0 },
        DtvProperty { cmd: DTV_TUNE, data: 0 },
    ]
}

/// The first channel field whose spelling the vocabulary rejects, in the
/// order the batch reads them.
pub open spec fn first_bad_token(m: crate::channel::ChannelModel) -> Seq<char> {
    if bandwidth_code(m.bandwidth) is None {
        m.bandwidth
    } else if modulation_code(m.modulation) is None {
        m.modulation
    } else if fec_code(m.fec_hp) is None {
        m.fec_hp
    } else if fec_code(m.fec_lp) is None {
        m.fec_lp
    } else if inversion_code(m.inversion) is None {
        m.inversion
    } else if transmission_mode_code(m.transmission_mode) is None {
        m.transmission_mode
    } else if guard_interval_code(m.guard_interval) is None {
        m.guard_interval
    } else {
        m.hierarchy
    }
}

/// Build the DVB-T tuning batch of a channel: eleven properties, from the
/// delivery system through the tune command.  Fails exactly when an
/// enumerated field is outside its vocabulary, naming the first such
/// spelling.
pub fn tune_properties(channel: &Channel) -> (r: Result<Vec<DtvProperty>, UnknownEnum>)
    ensures
        r is Ok <==> tunable(channel@),
        r matches Ok(v) ==> batch_model(v) == tune_batch(channel@),
        r matches Err(e) ==> e.value@ == first_bad_token(channel@),
{
    let bandwidth = match parse_bandwidth(channel.bandwidth.as_str()) {
        Ok(v) => v,
        Err(e) => {
            return Err(e);
        },
    };
    let modulation = match parse_modulation(channel.modulation.as_str()) {
        Ok(v) => v,
        Err(e) => {
            return Err(e);
        },
    };
    let fec_hp = match parse_fec(channel.fec_hp.as_str()) {
        Ok(v) => v,
        Err(e) => {
            return Err(e);
        },
    };
    let fec_lp = match parse_fec(channel.fec_lp.as_str()) {
        Ok(v) => v,
        Err(e) => {
            return Err(e);
        },
    };
    let inversion = match parse_inversion(channel.inversion.as_str()) {
        Ok(v) => v,
        Err(e) => {
            return Err(e);
        },
    };
    let transmission_mode = match parse_transmission_mode(channel.transmission_mode.as_str()) {
        Ok(v) => v,
        Err(e) => {
            return Err(e);
        },
    };
    let guard_interval = match parse_guard_interval(channel.guard_interval.as_str()) {
        Ok(v) => v,
        Err(e) => {
            return Err(e);
        },
    };
    let hierarchy = match parse_hierarchy(channel.hierarchy.as_str()) {
        Ok(v) => v,
        Err(e) => {
            return Err(e);
        },
    };
    let frequency = (channel.frequency % 0x1_0000_0000) as u32;
    let mut props: Vec<DtvProperty> = Vec::new();
    props.push(DtvProperty::new(DTV_DELIVERY_SYSTEM, SYS_DVBT));
    props.push(DtvProperty::new(DTV_FREQUENCY, frequency));
    props.push(DtvProperty::new(DTV_BANDWIDTH_HZ, bandwidth));
    props.push(DtvProperty::new(DTV_MODULATION, modulation));
    props.push(DtvProperty::new(DTV_CODE_RATE_HP, fec_hp));
    props.push(DtvProperty::new(DTV_CODE_RATE_LP, fec_lp));
    props.push(DtvProperty::new(DTV_INVERSION, inversion));
    props.push(DtvProperty::new(DTV_TRANSMISSION_MODE, transmission_mode));
    props.push(DtvProperty::new(DTV_GUARD_INTERVAL, guard_interval));
    props.push(DtvProperty::new(DTV_HIERARCHY, hierarchy));
    props.push(DtvProperty::new(DTV_TUNE, 0));
    proof {
        assert(props@ =~= tune_batch(channel@));
    }
    Ok(props)
}

/// Whether a frontend status word reports lock.
pub fn status_has_lock(status: u32) -> (r: bool)
    ensures
        r == (status & FE_HAS_LOCK != 0),
{
    status & FE_HAS_LOCK != 0
}

} // verus!

//! MJD+BCD time decoding for EIT start times and durations.
//!
//! DVB carries an event's start time as a 16-bit Modified Julian Date
//! followed by hours, minutes and seconds in binary-coded decimal, and a
//! duration as three BCD bytes.

use vstd::prelude::*;

verus! {

/// Value of one binary-coded-decimal byte: the high nibble counts tens, the
/// low nibble counts ones.
pub open spec fn bcd_value(b: u8) -> nat {
    ((b >> 4) as nat) * 10 + ((b & 0x0f) as nat)
}

/// The BCD byte holding a two-digit number.
pub open spec fn bcd_byte(n: u8) -> u8
    recommends
        n <= 99,
{
    (((n / 10) as u8) << 4) | ((n % 10) as u8)
}

/// Modified Julian Date held big-endian in the first two bytes.
pub open spec fn mjd_value(data: Seq<u8>) -> int
    recommends
        data.len() >= 2,
{
    (data[0] as int) * 256 + (data[1] as int)
}

/// Unix time of a 5-byte DVB start-time field: two bytes MJD, then hours,
/// minutes and seconds in BCD.  MJD 40587 is 1970-01-01.
pub open spec fn start_time_value(data: Seq<u8>) -> int
    recommends
        data.len() >= 5,
{
    (mjd_value(data) - 40587) * 86400 + (bcd_value(data[2]) as int) * 3600 + (bcd_value(
        data[3],
    ) as int) * 60 + (bcd_value(data[4]) as int)
}

/// Seconds held by a 3-byte BCD duration field (hours, minutes, seconds).
pub open spec fn duration_value(data: Seq<u8>) -> nat
    recommends
        data.len() >= 3,
{
    bcd_value(data[0]) * 3600 + bcd_value(data[1]) * 60 + bcd_value(data[2])
}

/// Decode one BCD byte to its two-digit value.
pub fn bcd_to_u8(bcd: u8) -> (r: u8)
    ensures
        r as nat == bcd_value(bcd),
{
    let hi = bcd >> 4;
    let lo = bcd & 0x0f;
    assert(bcd >> 4 < 16 && bcd & 0x0f < 16) by (bit_vector);
    hi * 10 + lo
}

/// Decode a 5-byte MJD+BCD start-time field to Unix seconds.
pub fn decode_start_time(data: &[u8]) -> (r: i64)
    requires
        data@.len() >= 5,
    ensures
        r == start_time_value(data@),
{
    let mjd = (data[0] as i64) * 256 + (data[1] as i64);
    let epoch = (mjd - 40587) * 86400;
    epoch + (bcd_to_u8(data[2]) as i64) * 3600 + (bcd_to_u8(data[3]) as i64) * 60 + (bcd_to_u8(
        data[4],
    ) as i64)
}

/// Decode a 3-byte BCD duration field to seconds.
pub fn decode_duration(data: &[u8]) -> (r: u32)
    requires
        data@.len() >= 3,
    ensures
        r as nat == duration_value(data@),
{
    (bcd_to_u8(data[0]) as u32) * 3600 + (bcd_to_u8(data[1]) as u32) * 60 + (bcd_to_u8(
        data[2],
    ) as u32)
}

/// BCD decoding inverts BCD encoding on any two-digit number.
pub proof fn lemma_bcd_round_trip(n: u8)
    requires
        n <= 99,
    ensures
        bcd_value(bcd_byte(n)) == n,
{
    let hi = (n / 10) as u8;
    let lo = (n % 10) as u8;
    assert(((hi << 4) | lo) >> 4 == hi && ((hi << 4) | lo) & 0x0f == lo) by (bit_vector)
        requires
            hi < 10,
            lo < 16,
    ;
}

/// Duration decoding inverts BCD encoding for every time of day: encoding
/// hours, minutes and seconds as BCD and decoding the three bytes as a
/// duration yields the same total seconds.
pub proof fn lemma_duration_round_trip(h: u8, m: u8, s: u8)
    requires
        h <= 23,
        m <= 59,
        s <= 59,
    ensures
        duration_value(seq![bcd_byte(h), bcd_byte(m), bcd_byte(s)]) == (h as nat) * 3600 + (
        m as nat) * 60 + (s as nat),
{
    lemma_bcd_round_trip(h);
    lemma_bcd_round_trip(m);
    lemma_bcd_round_trip(s);
}

} // verus!

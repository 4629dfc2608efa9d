use epgrab::timecode::{bcd_to_u8, decode_duration, decode_start_time};

#[test]
fn test_bcd_to_u8_zero() {
    assert_eq!(bcd_to_u8(0x00), 0);
}

#[test]
fn test_bcd_to_u8_single_digit() {
    assert_eq!(bcd_to_u8(0x09), 9);
}

#[test]
fn test_bcd_to_u8_double_digit() {
    assert_eq!(bcd_to_u8(0x23), 23);
    assert_eq!(bcd_to_u8(0x59), 59);
    assert_eq!(bcd_to_u8(0x99), 99);
}

#[test]
fn test_decode_start_time_epoch() {
    // MJD 40587 = Unix epoch (1970-01-01), time 00:00:00
    let data = [0x9E, 0x8B, 0x00, 0x00, 0x00]; // MJD=40587
    assert_eq!(decode_start_time(&data), 0);
}

#[test]
fn test_decode_start_time_known_date() {
    // 2025-01-15 14:30:00 UTC
    // MJD for 2025-01-15 = 60690
    // 60690 in big-endian = 0xED12
    let mjd: u16 = 60690;
    let bytes = mjd.to_be_bytes();
    let data = [bytes[0], bytes[1], 0x14, 0x30, 0x00]; // 14:30:00 BCD
    let expected = (60690i64 - 40587) * 86400 + 14 * 3600 + 30 * 60;
    assert_eq!(decode_start_time(&data), expected);
}

#[test]
fn test_decode_start_time_midnight() {
    let mjd: u16 = 51544; // 2000-01-01
    let bytes = mjd.to_be_bytes();
    let data = [bytes[0], bytes[1], 0x00, 0x00, 0x00];
    let expected = (51544i64 - 40587) * 86400;
    assert_eq!(decode_start_time(&data), expected);
}

#[test]
fn test_decode_start_time_end_of_day() {
    let mjd: u16 = 51544;
    let bytes = mjd.to_be_bytes();
    let data = [bytes[0], bytes[1], 0x23, 0x59, 0x59]; // 23:59:59 BCD
    let expected = (51544i64 - 40587) * 86400 + 23 * 3600 + 59 * 60 + 59;
    assert_eq!(decode_start_time(&data), expected);
}

#[test]
fn test_decode_duration_zero() {
    assert_eq!(decode_duration(&[0x00, 0x00, 0x00]), 0);
}

#[test]
fn test_decode_duration_one_hour() {
    assert_eq!(decode_duration(&[0x01, 0x00, 0x00]), 3600);
}

#[test]
fn test_decode_duration_half_hour() {
    assert_eq!(decode_duration(&[0x00, 0x30, 0x00]), 1800);
}

#[test]
fn test_decode_duration_complex() {
    // 2h 45m 30s
    assert_eq!(decode_duration(&[0x02, 0x45, 0x30]), 2 * 3600 + 45 * 60 + 30);
}

fn to_bcd(n: u8) -> u8 {
    ((n / 10) << 4) | (n % 10)
}

#[test]
fn test_decode_duration_bcd_round_trip_all_hours() {
    // BCD round trip over every time of day at three second marks
    for h in 0u8..24 {
        for m in 0u8..60 {
            for s in [0u8, 30, 59] {
                let total = h as u32 * 3600 + m as u32 * 60 + s as u32;
                assert_eq!(decode_duration(&[to_bcd(h), to_bcd(m), to_bcd(s)]), total);
            }
        }
    }
}

#[test]
fn test_decode_start_time_before_epoch_is_negative() {
    // MJD 40586 = 1969-12-31
    let mjd: u16 = 40586;
    let bytes = mjd.to_be_bytes();
    let data = [bytes[0], bytes[1], 0x00, 0x00, 0x00];
    assert_eq!(decode_start_time(&data), -86400);
}

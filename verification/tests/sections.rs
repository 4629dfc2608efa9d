use epgrab::dmx::{section_filter_params, DMX_IMMEDIATE_START};
use epgrab::sections::{next_poll_ms, SectionAccumulator};

fn build_section(table_id: u8, section_number: u8, last: u8, tag: u8) -> Vec<u8> {
    // 8-byte header plus one marker byte so buffers differ
    vec![table_id, 0xF0, 6, 0x00, 0x01, 0xC1, section_number, last, tag]
}

#[test]
fn test_next_poll_at_deadline_returns_none() {
    // at exactly zero milliseconds remaining the reader must not poll again
    assert_eq!(next_poll_ms(0), None);
    assert_eq!(next_poll_ms(-1), None);
}

#[test]
fn test_next_poll_slices() {
    assert_eq!(next_poll_ms(1), Some(1));
    assert_eq!(next_poll_ms(4999), Some(4999));
    assert_eq!(next_poll_ms(5000), Some(5000));
    assert_eq!(next_poll_ms(30000), Some(5000));
}

#[test]
fn test_accumulator_collects_in_number_order() {
    let mut acc = SectionAccumulator::new();
    assert!(!acc.offer(&build_section(0x00, 2, 2, 0xA2), 0x00));
    assert!(!acc.offer(&build_section(0x00, 0, 2, 0xA0), 0x00));
    assert!(acc.offer(&build_section(0x00, 1, 2, 0xA1), 0x00));
    let sections = acc.into_sections().unwrap();
    assert_eq!(sections.len(), 3);
    assert_eq!(sections[0][8], 0xA0);
    assert_eq!(sections[1][8], 0xA1);
    assert_eq!(sections[2][8], 0xA2);
}

#[test]
fn test_accumulator_keeps_first_arrival() {
    let mut acc = SectionAccumulator::new();
    assert!(acc.offer(&build_section(0x00, 0, 0, 0xB0), 0x00));
    assert!(acc.offer(&build_section(0x00, 0, 0, 0xB1), 0x00));
    let sections = acc.into_sections().unwrap();
    assert_eq!(sections.len(), 1);
    assert_eq!(sections[0][8], 0xB0);
}

#[test]
fn test_accumulator_rejects_other_tables_and_short_reads() {
    let mut acc = SectionAccumulator::new();
    assert!(!acc.offer(&build_section(0x42, 0, 0, 0xC0), 0x00));
    assert!(!acc.offer(&[0x00, 0xF0, 6], 0x00));
    assert!(acc.into_sections().is_err());
}

#[test]
fn test_accumulator_complete() {
    let mut acc = SectionAccumulator::new();
    assert!(!acc.complete());
    acc.offer(&build_section(0x00, 0, 1, 0xD0), 0x00);
    assert!(!acc.complete());
    acc.offer(&build_section(0x00, 1, 1, 0xD1), 0x00);
    assert!(acc.complete());
}

#[test]
fn test_section_filter_params_match_any() {
    let params = section_filter_params(0x12);
    assert_eq!(params.pid, 0x12);
    assert_eq!(params.filter.filter, [0u8; 16]);
    assert_eq!(params.filter.mask, [0u8; 16]);
    assert_eq!(params.filter.mode, [0u8; 16]);
    assert_eq!(params.timeout, 0);
    assert_eq!(params.flags, DMX_IMMEDIATE_START);
}

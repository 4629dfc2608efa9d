use epgrab::channel::Channel;
use epgrab::tuner::{
    parse_bandwidth, parse_fec, parse_guard_interval, parse_hierarchy, parse_inversion,
    parse_modulation, parse_transmission_mode, status_has_lock, tune_properties, DtvProperty,
    DTV_BANDWIDTH_HZ, DTV_CODE_RATE_HP, DTV_CODE_RATE_LP, DTV_DELIVERY_SYSTEM, DTV_FREQUENCY,
    DTV_GUARD_INTERVAL, DTV_HIERARCHY, DTV_INVERSION, DTV_MODULATION, DTV_TRANSMISSION_MODE,
    DTV_TUNE, FE_HAS_LOCK, SYS_DVBT,
};

#[test]
fn test_parse_bandwidth_all_values() {
    assert_eq!(parse_bandwidth("BANDWIDTH_6_MHZ").unwrap(), 6_000_000);
    assert_eq!(parse_bandwidth("BANDWIDTH_7_MHZ").unwrap(), 7_000_000);
    assert_eq!(parse_bandwidth("BANDWIDTH_8_MHZ").unwrap(), 8_000_000);
    assert_eq!(parse_bandwidth("BANDWIDTH_5_MHZ").unwrap(), 5_000_000);
    assert_eq!(parse_bandwidth("BANDWIDTH_10_MHZ").unwrap(), 10_000_000);
    assert_eq!(parse_bandwidth("BANDWIDTH_1_712_MHZ").unwrap(), 1_712_000);
    assert_eq!(parse_bandwidth("BANDWIDTH_AUTO").unwrap(), 0);
}

#[test]
fn test_parse_bandwidth_unknown() {
    assert!(parse_bandwidth("INVALID").is_err());
}

#[test]
fn test_parse_modulation_all_values() {
    assert_eq!(parse_modulation("QPSK").unwrap(), 0);
    assert_eq!(parse_modulation("QAM_16").unwrap(), 1);
    assert_eq!(parse_modulation("QAM_32").unwrap(), 2);
    assert_eq!(parse_modulation("QAM_64").unwrap(), 3);
    assert_eq!(parse_modulation("QAM_128").unwrap(), 4);
    assert_eq!(parse_modulation("QAM_256").unwrap(), 5);
    assert_eq!(parse_modulation("QAM_AUTO").unwrap(), 6);
}

#[test]
fn test_parse_modulation_unknown() {
    assert!(parse_modulation("INVALID").is_err());
}

#[test]
fn test_parse_fec_all_values() {
    assert_eq!(parse_fec("FEC_NONE").unwrap(), 0);
    assert_eq!(parse_fec("FEC_1_2").unwrap(), 1);
    assert_eq!(parse_fec("FEC_2_3").unwrap(), 2);
    assert_eq!(parse_fec("FEC_3_4").unwrap(), 3);
    assert_eq!(parse_fec("FEC_4_5").unwrap(), 4);
    assert_eq!(parse_fec("FEC_5_6").unwrap(), 5);
    assert_eq!(parse_fec("FEC_6_7").unwrap(), 6);
    assert_eq!(parse_fec("FEC_7_8").unwrap(), 7);
    assert_eq!(parse_fec("FEC_8_9").unwrap(), 8);
    assert_eq!(parse_fec("FEC_AUTO").unwrap(), 9);
}

#[test]
fn test_parse_fec_unknown() {
    assert!(parse_fec("INVALID").is_err());
}

#[test]
fn test_parse_inversion_all_values() {
    assert_eq!(parse_inversion("INVERSION_OFF").unwrap(), 0);
    assert_eq!(parse_inversion("INVERSION_ON").unwrap(), 1);
    assert_eq!(parse_inversion("INVERSION_AUTO").unwrap(), 2);
}

#[test]
fn test_parse_inversion_unknown() {
    assert!(parse_inversion("INVALID").is_err());
}

#[test]
fn test_parse_transmission_mode_all_values() {
    assert_eq!(parse_transmission_mode("TRANSMISSION_MODE_2K").unwrap(), 0);
    assert_eq!(parse_transmission_mode("TRANSMISSION_MODE_8K").unwrap(), 1);
    assert_eq!(parse_transmission_mode("TRANSMISSION_MODE_AUTO").unwrap(), 2);
    assert_eq!(parse_transmission_mode("TRANSMISSION_MODE_4K").unwrap(), 3);
    assert_eq!(parse_transmission_mode("TRANSMISSION_MODE_1K").unwrap(), 4);
    assert_eq!(parse_transmission_mode("TRANSMISSION_MODE_16K").unwrap(), 5);
    assert_eq!(parse_transmission_mode("TRANSMISSION_MODE_32K").unwrap(), 6);
}

#[test]
fn test_parse_transmission_mode_unknown() {
    assert!(parse_transmission_mode("INVALID").is_err());
}

#[test]
fn test_parse_guard_interval_all_values() {
    assert_eq!(parse_guard_interval("GUARD_INTERVAL_1_32").unwrap(), 0);
    assert_eq!(parse_guard_interval("GUARD_INTERVAL_1_16").unwrap(), 1);
    assert_eq!(parse_guard_interval("GUARD_INTERVAL_1_8").unwrap(), 2);
    assert_eq!(parse_guard_interval("GUARD_INTERVAL_1_4").unwrap(), 3);
    assert_eq!(parse_guard_interval("GUARD_INTERVAL_AUTO").unwrap(), 4);
}

#[test]
fn test_parse_guard_interval_unknown() {
    assert!(parse_guard_interval("INVALID").is_err());
}

#[test]
fn test_parse_hierarchy_all_values() {
    assert_eq!(parse_hierarchy("HIERARCHY_NONE").unwrap(), 0);
    assert_eq!(parse_hierarchy("HIERARCHY_1").unwrap(), 1);
    assert_eq!(parse_hierarchy("HIERARCHY_2").unwrap(), 2);
    assert_eq!(parse_hierarchy("HIERARCHY_4").unwrap(), 3);
    assert_eq!(parse_hierarchy("HIERARCHY_AUTO").unwrap(), 4);
}

#[test]
fn test_parse_hierarchy_unknown() {
    assert!(parse_hierarchy("INVALID").is_err());
}

fn sample_channel() -> Channel {
    Channel {
        name: "CH".to_string(),
        frequency: 557000000,
        inversion: "INVERSION_AUTO".to_string(),
        bandwidth: "BANDWIDTH_6_MHZ".to_string(),
        fec_hp: "FEC_2_3".to_string(),
        fec_lp: "FEC_AUTO".to_string(),
        modulation: "QAM_64".to_string(),
        transmission_mode: "TRANSMISSION_MODE_8K".to_string(),
        guard_interval: "GUARD_INTERVAL_1_8".to_string(),
        hierarchy: "HIERARCHY_NONE".to_string(),
        video_pid: 100,
        audio_pid: 101,
        service_id: 1,
    }
}

#[test]
fn test_tune_properties_batch() {
    let props = tune_properties(&sample_channel()).unwrap();
    let expected = vec![
        DtvProperty { cmd: DTV_DELIVERY_SYSTEM, data: SYS_DVBT },
        DtvProperty { cmd: DTV_FREQUENCY, data: 557000000 },
        DtvProperty { cmd: DTV_BANDWIDTH_HZ, data: 6000000 },
        DtvProperty { cmd: DTV_MODULATION, data: 3 },
        DtvProperty { cmd: DTV_CODE_RATE_HP, data: 2 },
        DtvProperty { cmd: DTV_CODE_RATE_LP, data: 9 },
        DtvProperty { cmd: DTV_INVERSION, data: 2 },
        DtvProperty { cmd: DTV_TRANSMISSION_MODE, data: 1 },
        DtvProperty { cmd: DTV_GUARD_INTERVAL, data: 2 },
        DtvProperty { cmd: DTV_HIERARCHY, data: 0 },
        DtvProperty { cmd: DTV_TUNE, data: 0 },
    ];
    assert_eq!(props.len(), 11);
    for (p, e) in props.iter().zip(expected.iter()) {
        assert_eq!(p, e);
    }
}

#[test]
fn test_tune_properties_unknown_spelling() {
    let mut ch = sample_channel();
    ch.modulation = "QAM_9000".to_string();
    let err = match tune_properties(&ch) {
        Err(e) => e,
        Ok(_) => panic!("an unknown modulation must fail"),
    };
    assert_eq!(err.value, "QAM_9000");
}

#[test]
fn test_status_has_lock() {
    assert!(status_has_lock(FE_HAS_LOCK));
    assert!(status_has_lock(0x1F));
    assert!(!status_has_lock(0));
    assert!(!status_has_lock(0x0F));
}

use epgrab::channel::{
    channel_to_zap_line, parse_channel_line, parse_channels_text, Channel, ChannelFileError,
    ParsedLine,
};

#[test]
fn test_parse_channels_conf_valid() {
    let content = "公視:557000000:INVERSION_AUTO:BANDWIDTH_6_MHZ:FEC_AUTO:FEC_AUTO:QAM_64:TRANSMISSION_MODE_8K:GUARD_INTERVAL_1_8:HIERARCHY_NONE:4097:4098:1";
    let channels = parse_channels_text(content).unwrap();
    assert_eq!(channels.len(), 1);
    assert_eq!(channels[0].name, "公視");
    assert_eq!(channels[0].frequency, 557000000);
    assert_eq!(channels[0].inversion, "INVERSION_AUTO");
    assert_eq!(channels[0].bandwidth, "BANDWIDTH_6_MHZ");
    assert_eq!(channels[0].fec_hp, "FEC_AUTO");
    assert_eq!(channels[0].fec_lp, "FEC_AUTO");
    assert_eq!(channels[0].modulation, "QAM_64");
    assert_eq!(channels[0].transmission_mode, "TRANSMISSION_MODE_8K");
    assert_eq!(channels[0].guard_interval, "GUARD_INTERVAL_1_8");
    assert_eq!(channels[0].hierarchy, "HIERARCHY_NONE");
    assert_eq!(channels[0].video_pid, 4097);
    assert_eq!(channels[0].audio_pid, 4098);
    assert_eq!(channels[0].service_id, 1);
}

#[test]
fn test_parse_channels_conf_multiple() {
    let content = "\
CH1:557000000:INVERSION_AUTO:BANDWIDTH_6_MHZ:FEC_AUTO:FEC_AUTO:QAM_64:TRANSMISSION_MODE_8K:GUARD_INTERVAL_1_8:HIERARCHY_NONE:100:101:1
CH2:563000000:INVERSION_AUTO:BANDWIDTH_6_MHZ:FEC_AUTO:FEC_AUTO:QAM_64:TRANSMISSION_MODE_8K:GUARD_INTERVAL_1_8:HIERARCHY_NONE:200:201:2";
    let channels = parse_channels_text(content).unwrap();
    assert_eq!(channels.len(), 2);
    assert_eq!(channels[0].name, "CH1");
    assert_eq!(channels[1].name, "CH2");
}

#[test]
fn test_parse_channels_conf_skips_comments_and_blanks() {
    let content = "\
# This is a comment

CH1:557000000:INVERSION_AUTO:BANDWIDTH_6_MHZ:FEC_AUTO:FEC_AUTO:QAM_64:TRANSMISSION_MODE_8K:GUARD_INTERVAL_1_8:HIERARCHY_NONE:100:101:1

# Another comment";
    let channels = parse_channels_text(content).unwrap();
    assert_eq!(channels.len(), 1);
}

#[test]
fn test_parse_channels_conf_empty() {
    let channels = parse_channels_text("").unwrap();
    assert!(channels.is_empty());
}

#[test]
fn test_parse_channels_conf_wrong_field_count() {
    let content = "CH1:557000000:INVERSION_AUTO";
    assert!(parse_channels_text(content).is_err());
}

#[test]
fn test_parse_channels_conf_invalid_frequency() {
    let content = "CH1:notanumber:INVERSION_AUTO:BANDWIDTH_6_MHZ:FEC_AUTO:FEC_AUTO:QAM_64:TRANSMISSION_MODE_8K:GUARD_INTERVAL_1_8:HIERARCHY_NONE:100:101:1";
    assert!(parse_channels_text(content).is_err());
}

#[test]
fn test_parse_channels_conf_invalid_pid() {
    let content = "CH1:557000000:INVERSION_AUTO:BANDWIDTH_6_MHZ:FEC_AUTO:FEC_AUTO:QAM_64:TRANSMISSION_MODE_8K:GUARD_INTERVAL_1_8:HIERARCHY_NONE:bad:101:1";
    assert!(parse_channels_text(content).is_err());
}

#[test]
fn test_parse_channels_conf_error_names_line() {
    let content = "\
CH1:557000000:INVERSION_AUTO:BANDWIDTH_6_MHZ:FEC_AUTO:FEC_AUTO:QAM_64:TRANSMISSION_MODE_8K:GUARD_INTERVAL_1_8:HIERARCHY_NONE:100:101:1
CH2:bad";
    match parse_channels_text(content) {
        Err(ChannelFileError::FieldCount { line, got }) => {
            assert_eq!(line, 2);
            assert_eq!(got, 2);
        }
        other => panic!("expected a field-count error, got {:?}", other.is_ok()),
    }
}

#[test]
fn test_parse_channels_conf_frequency_out_of_range() {
    // a frequency too large for 64 bits fails the file
    let content = "CH1:99999999999999999999999:INVERSION_AUTO:BANDWIDTH_6_MHZ:FEC_AUTO:FEC_AUTO:QAM_64:TRANSMISSION_MODE_8K:GUARD_INTERVAL_1_8:HIERARCHY_NONE:100:101:1";
    match parse_channels_text(content) {
        Err(ChannelFileError::BadNumber { line, field }) => {
            assert_eq!(line, 1);
            assert_eq!(field, 1);
        }
        _ => panic!("expected a bad-number error"),
    }
}

fn sample_channel() -> Channel {
    Channel {
        name: "公視".to_string(),
        frequency: 557000000,
        inversion: "INVERSION_AUTO".to_string(),
        bandwidth: "BANDWIDTH_6_MHZ".to_string(),
        fec_hp: "FEC_AUTO".to_string(),
        fec_lp: "FEC_AUTO".to_string(),
        modulation: "QAM_64".to_string(),
        transmission_mode: "TRANSMISSION_MODE_8K".to_string(),
        guard_interval: "GUARD_INTERVAL_1_8".to_string(),
        hierarchy: "HIERARCHY_NONE".to_string(),
        video_pid: 4097,
        audio_pid: 4098,
        service_id: 1,
    }
}

#[test]
fn test_channel_to_zap_line() {
    let ch = sample_channel();
    let line = channel_to_zap_line(&ch);
    assert_eq!(
        line,
        "公視:557000000:INVERSION_AUTO:BANDWIDTH_6_MHZ:FEC_AUTO:FEC_AUTO:QAM_64:TRANSMISSION_MODE_8K:GUARD_INTERVAL_1_8:HIERARCHY_NONE:4097:4098:1"
    );
}

#[test]
fn test_channel_to_zap_line_roundtrip() {
    // channel_to_zap_line output should be parseable again
    let ch = Channel {
        name: "TestCH".to_string(),
        frequency: 563000000,
        inversion: "INVERSION_AUTO".to_string(),
        bandwidth: "BANDWIDTH_6_MHZ".to_string(),
        fec_hp: "FEC_2_3".to_string(),
        fec_lp: "FEC_AUTO".to_string(),
        modulation: "QAM_64".to_string(),
        transmission_mode: "TRANSMISSION_MODE_8K".to_string(),
        guard_interval: "GUARD_INTERVAL_1_8".to_string(),
        hierarchy: "HIERARCHY_NONE".to_string(),
        video_pid: 100,
        audio_pid: 101,
        service_id: 42,
    };
    let line = channel_to_zap_line(&ch);
    let fields: Vec<&str> = line.split(':').collect();
    assert_eq!(fields.len(), 13);
    assert_eq!(fields[0], "TestCH");
    assert_eq!(fields[1], "563000000");
    assert_eq!(fields[12], "42");
}

#[test]
fn test_channel_line_round_trip_parses_back() {
    // writing a channel and parsing the line yields the channel back
    let ch = sample_channel();
    let line = channel_to_zap_line(&ch);
    match parse_channel_line(&line) {
        ParsedLine::Chan(back) => {
            assert_eq!(back.name, ch.name);
            assert_eq!(back.frequency, ch.frequency);
            assert_eq!(back.inversion, ch.inversion);
            assert_eq!(back.bandwidth, ch.bandwidth);
            assert_eq!(back.fec_hp, ch.fec_hp);
            assert_eq!(back.fec_lp, ch.fec_lp);
            assert_eq!(back.modulation, ch.modulation);
            assert_eq!(back.transmission_mode, ch.transmission_mode);
            assert_eq!(back.guard_interval, ch.guard_interval);
            assert_eq!(back.hierarchy, ch.hierarchy);
            assert_eq!(back.video_pid, ch.video_pid);
            assert_eq!(back.audio_pid, ch.audio_pid);
            assert_eq!(back.service_id, ch.service_id);
        }
        _ => panic!("the emitted line did not parse back as a channel"),
    }
}

use ddos_mitigation_tool::config::{Config, DEFAULT_SCORE_THRESHOLD};
use ddos_mitigation_tool::text::{is_blank, parse_bool, parse_u64, split_trimmed_nonempty};

#[test]
fn unset_settings_take_their_defaults() {
    let config = Config::from_settings(None, None, None, None, None, None, None);

    assert_eq!(config.app_name, "ddos-mitigation-tool");
    assert_eq!(config.app_env, "development");
    assert_eq!(config.log_level, "info");
    assert_eq!(f64::from_bits(config.mitigation_score_threshold), 0.75);
    assert_eq!(config.mitigation_score_threshold, DEFAULT_SCORE_THRESHOLD);
    assert_eq!(config.mitigation_block_duration_secs, 60);
    assert!(!config.mitigation_enforcement_enabled);
    assert!(config.mitigation_protected_ips.is_empty());
}

#[test]
fn given_settings_are_read() {
    let config = Config::from_settings(
        Some("guard".to_string()),
        Some("production".to_string()),
        Some("debug".to_string()),
        Some(0.9f64.to_bits()),
        Some("120".to_string()),
        Some("true".to_string()),
        Some(" 192.168.1.19 , 10.0.0.1,,  ".to_string()),
    );

    assert_eq!(config.app_name, "guard");
    assert_eq!(config.app_env, "production");
    assert_eq!(config.log_level, "debug");
    assert_eq!(f64::from_bits(config.mitigation_score_threshold), 0.9);
    assert_eq!(config.mitigation_block_duration_secs, 120);
    assert!(config.mitigation_enforcement_enabled);
    assert_eq!(config.mitigation_protected_ips, vec!["192.168.1.19", "10.0.0.1"]);
    assert!(config.is_protected("192.168.1.19"));
    assert!(!config.is_protected("192.168.1.1"));
}

#[test]
fn unreadable_settings_take_their_defaults() {
    let config = Config::from_settings(
        None,
        None,
        None,
        None,
        Some(" 120".to_string()),
        Some("yes".to_string()),
        None,
    );

    assert_eq!(config.mitigation_block_duration_secs, 60);
    assert!(!config.mitigation_enforcement_enabled);
}

#[test]
fn numbers_are_read_as_the_standard_library_reads_them() {
    for s in ["0", "60", "+7", "007", "18446744073709551615", "", "+", "-1", "1_000", "18446744073709551616", " 1", "1 ", "١٢"] {
        assert_eq!(parse_u64(s), s.parse::<u64>().ok(), "{s:?}");
    }
}

#[test]
fn flags_are_read_as_the_standard_library_reads_them() {
    for s in ["true", "false", "True", "1", "", " true"] {
        assert_eq!(parse_bool(s), s.parse::<bool>().ok(), "{s:?}");
    }
}

#[test]
fn lists_are_split_and_trimmed_as_the_standard_library_does() {
    for s in ["", ",", "a", " a ,b", "a,,b", "\u{3000}x\u{a0}, \ty\n", "  ,  ", "é, ü "] {
        let expected: Vec<String> = s
            .split(',')
            .map(|ip| ip.trim().to_string())
            .filter(|ip| !ip.is_empty())
            .collect();
        assert_eq!(split_trimmed_nonempty(s), expected, "{s:?}");
    }
}

#[test]
fn blank_text_is_what_trims_to_nothing() {
    for text in ["", "   ", "\n\t \r\n", "\u{a0}\u{3000}", " [] ", "x", "  {\"a\": 1}\n"] {
        assert_eq!(is_blank(text), text.trim().is_empty(), "{:?}", text);
    }
    assert!(is_blank("  \n"));
    assert!(!is_blank(" [] "));
}

use unified_share::airdrop::{
    advertises_monitor_mode, carrier_is_up, probe_report_lines, lists_monitor_mode, parse_awdl_ipv6, wifi_label,
    yes_no, AirDropProbe, ProbeFacts,
};

#[test]
fn detects_monitor_mode_in_iw_output() {
    let fixture = b"Supported interface modes:\n\t * managed\n\t * monitor\n";
    assert!(advertises_monitor_mode(fixture));
    assert!(!advertises_monitor_mode(
        b"Supported interface modes:\n * managed\n"
    ));
}

#[test]
fn requires_link_local_ipv6_on_awdl_zero() {
    let fixture = "00000000000000000000000000000001 01 80 10 80 lo\n\
                   fe80000000000000123456789abcdef0 0a 40 20 80 awdl0\n";
    assert!(parse_awdl_ipv6(fixture));
    assert!(!parse_awdl_ipv6(
        "20010000000000000000000000000001 0a 40 00 80 awdl0\n"
    ));
    assert!(!parse_awdl_ipv6(
        "fe80000000000000123456789abcdef0 0a 40 20 80 wlan0\n"
    ));
}

#[test]
fn awdl_line_needs_exactly_six_fields() {
    assert!(!parse_awdl_ipv6("fe80000000000000123456789abcdef0 0a 40 20 awdl0\n"));
    assert!(!parse_awdl_ipv6("fe80000000000000123456789abcdef0 0a 40 20 80 extra awdl0\n"));
    assert!(parse_awdl_ipv6("  fe80000000000000123456789abcdef0\t0a 40 20 80   awdl0"));
    assert!(parse_awdl_ipv6("fe80000000000000123456789abcdef0 0a 40 20 80 awdl0\r\n"));
    assert!(!parse_awdl_ipv6(""));
    assert!(!parse_awdl_ipv6("fe8 0a 40 20 80 awdl0\n"));
}

#[test]
fn monitor_mode_line_must_match_after_trimming() {
    assert!(lists_monitor_mode("  * monitor  \r\n"));
    assert!(!lists_monitor_mode(" * monitor mode\n"));
    assert!(!lists_monitor_mode("* monitor* monitor"));
    assert!(lists_monitor_mode("\u{3000}* monitor"));
}

#[test]
fn monitor_mode_survives_invalid_utf8_elsewhere() {
    let output = b"\xff\xfe broken\n\t* monitor\n";
    assert!(advertises_monitor_mode(output));
    let accented = "caf\u{e9}\n * monitor\n".as_bytes();
    assert!(advertises_monitor_mode(accented));
}

#[test]
fn carrier_file_reports_link() {
    assert!(carrier_is_up("1\n"));
    assert!(!carrier_is_up("0\n"));
    assert!(!carrier_is_up(""));
}

fn facts() -> ProbeFacts {
    ProbeFacts {
        interface: Some("wlan0".to_owned()),
        driver: Some("iwlwifi".to_owned()),
        carrier: Some("1\n".to_owned()),
        iw: Some("/usr/bin/iw".to_owned()),
        iw_phy_output: Some(b"Supported interface modes:\n * monitor\n".to_vec()),
        opendrop: None,
        owl: None,
        if_inet6: Some(String::new()),
    }
}

#[test]
fn probe_lists_blocking_reasons_in_order() {
    let probe = AirDropProbe::from_facts(facts());
    assert_eq!(probe.state, "unavailable");
    assert!(!probe.safe_to_start);
    assert!(probe.monitor_mode_advertised);
    assert!(probe.active_wifi_connection);
    assert!(!probe.frame_injection_verified);
    assert_eq!(
        probe.blocking_reasons,
        vec![
            "OpenDrop is not installed.".to_owned(),
            "OWL is not installed.".to_owned(),
            "Active monitor-mode frame injection has not been verified for this adapter.".to_owned(),
            "No ready awdl0 interface with a link-local IPv6 address exists; Unified Share will not create one automatically.".to_owned(),
            "Upstream OWL cannot preserve the current Wi-Fi AP connection while it owns this interface.".to_owned(),
        ]
    );
    assert_eq!(
        probe.summary(),
        "Native AirDrop is unavailable on wlan0 (iwlwifi): OpenDrop is not installed."
    );
    assert_eq!(wifi_label(&probe), "wlan0 · iwlwifi");
}

#[test]
fn probe_without_iw_reports_missing_tool() {
    let mut f = facts();
    f.iw = None;
    f.interface = None;
    let probe = AirDropProbe::from_facts(f);
    assert!(!probe.monitor_mode_advertised);
    assert_eq!(probe.driver, None);
    assert!(!probe.active_wifi_connection);
    assert_eq!(
        probe.blocking_reasons[0],
        "The iw hardware inspection tool is not installed."
    );
    assert_eq!(wifi_label(&probe), "not detected");
    assert!(probe
        .summary()
        .starts_with("Native AirDrop is unavailable on the detected Wi-Fi hardware: "));
}

#[test]
fn probe_is_experimental_only_with_prepared_awdl_link() {
    let mut f = facts();
    f.opendrop = Some("/usr/bin/opendrop".to_owned());
    f.owl = Some("/usr/bin/owl".to_owned());
    let probe = AirDropProbe::from_facts(f);
    assert!(!probe.safe_to_start);
    let mut f = facts();
    f.opendrop = Some("/usr/bin/opendrop".to_owned());
    f.owl = Some("/usr/bin/owl".to_owned());
    f.if_inet6 = Some("fe80000000000000123456789abcdef0 0a 40 20 80 awdl0\n".to_owned());
    let probe = AirDropProbe::from_facts(f);
    assert!(probe.safe_to_start);
    assert_eq!(probe.state, "experimental");
    assert_eq!(probe.adapter, "airdrop");
    assert_eq!(probe.schema_version, 1);
    assert!(!probe.blocking_reasons.is_empty());
    assert_eq!(
        probe.summary(),
        "An externally prepared AWDL link is available; OpenDrop remains experimental and requires a live Apple-device test."
    );
}

#[test]
fn probe_reports_phy_without_monitor_mode() {
    let mut f = facts();
    f.iw_phy_output = Some(b"Supported interface modes:\n * managed\n".to_vec());
    f.carrier = Some("0\n".to_owned());
    f.driver = None;
    let probe = AirDropProbe::from_facts(f);
    assert_eq!(
        probe.blocking_reasons,
        vec![
            "OpenDrop is not installed.".to_owned(),
            "OWL is not installed.".to_owned(),
            "The Wi-Fi PHY does not advertise monitor mode.".to_owned(),
            "Active monitor-mode frame injection has not been verified for this adapter.".to_owned(),
            "No ready awdl0 interface with a link-local IPv6 address exists; Unified Share will not create one automatically.".to_owned(),
        ]
    );
    assert_eq!(wifi_label(&probe), "wlan0");
    assert!(probe.summary().starts_with("Native AirDrop is unavailable on wlan0: "));
}

#[test]
fn yes_no_words() {
    assert_eq!(yes_no(true), "yes");
    assert_eq!(yes_no(false), "no");
}

#[test]
fn probe_report_lists_findings_and_reasons() {
    let probe = AirDropProbe::from_facts(facts());
    let lines = probe_report_lines(&probe);
    assert_eq!(lines[0], "AirDrop: unavailable");
    assert_eq!(lines[1], "  Wi-Fi: wlan0 · iwlwifi");
    assert_eq!(lines[2], "  Monitor mode advertised: yes");
    assert_eq!(lines[3], "  Frame injection verified: no");
    assert_eq!(lines[4], "  Existing AWDL link ready: no");
    assert_eq!(lines[5], "  Preserves current Wi-Fi: no");
    assert_eq!(lines[6], "  Blocked by:");
    assert_eq!(lines[7], "    - OpenDrop is not installed.");
    assert_eq!(lines.len(), 7 + probe.blocking_reasons.len());
}

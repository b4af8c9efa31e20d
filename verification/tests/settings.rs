use unified_share::settings::{choose_device_name, set_device_name, valid_device_name, SettingsError};

#[test]
fn validates_human_device_names() {
    assert!(valid_device_name("Raj's Omarchy"));
    assert!(!valid_device_name(""));
    assert!(!valid_device_name("bad\nname"));
    assert!(!valid_device_name(&"x".repeat(33)));
}

#[test]
fn device_name_length_counts_characters() {
    assert!(valid_device_name(&"x".repeat(32)));
    assert!(valid_device_name(&"é".repeat(32)));
    assert!(!valid_device_name("tab\tname"));
    assert!(!valid_device_name("c1\u{85}control"));
}

#[test]
fn set_device_name_accepts_only_valid_names() {
    let settings = set_device_name("Desk").unwrap();
    assert_eq!(settings.device_name, "Desk");
    let error = set_device_name("").err().unwrap();
    assert_eq!(error, SettingsError::InvalidDeviceName);
    assert_eq!(error.message(), "Device name must be 1–32 visible characters");
}

#[test]
fn device_name_prefers_override_then_setting_then_host() {
    let name = |e: Option<&str>, s: Option<&str>, h: Option<&str>| {
        choose_device_name(e.map(str::to_owned), s.map(str::to_owned), h.map(str::to_owned))
    };
    assert_eq!(name(Some("Env"), Some("Stored"), Some("host")), "Env");
    assert_eq!(name(Some(""), Some("Stored"), Some("host")), "Stored");
    assert_eq!(name(None, Some(""), Some("host")), "host");
    assert_eq!(name(None, None, Some("bad\nhost")), "Omarchy");
    assert_eq!(name(None, None, None), "Omarchy");
    let stored = set_device_name("Kitchen laptop").unwrap();
    assert_eq!(name(None, Some(&stored.device_name), Some("host")), "Kitchen laptop");
}

use unified_share::status::{
    detect_adapters, plan_share, share_message, state_label, status_document, status_line, AdapterChoice,
    AdapterState, AdapterTools, ShareError,
};

fn no_tools() -> AdapterTools {
    AdapterTools {
        quick_share_backend: None,
        localsend: None,
        bluetoothctl: None,
        obex_sender: None,
        opendrop: None,
        owl: None,
        awdl_ready: false,
        qrencode: None,
        wifi_driver: None,
    }
}

fn all_tools() -> AdapterTools {
    AdapterTools {
        quick_share_backend: Some("packet".to_owned()),
        localsend: Some("localsend".to_owned()),
        bluetoothctl: Some("bluetoothctl".to_owned()),
        obex_sender: Some("obexctl".to_owned()),
        opendrop: Some("opendrop".to_owned()),
        owl: Some("owl".to_owned()),
        awdl_ready: true,
        qrencode: Some("qrencode".to_owned()),
        wifi_driver: Some("iwlwifi".to_owned()),
    }
}

#[test]
fn status_contract_has_stable_schema_and_order() {
    let document = status_document("0.1.0", no_tools());
    assert_eq!(document.schema_version, 1);
    let ids: Vec<_> = document.adapters.iter().map(|adapter| adapter.id).collect();
    assert_eq!(
        ids,
        [
            "quick_share",
            "browser",
            "bluetooth",
            "airdrop",
            "localsend"
        ]
    );
}

#[test]
fn bare_machine_reports_nothing_ready() {
    let adapters = detect_adapters(no_tools());
    let states: Vec<_> = adapters.iter().map(|a| a.state).collect();
    assert_eq!(
        states,
        vec![
            AdapterState::Unavailable,
            AdapterState::Planned,
            AdapterState::Unavailable,
            AdapterState::Unavailable,
            AdapterState::Unavailable
        ]
    );
    assert_eq!(adapters[2].detail, "No BlueZ control tool was found.");
    assert_eq!(
        adapters[3].detail,
        "Native AirDrop needs OpenDrop, OWL, and proven AWDL-capable monitor mode; this machine uses an unknown Wi-Fi driver."
    );
    assert_eq!(adapters[4].detail, "Not installed.");
    assert_eq!(adapters[1].native_targets, vec!["iOS", "Android", "Windows", "macOS", "Linux"]);
    assert!(adapters.iter().all(|a| a.backend.is_none()));
}

#[test]
fn equipped_machine_reports_backends() {
    let adapters = detect_adapters(all_tools());
    assert_eq!(adapters[0].state, AdapterState::Experimental);
    assert_eq!(adapters[0].backend.as_deref(), Some("packet"));
    assert_eq!(adapters[1].backend.as_deref(), Some("qrencode"));
    assert_eq!(adapters[2].backend.as_deref(), Some("obexctl"));
    assert_eq!(
        adapters[3].detail,
        "OpenDrop and OWL were found; compatibility still depends on Wi-Fi monitor mode (driver: iwlwifi)."
    );
    assert_eq!(adapters[3].backend.as_deref(), Some("opendrop"));
    assert_eq!(adapters[4].state, AdapterState::Ready);
    assert_eq!(adapters[4].name, "LocalSend");
    let mut tools = all_tools();
    tools.obex_sender = None;
    let adapters = detect_adapters(tools);
    assert_eq!(
        adapters[2].detail,
        "Bluetooth is present, but no OBEX file-transfer backend is installed."
    );
}

#[test]
fn share_routes_to_localsend_only() {
    assert_eq!(plan_share(AdapterChoice::Auto, true), Ok("localsend"));
    assert_eq!(plan_share(AdapterChoice::LocalSend, true), Ok("localsend"));
    assert_eq!(plan_share(AdapterChoice::Auto, false), Err(ShareError::LocalSendMissing));
    assert_eq!(plan_share(AdapterChoice::QuickShare, true), Err(ShareError::QuickShareNotWired));
    assert_eq!(plan_share(AdapterChoice::Browser, true), Err(ShareError::BrowserNotImplemented));
    assert_eq!(plan_share(AdapterChoice::Bluetooth, true), Err(ShareError::BluetoothNotImplemented));
    assert_eq!(plan_share(AdapterChoice::AirDrop, false), Err(ShareError::AirDropUnsupported));
    assert_eq!(
        ShareError::AirDropUnsupported.message(),
        "AirDrop is unsupported on this machine's current stack"
    );
    assert_eq!(share_message(true, 2), "Would share 2 item(s) with LocalSend");
    assert_eq!(share_message(false, 1), "Opened LocalSend for 1 item(s)");
}

#[test]
fn state_labels() {
    assert_eq!(state_label(&AdapterState::Ready), "ready");
    assert_eq!(state_label(&AdapterState::Unsupported), "unsupported");
    assert_eq!(state_label(&AdapterState::Planned), "planned");
}

#[test]
fn status_lines_pad_columns() {
    for adapter in detect_adapters(all_tools()).iter().chain(detect_adapters(no_tools()).iter()) {
        assert_eq!(
            status_line(adapter),
            format!("{:<12} {:<13} {}", adapter.id, state_label(&adapter.state), adapter.detail)
        );
    }
}

#[test]
fn airdrop_needs_a_prepared_awdl_link() {
    let mut tools = all_tools();
    tools.awdl_ready = false;
    let adapters = detect_adapters(tools);
    assert_eq!(adapters[3].state, AdapterState::Unavailable);
    assert_eq!(adapters[3].backend, None);
    assert_eq!(
        adapters[3].detail,
        "Native AirDrop needs OpenDrop, OWL, and proven AWDL-capable monitor mode; this machine uses iwlwifi."
    );
    let mut tools = all_tools();
    tools.owl = None;
    assert_eq!(detect_adapters(tools)[3].state, AdapterState::Unavailable);
    assert_eq!(detect_adapters(all_tools())[3].state, AdapterState::Experimental);
}

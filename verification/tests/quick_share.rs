use unified_share::quick_share::{
    device_line, endpoint_to_device, transfer_message, DeviceTable, Endpoint, TransferError,
    TransferEvent, TransferPhase, TransferUpdate, TransferWatch,
};

fn endpoint(id: &str, present: Option<bool>) -> Endpoint {
    Endpoint {
        id: id.to_owned(),
        name: Some(format!("Device {id}")),
        ip: Some("192.168.1.5".to_owned()),
        port: Some("4000".to_owned()),
        device_type: Some("Phone".to_owned()),
        present,
    }
}

#[test]
fn endpoints_become_devices() {
    let device = endpoint_to_device(endpoint("A1", Some(true))).unwrap();
    assert_eq!(device.id, "A1");
    assert_eq!(device.address, "192.168.1.5:4000");
    assert_eq!(device.device_type, "phone");
    assert_eq!(device_line(&device), "A1\tDevice A1\tphone");
    let mut e = endpoint("B", Some(true));
    e.name = Some(String::new());
    e.device_type = None;
    let device = endpoint_to_device(e).unwrap();
    assert_eq!(device.name, "Unknown device");
    assert_eq!(device.device_type, "unknown");
    let mut e = endpoint("C", Some(true));
    e.port = None;
    assert!(endpoint_to_device(e).is_none());
}

#[test]
fn discovery_table_is_ordered_and_follows_presence() {
    let mut table = DeviceTable::new();
    table.observe(endpoint("m", Some(true)));
    table.observe(endpoint("b", Some(true)));
    table.observe(endpoint("z", Some(true)));
    table.observe(endpoint("a", Some(true)));
    let mut renamed = endpoint("b", Some(true));
    renamed.name = Some("Renamed".to_owned());
    table.observe(renamed);
    table.observe(endpoint("z", Some(false)));
    table.observe(endpoint("q", None));
    let mut incomplete = endpoint("c", Some(true));
    incomplete.ip = None;
    table.observe(incomplete);
    let devices = table.into_devices();
    let ids: Vec<&str> = devices.iter().map(|d| d.id.as_str()).collect();
    assert_eq!(ids, vec!["a", "b", "m"]);
    assert_eq!(devices[1].name, "Renamed");
}

#[test]
fn discovery_orders_ids_like_strings() {
    let mut table = DeviceTable::new();
    for id in ["éa", "ab", "a", "B", "abc"] {
        table.observe(endpoint(id, Some(true)));
    }
    table.remove("missing");
    let ids: Vec<String> = table.into_devices().into_iter().map(|d| d.id).collect();
    let mut sorted = ids.clone();
    sorted.sort();
    assert_eq!(ids, sorted);
    assert_eq!(ids.len(), 5);
}

fn update(id: &str, pin: Option<&str>, phase: Option<TransferPhase>) -> TransferEvent {
    TransferEvent::Update(TransferUpdate {
        device_id: id.to_owned(),
        from_client: true,
        outbound: true,
        pin_code: pin.map(str::to_owned),
        phase,
    })
}

#[test]
fn transfer_watch_announces_each_code_once_and_stops_at_the_end() {
    let mut watch = TransferWatch::new("dev".to_owned());
    let step = watch.observe(update("other", Some("1234"), Some(TransferPhase::Finished)));
    assert!(step.announce_pin.is_none() && step.outcome.is_none());
    let step = watch.observe(update("dev", Some("1234"), Some(TransferPhase::Other)));
    assert_eq!(step.announce_pin.as_deref(), Some("1234"));
    assert!(step.outcome.is_none());
    let step = watch.observe(update("dev", Some("1234"), None));
    assert!(step.announce_pin.is_none());
    let step = watch.observe(update("dev", None, Some(TransferPhase::Finished)));
    assert_eq!(step.outcome, Some(Ok(())));
    assert_eq!(watch.pin.as_deref(), Some("1234"));
}

#[test]
fn transfer_watch_reports_failures() {
    let mut watch = TransferWatch::new("dev".to_owned());
    assert_eq!(
        watch.observe(update("dev", None, Some(TransferPhase::Rejected))).outcome,
        Some(Err(TransferError::Rejected))
    );
    assert_eq!(
        watch.observe(update("dev", None, Some(TransferPhase::Cancelled))).outcome,
        Some(Err(TransferError::Cancelled))
    );
    assert_eq!(
        watch.observe(update("dev", None, Some(TransferPhase::Disconnected))).outcome,
        Some(Err(TransferError::Disconnected))
    );
    assert!(watch.observe(TransferEvent::Lagged).outcome.is_none());
    assert_eq!(
        watch.observe(TransferEvent::Closed).outcome,
        Some(Err(TransferError::StreamClosed))
    );
    assert_eq!(
        watch.observe(TransferEvent::TimedOut).outcome,
        Some(Err(TransferError::TimedOut))
    );
    assert_eq!(TransferError::TimedOut.message(), "Quick Share timed out waiting for consent or transfer");
    let inbound = TransferEvent::Update(TransferUpdate {
        device_id: "dev".to_owned(),
        from_client: true,
        outbound: false,
        pin_code: None,
        phase: Some(TransferPhase::Finished),
    });
    assert!(watch.observe(inbound).outcome.is_none());
}

#[test]
fn transfer_messages() {
    assert_eq!(transfer_message(true, 2, "Pixel"), "Would send 2 file(s) to Pixel");
    assert_eq!(transfer_message(false, 10, "Pixel"), "Sent 10 file(s) to Pixel");
}

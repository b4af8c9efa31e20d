use vstd::prelude::*;

use crate::airdrop::ProbeFacts;
use crate::text::{chars_of, decimal, push_decimal};

verus! {

/// How usable a sharing route is. Only `Ready` routes may be chosen
/// automatically.
#[derive(Clone, Copy, Debug, PartialEq, Eq, Structural)]
pub enum AdapterState {
    Ready,
    Experimental,
    Planned,
    Unavailable,
    Unsupported,
}

/// The reported state of one sharing route.
#[derive(Debug)]
pub struct AdapterStatus {
    pub id: &'static str,
    pub name: &'static str,
    pub state: AdapterState,
    pub native_targets: Vec<&'static str>,
    pub detail: String,
    pub backend: Option<String>,
}

/// The tools found on the search path (each by the name it was found under)
/// and the kernel driver of the first wireless interface.
pub struct AdapterTools {
    /// The first of `packet`, `r-quick-share`, `rquickshare`.
    pub quick_share_backend: Option<String>,
    /// `localsend`.
    pub localsend: Option<String>,
    /// `bluetoothctl`.
    pub bluetoothctl: Option<String>,
    /// The first of `bluetooth-sendto`, `blueman-sendto`, `obexctl`.
    pub obex_sender: Option<String>,
    /// `opendrop`.
    pub opendrop: Option<String>,
    /// The first of `owl`, `owl-run`.
    pub owl: Option<String>,
    /// Whether an externally prepared `awdl0` interface already has a
    /// link-local IPv6 address.
    pub awdl_ready: bool,
    /// `qrencode`.
    pub qrencode: Option<String>,
    /// The driver of the first wireless interface.
    pub wifi_driver: Option<String>,
}

/// The routes in the order of the status contract.
pub open spec fn adapter_ids() -> Seq<&'static str> {
    seq!["quick_share", "browser", "bluetooth", "airdrop", "localsend"]
}

/// AirDrop may only be offered, and then as experimental, when OpenDrop and
/// OWL are installed and an `awdl0` link was prepared beforehand; otherwise it
/// is unavailable, since missing tools do not prove the hardware unsupported.
pub open spec fn airdrop_usable(tools: AdapterTools) -> bool {
    tools.opendrop is Some && tools.owl is Some && tools.awdl_ready
}

/// The state of each route, in the order of the status contract.
pub open spec fn spec_adapter_states(tools: AdapterTools) -> Seq<AdapterState> {
    seq![
        if tools.quick_share_backend is Some {
            AdapterState::Experimental
        } else {
            AdapterState::Unavailable
        },
        AdapterState::Planned,
        if tools.bluetoothctl is Some && tools.obex_sender is Some {
            AdapterState::Experimental
        } else {
            AdapterState::Unavailable
        },
        if airdrop_usable(tools) {
            AdapterState::Experimental
        } else {
            AdapterState::Unavailable
        },
        if tools.localsend is Some {
            AdapterState::Ready
        } else {
            AdapterState::Unavailable
        },
    ]
}

/// The view of an optional string.
pub open spec fn driver_text(driver: Option<String>, otherwise: Seq<char>) -> Seq<char> {
    match driver {
        Some(d) => d@,
        None => otherwise,
    }
}

/// The explanation given for each route, in the order of the status contract.
pub open spec fn spec_adapter_details(tools: AdapterTools) -> Seq<Seq<char>> {
    seq![
        if tools.quick_share_backend is Some {
            "A compatible backend is installed; the stable core integration is the next milestone."@
        } else {
            "No Quick Share backend is installed yet."@
        },
        "No-install, tokenized LAN transfer is planned as the universal fallback."@,
        if tools.bluetoothctl is Some && tools.obex_sender is Some {
            "BlueZ and an OBEX sender are present; adapter integration is not enabled yet."@
        } else if tools.bluetoothctl is Some {
            "Bluetooth is present, but no OBEX file-transfer backend is installed."@
        } else {
            "No BlueZ control tool was found."@
        },
        if airdrop_usable(tools) {
            "OpenDrop and OWL were found; compatibility still depends on Wi-Fi monitor mode (driver: "@
                + driver_text(tools.wifi_driver, "unknown"@) + ")."@
        } else {
            "Native AirDrop needs OpenDrop, OWL, and proven AWDL-capable monitor mode; this machine uses "@
                + driver_text(tools.wifi_driver, "an unknown Wi-Fi driver"@) + "."@
        },
        if tools.localsend is Some {
            "Installed and retained as the working fallback during migration."@
        } else {
            "Not installed."@
        },
    ]
}

/// The backend reported for each route, in the order of the status contract.
pub open spec fn spec_adapter_backends(tools: AdapterTools) -> Seq<Option<String>> {
    seq![
        tools.quick_share_backend,
        tools.qrencode,
        if tools.bluetoothctl is Some {
            tools.obex_sender
        } else {
            None
        },
        if airdrop_usable(tools) {
            tools.opendrop
        } else {
            None
        },
        tools.localsend,
    ]
}

/// The human name of each route.
pub open spec fn adapter_names() -> Seq<&'static str> {
    seq!["Quick Share", "Browser / QR", "Bluetooth OBEX", "AirDrop", "LocalSend"]
}

/// The platforms each route reaches natively.
pub open spec fn adapter_targets() -> Seq<Seq<&'static str>> {
    seq![
        seq!["Android", "Windows Quick Share"],
        seq!["iOS", "Android", "Windows", "macOS", "Linux"],
        seq!["Android", "Windows", "Linux", "macOS"],
        seq!["iOS", "macOS"],
        seq!["LocalSend peers"],
    ]
}

fn targets_of(index: usize) -> (targets: Vec<&'static str>)
    requires
        index < 5,
    ensures
        targets@ == adapter_targets()[index as int],
{
    let mut t: Vec<&'static str> = Vec::new();
    if index == 0 {
        t.push("Android");
        t.push("Windows Quick Share");
    } else if index == 1 {
        t.push("iOS");
        t.push("Android");
        t.push("Windows");
        t.push("macOS");
        t.push("Linux");
    } else if index == 2 {
        t.push("Android");
        t.push("Windows");
        t.push("Linux");
        t.push("macOS");
    } else if index == 3 {
        t.push("iOS");
        t.push("macOS");
    } else {
        t.push("LocalSend peers");
    }
    assert(t@ =~= adapter_targets()[index as int]);
    t
}

/// The status of every sharing route, always in the same order: Quick Share,
/// Browser / QR, Bluetooth OBEX, AirDrop, LocalSend. A route is reported ready
/// only when its working backend is installed, and only LocalSend can be.
pub fn detect_adapters(tools: AdapterTools) -> (adapters: Vec<AdapterStatus>)
    ensures
        adapters@.len() == 5,
        forall|i: int|
            #![trigger adapters@[i]]
            0 <= i < 5 ==> {
                &&& adapters@[i].id == adapter_ids()[i]
                &&& adapters@[i].name == adapter_names()[i]
                &&& adapters@[i].state == spec_adapter_states(tools)[i]
                &&& adapters@[i].native_targets@ == adapter_targets()[i]
                &&& adapters@[i].detail@ == spec_adapter_details(tools)[i]
                &&& adapters@[i].backend == spec_adapter_backends(tools)[i]
            },
{
    let ghost t = tools;
    let quick_share = match tools.quick_share_backend {
        Some(command) => AdapterStatus {
            id: "quick_share",
            name: "Quick Share",
            state: AdapterState::Experimental,
            native_targets: targets_of(0),
            detail: "A compatible backend is installed; the stable core integration is the next milestone.".to_owned(),
            backend: Some(command),
        },
        None => AdapterStatus {
            id: "quick_share",
            name: "Quick Share",
            state: AdapterState::Unavailable,
            native_targets: targets_of(0),
            detail: "No Quick Share backend is installed yet.".to_owned(),
            backend: None,
        },
    };
    let browser = AdapterStatus {
        id: "browser",
        name: "Browser / QR",
        state: AdapterState::Planned,
        native_targets: targets_of(1),
        detail: "No-install, tokenized LAN transfer is planned as the universal fallback.".to_owned(),
        backend: tools.qrencode,
    };
    let bluetooth = match (tools.bluetoothctl, tools.obex_sender) {
        (Some(_), Some(sender)) => AdapterStatus {
            id: "bluetooth",
            name: "Bluetooth OBEX",
            state: AdapterState::Experimental,
            native_targets: targets_of(2),
            detail: "BlueZ and an OBEX sender are present; adapter integration is not enabled yet.".to_owned(),
            backend: Some(sender),
        },
        (Some(_), None) => AdapterStatus {
            id: "bluetooth",
            name: "Bluetooth OBEX",
            state: AdapterState::Unavailable,
            native_targets: targets_of(2),
            detail: "Bluetooth is present, but no OBEX file-transfer backend is installed.".to_owned(),
            backend: None,
        },
        _ => AdapterStatus {
            id: "bluetooth",
            name: "Bluetooth OBEX",
            state: AdapterState::Unavailable,
            native_targets: targets_of(2),
            detail: "No BlueZ control tool was found.".to_owned(),
            backend: None,
        },
    };
    let airdrop_ready = tools.opendrop.is_some() && tools.owl.is_some() && tools.awdl_ready;
    let airdrop = if airdrop_ready {
        let mut detail = "OpenDrop and OWL were found; compatibility still depends on Wi-Fi monitor mode (driver: ".to_owned();
        match &tools.wifi_driver {
            Some(d) => detail.append(d.as_str()),
            None => detail.append("unknown"),
        }
        detail.append(").");
        AdapterStatus {
            id: "airdrop",
            name: "AirDrop",
            state: AdapterState::Experimental,
            native_targets: targets_of(3),
            detail,
            backend: tools.opendrop,
        }
    } else {
        let mut detail = "Native AirDrop needs OpenDrop, OWL, and proven AWDL-capable monitor mode; this machine uses ".to_owned();
        match &tools.wifi_driver {
            Some(d) => detail.append(d.as_str()),
            None => detail.append("an unknown Wi-Fi driver"),
        }
        detail.append(".");
        AdapterStatus {
            id: "airdrop",
            name: "AirDrop",
            state: AdapterState::Unavailable,
            native_targets: targets_of(3),
            detail,
            backend: None,
        }
    };
    let localsend = match tools.localsend {
        Some(command) => AdapterStatus {
            id: "localsend",
            name: "LocalSend",
            state: AdapterState::Ready,
            native_targets: targets_of(4),
            detail: "Installed and retained as the working fallback during migration.".to_owned(),
            backend: Some(command),
        },
        None => AdapterStatus {
            id: "localsend",
            name: "LocalSend",
            state: AdapterState::Unavailable,
            native_targets: targets_of(4),
            detail: "Not installed.".to_owned(),
            backend: None,
        },
    };
    let mut adapters: Vec<AdapterStatus> = Vec::new();
    adapters.push(quick_share);
    adapters.push(browser);
    adapters.push(bluetooth);
    adapters.push(airdrop);
    adapters.push(localsend);
    assert(adapters@[0].detail@ == spec_adapter_details(t)[0]);
    assert(adapters@[1].detail@ == spec_adapter_details(t)[1]);
    assert(adapters@[2].detail@ == spec_adapter_details(t)[2]);
    assert(adapters@[3].detail@ == spec_adapter_details(t)[3]);
    assert(adapters@[4].detail@ == spec_adapter_details(t)[4]);
    adapters
}

/// The machine-readable status contract.
#[derive(Debug)]
pub struct StatusDocument {
    pub schema_version: u8,
    pub version: &'static str,
    pub adapters: Vec<AdapterStatus>,
}

/// The status document of a program of `version` on a machine with `tools`.
pub fn status_document(version: &'static str, tools: AdapterTools) -> (document: StatusDocument)
    ensures
        document.schema_version == crate::SCHEMA_VERSION,
        document.version == version,
        document.adapters@.len() == 5,
        forall|i: int|
            #![trigger document.adapters@[i]]
            0 <= i < 5 ==> {
                &&& document.adapters@[i].id == adapter_ids()[i]
                &&& document.adapters@[i].name == adapter_names()[i]
                &&& document.adapters@[i].state == spec_adapter_states(tools)[i]
                &&& document.adapters@[i].native_targets@ == adapter_targets()[i]
                &&& document.adapters@[i].detail@ == spec_adapter_details(tools)[i]
                &&& document.adapters@[i].backend == spec_adapter_backends(tools)[i]
            },
{
    StatusDocument {
        schema_version: crate::SCHEMA_VERSION,
        version,
        adapters: detect_adapters(tools),
    }
}

/// The word that names a state.
pub open spec fn spec_state_label(state: AdapterState) -> &'static str {
    match state {
        AdapterState::Ready => "ready",
        AdapterState::Experimental => "experimental",
        AdapterState::Planned => "planned",
        AdapterState::Unavailable => "unavailable",
        AdapterState::Unsupported => "unsupported",
    }
}

/// The word that names a state in reports.
pub fn state_label(state: &AdapterState) -> (label: &'static str)
    ensures
        label == spec_state_label(*state),
{
    match state {
        AdapterState::Ready => "ready",
        AdapterState::Experimental => "experimental",
        AdapterState::Planned => "planned",
        AdapterState::Unavailable => "unavailable",
        AdapterState::Unsupported => "unsupported",
    }
}


/// The route a user asks to share with.
#[derive(Clone, Copy, Debug, PartialEq, Eq, Structural)]
pub enum AdapterChoice {
    Auto,
    QuickShare,
    Browser,
    Bluetooth,
    AirDrop,
    LocalSend,
}

/// Why a share request was refused.
#[derive(Clone, Copy, Debug, PartialEq, Eq, Structural)]
pub enum ShareError {
    QuickShareNotWired,
    BrowserNotImplemented,
    BluetoothNotImplemented,
    AirDropUnsupported,
    LocalSendMissing,
}

/// The message of each refusal.
pub open spec fn spec_share_error_message(e: ShareError) -> Seq<char> {
    match e {
        ShareError::QuickShareNotWired => "Quick Share is not wired into the stable adapter contract yet"@,
        ShareError::BrowserNotImplemented => "Browser / QR sharing is planned but not implemented yet"@,
        ShareError::BluetoothNotImplemented => "Bluetooth OBEX sharing is not implemented yet"@,
        ShareError::AirDropUnsupported => "AirDrop is unsupported on this machine's current stack"@,
        ShareError::LocalSendMissing => "LocalSend is not installed and no stable replacement adapter is ready"@,
    }
}

impl ShareError {
    /// The message shown to the user.
    pub fn message(&self) -> (text: String)
        ensures
            text@ == spec_share_error_message(*self),
    {
        match self {
            ShareError::QuickShareNotWired => "Quick Share is not wired into the stable adapter contract yet".to_owned(),
            ShareError::BrowserNotImplemented => "Browser / QR sharing is planned but not implemented yet".to_owned(),
            ShareError::BluetoothNotImplemented => "Bluetooth OBEX sharing is not implemented yet".to_owned(),
            ShareError::AirDropUnsupported => "AirDrop is unsupported on this machine's current stack".to_owned(),
            ShareError::LocalSendMissing => "LocalSend is not installed and no stable replacement adapter is ready".to_owned(),
        }
    }
}

/// Which route a share request goes to, or why it is refused: automatic and
/// LocalSend requests go to LocalSend, which must be installed; every other
/// route is refused because it is not wired in.
pub open spec fn spec_plan_share(via: AdapterChoice, localsend_installed: bool) -> Result<
    &'static str,
    ShareError,
> {
    match via {
        AdapterChoice::QuickShare => Err(ShareError::QuickShareNotWired),
        AdapterChoice::Browser => Err(ShareError::BrowserNotImplemented),
        AdapterChoice::Bluetooth => Err(ShareError::BluetoothNotImplemented),
        AdapterChoice::AirDrop => Err(ShareError::AirDropUnsupported),
        _ => if localsend_installed {
            Ok("localsend")
        } else {
            Err(ShareError::LocalSendMissing)
        },
    }
}

/// Chooses the route of a share request.
pub fn plan_share(via: AdapterChoice, localsend_installed: bool) -> (plan: Result<&'static str, ShareError>)
    ensures
        plan == spec_plan_share(via, localsend_installed),
{
    let selected = match via {
        AdapterChoice::Auto | AdapterChoice::LocalSend => "localsend",
        AdapterChoice::QuickShare => {
            return Err(ShareError::QuickShareNotWired);
        },
        AdapterChoice::Browser => {
            return Err(ShareError::BrowserNotImplemented);
        },
        AdapterChoice::Bluetooth => {
            return Err(ShareError::BluetoothNotImplemented);
        },
        AdapterChoice::AirDrop => {
            return Err(ShareError::AirDropUnsupported);
        },
    };
    if !localsend_installed {
        return Err(ShareError::LocalSendMissing);
    }
    Ok(selected)
}

/// The report of a share request.
pub open spec fn spec_share_message(dry_run: bool, count: u64) -> Seq<char> {
    if dry_run {
        "Would share "@ + decimal(count as nat) + " item(s) with LocalSend"@
    } else {
        "Opened LocalSend for "@ + decimal(count as nat) + " item(s)"@
    }
}

/// The message that reports a share request of `count` items.
pub fn share_message(dry_run: bool, count: u64) -> (text: String)
    ensures
        text@ == spec_share_message(dry_run, count),
{
    if dry_run {
        let mut text = "Would share ".to_owned();
        push_decimal(&mut text, count);
        text.append(" item(s) with LocalSend");
        text
    } else {
        let mut text = "Opened LocalSend for ".to_owned();
        push_decimal(&mut text, count);
        text.append(" item(s)");
        text
    }
}

/// Whenever a share request is accepted, it goes to a route that the status
/// contract reports as ready on the same machine: routing never picks a route
/// that is merely experimental, planned, unavailable or unsupported.
pub proof fn lemma_share_only_uses_ready_route(via: AdapterChoice, tools: AdapterTools)
    requires
        spec_plan_share(via, tools.localsend is Some) is Ok,
    ensures
        spec_plan_share(via, tools.localsend is Some)->Ok_0 == adapter_ids()[4],
        spec_adapter_states(tools)[4] == AdapterState::Ready,
{
}

/// A route other than Browser / QR is offered (ready or experimental) exactly
/// when the status names the backend that would carry it; a route without a
/// backend is reported unavailable.
pub proof fn lemma_offered_route_has_backend(tools: AdapterTools, i: int)
    requires
        0 <= i < 5,
        i != 1,
    ensures
        (spec_adapter_states(tools)[i] == AdapterState::Ready || spec_adapter_states(tools)[i]
            == AdapterState::Experimental) <==> spec_adapter_backends(tools)[i] is Some,
        spec_adapter_backends(tools)[i] is None ==> spec_adapter_states(tools)[i]
            == AdapterState::Unavailable,
{
}

/// Bluetooth OBEX is experimental only when both a BlueZ control tool and an
/// OBEX sender were found, and the sender is then its backend; with either
/// missing it is unavailable.
pub proof fn lemma_bluetooth_needs_bluez_and_sender(tools: AdapterTools)
    ensures
        spec_adapter_states(tools)[2] == AdapterState::Experimental <==> (tools.bluetoothctl is Some
            && tools.obex_sender is Some),
        !(tools.bluetoothctl is Some && tools.obex_sender is Some) ==> spec_adapter_states(tools)[2]
            == AdapterState::Unavailable,
        spec_adapter_states(tools)[2] == AdapterState::Experimental ==> spec_adapter_backends(
            tools,
        )[2] == tools.obex_sender,
{
}

/// LocalSend is the only route that the status contract can report as ready.
pub proof fn lemma_only_localsend_can_be_ready(tools: AdapterTools, i: int)
    requires
        0 <= i < 5,
        spec_adapter_states(tools)[i] == AdapterState::Ready,
    ensures
        adapter_ids()[i] == "localsend",
{
}


/// `text` followed by spaces up to `width` characters, as `{:<width}` writes it.
pub open spec fn pad_right(text: Seq<char>, width: nat) -> Seq<char> {
    if text.len() >= width {
        text
    } else {
        text + Seq::new((width - text.len()) as nat, |i: int| ' ')
    }
}

fn push_padded(out: &mut String, text: &str, width: usize)
    ensures
        final(out)@ == old(out)@ + pad_right(text@, width as nat),
{
    let count = chars_of(text).len();
    out.append(text);
    let ghost base = out@;
    let mut k: usize = count;
    while k < width
        invariant
            count == text@.len(),
            count <= k,
            k == count || k <= width,
            base == old(out)@ + text@,
            out@ == base + Seq::new((if k >= count { k - count } else { 0 }) as nat, |i: int| ' '),
        decreases width - k,
    {
        out.push(' ');
        assert(base + Seq::new((k + 1 - count) as nat, |i: int| ' ') =~= base + Seq::new(
            (k - count) as nat,
            |i: int| ' ',
        ).push(' '));
        k += 1;
    }
    if count >= width {
        assert(out@ =~= old(out)@ + pad_right(text@, width as nat));
    } else {
        assert(k == width);
        assert(out@ =~= old(out)@ + pad_right(text@, width as nat));
    }
}

/// The line that reports a route in the text status: the ID in a column of
/// 12 characters, the state in a column of 13, then the explanation.
pub fn status_line(adapter: &AdapterStatus) -> (line: String)
    ensures
        line@ == pad_right(adapter.id@, 12) + " "@ + pad_right(spec_state_label(adapter.state)@, 13)
            + " "@ + adapter.detail@,
{
    let mut line = String::new();
    push_padded(&mut line, adapter.id, 12);
    line.append(" ");
    push_padded(&mut line, state_label(&adapter.state), 13);
    line.append(" ");
    line.append(adapter.detail.as_str());
    line
}


/// The status contract never calls AirDrop unsupported: missing tools leave it
/// unavailable, and it is experimental exactly when OpenDrop, OWL and a
/// prepared `awdl0` link are all present.
pub proof fn lemma_airdrop_never_unsupported(tools: AdapterTools)
    ensures
        spec_adapter_states(tools)[3] != AdapterState::Unsupported,
        spec_adapter_states(tools)[3] == AdapterState::Experimental <==> airdrop_usable(tools),
        !airdrop_usable(tools) ==> spec_adapter_states(tools)[3] == AdapterState::Unavailable,
{
}

/// The status report and the AirDrop probe agree: on the same findings, the
/// status reports AirDrop as experimental exactly when the probe judges it
/// safe to start.
pub proof fn lemma_status_agrees_with_probe(tools: AdapterTools, facts: ProbeFacts)
    requires
        (tools.opendrop is Some) == (facts.opendrop is Some),
        (tools.owl is Some) == (facts.owl is Some),
        tools.awdl_ready == facts.awdl_ready(),
    ensures
        (spec_adapter_states(tools)[3] == AdapterState::Experimental) == (facts.opendrop is Some
            && facts.owl is Some && facts.awdl_ready()),
{
}

} // verus!

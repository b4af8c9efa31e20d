use vstd::prelude::*;
use vstd::utf8::{decode_utf8, valid_utf8};

use crate::text::{
    lemma_lines_from_one_line, lemma_lines_from_split, lines_from, strip_cr, chars_equal, chars_of, starts_with, views_of_strings, fields, fields_of, has_prefix, lines, lines_of, trim, trimmed, views,
};

verus! {

/// The text that `String::from_utf8_lossy` makes of `bytes`.
pub uninterp spec fn utf8_lossy(bytes: Seq<u8>) -> Seq<char>;

/// Calls `String::from_utf8_lossy`. Claimed: the result is a function of the
/// bytes alone (named `utf8_lossy`), and on valid UTF-8 it is the decoded text
/// (std documentation: "If our byte slice is valid UTF-8, then ... the string
/// is returned unchanged"). How invalid sequences are replaced is left unsaid.
#[verifier::external_body]
fn decode_lossy(bytes: &[u8]) -> (text: String)
    ensures
        text@ == utf8_lossy(bytes@),
        valid_utf8(bytes@) ==> text@ == decode_utf8(bytes@),
{
    String::from_utf8_lossy(bytes).into_owned()
}

/// A line of `/proc/net/if_inet6` that gives `awdl0` a link-local address:
/// six fields, the first starting with `fe80`, the last naming `awdl0`.
pub open spec fn is_awdl_link_local_line(line: Seq<char>) -> bool {
    let f = fields(line);
    &&& f.len() == 6
    &&& starts_with(f[0], "fe80"@)
    &&& f[5] == "awdl0"@
}

/// Whether some line of `contents` shows a link-local IPv6 address on `awdl0`.
pub open spec fn spec_awdl_ipv6(contents: Seq<char>) -> bool {
    exists|i: int| 0 <= i < lines(contents).len() && is_awdl_link_local_line(#[trigger] lines(contents)[i])
}

/// Whether the listing of `/proc/net/if_inet6` in `contents` shows a
/// link-local IPv6 address on `awdl0`.
pub fn parse_awdl_ipv6(contents: &str) -> (found: bool)
    ensures
        found == spec_awdl_ipv6(contents@),
{
    let text = chars_of(contents);
    let all = lines_of(&text);
    let prefix = chars_of("fe80");
    let awdl = chars_of("awdl0");
    let mut i: usize = 0;
    while i < all.len()
        invariant
            i <= all.len(),
            views(all@) == lines(contents@),
            prefix@ == "fe80"@,
            awdl@ == "awdl0"@,
            forall|j: int| 0 <= j < i ==> !is_awdl_link_local_line(#[trigger] lines(contents@)[j]),
        decreases all.len() - i,
    {
        let f = fields_of(&all[i]);
        assert(views(all@)[i as int] == all@[i as int]@);
        if f.len() == 6 {
            assert(views(f@)[0] == f@[0]@);
            assert(views(f@)[5] == f@[5]@);
            if has_prefix(&f[0], &prefix) && chars_equal(&f[5], &awdl) {
                assert(fields(lines(contents@)[i as int]) == views(f@));
                assert(is_awdl_link_local_line(lines(contents@)[i as int]));
                return true;
            }
        }
        i += 1;
    }
    false
}

/// Whether some line of `text`, trimmed, reads `* monitor`.
pub open spec fn spec_lists_monitor_mode(text: Seq<char>) -> bool {
    exists|i: int| 0 <= i < lines(text).len() && trim(#[trigger] lines(text)[i]) == "* monitor"@
}

/// Whether the `iw phy` report in `text` lists monitor among the supported
/// interface modes.
pub fn lists_monitor_mode(text: &str) -> (found: bool)
    ensures
        found == spec_lists_monitor_mode(text@),
{
    let chars = chars_of(text);
    let all = lines_of(&chars);
    let wanted = chars_of("* monitor");
    let mut i: usize = 0;
    while i < all.len()
        invariant
            i <= all.len(),
            views(all@) == lines(text@),
            wanted@ == "* monitor"@,
            forall|j: int| 0 <= j < i ==> trim(#[trigger] lines(text@)[j]) != "* monitor"@,
        decreases all.len() - i,
    {
        assert(views(all@)[i as int] == all@[i as int]@);
        let t = trimmed(&all[i]);
        if chars_equal(&t, &wanted) {
            return true;
        }
        i += 1;
    }
    false
}

/// A report that lists monitor mode keeps listing it when further lines
/// follow: more sections after the monitor line never hide it.
pub proof fn lemma_monitor_mode_survives_more_lines(text: Seq<char>, more: Seq<char>)
    requires
        spec_lists_monitor_mode(text),
        text.len() == 0 || text.last() == '\n',
    ensures
        spec_lists_monitor_mode(text + more),
{
    let i = choose|i: int|
        0 <= i < lines(text).len() && trim(#[trigger] lines(text)[i]) == "* monitor"@;
    if text.len() == 0 {
        assert(lines(text) =~= Seq::<Seq<char>>::empty());
    } else {
        lemma_lines_from_split(seq![], text, more);
        assert(lines(text + more)[i] == lines(text)[i]);
    }
}

/// A line that reads `* monitor` once trimmed is found wherever it stands in
/// the report: after any complete lines and before any text at all.
pub proof fn lemma_monitor_line_found_anywhere(
    before: Seq<char>,
    line: Seq<char>,
    after: Seq<char>,
)
    requires
        before.len() == 0 || before.last() == '\n',
        forall|k: int| 0 <= k < line.len() ==> #[trigger] line[k] != '\n',
        line.len() == 0 || line.last() != '\r',
        trim(line) == "* monitor"@,
    ensures
        spec_lists_monitor_mode(before + line + "\n"@ + after),
{
    let tail = line + "\n"@ + after;
    let text = before + line + "\n"@ + after;
    assert(text =~= before + tail);
    lemma_lines_from_one_line(seq![], line, after);
    assert(seq![] + line =~= line);
    assert(strip_cr(line) == line);
    assert(lines_from(seq![], tail)[0] == line);
    if before.len() == 0 {
        assert(text =~= tail);
        assert(trim(lines(text)[0]) == "* monitor"@);
    } else {
        lemma_lines_from_split(seq![], before, tail);
        let w = lines(before).len() as int;
        assert(lines(text)[w] == lines_from(seq![], tail)[0]);
        assert(trim(lines(text)[w]) == "* monitor"@);
    }
}

/// Whether the raw output of `iw phy` advertises monitor mode.
pub fn advertises_monitor_mode(output: &[u8]) -> (found: bool)
    ensures
        found == spec_lists_monitor_mode(utf8_lossy(output@)),
        valid_utf8(output@) ==> found == spec_lists_monitor_mode(decode_utf8(output@)),
{
    let text = decode_lossy(output);
    lists_monitor_mode(text.as_str())
}

/// Whether the contents of a `carrier` file in sysfs report a live link.
pub fn carrier_is_up(contents: &str) -> (up: bool)
    ensures
        up == (trim(contents@) == "1"@),
{
    let chars = chars_of(contents);
    let t = trimmed(&chars);
    let one = chars_of("1");
    chars_equal(&t, &one)
}


/// What the AirDrop probe learned from the machine, gathered without changing
/// any network state.
pub struct ProbeFacts {
    /// The first network interface that sysfs reports as wireless.
    pub interface: Option<String>,
    /// The kernel driver bound to that interface.
    pub driver: Option<String>,
    /// The contents of that interface's `carrier` file, when it could be read.
    pub carrier: Option<String>,
    /// The path of the `iw` tool, when it is installed.
    pub iw: Option<String>,
    /// The output of a successful `iw phy`, when it was run.
    pub iw_phy_output: Option<Vec<u8>>,
    /// The path of OpenDrop, when it is installed.
    pub opendrop: Option<String>,
    /// The path of OWL, when it is installed.
    pub owl: Option<String>,
    /// The contents of `/proc/net/if_inet6`, when it could be read.
    pub if_inet6: Option<String>,
}

impl ProbeFacts {
    /// The Wi-Fi PHY advertises monitor mode: `iw` is installed and its report
    /// lists the mode.
    pub open spec fn monitor_mode(self) -> bool {
        &&& self.iw is Some
        &&& self.iw_phy_output matches Some(output) && spec_lists_monitor_mode(utf8_lossy(output@))
    }

    /// An `awdl0` interface with a link-local IPv6 address already exists.
    pub open spec fn awdl_ready(self) -> bool {
        self.if_inet6 matches Some(listing) && spec_awdl_ipv6(listing@)
    }

    /// The wireless interface currently has a carrier.
    pub open spec fn active_wifi(self) -> bool {
        &&& self.interface is Some
        &&& self.carrier matches Some(c) && trim(c@) == "1"@
    }
}

/// The reasons that keep AirDrop from starting, in the order they are reported.
pub open spec fn spec_blocking_reasons(
    iw: bool,
    opendrop: bool,
    owl: bool,
    monitor: bool,
    awdl: bool,
    active_wifi: bool,
) -> Seq<Seq<char>> {
    (if !iw { seq!["The iw hardware inspection tool is not installed."@] } else { seq![] })
        + (if !opendrop { seq!["OpenDrop is not installed."@] } else { seq![] })
        + (if !owl { seq!["OWL is not installed."@] } else { seq![] })
        + (if iw && !monitor { seq!["The Wi-Fi PHY does not advertise monitor mode."@] } else { seq![] })
        + seq!["Active monitor-mode frame injection has not been verified for this adapter."@]
        + (if !awdl {
        seq![
            "No ready awdl0 interface with a link-local IPv6 address exists; Unified Share will not create one automatically."@,
        ]
    } else {
        seq![]
    })
        + (if active_wifi {
        seq![
            "Upstream OWL cannot preserve the current Wi-Fi AP connection while it owns this interface."@,
        ]
    } else {
        seq![]
    })
}

/// The state of the native AirDrop route on this machine.
#[derive(Clone, Debug)]
pub struct AirDropProbe {
    pub schema_version: u8,
    pub adapter: &'static str,
    pub state: &'static str,
    pub safe_to_start: bool,
    pub interface: Option<String>,
    pub driver: Option<String>,
    pub active_wifi_connection: bool,
    pub monitor_mode_advertised: bool,
    pub frame_injection_verified: bool,
    pub opendrop: Option<String>,
    pub owl: Option<String>,
    pub awdl_interface_ready: bool,
    pub internet_preserving_backend: bool,
    pub blocking_reasons: Vec<String>,
}

fn push_reason(reasons: &mut Vec<String>, reason: &str)
    ensures
        views_of_strings(final(reasons)@) == views_of_strings(old(reasons)@).push(reason@),
{
    let ghost before = reasons@;
    reasons.push(reason.to_owned());
    assert(views_of_strings(reasons@) =~= views_of_strings(before).push(reason@));
}

impl AirDropProbe {
    /// Judges the AirDrop route from what the probe found. The route is only
    /// offered when OpenDrop and OWL are installed and an `awdl0` link was
    /// prepared beforehand; the probe never verifies frame injection and never
    /// claims to preserve the current Wi-Fi connection.
    pub fn from_facts(facts: ProbeFacts) -> (probe: AirDropProbe)
        ensures
            probe.schema_version == crate::SCHEMA_VERSION,
            probe.adapter == "airdrop",
            probe.safe_to_start == (facts.opendrop is Some && facts.owl is Some
                && facts.awdl_ready()),
            probe.state == (if probe.safe_to_start {
                "experimental"
            } else {
                "unavailable"
            }),
            probe.interface == facts.interface,
            probe.driver == (if facts.interface is Some {
                facts.driver
            } else {
                None
            }),
            probe.active_wifi_connection == facts.active_wifi(),
            probe.monitor_mode_advertised == facts.monitor_mode(),
            !probe.frame_injection_verified,
            probe.opendrop == facts.opendrop,
            probe.owl == facts.owl,
            probe.awdl_interface_ready == facts.awdl_ready(),
            !probe.internet_preserving_backend,
            views_of_strings(probe.blocking_reasons@) == spec_blocking_reasons(
                facts.iw is Some,
                facts.opendrop is Some,
                facts.owl is Some,
                facts.monitor_mode(),
                facts.awdl_ready(),
                facts.active_wifi(),
            ),
    {
        let monitor_mode_advertised = match (&facts.iw, &facts.iw_phy_output) {
            (Some(_), Some(output)) => advertises_monitor_mode(output.as_slice()),
            _ => false,
        };
        let awdl_interface_ready = match &facts.if_inet6 {
            Some(listing) => parse_awdl_ipv6(listing.as_str()),
            None => false,
        };
        let active_wifi_connection = match (&facts.interface, &facts.carrier) {
            (Some(_), Some(c)) => carrier_is_up(c.as_str()),
            _ => false,
        };
        // Frame injection is never tested during discovery, and upstream OWL
        // takes the interface away from the current access point.
        let frame_injection_verified = false;
        let internet_preserving_backend = false;

        let mut blocking_reasons: Vec<String> = Vec::new();
        let ghost r0 = views_of_strings(blocking_reasons@);
        assert(r0 =~= Seq::<Seq<char>>::empty());
        if facts.iw.is_none() {
            push_reason(&mut blocking_reasons, "The iw hardware inspection tool is not installed.");
        }
        if facts.opendrop.is_none() {
            push_reason(&mut blocking_reasons, "OpenDrop is not installed.");
        }
        if facts.owl.is_none() {
            push_reason(&mut blocking_reasons, "OWL is not installed.");
        }
        if facts.iw.is_some() && !monitor_mode_advertised {
            push_reason(&mut blocking_reasons, "The Wi-Fi PHY does not advertise monitor mode.");
        }
        if !frame_injection_verified {
            push_reason(
                &mut blocking_reasons,
                "Active monitor-mode frame injection has not been verified for this adapter.",
            );
        }
        if !awdl_interface_ready {
            push_reason(
                &mut blocking_reasons,
                "No ready awdl0 interface with a link-local IPv6 address exists; Unified Share will not create one automatically.",
            );
        }
        if active_wifi_connection && !internet_preserving_backend {
            push_reason(
                &mut blocking_reasons,
                "Upstream OWL cannot preserve the current Wi-Fi AP connection while it owns this interface.",
            );
        }
        assert(views_of_strings(blocking_reasons@) =~= spec_blocking_reasons(
            facts.iw is Some,
            facts.opendrop is Some,
            facts.owl is Some,
            facts.monitor_mode(),
            facts.awdl_ready(),
            facts.active_wifi(),
        ));

        let safe_to_start = facts.opendrop.is_some() && facts.owl.is_some() && awdl_interface_ready;
        let driver = if facts.interface.is_some() {
            facts.driver
        } else {
            None
        };
        AirDropProbe {
            schema_version: crate::SCHEMA_VERSION,
            adapter: "airdrop",
            state: if safe_to_start {
                "experimental"
            } else {
                "unavailable"
            },
            safe_to_start,
            interface: facts.interface,
            driver,
            active_wifi_connection,
            monitor_mode_advertised,
            frame_injection_verified,
            opendrop: facts.opendrop,
            owl: facts.owl,
            awdl_interface_ready,
            internet_preserving_backend,
            blocking_reasons,
        }
    }
}


/// How a summary names the Wi-Fi hardware.
pub open spec fn spec_device_label(interface: Option<String>, driver: Option<String>) -> Seq<char> {
    match (interface, driver) {
        (Some(i), Some(d)) => i@ + " ("@ + d@ + ")"@,
        (Some(i), None) => i@,
        _ => "the detected Wi-Fi hardware"@,
    }
}

/// The one-line summary of a probe.
pub open spec fn spec_summary(p: AirDropProbe) -> Seq<char> {
    if p.safe_to_start {
        "An externally prepared AWDL link is available; OpenDrop remains experimental and requires a live Apple-device test."@
    } else {
        "Native AirDrop is unavailable on "@ + spec_device_label(p.interface, p.driver) + ": "@ + (
        if p.blocking_reasons.len() > 0 {
            p.blocking_reasons[0]@
        } else {
            "the AWDL link is not ready"@
        })
    }
}

/// How the probe report labels the Wi-Fi hardware.
pub open spec fn spec_wifi_label(p: AirDropProbe) -> Seq<char> {
    match (p.interface, p.driver) {
        (Some(i), Some(d)) => i@ + " · "@ + d@,
        (Some(i), None) => i@,
        _ => "not detected"@,
    }
}

impl AirDropProbe {
    /// A one-line explanation of the AirDrop route's state.
    pub fn summary(&self) -> (text: String)
        ensures
            text@ == spec_summary(*self),
    {
        if self.safe_to_start {
            return "An externally prepared AWDL link is available; OpenDrop remains experimental and requires a live Apple-device test.".to_owned();
        }
        let mut text = "Native AirDrop is unavailable on ".to_owned();
        match (&self.interface, &self.driver) {
            (Some(interface), Some(driver)) => {
                text.append(interface.as_str());
                text.append(" (");
                text.append(driver.as_str());
                text.append(")");
            },
            (Some(interface), None) => {
                text.append(interface.as_str());
            },
            _ => {
                text.append("the detected Wi-Fi hardware");
            },
        }
        text.append(": ");
        if self.blocking_reasons.len() > 0 {
            text.append(self.blocking_reasons[0].as_str());
        } else {
            text.append("the AWDL link is not ready");
        }
        assert(text@ =~= spec_summary(*self));
        text
    }
}

/// The label of the Wi-Fi hardware in the probe report.
pub fn wifi_label(probe: &AirDropProbe) -> (label: String)
    ensures
        label@ == spec_wifi_label(*probe),
{
    match (&probe.interface, &probe.driver) {
        (Some(interface), Some(driver)) => {
            let mut label = interface.clone();
            label.append(" · ");
            label.append(driver.as_str());
            label
        },
        (Some(interface), None) => interface.clone(),
        _ => "not detected".to_owned(),
    }
}

/// `yes` or `no`.
pub fn yes_no(value: bool) -> (word: &'static str)
    ensures
        word == (if value {
            "yes"
        } else {
            "no"
        }),
{
    if value {
        "yes"
    } else {
        "no"
    }
}

/// Frame injection is never verified during discovery, so a probe always
/// reports at least one blocking reason, and that reason is among them.
pub proof fn lemma_probe_always_blocked(
    iw: bool,
    opendrop: bool,
    owl: bool,
    monitor: bool,
    awdl: bool,
    active_wifi: bool,
)
    ensures
        spec_blocking_reasons(iw, opendrop, owl, monitor, awdl, active_wifi).len() >= 1,
        spec_blocking_reasons(iw, opendrop, owl, monitor, awdl, active_wifi).contains(
            "Active monitor-mode frame injection has not been verified for this adapter."@,
        ),
{
    let r = spec_blocking_reasons(iw, opendrop, owl, monitor, awdl, active_wifi);
    let head = (if !iw { seq!["The iw hardware inspection tool is not installed."@] } else { seq![] })
        + (if !opendrop { seq!["OpenDrop is not installed."@] } else { seq![] })
        + (if !owl { seq!["OWL is not installed."@] } else { seq![] })
        + (if iw && !monitor { seq!["The Wi-Fi PHY does not advertise monitor mode."@] } else { seq![] });
    let k = head.len() as int;
    assert(r[k] == "Active monitor-mode frame injection has not been verified for this adapter."@);
}


/// `yes` or `no`, as text.
pub open spec fn yes_no_text(value: bool) -> Seq<char> {
    if value {
        "yes"@
    } else {
        "no"@
    }
}

/// The listing of the blocking reasons, one bullet per reason.
pub open spec fn reason_lines(reasons: Seq<String>) -> Seq<Seq<char>> {
    reasons.map_values(|r: String| "    - "@ + r@)
}

/// The lines of the text probe report.
pub open spec fn spec_probe_report(p: AirDropProbe) -> Seq<Seq<char>> {
    seq![
        "AirDrop: "@ + p.state@,
        "  Wi-Fi: "@ + spec_wifi_label(p),
        "  Monitor mode advertised: "@ + yes_no_text(p.monitor_mode_advertised),
        "  Frame injection verified: "@ + yes_no_text(p.frame_injection_verified),
        "  Existing AWDL link ready: "@ + yes_no_text(p.awdl_interface_ready),
        "  Preserves current Wi-Fi: "@ + yes_no_text(p.internet_preserving_backend),
    ] + if p.blocking_reasons.len() > 0 {
        seq!["  Blocked by:"@] + reason_lines(p.blocking_reasons@)
    } else {
        seq![]
    }
}

fn labelled(label: &str, value: &str) -> (line: String)
    ensures
        line@ == label@ + value@,
{
    let mut line = label.to_owned();
    line.append(value);
    line
}

/// The lines of the text report of a probe: its state, the Wi-Fi hardware,
/// the four findings as yes or no, and the blocking reasons, if any.
pub fn probe_report_lines(probe: &AirDropProbe) -> (lines: Vec<String>)
    ensures
        views_of_strings(lines@) == spec_probe_report(*probe),
{
    let mut lines: Vec<String> = Vec::new();
    lines.push(labelled("AirDrop: ", probe.state));
    let label = wifi_label(probe);
    lines.push(labelled("  Wi-Fi: ", label.as_str()));
    lines.push(labelled("  Monitor mode advertised: ", yes_no(probe.monitor_mode_advertised)));
    lines.push(labelled("  Frame injection verified: ", yes_no(probe.frame_injection_verified)));
    lines.push(labelled("  Existing AWDL link ready: ", yes_no(probe.awdl_interface_ready)));
    lines.push(labelled("  Preserves current Wi-Fi: ", yes_no(probe.internet_preserving_backend)));
    let ghost head = views_of_strings(lines@);
    assert(head =~= spec_probe_report(*probe).take(6));
    if probe.blocking_reasons.len() > 0 {
        lines.push("  Blocked by:".to_owned());
        let ghost start = views_of_strings(lines@);
        assert(start =~= head.push("  Blocked by:"@));
        let mut i: usize = 0;
        while i < probe.blocking_reasons.len()
            invariant
                i <= probe.blocking_reasons.len(),
                views_of_strings(lines@) == start + reason_lines(probe.blocking_reasons@.take(i as int)),
            decreases probe.blocking_reasons.len() - i,
        {
            let ghost before = lines@;
            lines.push(labelled("    - ", probe.blocking_reasons[i].as_str()));
            assert(views_of_strings(lines@) =~= views_of_strings(before).push(
                "    - "@ + probe.blocking_reasons@[i as int]@,
            ));
            assert(reason_lines(probe.blocking_reasons@.take(i + 1)) =~= reason_lines(
                probe.blocking_reasons@.take(i as int),
            ).push("    - "@ + probe.blocking_reasons@[i as int]@));
            i += 1;
        }
        assert(probe.blocking_reasons@.take(i as int) =~= probe.blocking_reasons@);
        assert(views_of_strings(lines@) =~= spec_probe_report(*probe));
    } else {
        assert(views_of_strings(lines@) =~= spec_probe_report(*probe));
    }
    lines
}

} // verus!

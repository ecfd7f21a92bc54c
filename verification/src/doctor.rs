//! The diagnostic report: what each finding of a run is written down as,
//! and how the findings add up.
//!
//! Each check has an identifier, a status ("pass", "warn" or "fail") and a
//! summary. The checks themselves, which resolve names and open
//! connections, are the caller's; what they found is judged here.

use crate::masque::{datagram_bytes, HttpDatagram, CONNECT_UDP_CONTEXT_ID};
use crate::policy::{
    definitions_allow, deny_reason, first_refusal, Decision, Policy, PolicyConfig, Target,
};
use crate::text::{bytes_eq, decimal_text, push_decimal, text_eq};
use vstd::prelude::*;
use vstd::string::StringExecFns;

verus! {

#[derive(Debug, Clone, PartialEq, Eq)]
pub struct DoctorReport {
    pub version: String,
    pub overall: String,
    pub checks: Vec<DoctorCheck>,
}

#[derive(Debug, Clone, PartialEq, Eq)]
pub struct DoctorCheck {
    pub id: String,
    pub status: String,
    pub summary: String,
}

/// A check as plain values.
pub struct CheckView {
    pub id: Seq<char>,
    pub status: Seq<char>,
    pub summary: Seq<char>,
}

impl View for DoctorCheck {
    type V = CheckView;

    open spec fn view(&self) -> CheckView {
        CheckView { id: self.id@, status: self.status@, summary: self.summary@ }
    }
}

/// Makes a check of its three parts.
pub fn mk(id: &str, status: &str, summary: String) -> (check: DoctorCheck)
    ensures
        check@ == (CheckView { id: id@, status: status@, summary: summary@ }),
{
    DoctorCheck { id: id.to_owned(), status: status.to_owned(), summary }
}

/// Whether some check has the given status.
pub open spec fn any_status(checks: Seq<DoctorCheck>, status: Seq<char>) -> bool {
    exists|i: int| 0 <= i < checks.len() && (#[trigger] checks[i]).status@ == status
}

/// The status of a whole run: a failure outweighs a warning, a warning
/// outweighs a pass.
pub open spec fn overall_status(checks: Seq<DoctorCheck>) -> Seq<char> {
    if any_status(checks, "fail"@) {
        "fail"@
    } else if any_status(checks, "warn"@) {
        "warn"@
    } else {
        "pass"@
    }
}

fn has_status(checks: &[DoctorCheck], status: &str) -> (found: bool)
    ensures
        found == any_status(checks@, status@),
{
    let mut i: usize = 0;
    while i < checks.len()
        invariant
            i <= checks@.len(),
            forall|j: int| 0 <= j < i ==> (#[trigger] checks@[j]).status@ != status@,
        decreases checks@.len() - i,
    {
        if text_eq(checks[i].status.as_str(), status) {
            return true;
        }
        i += 1;
    }
    false
}

/// Adds the checks of a run up to its status.
pub fn aggregate_overall(checks: &[DoctorCheck]) -> (overall: String)
    ensures
        overall@ == overall_status(checks@),
{
    if has_status(checks, "fail") {
        "fail".to_owned()
    } else if has_status(checks, "warn") {
        "warn".to_owned()
    } else {
        "pass".to_owned()
    }
}

/// Puts the checks of a run and their sum into a report.
pub fn doctor_report(version: String, checks: Vec<DoctorCheck>) -> (report: DoctorReport)
    ensures
        report.version == version,
        report.checks == checks,
        report.overall@ == overall_status(checks@),
{
    let overall = aggregate_overall(checks.as_slice());
    DoctorReport { version, overall, checks }
}

/// The smallest MTU that passes without a warning.
pub const MTU_MIN_REASONABLE: u16 = 1200;

/// The largest MTU that passes without a warning.
pub const MTU_MAX_REASONABLE: u16 = 9000;

/// The MTU that is recommended.
pub const MTU_RECOMMENDED: u16 = 1350;

/// The finding on the configured MTU.
pub open spec fn mtu_finding(mtu: Option<u16>) -> CheckView {
    match mtu {
        Some(value) => if value < MTU_MIN_REASONABLE {
            CheckView {
                id: "mtu.sanity"@,
                status: "warn"@,
                summary: "mtu "@ + decimal_text(value as nat) + " is small; recommended >= "@
                    + decimal_text(MTU_MIN_REASONABLE as nat) + " (target "@ + decimal_text(
                    MTU_RECOMMENDED as nat,
                ) + ")"@,
            }
        } else if value > MTU_MAX_REASONABLE {
            CheckView {
                id: "mtu.sanity"@,
                status: "warn"@,
                summary: "mtu "@ + decimal_text(value as nat) + " is large; recommended <= "@
                    + decimal_text(MTU_MAX_REASONABLE as nat) + " (target "@ + decimal_text(
                    MTU_RECOMMENDED as nat,
                ) + ")"@,
            }
        } else {
            CheckView {
                id: "mtu.sanity"@,
                status: "pass"@,
                summary: "mtu "@ + decimal_text(value as nat) + " within range (target "@
                    + decimal_text(MTU_RECOMMENDED as nat) + ")"@,
            }
        },
        None => CheckView {
            id: "mtu.sanity"@,
            status: "warn"@,
            summary: "mtu not set; recommended "@ + decimal_text(MTU_RECOMMENDED as nat),
        },
    }
}

/// Judges the configured MTU: a warning below 1200 and above 9000, and
/// where none is set.
pub fn mtu_sanity_check(mtu: Option<u16>) -> (check: DoctorCheck)
    ensures
        check@ == mtu_finding(mtu),
{
    match mtu {
        Some(value) => {
            let mut summary = "mtu ".to_owned();
            push_decimal(&mut summary, value as u64);
            if value < MTU_MIN_REASONABLE {
                summary.append(" is small; recommended >= ");
                push_decimal(&mut summary, MTU_MIN_REASONABLE as u64);
                summary.append(" (target ");
                push_decimal(&mut summary, MTU_RECOMMENDED as u64);
                summary.append(")");
                assert(summary@ =~= mtu_finding(mtu).summary);
                mk("mtu.sanity", "warn", summary)
            } else if value > MTU_MAX_REASONABLE {
                summary.append(" is large; recommended <= ");
                push_decimal(&mut summary, MTU_MAX_REASONABLE as u64);
                summary.append(" (target ");
                push_decimal(&mut summary, MTU_RECOMMENDED as u64);
                summary.append(")");
                assert(summary@ =~= mtu_finding(mtu).summary);
                mk("mtu.sanity", "warn", summary)
            } else {
                summary.append(" within range (target ");
                push_decimal(&mut summary, MTU_RECOMMENDED as u64);
                summary.append(")");
                assert(summary@ =~= mtu_finding(mtu).summary);
                mk("mtu.sanity", "pass", summary)
            }
        },
        None => {
            let mut summary = "mtu not set; recommended ".to_owned();
            push_decimal(&mut summary, MTU_RECOMMENDED as u64);
            mk("mtu.sanity", "warn", summary)
        },
    }
}

/// The text of an optional result's error.
pub open spec fn outcome_view<T>(outcome: Result<T, String>) -> Result<T, Seq<char>> {
    match outcome {
        Ok(value) => Ok(value),
        Err(reason) => Err(reason@),
    }
}

/// The finding on loading the configuration: `loaded` holds the path of
/// the file that was read, or why none was.
pub fn config_check(loaded: Result<&str, &str>) -> (check: DoctorCheck)
    ensures
        check@ == match loaded {
            Ok(path) => CheckView {
                id: "cfg.load"@,
                status: "pass"@,
                summary: "loaded config: "@ + path@,
            },
            Err(reason) => CheckView { id: "cfg.load"@, status: "fail"@, summary: reason@ },
        },
{
    match loaded {
        Ok(path) => {
            let mut summary = "loaded config: ".to_owned();
            summary.append(path);
            mk("cfg.load", "pass", summary)
        },
        Err(reason) => mk("cfg.load", "fail", reason.to_owned()),
    }
}

/// `host:port`.
pub open spec fn endpoint_text(host: Seq<char>, port: u16) -> Seq<char> {
    host + ":"@ + decimal_text(port as nat)
}

fn push_endpoint(out: &mut String, host: &str, port: u16)
    ensures
        final(out)@ == old(out)@ + endpoint_text(host@, port),
{
    out.append(host);
    out.append(":");
    push_decimal(out, port as u64);
    assert(out@ =~= old(out)@ + endpoint_text(host@, port));
}

/// What a name resolution comes to: the number of addresses, or why there
/// is none to use.
pub open spec fn dns_outcome(host: Seq<char>, port: u16, resolved: Result<usize, Seq<char>>) -> Result<
    usize,
    Seq<char>,
> {
    match resolved {
        Ok(count) => if count == 0 {
            Err("dns resolution returned no addresses for "@ + endpoint_text(host, port))
        } else {
            Ok(count)
        },
        Err(reason) => Err(
            "dns resolution failed for "@ + endpoint_text(host, port) + ": "@ + reason,
        ),
    }
}

/// Judges a name resolution: `resolved` holds the number of addresses that
/// the resolver returned for `host:port`, or the resolver's error. No
/// address at all counts as a failure.
pub fn dns_check(host: &str, port: u16, resolved: Result<usize, String>) -> (result: Result<
    usize,
    String,
>)
    ensures
        outcome_view(result) == dns_outcome(host@, port, outcome_view(resolved)),
{
    match resolved {
        Ok(count) => {
            if count == 0 {
                let mut reason = "dns resolution returned no addresses for ".to_owned();
                push_endpoint(&mut reason, host, port);
                Err(reason)
            } else {
                Ok(count)
            }
        },
        Err(cause) => {
            let mut reason = "dns resolution failed for ".to_owned();
            push_endpoint(&mut reason, host, port);
            reason.append(": ");
            reason.append(cause.as_str());
            assert(reason@ =~= "dns resolution failed for "@ + endpoint_text(host@, port) + ": "@
                + cause@);
            Err(reason)
        },
    }
}

/// The finding on a name resolution that `dns_check` has judged.
pub fn dns_finding(host: &str, port: u16, outcome: Result<usize, String>) -> (check: DoctorCheck)
    ensures
        check@ == match outcome {
            Ok(count) => CheckView {
                id: "net.dns"@,
                status: "pass"@,
                summary: "resolved "@ + endpoint_text(host@, port) + " to "@ + decimal_text(
                    count as nat,
                ) + " addr(s)"@,
            },
            Err(reason) => CheckView { id: "net.dns"@, status: "fail"@, summary: reason@ },
        },
{
    match outcome {
        Ok(count) => {
            let mut summary = "resolved ".to_owned();
            push_endpoint(&mut summary, host, port);
            summary.append(" to ");
            push_decimal(&mut summary, count as u64);
            summary.append(" addr(s)");
            assert(summary@ =~= "resolved "@ + endpoint_text(host@, port) + " to "@ + decimal_text(
                count as nat,
            ) + " addr(s)"@);
            mk("net.dns", "pass", summary)
        },
        Err(reason) => mk("net.dns", "fail", reason),
    }
}

/// How the network probes are to be run.
#[derive(Debug, Clone, Copy, PartialEq, Eq, Structural)]
pub enum ProbePlan {
    /// Not run: reported as passed, on the operator's word.
    ForcedPass,
    /// Not run: reported as failed, on the operator's word.
    ForcedFail,
    /// Not run: skipped on the operator's word.
    Skipped,
    /// Not run: the gateway's name did not resolve.
    Unresolved,
    /// Run.
    Run,
}

/// The plan for the network probes: the operator's override decides where
/// it is one of "pass", "fail" and "skip"; else a failed name resolution
/// rules the probes out.
pub open spec fn probe_plan(forced: Option<Seq<char>>, dns_ok: bool) -> ProbePlan {
    if forced == Some("pass"@) {
        ProbePlan::ForcedPass
    } else if forced == Some("fail"@) {
        ProbePlan::ForcedFail
    } else if forced == Some("skip"@) {
        ProbePlan::Skipped
    } else if !dns_ok {
        ProbePlan::Unresolved
    } else {
        ProbePlan::Run
    }
}

/// Plans the network probes from the operator's override, if any, and the
/// outcome of the name resolution.
pub fn plan_probes(forced: Option<&str>, dns_ok: bool) -> (plan: ProbePlan)
    ensures
        plan == probe_plan(crate::audit::text_of_str(forced), dns_ok),
{
    match forced {
        Some(value) => {
            if text_eq(value, "pass") {
                return ProbePlan::ForcedPass;
            }
            if text_eq(value, "fail") {
                return ProbePlan::ForcedFail;
            }
            if text_eq(value, "skip") {
                return ProbePlan::Skipped;
            }
        },
        None => {},
    }
    if !dns_ok {
        ProbePlan::Unresolved
    } else {
        ProbePlan::Run
    }
}

/// The status and the summary under which probes that are not run are
/// reported, by plan.
pub open spec fn unrun_verdict(plan: ProbePlan) -> (Seq<char>, Seq<char>) {
    match plan {
        ProbePlan::ForcedPass => ("pass"@, "forced pass via TOPPY_DOCTOR_NET"@),
        ProbePlan::ForcedFail => ("fail"@, "forced fail via TOPPY_DOCTOR_NET"@),
        ProbePlan::Skipped => ("warn"@, "skipped via TOPPY_DOCTOR_NET"@),
        _ => ("warn"@, "skipped because net.dns failed"@),
    }
}

/// The three findings that stand for probes that are not run: one each for
/// the transport, the tunnel handshake and the datagram echo. Nothing where
/// the plan is to run them.
pub fn unrun_probe_checks(plan: ProbePlan) -> (found: Option<Vec<DoctorCheck>>)
    ensures
        plan == ProbePlan::Run <==> found is None,
        found matches Some(checks) ==> {
            &&& checks@.len() == 3
            &&& checks@[0]@ == (CheckView {
                id: "h3.connect"@,
                status: unrun_verdict(plan).0,
                summary: unrun_verdict(plan).1,
            })
            &&& checks@[1]@ == (CheckView {
                id: "masque.connect_udp"@,
                status: unrun_verdict(plan).0,
                summary: unrun_verdict(plan).1,
            })
            &&& checks@[2]@ == (CheckView {
                id: "masque.connect_udp.datagram"@,
                status: unrun_verdict(plan).0,
                summary: unrun_verdict(plan).1,
            })
        },
{
    let (status, summary) = match plan {
        ProbePlan::ForcedPass => ("pass", "forced pass via TOPPY_DOCTOR_NET"),
        ProbePlan::ForcedFail => ("fail", "forced fail via TOPPY_DOCTOR_NET"),
        ProbePlan::Skipped => ("warn", "skipped via TOPPY_DOCTOR_NET"),
        ProbePlan::Unresolved => ("warn", "skipped because net.dns failed"),
        ProbePlan::Run => {
            return None;
        },
    };
    let mut checks: Vec<DoctorCheck> = Vec::new();
    checks.push(mk("h3.connect", status, summary.to_owned()));
    checks.push(mk("masque.connect_udp", status, summary.to_owned()));
    checks.push(mk("masque.connect_udp.datagram", status, summary.to_owned()));
    Some(checks)
}

/// Why nothing of the network is looked at when no configuration loads.
pub open spec fn no_config_summary() -> Seq<char> {
    "skipped because config load failed (set TOPPY_CONFIG or create ~/.config/toppy/config.toml)"@
}

/// The four findings on the network when no configuration loads: all
/// skipped, with a warning.
pub fn unconfigured_network_checks() -> (checks: Vec<DoctorCheck>)
    ensures
        checks@.len() == 4,
        checks@[0]@ == (CheckView {
            id: "net.dns"@,
            status: "warn"@,
            summary: no_config_summary(),
        }),
        checks@[1]@ == (CheckView {
            id: "h3.connect"@,
            status: "warn"@,
            summary: no_config_summary(),
        }),
        checks@[2]@ == (CheckView {
            id: "masque.connect_udp"@,
            status: "warn"@,
            summary: no_config_summary(),
        }),
        checks@[3]@ == (CheckView {
            id: "masque.connect_udp.datagram"@,
            status: "warn"@,
            summary: no_config_summary(),
        }),
{
    let summary =
        "skipped because config load failed (set TOPPY_CONFIG or create ~/.config/toppy/config.toml)";
    let mut checks: Vec<DoctorCheck> = Vec::new();
    checks.push(mk("net.dns", "warn", summary.to_owned()));
    checks.push(mk("h3.connect", "warn", summary.to_owned()));
    checks.push(mk("masque.connect_udp", "warn", summary.to_owned()));
    checks.push(mk("masque.connect_udp.datagram", "warn", summary.to_owned()));
    checks
}

/// The finding on a probe that was run against `host:port`: passed with
/// the probe's label, or failed with the probe's own reason.
pub fn probe_check(id: &str, label: &str, host: &str, port: u16, outcome: Result<(), String>) -> (check:
    DoctorCheck)
    ensures
        check@ == match outcome {
            Ok(()) => CheckView {
                id: id@,
                status: "pass"@,
                summary: label@ + " ok "@ + endpoint_text(host@, port),
            },
            Err(reason) => CheckView { id: id@, status: "fail"@, summary: reason@ },
        },
{
    match outcome {
        Ok(()) => {
            let mut summary = label.to_owned();
            summary.append(" ok ");
            push_endpoint(&mut summary, host, port);
            assert(summary@ =~= label@ + " ok "@ + endpoint_text(host@, port));
            mk(id, "pass", summary)
        },
        Err(reason) => mk(id, "fail", reason),
    }
}

/// The finding on access to the tunnel device where the operator's
/// override says one of "pass", "fail" and "skip"; nothing where the device
/// is to be tried.
pub fn forced_tun_check(forced: Option<&str>) -> (check: Option<DoctorCheck>)
    ensures
        match check {
            Some(found) => found@.id == "tun.perm"@ && (if forced matches Some(value) && value@
                == "pass"@ {
                found@.status == "pass"@ && found@.summary == "forced pass via TOPPY_DOCTOR_TUN"@
            } else if forced matches Some(value) && value@ == "fail"@ {
                found@.status == "fail"@ && found@.summary == "forced fail via TOPPY_DOCTOR_TUN"@
            } else {
                forced matches Some(value) && value@ == "skip"@ && found@.status == "warn"@
                    && found@.summary == "skipped via TOPPY_DOCTOR_TUN"@
            }),
            None => !(forced matches Some(value) && (value@ == "pass"@ || value@ == "fail"@
                || value@ == "skip"@)),
        },
{
    match forced {
        Some(value) => {
            if text_eq(value, "pass") {
                Some(mk("tun.perm", "pass", "forced pass via TOPPY_DOCTOR_TUN".to_owned()))
            } else if text_eq(value, "fail") {
                Some(mk("tun.perm", "fail", "forced fail via TOPPY_DOCTOR_TUN".to_owned()))
            } else if text_eq(value, "skip") {
                Some(mk("tun.perm", "warn", "skipped via TOPPY_DOCTOR_TUN".to_owned()))
            } else {
                None
            }
        },
        None => None,
    }
}

/// The finding on whether the policy lets a destination through.
pub open spec fn policy_finding(
    target: Result<Target, Seq<char>>,
    policy: Option<&PolicyConfig>,
) -> CheckView {
    let (status, summary) = match target {
        Err(reason) => ("fail"@, reason),
        Ok(destination) => match policy {
            None => ("warn"@, "policy not configured"@),
            Some(cfg) => match first_refusal(cfg.allow@) {
                Some(reason) => ("fail"@, reason),
                None => if definitions_allow(cfg.allow@, destination) {
                    ("pass"@, "target "@ + destination.text() + " allowed"@)
                } else {
                    ("fail"@, deny_reason(destination))
                },
            },
        },
    };
    CheckView { id: "policy.denied"@, status, summary }
}

/// Judges whether the policy lets a destination through. A
/// destination that could not be read fails with the reader's reason; no
/// policy is a warning; a policy that cannot be built fails with the reason;
/// otherwise the policy decides.
pub fn policy_check(target: Result<Target, String>, policy: Option<&PolicyConfig>) -> (check:
    DoctorCheck)
    ensures
        check@ == policy_finding(outcome_view(target), policy),
{
    match target {
        Err(reason) => mk("policy.denied", "fail", reason),
        Ok(destination) => match policy {
            None => mk("policy.denied", "warn", "policy not configured".to_owned()),
            Some(cfg) => match Policy::from_config(cfg) {
                Err(reason) => mk("policy.denied", "fail", reason),
                Ok(built) => match built.evaluate(&destination) {
                    Decision::Allow => {
                        let mut summary = "target ".to_owned();
                        summary.append(destination.to_text().as_str());
                        summary.append(" allowed");
                        mk("policy.denied", "pass", summary)
                    },
                    Decision::Deny { reason } => mk("policy.denied", "fail", reason),
                },
            },
        },
    }
}

/// The finding on the policy when no configuration loads.
pub fn unconfigured_policy_check() -> (check: DoctorCheck)
    ensures
        check@ == (CheckView {
            id: "policy.denied"@,
            status: "warn"@,
            summary: "skipped because config load failed"@,
        }),
{
    mk("policy.denied", "warn", "skipped because config load failed".to_owned())
}

/// The payload of the datagram echo probe.
pub open spec fn echo_payload() -> Seq<char> {
    "toppy-connect-udp-echo"@
}

/// The datagram that the echo probe sends: its payload under the context
/// id of plain UDP, in wire form.
pub fn echo_probe() -> (wire: Vec<u8>)
    ensures
        wire@ == datagram_bytes(CONNECT_UDP_CONTEXT_ID, vstd::utf8::encode_utf8(echo_payload())),
{
    let payload = vstd::slice::slice_to_vec("toppy-connect-udp-echo".as_bytes());
    let datagram = HttpDatagram::new(CONNECT_UDP_CONTEXT_ID, payload);
    match datagram.encode() {
        Ok(wire) => wire,
        Err(_) => Vec::new(),
    }
}

/// Judges what came back for the echo probe: the very bytes that were sent
/// pass.
pub fn echo_verdict(sent: &[u8], echoed: &[u8]) -> (verdict: Result<(), String>)
    ensures
        outcome_view(verdict) == if sent@ == echoed@ {
            Ok::<(), Seq<char>>(())
        } else {
            Err::<(), Seq<char>>("datagram echo mismatch"@)
        },
{
    if bytes_eq(sent, echoed) {
        Ok(())
    } else {
        Err("datagram echo mismatch".to_owned())
    }
}

/// Judges the status that answered a tunnel request: 200 passes, 401 says
/// that the token was refused, and anything else is reported with
/// `status_line`, the status as the transport words it.
pub fn handshake_verdict(status: u16, status_line: &str) -> (verdict: Result<(), String>)
    ensures
        outcome_view(verdict) == if status == 200 {
            Ok::<(), Seq<char>>(())
        } else if status == 401 {
            Err::<(), Seq<char>>("connect-udp unauthorized"@)
        } else {
            Err::<(), Seq<char>>("connect-udp unexpected status: "@ + status_line@)
        },
{
    if status == 200 {
        Ok(())
    } else if status == 401 {
        Err("connect-udp unauthorized".to_owned())
    } else {
        let mut reason = "connect-udp unexpected status: ".to_owned();
        reason.append(status_line);
        Err(reason)
    }
}

/// A byte string as a list of decimal numbers in square brackets.
pub open spec fn bytes_listing(data: Seq<u8>) -> Seq<char>
    decreases data.len(),
{
    if data.len() == 0 {
        "["@
    } else if data.len() == 1 {
        "["@ + decimal_text(data[0] as nat)
    } else {
        bytes_listing(data.drop_last()) + ", "@ + decimal_text(data.last() as nat)
    }
}

/// Judges what the gateway answered a ping: "pong" passes, "unauthorized"
/// says that the token was refused, and anything else is reported as it
/// came.
pub fn ping_verdict(data: &[u8]) -> (verdict: Result<(), String>)
    ensures
        outcome_view(verdict) == if data@ == vstd::utf8::encode_utf8("pong"@) {
            Ok::<(), Seq<char>>(())
        } else if data@ == vstd::utf8::encode_utf8("unauthorized"@) {
            Err::<(), Seq<char>>("token rejected by gateway"@)
        } else {
            Err::<(), Seq<char>>("unexpected response: "@ + bytes_listing(data@) + "]"@)
        },
{
    if bytes_eq(data, "pong".as_bytes()) {
        return Ok(());
    }
    if bytes_eq(data, "unauthorized".as_bytes()) {
        proof {
            reveal_strlit("pong");
            reveal_strlit("unauthorized");
            vstd::utf8::encode_utf8_decode_utf8("pong"@);
            vstd::utf8::encode_utf8_decode_utf8("unauthorized"@);
        }
        return Err("token rejected by gateway".to_owned());
    }
    let mut reason = "unexpected response: ".to_owned();
    reason.append("[");
    let mut i: usize = 0;
    while i < data.len()
        invariant
            i <= data@.len(),
            reason@ == "unexpected response: "@ + bytes_listing(data@.take(i as int)),
        decreases data@.len() - i,
    {
        if i > 0 {
            reason.append(", ");
        }
        push_decimal(&mut reason, data[i] as u64);
        proof {
            let next = data@.take(i as int + 1);
            assert(next.drop_last() =~= data@.take(i as int));
            assert(next.last() == data@[i as int]);
            assert(reason@ =~= "unexpected response: "@ + bytes_listing(next));
        }
        i += 1;
    }
    assert(data@.take(i as int) =~= data@);
    reason.append("]");
    Err(reason)
}

} // verus!

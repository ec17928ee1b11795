//! Server diagnosis: endpoint resolution, library listing, transcode health,
//! and the detect / remediate / notify decisions of the memory guard.
use vstd::prelude::*;

use crate::error::PluginError;
use crate::text::{decimal, decimal_string, push_decimal, strip_trailing, strip_trailing_char};

verus! {

// ---------------------------------------------------------------------------
// Endpoint registry
// ---------------------------------------------------------------------------

/// A registered Jellyfin server.
#[derive(Debug, Clone, PartialEq, Eq)]
pub struct JellyfinEndpoint {
    pub name: String,
    pub base_url: String,
    pub token: String,
    pub enabled: bool,
}

/// Where and how to reach a server: its base URL and API token.
#[derive(Debug, Clone, PartialEq, Eq)]
pub struct ClientConfig {
    pub base_url: String,
    pub token: String,
}

/// The connection settings of the endpoint `name`, given the registry row
/// stored under that name: refused when there is none or it is disabled.
pub fn endpoint_config(name: &str, row: Option<JellyfinEndpoint>) -> (r: Result<
    ClientConfig,
    PluginError,
>)
    ensures
        match row {
            None => r matches Err(PluginError::EndpointNotRegistered(n)) && n@ == name@,
            Some(e) => if e.enabled {
                r matches Ok(c) && c.base_url == e.base_url && c.token == e.token
            } else {
                r matches Err(PluginError::EndpointDisabled(n)) && n@ == name@
            },
        },
{
    match row {
        None => Err(PluginError::EndpointNotRegistered(String::from_str(name))),
        Some(e) => {
            if !e.enabled {
                Err(PluginError::EndpointDisabled(String::from_str(name)))
            } else {
                Ok(ClientConfig { base_url: e.base_url, token: e.token })
            }
        },
    }
}

impl ClientConfig {
    /// The URL of the API path `path` (which starts with `/`) on this
    /// server; trailing slashes of the base URL are dropped so that no `//`
    /// appears between the two.
    pub fn url(&self, path: &str) -> (u: String)
        ensures
            u@ == strip_trailing(self.base_url@, '/') + path@,
    {
        let mut u = strip_trailing_char(self.base_url.as_str(), '/');
        u.append(path);
        u
    }

    /// The value of the `Authorization` header: `MediaBrowser Token="<token>"`.
    pub fn authorization(&self) -> (h: String)
        ensures
            h@ == "MediaBrowser Token=\""@ + self.token@ + "\""@,
    {
        let mut h = String::from_str("MediaBrowser Token=\"");
        h.append(self.token.as_str());
        h.append("\"");
        h
    }
}

/// Arguments of `jellyfin.server_info`.
#[derive(Debug, Clone, PartialEq, Eq)]
pub struct JellyfinServerInfoArgs {
    /// Registered endpoint name.
    pub endpoint: String,
}

// ---------------------------------------------------------------------------
// Libraries
// ---------------------------------------------------------------------------

/// Arguments of `jellyfin.libraries`.
#[derive(Debug, Clone, PartialEq, Eq)]
pub struct JellyfinLibrariesArgs {
    /// Registered endpoint name.
    pub endpoint: String,
}

/// A configured library as the server describes it (`/Library/VirtualFolders`).
#[derive(Debug, Clone, PartialEq, Eq)]
pub struct VirtualFolder {
    pub name: Option<String>,
    pub collection_type: Option<String>,
    pub locations: Option<Vec<String>>,
    pub item_id: Option<String>,
}

/// One configured library, flattened for the tool boundary.
#[derive(Debug, Clone, PartialEq, Eq)]
pub struct JellyfinLibrary {
    pub name: Option<String>,
    pub collection_type: Option<String>,
    pub locations: Vec<String>,
    pub item_id: Option<String>,
}

/// Configured libraries of a server.
#[derive(Debug, Clone, PartialEq, Eq)]
pub struct JellyfinLibrariesOutput {
    /// Configured libraries from `/Library/VirtualFolders`.
    pub libraries: Vec<JellyfinLibrary>,
}

impl JellyfinLibrary {
    /// The library a virtual folder describes; a folder without locations
    /// has none.
    pub fn from_folder(v: VirtualFolder) -> (l: JellyfinLibrary)
        ensures
            l.name == v.name,
            l.collection_type == v.collection_type,
            l.item_id == v.item_id,
            l.locations@ == match v.locations {
                Some(locs) => locs@,
                None => Seq::<String>::empty(),
            },
    {
        let locations = match v.locations {
            Some(locs) => locs,
            None => Vec::new(),
        };
        JellyfinLibrary {
            name: v.name,
            collection_type: v.collection_type,
            locations,
            item_id: v.item_id,
        }
    }
}

// ---------------------------------------------------------------------------
// Transcode health
// ---------------------------------------------------------------------------

/// Arguments of `jellyfin.transcode_health`.
#[derive(Debug, Clone, PartialEq, Eq)]
pub struct JellyfinTranscodeHealthArgs {
    /// Registered endpoint name.
    pub endpoint: String,
}

/// The transcode state of one active session.
#[derive(Debug, Clone, Copy, PartialEq, Eq, Structural)]
pub struct SessionTranscodeHealth {
    /// The session is transcoding (it has a `TranscodingInfo`).
    pub is_transcoding: bool,
    /// The session transcodes on the CPU instead of a hardware encoder.
    pub software_fallback: bool,
}

/// The transcode state of a session from its `TranscodingInfo`: it
/// transcodes when the info is present (`transcoding`), and it falls back to
/// software when the info's hardware acceleration type is `none` or absent.
pub fn session_health(transcoding: bool, hardware_acceleration: Option<&str>) -> (h:
    SessionTranscodeHealth)
    ensures
        h.is_transcoding == transcoding,
        h.software_fallback == (transcoding && match hardware_acceleration {
            None => true,
            Some(kind) => kind@ == "none"@,
        }),
{
    let software = match hardware_acceleration {
        None => true,
        Some(kind) => String::from_str(kind) == String::from_str("none"),
    };
    SessionTranscodeHealth { is_transcoding: transcoding, software_fallback: transcoding && software }
}

/// The transcode health of a server.
#[derive(Debug, Clone, PartialEq, Eq)]
pub struct JellyfinTranscodeHealthOutput {
    /// Total active sessions reported by `/Sessions`.
    pub session_count: usize,
    /// Sessions actively transcoding.
    pub transcoding_count: usize,
    /// Sessions transcoding on the CPU instead of a hardware encoder/decoder.
    pub software_fallback_count: usize,
    /// True when at least one session is a software fallback.
    pub any_software_fallback: bool,
    /// Per-session detail.
    pub sessions: Vec<SessionTranscodeHealth>,
}

/// The number of transcoding sessions in `s`.
pub open spec fn transcoding_in(s: Seq<SessionTranscodeHealth>) -> nat
    decreases s.len(),
{
    if s.len() == 0 {
        0
    } else {
        transcoding_in(s.drop_last()) + if s.last().is_transcoding {
            1nat
        } else {
            0nat
        }
    }
}

/// The number of software-fallback sessions in `s`.
pub open spec fn fallback_in(s: Seq<SessionTranscodeHealth>) -> nat
    decreases s.len(),
{
    if s.len() == 0 {
        0
    } else {
        fallback_in(s.drop_last()) + if s.last().software_fallback {
            1nat
        } else {
            0nat
        }
    }
}

/// Neither count exceeds the number of sessions.
pub proof fn law_counts_bounded(s: Seq<SessionTranscodeHealth>)
    ensures
        transcoding_in(s) <= s.len(),
        fallback_in(s) <= s.len(),
    decreases s.len(),
{
    if s.len() > 0 {
        law_counts_bounded(s.drop_last());
    }
}

/// `fallback_in` counts the sessions that `pred` selects, when `pred` picks
/// the software-fallback sessions.
proof fn lemma_fallback_filter(
    s: Seq<SessionTranscodeHealth>,
    pred: spec_fn(SessionTranscodeHealth) -> bool,
)
    requires
        forall|x: SessionTranscodeHealth| #[trigger] pred(x) == x.software_fallback,
    ensures
        fallback_in(s) == s.filter(pred).len(),
    decreases s.len(),
{
    reveal(Seq::filter);
    if s.len() > 0 {
        lemma_fallback_filter(s.drop_last(), pred);
    }
}

/// `transcoding_in` counts the sessions that `pred` selects, when `pred`
/// picks the transcoding sessions.
proof fn lemma_transcoding_filter(
    s: Seq<SessionTranscodeHealth>,
    pred: spec_fn(SessionTranscodeHealth) -> bool,
)
    requires
        forall|x: SessionTranscodeHealth| #[trigger] pred(x) == x.is_transcoding,
    ensures
        transcoding_in(s) == s.filter(pred).len(),
    decreases s.len(),
{
    reveal(Seq::filter);
    if s.len() > 0 {
        lemma_transcoding_filter(s.drop_last(), pred);
    }
}

/// Some session falls back to software exactly when the fallback count is
/// positive; likewise for transcoding sessions.
proof fn lemma_counts_positive(s: Seq<SessionTranscodeHealth>)
    ensures
        fallback_in(s) > 0 <==> exists|i: int| 0 <= i < s.len() && #[trigger] s[i].software_fallback,
        transcoding_in(s) > 0 <==> exists|i: int| 0 <= i < s.len() && #[trigger] s[i].is_transcoding,
    decreases s.len(),
{
    if s.len() > 0 {
        let d = s.drop_last();
        lemma_counts_positive(d);
        if exists|i: int| 0 <= i < d.len() && #[trigger] d[i].software_fallback {
            let i = choose|i: int| 0 <= i < d.len() && #[trigger] d[i].software_fallback;
            assert(s[i] == d[i]);
        }
        if exists|i: int| 0 <= i < s.len() && #[trigger] s[i].software_fallback {
            let i = choose|i: int| 0 <= i < s.len() && #[trigger] s[i].software_fallback;
            if i < d.len() {
                assert(d[i] == s[i]);
            }
        }
        if exists|i: int| 0 <= i < d.len() && #[trigger] d[i].is_transcoding {
            let i = choose|i: int| 0 <= i < d.len() && #[trigger] d[i].is_transcoding;
            assert(s[i] == d[i]);
        }
        if exists|i: int| 0 <= i < s.len() && #[trigger] s[i].is_transcoding {
            let i = choose|i: int| 0 <= i < s.len() && #[trigger] s[i].is_transcoding;
            if i < d.len() {
                assert(d[i] == s[i]);
            }
        }
    }
}

/// The transcode summary counts every session: the fallback count is the
/// number of sessions that fall back to software, the transcoding count the
/// number that transcode, and a fallback is flagged exactly when some
/// session falls back.
pub proof fn law_summary_counts(sessions: Seq<SessionTranscodeHealth>)
    ensures
        fallback_in(sessions) == sessions.filter(
            |x: SessionTranscodeHealth| x.software_fallback,
        ).len(),
        transcoding_in(sessions) == sessions.filter(
            |x: SessionTranscodeHealth| x.is_transcoding,
        ).len(),
        (fallback_in(sessions) > 0) <==> exists|i: int|
            0 <= i < sessions.len() && #[trigger] sessions[i].software_fallback,
{
    lemma_fallback_filter(sessions, |x: SessionTranscodeHealth| x.software_fallback);
    lemma_transcoding_filter(sessions, |x: SessionTranscodeHealth| x.is_transcoding);
    lemma_counts_positive(sessions);
}

/// The number of transcoding sessions.
pub fn count_transcoding(sessions: &Vec<SessionTranscodeHealth>) -> (n: usize)
    ensures
        n == transcoding_in(sessions@),
        n <= sessions.len(),
{
    let mut n: usize = 0;
    let mut i: usize = 0;
    while i < sessions.len()
        invariant
            i <= sessions.len(),
            n == transcoding_in(sessions@.take(i as int)),
            n <= i,
        decreases sessions.len() - i,
    {
        assert(sessions@.take(i + 1).drop_last() =~= sessions@.take(i as int));
        if sessions[i].is_transcoding {
            n += 1;
        }
        i += 1;
    }
    assert(sessions@.take(sessions.len() as int) =~= sessions@);
    n
}

/// The number of software-fallback sessions.
pub fn count_fallback(sessions: &Vec<SessionTranscodeHealth>) -> (n: usize)
    ensures
        n == fallback_in(sessions@),
        n <= sessions.len(),
{
    let mut n: usize = 0;
    let mut i: usize = 0;
    while i < sessions.len()
        invariant
            i <= sessions.len(),
            n == fallback_in(sessions@.take(i as int)),
            n <= i,
        decreases sessions.len() - i,
    {
        assert(sessions@.take(i + 1).drop_last() =~= sessions@.take(i as int));
        if sessions[i].software_fallback {
            n += 1;
        }
        i += 1;
    }
    assert(sessions@.take(sessions.len() as int) =~= sessions@);
    n
}

/// Classify the active sessions: how many there are, how many transcode, how
/// many fall back to software, and whether any does.
pub fn transcode_summary(sessions: Vec<SessionTranscodeHealth>) -> (out:
    JellyfinTranscodeHealthOutput)
    ensures
        out.sessions@ == sessions@,
        out.session_count == sessions.len(),
        out.transcoding_count == transcoding_in(sessions@),
        out.software_fallback_count == fallback_in(sessions@),
        out.any_software_fallback == (fallback_in(sessions@) > 0),
{
    let session_count = sessions.len();
    let transcoding_count = count_transcoding(&sessions);
    let software_fallback_count = count_fallback(&sessions);
    JellyfinTranscodeHealthOutput {
        session_count,
        transcoding_count,
        software_fallback_count,
        any_software_fallback: software_fallback_count > 0,
        sessions,
    }
}

// ---------------------------------------------------------------------------
// Memory guard: detect, remediate, notify
// ---------------------------------------------------------------------------

/// Remediation policy of the memory guard.
#[derive(Debug, Clone, Copy, PartialEq, Eq, Structural)]
pub enum MemoryGuardAction {
    /// Detect-only: probe liveness + transcode load, never remediate.
    Probe,
    /// Detect, and if memory pressure is found, restart Jellyfin to recover.
    Recover,
}

impl Default for MemoryGuardAction {
    fn default() -> (a: MemoryGuardAction)
        ensures
            a == MemoryGuardAction::Probe,
    {
        MemoryGuardAction::Probe
    }
}

/// Default active-transcode count at or above which the service is
/// considered under memory pressure.
pub fn default_transcode_threshold() -> (n: usize)
    ensures
        n == 4,
{
    4
}

/// Arguments of `jellyfin.memory_guard`.
#[derive(Debug, Clone, PartialEq, Eq)]
pub struct JellyfinMemoryGuardArgs {
    /// Registered endpoint name.
    pub endpoint: String,
    /// What to do when pressure is detected.
    pub action: MemoryGuardAction,
    /// Active-transcode count at or above which the service is considered
    /// under memory pressure even while still reachable.
    pub transcode_threshold: usize,
}

/// What the memory guard reports.
#[derive(Debug, Clone, PartialEq, Eq)]
pub struct JellyfinMemoryGuardOutput {
    /// True when the service answered the liveness probe.
    pub reachable: bool,
    /// HTTP status from the liveness probe, when reachable.
    pub liveness_status: Option<u16>,
    /// Active transcoding sessions observed (when reachable).
    pub transcoding_count: usize,
    /// True when the detector judged the service under memory pressure.
    pub pressure_detected: bool,
    /// Why pressure was flagged (unreachable / transcode pile-up), if any.
    pub pressure_reason: Option<String>,
    /// True when a Jellyfin restart was performed this call.
    pub restarted: bool,
    /// Liveness status after a restart, when one was performed and re-probed.
    pub post_restart_status: Option<u16>,
    /// True when recovery completed and the service is reachable again.
    pub recovered: bool,
}

/// The contents of a [`JellyfinMemoryGuardOutput`].
pub struct GuardReport {
    pub reachable: bool,
    pub liveness_status: Option<u16>,
    pub transcoding_count: usize,
    pub pressure_detected: bool,
    pub pressure_reason: Option<Seq<char>>,
    pub restarted: bool,
    pub post_restart_status: Option<u16>,
    pub recovered: bool,
}

/// The text of an optional string.
pub open spec fn opt_view(o: Option<String>) -> Option<Seq<char>> {
    match o {
        Some(s) => Some(s@),
        None => None,
    }
}

impl View for JellyfinMemoryGuardOutput {
    type V = GuardReport;

    open spec fn view(&self) -> GuardReport {
        GuardReport {
            reachable: self.reachable,
            liveness_status: self.liveness_status,
            transcoding_count: self.transcoding_count,
            pressure_detected: self.pressure_detected,
            pressure_reason: opt_view(self.pressure_reason),
            restarted: self.restarted,
            post_restart_status: self.post_restart_status,
            recovered: self.recovered,
        }
    }
}

/// Why the service is judged under memory pressure, if it is: it did not
/// answer the liveness probe, or it runs at least `threshold` transcodes.
pub open spec fn pressure_reason_text(reachable: bool, count: nat, threshold: nat) -> Option<
    Seq<char>,
> {
    if !reachable {
        Some("liveness probe failed (timeout/5xx under memory thrash)"@)
    } else if count >= threshold {
        Some(decimal(count) + " active transcodes \u{2265} threshold "@ + decimal(threshold))
    } else {
        None
    }
}

/// The report of a guard run from what it observed.
pub open spec fn guard_report(
    reachable: bool,
    liveness_status: Option<u16>,
    count: usize,
    threshold: usize,
    restarted: bool,
    post_restart_status: Option<u16>,
) -> GuardReport {
    let reason = pressure_reason_text(reachable, count as nat, threshold as nat);
    GuardReport {
        reachable,
        liveness_status,
        transcoding_count: count,
        pressure_detected: reason is Some,
        pressure_reason: reason,
        restarted,
        post_restart_status,
        recovered: if restarted {
            post_restart_status is Some
        } else {
            reachable && reason is None
        },
    }
}

/// What every finished guard report satisfies, for the policy `action` and
/// the pressure threshold `threshold`.
pub open spec fn report_consistent(
    r: GuardReport,
    action: MemoryGuardAction,
    threshold: usize,
) -> bool {
    &&& r.reachable <==> r.liveness_status is Some
    &&& !r.reachable ==> r.transcoding_count == 0
    &&& r.pressure_detected <==> (!r.reachable || r.transcoding_count >= threshold)
    &&& r.pressure_reason is Some <==> r.pressure_detected
    &&& r.restarted <==> (r.pressure_detected && action == MemoryGuardAction::Recover)
    &&& !r.restarted ==> r.post_restart_status is None
    &&& r.recovered <==> (if r.restarted {
        r.post_restart_status is Some
    } else {
        r.reachable && !r.pressure_detected
    })
}

/// Why the service is judged under memory pressure, if it is.
pub fn pressure_reason(reachable: bool, count: usize, threshold: usize) -> (r: Option<String>)
    ensures
        opt_view(r) == pressure_reason_text(reachable, count as nat, threshold as nat),
{
    if !reachable {
        Some(String::from_str("liveness probe failed (timeout/5xx under memory thrash)"))
    } else if count >= threshold {
        let mut text = decimal_string(count as u64);
        text.append(" active transcodes \u{2265} threshold ");
        push_decimal(&mut text, threshold as u64);
        Some(text)
    } else {
        None
    }
}

/// The report of a guard run from what it observed.
fn build_report(
    reachable: bool,
    liveness_status: Option<u16>,
    count: usize,
    threshold: usize,
    restarted: bool,
    post_restart_status: Option<u16>,
) -> (out: JellyfinMemoryGuardOutput)
    ensures
        out@ == guard_report(
            reachable,
            liveness_status,
            count,
            threshold,
            restarted,
            post_restart_status,
        ),
{
    let reason = pressure_reason(reachable, count, threshold);
    let pressure_detected = reason.is_some();
    let recovered = if restarted {
        post_restart_status.is_some()
    } else {
        reachable && !pressure_detected
    };
    JellyfinMemoryGuardOutput {
        reachable,
        liveness_status,
        transcoding_count: count,
        pressure_detected,
        pressure_reason: reason,
        restarted,
        post_restart_status,
        recovered,
    }
}

/// Where a guard run stands.
#[derive(Debug, Clone, Copy, PartialEq, Eq, Structural)]
pub enum GuardPhase {
    /// Waiting for the first liveness probe.
    AwaitLiveness,
    /// Waiting for the active sessions.
    AwaitSessions,
    /// Waiting for the restart to complete.
    AwaitRestart,
    /// Waiting for the liveness probe after the restart.
    AwaitReprobe,
    /// Finished.
    Done,
}

/// What the caller observed for the step it was asked to perform.
#[derive(Debug)]
pub enum GuardEvent {
    /// The liveness probe answered with this status, or failed (`None`).
    Liveness(Option<u16>),
    /// The active sessions, or `None` when they could not be fetched.
    Sessions(Option<Vec<SessionTranscodeHealth>>),
    /// Whether the restart request succeeded.
    Restarted(bool),
}

/// What the caller is to do next.
#[derive(Debug)]
pub enum GuardStep {
    /// GET `/System/Info` and report its status (`GuardEvent::Liveness`).
    ProbeLiveness,
    /// GET `/Sessions` and report them (`GuardEvent::Sessions`).
    FetchSessions,
    /// POST `/System/Restart` and report whether it succeeded.
    Restart,
    /// The run is over: report this.
    Finish(JellyfinMemoryGuardOutput),
    /// The run failed.
    Fail(PluginError),
}

/// The state of one memory-guard run: detect memory pressure from liveness
/// and transcode load, restart the server under the `recover` policy, and
/// confirm recovery.
#[derive(Debug, Clone, Copy, PartialEq, Eq)]
pub struct MemoryGuard {
    pub action: MemoryGuardAction,
    pub threshold: usize,
    pub phase: GuardPhase,
    pub reachable: bool,
    pub liveness_status: Option<u16>,
    pub transcoding_count: usize,
}

impl MemoryGuard {
    /// The phase's expected event is `e`.
    pub open spec fn expects(self, e: GuardEvent) -> bool {
        match self.phase {
            GuardPhase::AwaitLiveness => e is Liveness,
            GuardPhase::AwaitReprobe => e is Liveness,
            GuardPhase::AwaitSessions => e is Sessions,
            GuardPhase::AwaitRestart => e is Restarted,
            GuardPhase::Done => false,
        }
    }

    /// What holds of the observations in each phase.
    pub open spec fn wf(self) -> bool {
        match self.phase {
            GuardPhase::AwaitLiveness => !self.reachable && self.liveness_status is None
                && self.transcoding_count == 0,
            GuardPhase::AwaitSessions => self.reachable && self.liveness_status is Some
                && self.transcoding_count == 0,
            GuardPhase::AwaitRestart | GuardPhase::AwaitReprobe => {
                &&& self.action == MemoryGuardAction::Recover
                &&& pressure_reason_text(
                    self.reachable,
                    self.transcoding_count as nat,
                    self.threshold as nat,
                ) is Some
                &&& self.reachable <==> self.liveness_status is Some
                &&& !self.reachable ==> self.transcoding_count == 0
            },
            GuardPhase::Done => true,
        }
    }

    /// After the detection phase: restart when under pressure with the
    /// `recover` policy, otherwise finish with the report.
    pub open spec fn decided(self, next: MemoryGuard, step: GuardStep) -> bool {
        &&& next.action == self.action
        &&& next.threshold == self.threshold
        &&& if pressure_reason_text(
            next.reachable,
            next.transcoding_count as nat,
            self.threshold as nat,
        ) is Some && self.action == MemoryGuardAction::Recover {
            step is Restart && next.phase == GuardPhase::AwaitRestart
        } else {
            &&& next.phase == GuardPhase::Done
            &&& step matches GuardStep::Finish(out) && out@ == guard_report(
                next.reachable,
                next.liveness_status,
                next.transcoding_count,
                self.threshold,
                false,
                None,
            )
        }
    }

    /// A new run under the policy and threshold of `args`; the first step
    /// is the liveness probe.
    pub fn start(args: &JellyfinMemoryGuardArgs) -> (r: (MemoryGuard, GuardStep))
        ensures
            r.0.wf(),
            r.0.phase == GuardPhase::AwaitLiveness,
            r.0.action == args.action,
            r.0.threshold == args.transcode_threshold,
            r.1 is ProbeLiveness,
    {
        (
            MemoryGuard {
                action: args.action,
                threshold: args.transcode_threshold,
                phase: GuardPhase::AwaitLiveness,
                reachable: false,
                liveness_status: None,
                transcoding_count: 0,
            },
            GuardStep::ProbeLiveness,
        )
    }

    fn decide(&mut self) -> (step: GuardStep)
        requires
            old(self).reachable <==> old(self).liveness_status is Some,
            !old(self).reachable ==> old(self).transcoding_count == 0,
        ensures
            final(self).reachable == old(self).reachable,
            final(self).liveness_status == old(self).liveness_status,
            final(self).transcoding_count == old(self).transcoding_count,
            old(self).decided(*final(self), step),
            final(self).wf(),
    {
        let pressure = self.reachable == false || self.transcoding_count >= self.threshold;
        let recover = match self.action {
            MemoryGuardAction::Recover => true,
            MemoryGuardAction::Probe => false,
        };
        if pressure && recover {
            self.phase = GuardPhase::AwaitRestart;
            GuardStep::Restart
        } else {
            self.phase = GuardPhase::Done;
            GuardStep::Finish(
                build_report(
                    self.reachable,
                    self.liveness_status,
                    self.transcoding_count,
                    self.threshold,
                    false,
                    None,
                ),
            )
        }
    }

    /// Advance the run with what the caller observed.
    pub fn step(&mut self, event: GuardEvent) -> (step: GuardStep)
        requires
            old(self).wf(),
            old(self).expects(event),
        ensures
            final(self).wf(),
            final(self).action == old(self).action,
            final(self).threshold == old(self).threshold,
            match old(self).phase {
                GuardPhase::AwaitLiveness => match event {
                    GuardEvent::Liveness(Some(status)) => {
                        &&& step is FetchSessions
                        &&& final(self).phase == GuardPhase::AwaitSessions
                        &&& final(self).liveness_status == Some(status)
                    },
                    _ => {
                        &&& !final(self).reachable
                        &&& final(self).transcoding_count == 0
                        &&& old(self).decided(*final(self), step)
                    },
                },
                GuardPhase::AwaitSessions => match event {
                    GuardEvent::Sessions(sessions) => {
                        &&& final(self).reachable
                        &&& final(self).liveness_status == old(self).liveness_status
                        &&& final(self).transcoding_count == match sessions {
                            Some(v) => transcoding_in(v@),
                            None => 0,
                        }
                        &&& old(self).decided(*final(self), step)
                    },
                    _ => false,
                },
                GuardPhase::AwaitRestart => match event {
                    GuardEvent::Restarted(true) => {
                        &&& step is ProbeLiveness
                        &&& final(self).phase == GuardPhase::AwaitReprobe
                        &&& final(self).reachable == old(self).reachable
                        &&& final(self).liveness_status == old(self).liveness_status
                        &&& final(self).transcoding_count == old(self).transcoding_count
                    },
                    _ => step matches GuardStep::Fail(e) && e is RestartFailed && final(self).phase
                        == GuardPhase::Done,
                },
                GuardPhase::AwaitReprobe => match event {
                    GuardEvent::Liveness(post) => {
                        &&& final(self).phase == GuardPhase::Done
                        &&& step matches GuardStep::Finish(out) && out@ == guard_report(
                            old(self).reachable,
                            old(self).liveness_status,
                            old(self).transcoding_count,
                            old(self).threshold,
                            true,
                            post,
                        )
                    },
                    _ => false,
                },
                GuardPhase::Done => false,
            },
            step matches GuardStep::Finish(out) ==> report_consistent(
                out@,
                old(self).action,
                old(self).threshold,
            ),
            step is Restart ==> old(self).action == MemoryGuardAction::Recover,
            step is Fail ==> (old(self).phase == GuardPhase::AwaitRestart
                && event matches GuardEvent::Restarted(false)),
    {
        match event {
            GuardEvent::Liveness(status) => {
                if matches!(self.phase, GuardPhase::AwaitReprobe) {
                    self.phase = GuardPhase::Done;
                    return GuardStep::Finish(
                        build_report(
                            self.reachable,
                            self.liveness_status,
                            self.transcoding_count,
                            self.threshold,
                            true,
                            status,
                        ),
                    );
                }
                match status {
                    Some(s) => {
                        self.reachable = true;
                        self.liveness_status = Some(s);
                        self.phase = GuardPhase::AwaitSessions;
                        GuardStep::FetchSessions
                    },
                    None => self.decide(),
                }
            },
            GuardEvent::Sessions(sessions) => {
                self.transcoding_count =
                    match sessions {
                        Some(v) => count_transcoding(&v),
                        None => 0,
                    };
                self.decide()
            },
            GuardEvent::Restarted(ok) => {
                if ok {
                    self.phase = GuardPhase::AwaitReprobe;
                    GuardStep::ProbeLiveness
                } else {
                    self.phase = GuardPhase::Done;
                    GuardStep::Fail(PluginError::RestartFailed)
                }
            },
        }
    }
}

// ---------------------------------------------------------------------------
// Outcome notification
// ---------------------------------------------------------------------------

/// Class of a notification event.
#[derive(Debug, Clone, Copy, PartialEq, Eq, Structural)]
pub enum EventClass {
    Heartbeat,
    Lifecycle,
    Alert,
    Drift,
}

/// Severity of a notification event.
#[derive(Debug, Clone, Copy, PartialEq, Eq, Structural)]
pub enum NoticeSeverity {
    Info,
    Warn,
    Error,
}

/// The notification of a memory-guard outcome.
#[derive(Debug, Clone, PartialEq, Eq)]
pub struct OutcomeNotice {
    pub class: EventClass,
    pub severity: NoticeSeverity,
    pub title: String,
    pub body: String,
    /// The emitting tool.
    pub source: String,
    /// The endpoint the outcome concerns.
    pub host: String,
}

/// Class and severity of an outcome: healthy is a heartbeat; a restart that
/// recovered is a lifecycle warning; a restart not yet answered is an error
/// alert; pressure seen by a probe-only run is a drift warning.
pub open spec fn notice_kind(pressure: bool, restarted: bool, recovered: bool) -> (
    EventClass,
    NoticeSeverity,
) {
    if !pressure {
        (EventClass::Heartbeat, NoticeSeverity::Info)
    } else if restarted && recovered {
        (EventClass::Lifecycle, NoticeSeverity::Warn)
    } else if restarted {
        (EventClass::Alert, NoticeSeverity::Error)
    } else {
        (EventClass::Drift, NoticeSeverity::Warn)
    }
}

/// Title of an outcome notification.
pub open spec fn notice_title(
    endpoint: Seq<char>,
    pressure: bool,
    restarted: bool,
    recovered: bool,
) -> Seq<char> {
    "jellyfin '"@ + endpoint + if !pressure {
        "': memory healthy"@
    } else if restarted && recovered {
        "': memory pressure \u{2014} restarted, recovered"@
    } else if restarted {
        "': restarted but not yet reachable"@
    } else {
        "': memory pressure detected (probe-only)"@
    }
}

/// Body of an outcome notification.
pub open spec fn notice_body(count: nat, reason: Option<Seq<char>>) -> Seq<char> {
    "active transcodes: "@ + decimal(count) + match reason {
        Some(r) => "\nreason: "@ + r,
        None => Seq::<char>::empty(),
    }
}

/// The notification of a memory-guard outcome.
pub fn outcome_notice(
    endpoint: &str,
    pressure_detected: bool,
    restarted: bool,
    recovered: bool,
    reason: Option<&str>,
    transcoding_count: usize,
) -> (n: OutcomeNotice)
    ensures
        (n.class, n.severity) == notice_kind(pressure_detected, restarted, recovered),
        n.title@ == notice_title(endpoint@, pressure_detected, restarted, recovered),
        n.body@ == notice_body(
            transcoding_count as nat,
            match reason {
                Some(r) => Some(r@),
                None => None,
            },
        ),
        n.source@ == "jellyfin:memory_guard"@,
        n.host@ == endpoint@,
{
    let (class, severity, tail) = if !pressure_detected {
        (EventClass::Heartbeat, NoticeSeverity::Info, "': memory healthy")
    } else if restarted && recovered {
        (
            EventClass::Lifecycle,
            NoticeSeverity::Warn,
            "': memory pressure \u{2014} restarted, recovered",
        )
    } else if restarted {
        (EventClass::Alert, NoticeSeverity::Error, "': restarted but not yet reachable")
    } else {
        (EventClass::Drift, NoticeSeverity::Warn, "': memory pressure detected (probe-only)")
    };
    let mut title = String::from_str("jellyfin '");
    title.append(endpoint);
    title.append(tail);
    let mut body = String::from_str("active transcodes: ");
    push_decimal(&mut body, transcoding_count as u64);
    match reason {
        Some(r) => {
            body.append("\nreason: ");
            body.append(r);
        },
        None => {},
    }
    OutcomeNotice {
        class,
        severity,
        title,
        body,
        source: String::from_str("jellyfin:memory_guard"),
        host: String::from_str(endpoint),
    }
}

} // verus!

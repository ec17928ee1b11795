use jellyfin::error::PluginError;
use jellyfin::tools::{session_health, ClientConfig};
use jellyfin::text::decimal_string;
use jellyfin::tools::{
    default_transcode_threshold, endpoint_config, outcome_notice, pressure_reason,
    transcode_summary, EventClass, GuardEvent, GuardPhase, GuardStep, JellyfinEndpoint,
    JellyfinLibrary, JellyfinMemoryGuardArgs, MemoryGuard, MemoryGuardAction, NoticeSeverity,
    SessionTranscodeHealth, VirtualFolder,
};

fn endpoint(enabled: bool) -> JellyfinEndpoint {
    JellyfinEndpoint {
        name: "media".to_string(),
        base_url: "http://h:8096".to_string(),
        token: "tok".to_string(),
        enabled,
    }
}

#[test]
fn endpoint_resolution() {
    let err = endpoint_config("media", None).unwrap_err();
    assert_eq!(err.message(), "jellyfin endpoint 'media' not registered");
    let err = endpoint_config("media", Some(endpoint(false))).unwrap_err();
    assert_eq!(err, PluginError::EndpointDisabled("media".to_string()));
    assert_eq!(err.message(), "jellyfin endpoint 'media' is disabled");
    let c = endpoint_config("media", Some(endpoint(true))).unwrap();
    assert_eq!(c.base_url, "http://h:8096");
    assert_eq!(c.token, "tok");
}

#[test]
fn library_from_folder_defaults_locations() {
    let l = JellyfinLibrary::from_folder(VirtualFolder {
        name: Some("Movies".to_string()),
        collection_type: Some("movies".to_string()),
        locations: None,
        item_id: Some("1".to_string()),
    });
    assert_eq!(l.name.as_deref(), Some("Movies"));
    assert!(l.locations.is_empty());
    let l = JellyfinLibrary::from_folder(VirtualFolder {
        name: None,
        collection_type: None,
        locations: Some(vec!["/mnt/media/movies".to_string()]),
        item_id: None,
    });
    assert_eq!(l.locations, vec!["/mnt/media/movies".to_string()]);
}

fn session(t: bool, f: bool) -> SessionTranscodeHealth {
    SessionTranscodeHealth { is_transcoding: t, software_fallback: f }
}

#[test]
fn transcode_summary_counts() {
    let out = transcode_summary(vec![session(true, true), session(true, false), session(false, false)]);
    assert_eq!(out.session_count, 3);
    assert_eq!(out.transcoding_count, 2);
    assert_eq!(out.software_fallback_count, 1);
    assert!(out.any_software_fallback);
    let none = transcode_summary(Vec::new());
    assert_eq!(none.session_count, 0);
    assert!(!none.any_software_fallback);
}

#[test]
fn pressure_reasons() {
    assert_eq!(
        pressure_reason(false, 0, 4).as_deref(),
        Some("liveness probe failed (timeout/5xx under memory thrash)")
    );
    assert_eq!(pressure_reason(true, 5, 4).as_deref(), Some("5 active transcodes ≥ threshold 4"));
    assert_eq!(pressure_reason(true, 3, 4), None);
    assert_eq!(default_transcode_threshold(), 4);
    assert_eq!(MemoryGuardAction::default(), MemoryGuardAction::Probe);
}

#[test]
fn decimal_rendering() {
    assert_eq!(decimal_string(0), "0");
    assert_eq!(decimal_string(10), "10");
    assert_eq!(decimal_string(u64::MAX), u64::MAX.to_string());
}

fn args(action: MemoryGuardAction) -> JellyfinMemoryGuardArgs {
    JellyfinMemoryGuardArgs { endpoint: "media".to_string(), action, transcode_threshold: 2 }
}

#[test]
fn guard_healthy_probe() {
    let (mut g, s) = MemoryGuard::start(&args(MemoryGuardAction::Recover));
    assert!(matches!(s, GuardStep::ProbeLiveness));
    assert!(matches!(g.step(GuardEvent::Liveness(Some(200))), GuardStep::FetchSessions));
    match g.step(GuardEvent::Sessions(Some(vec![session(true, false)]))) {
        GuardStep::Finish(out) => {
            assert!(out.reachable);
            assert_eq!(out.liveness_status, Some(200));
            assert_eq!(out.transcoding_count, 1);
            assert!(!out.pressure_detected);
            assert!(!out.restarted);
            assert!(out.recovered);
        }
        other => panic!("unexpected {other:?}"),
    }
    assert_eq!(g.phase, GuardPhase::Done);
}

#[test]
fn guard_probe_only_never_restarts() {
    let (mut g, _) = MemoryGuard::start(&args(MemoryGuardAction::Probe));
    match g.step(GuardEvent::Liveness(None)) {
        GuardStep::Finish(out) => {
            assert!(!out.reachable);
            assert!(out.pressure_detected);
            assert!(!out.restarted);
            assert!(!out.recovered);
            assert_eq!(out.transcoding_count, 0);
        }
        other => panic!("unexpected {other:?}"),
    }
}

#[test]
fn guard_recovers_after_restart() {
    let (mut g, _) = MemoryGuard::start(&args(MemoryGuardAction::Recover));
    g.step(GuardEvent::Liveness(Some(200)));
    let s = g.step(GuardEvent::Sessions(Some(vec![session(true, true), session(true, false)])));
    assert!(matches!(s, GuardStep::Restart));
    assert!(matches!(g.step(GuardEvent::Restarted(true)), GuardStep::ProbeLiveness));
    match g.step(GuardEvent::Liveness(Some(200))) {
        GuardStep::Finish(out) => {
            assert!(out.pressure_detected);
            assert_eq!(out.pressure_reason.as_deref(), Some("2 active transcodes ≥ threshold 2"));
            assert!(out.restarted);
            assert_eq!(out.post_restart_status, Some(200));
            assert!(out.recovered);
        }
        other => panic!("unexpected {other:?}"),
    }
}

#[test]
fn guard_restart_failure_fails_the_run() {
    let (mut g, _) = MemoryGuard::start(&args(MemoryGuardAction::Recover));
    assert!(matches!(g.step(GuardEvent::Liveness(None)), GuardStep::Restart));
    match g.step(GuardEvent::Restarted(false)) {
        GuardStep::Fail(e) => {
            assert_eq!(e, PluginError::RestartFailed);
            assert_eq!(e.message(), "jellyfin restart (memory_guard recovery) failed");
        }
        other => panic!("unexpected {other:?}"),
    }
}

#[test]
fn guard_restart_not_yet_reachable() {
    let (mut g, _) = MemoryGuard::start(&args(MemoryGuardAction::Recover));
    g.step(GuardEvent::Liveness(Some(200)));
    g.step(GuardEvent::Sessions(None));
    // sessions unavailable count as zero: no pressure at threshold 2
    assert_eq!(g.phase, GuardPhase::Done);
    let (mut g, _) = MemoryGuard::start(&args(MemoryGuardAction::Recover));
    g.step(GuardEvent::Liveness(None));
    g.step(GuardEvent::Restarted(true));
    match g.step(GuardEvent::Liveness(None)) {
        GuardStep::Finish(out) => {
            assert!(out.restarted);
            assert!(!out.recovered);
            assert_eq!(out.post_restart_status, None);
        }
        other => panic!("unexpected {other:?}"),
    }
}

#[test]
fn outcome_notices() {
    let n = outcome_notice("media", false, false, true, None, 1);
    assert_eq!((n.class, n.severity), (EventClass::Heartbeat, NoticeSeverity::Info));
    assert_eq!(n.title, "jellyfin 'media': memory healthy");
    assert_eq!(n.body, "active transcodes: 1");
    assert_eq!(n.source, "jellyfin:memory_guard");
    assert_eq!(n.host, "media");
    let n = outcome_notice("media", true, true, true, Some("r"), 5);
    assert_eq!((n.class, n.severity), (EventClass::Lifecycle, NoticeSeverity::Warn));
    assert_eq!(n.title, "jellyfin 'media': memory pressure — restarted, recovered");
    assert_eq!(n.body, "active transcodes: 5\nreason: r");
    let n = outcome_notice("media", true, true, false, None, 0);
    assert_eq!((n.class, n.severity), (EventClass::Alert, NoticeSeverity::Error));
    assert_eq!(n.title, "jellyfin 'media': restarted but not yet reachable");
    let n = outcome_notice("media", true, false, false, None, 0);
    assert_eq!((n.class, n.severity), (EventClass::Drift, NoticeSeverity::Warn));
    assert_eq!(n.title, "jellyfin 'media': memory pressure detected (probe-only)");
}

#[test]
fn request_url_drops_trailing_slash() {
    let c = ClientConfig { base_url: "http://127.0.0.1:8096/".to_string(), token: "tok".to_string() };
    assert_eq!(c.url("/System/Info"), "http://127.0.0.1:8096/System/Info");
    let c = ClientConfig { base_url: "http://h".to_string(), token: "tok".to_string() };
    assert_eq!(c.url("/Sessions"), "http://h/Sessions");
}

#[test]
fn authorization_uses_mediabrowser_token() {
    let c = ClientConfig { base_url: "http://h".to_string(), token: "secret-token".to_string() };
    assert_eq!(c.authorization(), "MediaBrowser Token=\"secret-token\"");
}

#[test]
fn session_health_classifies_fallback() {
    assert_eq!(session_health(false, None), session(false, false));
    assert_eq!(session_health(true, None), session(true, true));
    assert_eq!(session_health(true, Some("none")), session(true, true));
    assert_eq!(session_health(true, Some("vaapi")), session(true, false));
}

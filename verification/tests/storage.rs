use jellyfin::lifecycle::Runtime;
use jellyfin::storage::{
    check_report, classify, find_roots, guest, is_under, lines, list_mounts, probe_root, repair_decision,
    rescan_triggered, segments, unresolved_roots, RepairStep, Severity, StorageIssue,
};

fn s(v: &[&str]) -> Vec<String> {
    v.iter().map(|x| (*x).to_string()).collect()
}

#[test]
fn is_under_is_segment_aligned() {
    assert!(is_under("/mnt/data/media/movies", "/mnt/data"));
    assert!(!is_under("/mnt/database/x", "/mnt/data"));
}

#[test]
fn healthy_when_roots_backed_and_resolve() {
    let report = classify(
        s(&["/mnt/data/media/movies", "/mnt/data/media/tv"]),
        s(&["/mnt/data"]),
        &[],
    );
    assert!(report.healthy);
    assert!(report.issues.is_empty());
}

#[test]
fn flags_root_not_backed_by_mount() {
    let report = classify(s(&["/mnt/data/media/movies"]), s(&["/mnt/backups"]), &[]);
    assert!(!report.healthy);
    assert_eq!(report.issues.len(), 1);
    assert_eq!(report.issues[0].kind, "mount_missing");
    assert!(report.issues[0].blocks_rescan);
}

#[test]
fn flags_backed_but_unresolved_root() {
    let report = classify(
        s(&["/mnt/data/media/movies"]),
        s(&["/mnt/data"]),
        &s(&["/mnt/data/media/movies"]),
    );
    assert!(!report.healthy);
    assert_eq!(report.issues.len(), 1);
    assert_eq!(report.issues[0].kind, "root_unresolved");
}

#[test]
fn unresolved_under_missing_mount_reports_mount_not_unresolved() {
    let report = classify(
        s(&["/mnt/data/media/movies"]),
        s(&["/mnt/backups"]),
        &s(&["/mnt/data/media/movies"]),
    );
    assert_eq!(report.issues.len(), 1);
    assert_eq!(report.issues[0].kind, "mount_missing");
}

#[test]
fn lines_trims_and_dedupes() {
    assert_eq!(lines("  /a \n\n/a\n/b\n"), s(&["/a", "/b"]));
}

#[test]
fn lines_handles_crlf_and_unicode_whitespace() {
    assert_eq!(lines("\u{3000}/x\r\n\t/y \u{a0}\n/x\n"), s(&["/x", "/y"]));
    assert_eq!(lines(""), Vec::<String>::new());
    assert_eq!(lines(" \n \n"), Vec::<String>::new());
}

#[test]
fn segments_drop_empty_pieces() {
    assert_eq!(segments("//mnt///data/"), s(&["mnt", "data"]));
    assert_eq!(segments("/"), Vec::<String>::new());
    assert_eq!(segments("relative/path"), s(&["relative", "path"]));
}

#[test]
fn is_under_laws_on_examples() {
    // reflexive, root of everything, trailing slashes ignored
    assert!(is_under("/mnt/data", "/mnt/data"));
    assert!(is_under("/mnt/data/x", "/"));
    assert!(is_under("/mnt/data/x/", "/mnt//data/"));
    assert!(!is_under("/mnt", "/mnt/data"));
    // transitivity
    assert!(is_under("/a/b/c", "/a/b") && is_under("/a/b", "/a") && is_under("/a/b/c", "/a"));
}

#[test]
fn mount_missing_detail_lists_mounts() {
    let report = classify(s(&["/srv/media"]), s(&["/mnt/a", "/mnt/b"]), &[]);
    assert_eq!(
        report.issues[0].detail,
        "library root '/srv/media' is not backed by any live mount (/mnt/a, /mnt/b)"
    );
    assert_eq!(report.issues[0].severity, Severity::Critical);
    assert_eq!(report.issues[0].root, "/srv/media");
    let none = classify(s(&["/srv/media"]), Vec::new(), &[]);
    assert_eq!(
        none.issues[0].detail,
        "library root '/srv/media' is not backed by any live mount (no mounts observed)"
    );
}

#[test]
fn unresolved_detail_names_root() {
    let report = classify(s(&["/mnt/data/tv"]), s(&["/mnt/data"]), &s(&["/mnt/data/tv"]));
    assert_eq!(report.issues[0].detail, "library root '/mnt/data/tv' does not resolve on disk");
    assert!(report.issues[0].blocks_rescan);
}

#[test]
fn report_keeps_roots_and_mounts_and_orders_issues() {
    let report = classify(
        s(&["/x/one", "/mnt/data/two", "/mnt/data/three"]),
        s(&["/mnt/data"]),
        &s(&["/mnt/data/three"]),
    );
    assert_eq!(report.library_roots, s(&["/x/one", "/mnt/data/two", "/mnt/data/three"]));
    assert_eq!(report.mount_targets, s(&["/mnt/data"]));
    let kinds: Vec<&str> = report.issues.iter().map(|i| i.kind.as_str()).collect();
    assert_eq!(kinds, vec!["mount_missing", "root_unresolved"]);
    assert_eq!(report.issues[1].root, "/mnt/data/three");
}

#[test]
fn guest_commands_per_runtime() {
    let l = guest(Runtime::Lxc, "101");
    assert_eq!(l.program, "pct");
    assert_eq!(l.args, s(&["exec", "101", "--"]));
    let d = guest(Runtime::Docker, "jf");
    assert_eq!(d.program, "docker");
    assert_eq!(d.args, s(&["exec", "jf"]));
}

#[test]
fn check_commands() {
    let f = find_roots(Runtime::Docker, "jf", "/var/lib/jellyfin/root/default");
    assert_eq!(
        f.args,
        s(&[
            "exec", "jf", "find", "/var/lib/jellyfin/root/default", "-name", "*.mblink", "-type",
            "f", "-exec", "sh", "-c", "cat \"$1\"; echo", "_", "{}", ";"
        ])
    );
    let m = list_mounts(Runtime::Lxc, "7");
    assert_eq!(m.args, s(&["exec", "7", "--", "findmnt", "-rno", "TARGET"]));
    let p = probe_root(Runtime::Lxc, "7", "/mnt/my media");
    assert_eq!(p.args, s(&["exec", "7", "--", "test", "-d", "/mnt/my media"]));
}

#[test]
fn unresolved_roots_keeps_failed_probes() {
    let r = unresolved_roots(&s(&["/a", "/b", "/c"]), &vec![true, false, false]);
    assert_eq!(r, s(&["/b", "/c"]));
}

fn issue(kind: &str, blocks: bool) -> StorageIssue {
    StorageIssue {
        kind: kind.to_string(),
        severity: Severity::Warning,
        root: "/r".to_string(),
        detail: "d".to_string(),
        blocks_rescan: blocks,
    }
}

#[test]
fn repair_refuses_blocking_issues() {
    match repair_decision(&vec![issue("a", false), issue("b", true)], true) {
        RepairStep::Finish(out) => {
            assert!(!out.rescan_triggered);
            assert_eq!(
                out.action,
                "refused: restore the missing/unresolved mount(s) before rescanning"
            );
            assert_eq!(out.blocking_issues, vec![issue("b", true)]);
        }
        RepairStep::TriggerRescan => panic!("a blocking issue must refuse the rescan"),
    }
}

#[test]
fn repair_dry_run_without_apply() {
    match repair_decision(&vec![issue("a", false)], false) {
        RepairStep::Finish(out) => {
            assert!(!out.rescan_triggered);
            assert_eq!(out.action, "would trigger POST /Library/Refresh (rescan) — pass --apply");
            assert!(out.blocking_issues.is_empty());
        }
        RepairStep::TriggerRescan => panic!("dry run must not rescan"),
    }
}

#[test]
fn repair_rescans_with_apply_on_healthy_roots() {
    assert!(matches!(repair_decision(&Vec::new(), true), RepairStep::TriggerRescan));
    let out = rescan_triggered();
    assert!(out.rescan_triggered);
    assert_eq!(out.action, "triggered POST /Library/Refresh");
}

#[test]
fn repair_after_unhealthy_check_refuses_every_issue() {
    let report = classify(s(&["/a", "/mnt/d/b"]), s(&["/mnt/d"]), &s(&["/mnt/d/b"]));
    match repair_decision(&report.issues, true) {
        RepairStep::Finish(out) => assert_eq!(out.blocking_issues, report.issues),
        RepairStep::TriggerRescan => panic!("unhealthy report must refuse"),
    }
}

#[test]
fn check_report_from_guest_outputs() {
    let roots_out = "/mnt/data/movies\n/mnt/data/tv\n/srv/music\n/mnt/data/tv\n";
    let report = check_report(roots_out, Some("/\n/mnt/data\n"), &vec![true, false, true]);
    assert_eq!(report.library_roots, s(&["/mnt/data/movies", "/mnt/data/tv", "/srv/music"]));
    assert_eq!(report.mount_targets, s(&["/", "/mnt/data"]));
    assert_eq!(report.issues.len(), 1);
    assert_eq!(report.issues[0].kind, "root_unresolved");
    assert_eq!(report.issues[0].root, "/mnt/data/tv");
    // a failed mount listing counts as no mounts
    let report = check_report("/mnt/data/movies\n", None, &vec![true]);
    assert!(report.mount_targets.is_empty());
    assert_eq!(report.issues[0].kind, "mount_missing");
}

#[test]
fn lines_keep_first_occurrence_order_and_reread() {
    let first = lines(" b\na\n b \nc\na\n");
    assert_eq!(first, s(&["b", "a", "c"]));
    assert_eq!(lines(&first.join("\n")), first);
}

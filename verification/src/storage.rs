//! Storage drift detection and remediation.
//!
//! Each library folder of a Jellyfin server maps to its real media path via a
//! `*.mblink` file under the server's `root/default` tree. The classifier
//! checks those roots against the live mounts inside the container and the
//! roots that failed to resolve on disk; the repair decision refuses a futile
//! rescan while any issue blocks it.
use vstd::prelude::*;

use crate::command::{cmd, CommandLine, CommandView};
use crate::lifecycle::Runtime;
use crate::text::{
    chars_of, dedup, join, join_strings, lemma_dedup_contains, lemma_dedup_distinct,
    lemma_dedup_subset, lemma_non_empty_pieces, lemma_non_empty_pieces_of_empties,
    lemma_dedup_fixed, lemma_dedup_order, lemma_non_empty_pieces_fixed,
    lemma_split_all_separators, lemma_split_join, lemma_split_pieces_lack_separator,
    lemma_trim_each, lemma_trim_each_fixed, lemma_trim_idempotent, lemma_trim_within,
    non_empty_pieces, occurs_before, split, split_chars, string_from, trim, trim_each, trim_end,
    trim_start, trimmed, views,
};

verus! {

// ---------------------------------------------------------------------------
// Types
// ---------------------------------------------------------------------------

/// Severity of a storage issue.
#[derive(Debug, Clone, Copy, PartialEq, Eq, Structural)]
pub enum Severity {
    /// Playback-breaking (unbacked / unresolvable library root).
    Critical,
    /// Degraded but not blocking.
    Warning,
}

/// One detected storage problem.
#[derive(Debug, Clone, PartialEq, Eq)]
pub struct StorageIssue {
    /// Stable machine kind, e.g. `mount_missing` / `root_unresolved`.
    pub kind: String,
    /// Severity for triage.
    pub severity: Severity,
    /// The library root the issue concerns.
    pub root: String,
    /// Human-readable explanation.
    pub detail: String,
    /// True when a library rescan cannot fix this (the mount must be restored
    /// first).
    pub blocks_rescan: bool,
}

/// The contents of a [`StorageIssue`].
pub struct IssueView {
    pub kind: Seq<char>,
    pub severity: Severity,
    pub root: Seq<char>,
    pub detail: Seq<char>,
    pub blocks_rescan: bool,
}

impl View for StorageIssue {
    type V = IssueView;

    open spec fn view(&self) -> IssueView {
        IssueView {
            kind: self.kind@,
            severity: self.severity,
            root: self.root@,
            detail: self.detail@,
            blocks_rescan: self.blocks_rescan,
        }
    }
}

/// The contents of a sequence of issues.
pub open spec fn issue_views(v: Seq<StorageIssue>) -> Seq<IssueView> {
    v.map_values(|i: StorageIssue| i@)
}

/// Full detect report for one instance.
#[derive(Debug, Clone, PartialEq, Eq)]
pub struct StorageReport {
    /// True when no issues were found.
    pub healthy: bool,
    /// Authoritative library roots read from the `.mblink` maps.
    pub library_roots: Vec<String>,
    /// Live mount targets observed inside the container.
    pub mount_targets: Vec<String>,
    /// Everything wrong.
    pub issues: Vec<StorageIssue>,
}

/// The contents of a [`StorageReport`].
pub struct ReportView {
    pub healthy: bool,
    pub library_roots: Seq<Seq<char>>,
    pub mount_targets: Seq<Seq<char>>,
    pub issues: Seq<IssueView>,
}

impl View for StorageReport {
    type V = ReportView;

    open spec fn view(&self) -> ReportView {
        ReportView {
            healthy: self.healthy,
            library_roots: self.library_roots.deep_view(),
            mount_targets: self.mount_targets.deep_view(),
            issues: issue_views(self.issues@),
        }
    }
}

// ---------------------------------------------------------------------------
// Specification of the classifier
// ---------------------------------------------------------------------------

/// The non-empty `/`-separated segments of a path.
pub open spec fn path_segments(path: Seq<char>) -> Seq<Seq<char>> {
    non_empty_pieces(split(path, '/'))
}

/// `path` is `root` itself or lies beneath it, compared segment by segment
/// (so `/mnt/data` does not contain `/mnt/database`).
pub open spec fn under(path: Seq<char>, root: Seq<char>) -> bool {
    let p = path_segments(path);
    let r = path_segments(root);
    r.len() <= p.len() && p.take(r.len() as int) == r
}

/// Some live mount contains `root`.
pub open spec fn backed(root: Seq<char>, mounts: Seq<Seq<char>>) -> bool {
    exists|i: int| 0 <= i < mounts.len() && #[trigger] under(root, mounts[i])
}

/// How the observed mounts are listed in an issue's detail.
pub open spec fn mounts_listing(mounts: Seq<Seq<char>>) -> Seq<char> {
    if mounts.len() == 0 {
        "no mounts observed"@
    } else {
        join(mounts, ", "@)
    }
}

/// The issue for a root that no live mount backs.
pub open spec fn mount_missing_issue(root: Seq<char>, mounts: Seq<Seq<char>>) -> IssueView {
    IssueView {
        kind: "mount_missing"@,
        severity: Severity::Critical,
        root,
        detail: "library root '"@ + root + "' is not backed by any live mount ("@
            + mounts_listing(mounts) + ")"@,
        blocks_rescan: true,
    }
}

/// The issue for a backed root that does not resolve on disk.
pub open spec fn root_unresolved_issue(root: Seq<char>) -> IssueView {
    IssueView {
        kind: "root_unresolved"@,
        severity: Severity::Critical,
        root,
        detail: "library root '"@ + root + "' does not resolve on disk"@,
        blocks_rescan: true,
    }
}

/// What is wrong with one root, if anything. A missing mount is reported in
/// preference to an unresolved root.
pub open spec fn issue_for(
    root: Seq<char>,
    mounts: Seq<Seq<char>>,
    unresolved: Seq<Seq<char>>,
) -> Option<IssueView> {
    if !backed(root, mounts) {
        Some(mount_missing_issue(root, mounts))
    } else if unresolved.contains(root) {
        Some(root_unresolved_issue(root))
    } else {
        None
    }
}

/// The issues of all roots, in the order of the roots.
pub open spec fn issues_for(
    roots: Seq<Seq<char>>,
    mounts: Seq<Seq<char>>,
    unresolved: Seq<Seq<char>>,
) -> Seq<IssueView>
    decreases roots.len(),
{
    if roots.len() == 0 {
        Seq::empty()
    } else {
        let earlier = issues_for(roots.drop_last(), mounts, unresolved);
        match issue_for(roots.last(), mounts, unresolved) {
            Some(issue) => earlier.push(issue),
            None => earlier,
        }
    }
}

/// The report the classifier builds from the gathered facts.
pub open spec fn classified(
    roots: Seq<Seq<char>>,
    mounts: Seq<Seq<char>>,
    unresolved: Seq<Seq<char>>,
) -> ReportView {
    ReportView {
        healthy: issues_for(roots, mounts, unresolved).len() == 0,
        library_roots: roots,
        mount_targets: mounts,
        issues: issues_for(roots, mounts, unresolved),
    }
}

/// The trimmed, non-empty lines of a command's output, in order.
pub open spec fn clean_lines(out: Seq<char>) -> Seq<Seq<char>> {
    non_empty_pieces(trim_each(split(out, '\n')))
}

/// The distinct, trimmed, non-empty lines of a command's output, in order of
/// first appearance.
pub open spec fn output_lines(out: Seq<char>) -> Seq<Seq<char>> {
    dedup(clean_lines(out))
}

/// The roots whose existence probe failed.
pub open spec fn failed_probes(roots: Seq<Seq<char>>, ok: Seq<bool>) -> Seq<Seq<char>>
    decreases roots.len(),
{
    if roots.len() == 0 || ok.len() == 0 {
        Seq::empty()
    } else if ok.last() {
        failed_probes(roots.drop_last(), ok.drop_last())
    } else {
        failed_probes(roots.drop_last(), ok.drop_last()).push(roots.last())
    }
}

// ---------------------------------------------------------------------------
// Classifier
// ---------------------------------------------------------------------------

/// The non-empty `/`-separated segments of `path`.
pub fn segments(path: &str) -> (r: Vec<String>)
    ensures
        r.deep_view() == path_segments(path@),
{
    let v = chars_of(path);
    let pieces = split_chars(&v, '/');
    let ghost pv = views(pieces@);
    let mut r: Vec<String> = Vec::new();
    let mut i: usize = 0;
    assert(pv.take(0) =~= Seq::<Seq<char>>::empty());
    assert(r.deep_view() =~= Seq::<Seq<char>>::empty());
    while i < pieces.len()
        invariant
            i <= pieces.len(),
            pv == views(pieces@),
            r.deep_view() == non_empty_pieces(pv.take(i as int)),
        decreases pieces.len() - i,
    {
        assert(pv.take(i + 1).drop_last() =~= pv.take(i as int));
        assert(pv.take(i + 1).last() == pieces@[i as int]@);
        if pieces[i].len() > 0 {
            let s = string_from(&pieces[i]);
            let ghost before = r.deep_view();
            r.push(s);
            assert(r.deep_view() =~= before.push(s@));
        }
        i += 1;
    }
    assert(pv.take(pieces.len() as int) =~= pv);
    r
}

/// True when `path` is `root` itself or lives beneath it (segment-aligned, so
/// `/mnt/data` does not match `/mnt/database`).
pub fn is_under(path: &str, root: &str) -> (b: bool)
    ensures
        b == under(path@, root@),
{
    let p = segments(path);
    let r = segments(root);
    let ghost pd = p.deep_view();
    let ghost rd = r.deep_view();
    if r.len() > p.len() {
        return false;
    }
    let mut i: usize = 0;
    while i < r.len()
        invariant
            i <= r.len() <= p.len(),
            pd == p.deep_view(),
            rd == r.deep_view(),
            pd == path_segments(path@),
            rd == path_segments(root@),
            forall|j: int| 0 <= j < i ==> pd[j] == rd[j],
        decreases r.len() - i,
    {
        assert(pd[i as int] == p@[i as int]@ && rd[i as int] == r@[i as int]@);
        if !(p[i] == r[i]) {
            assert(pd.take(rd.len() as int)[i as int] != rd[i as int]);
            assert(pd.take(rd.len() as int) != rd);

            return false;
        }
        i += 1;
    }
    assert(pd.take(rd.len() as int) =~= rd);
    true
}

/// Whether some mount in `mounts` contains `root`.
fn any_backing(root: &String, mounts: &Vec<String>) -> (b: bool)
    ensures
        b == backed(root@, mounts.deep_view()),
{
    let ghost md = mounts.deep_view();
    let mut j: usize = 0;
    while j < mounts.len()
        invariant
            j <= mounts.len(),
            md == mounts.deep_view(),
            forall|k: int| 0 <= k < j ==> !under(root@, #[trigger] md[k]),
        decreases mounts.len() - j,
    {
        if is_under(root.as_str(), mounts[j].as_str()) {
            assert(under(root@, md[j as int]));
            return true;
        }
        j += 1;
    }
    false
}

/// Whether `s` occurs in `list`.
fn contains_string(list: &[String], s: &String) -> (b: bool)
    ensures
        b == list.deep_view().contains(s@),
{
    let ghost ld = list.deep_view();
    let mut j: usize = 0;
    while j < list.len()
        invariant
            j <= list.len(),
            ld == list.deep_view(),
            forall|k: int| 0 <= k < j ==> ld[k] != s@,
        decreases list.len() - j,
    {
        if list[j] == *s {
            assert(ld[j as int] == s@);
            return true;
        }
        j += 1;
    }
    false
}

/// The issue for a root that no live mount backs.
fn mount_missing(root: &String, mounts: &Vec<String>) -> (i: StorageIssue)
    ensures
        i@ == mount_missing_issue(root@, mounts.deep_view()),
{
    let mut detail = String::from_str("library root '");
    detail.append(root.as_str());
    detail.append("' is not backed by any live mount (");
    if mounts.len() == 0 {
        detail.append("no mounts observed");
    } else {
        let listing = join_strings(mounts, ", ");
        detail.append(listing.as_str());
    }
    detail.append(")");
    StorageIssue {
        kind: String::from_str("mount_missing"),
        severity: Severity::Critical,
        root: root.clone(),
        detail,
        blocks_rescan: true,
    }
}

/// The issue for a backed root that does not resolve on disk.
fn root_unresolved(root: &String) -> (i: StorageIssue)
    ensures
        i@ == root_unresolved_issue(root@),
{
    let mut detail = String::from_str("library root '");
    detail.append(root.as_str());
    detail.append("' does not resolve on disk");
    StorageIssue {
        kind: String::from_str("root_unresolved"),
        severity: Severity::Critical,
        root: root.clone(),
        detail,
        blocks_rescan: true,
    }
}

/// Build the report from gathered facts: the `.mblink` roots, the live
/// mounts, and the subset of roots that did not resolve on disk.
pub fn classify(
    library_roots: Vec<String>,
    mount_targets: Vec<String>,
    unresolved: &[String],
) -> (report: StorageReport)
    ensures
        report@ == classified(
            library_roots.deep_view(),
            mount_targets.deep_view(),
            unresolved.deep_view(),
        ),
{
    let ghost roots = library_roots.deep_view();
    let ghost mounts = mount_targets.deep_view();
    let ghost unres = unresolved.deep_view();
    let mut issues: Vec<StorageIssue> = Vec::new();
    let mut i: usize = 0;
    assert(roots.take(0) =~= Seq::<Seq<char>>::empty());
    assert(issue_views(issues@) =~= Seq::<IssueView>::empty());
    while i < library_roots.len()
        invariant
            i <= library_roots.len(),
            roots == library_roots.deep_view(),
            mounts == mount_targets.deep_view(),
            unres == unresolved.deep_view(),
            issue_views(issues@) == issues_for(roots.take(i as int), mounts, unres),
        decreases library_roots.len() - i,
    {
        let root = &library_roots[i];
        assert(roots.take(i + 1).drop_last() =~= roots.take(i as int));
        assert(roots.take(i + 1).last() == root@);
        let ghost before = issue_views(issues@);
        if !any_backing(root, &mount_targets) {
            let issue = mount_missing(root, &mount_targets);
            issues.push(issue);
            assert(issue_views(issues@) =~= before.push(issue@));
        } else if contains_string(unresolved, root) {
            let issue = root_unresolved(root);
            issues.push(issue);
            assert(issue_views(issues@) =~= before.push(issue@));
        }
        i += 1;
    }
    assert(roots.take(library_roots.len() as int) =~= roots);
    let healthy = issues.len() == 0;
    StorageReport { healthy, library_roots, mount_targets, issues }
}

// ---------------------------------------------------------------------------
// Gathering the facts
// ---------------------------------------------------------------------------

/// Non-empty, de-duplicated, trimmed lines of a command's output.
pub fn lines(out: &str) -> (r: Vec<String>)
    ensures
        r.deep_view() == output_lines(out@),
{
    let v = chars_of(out);
    let pieces = split_chars(&v, '\n');
    let ghost pv = views(pieces@);
    let mut seen: Vec<String> = Vec::new();
    let mut i: usize = 0;
    assert(pv.take(0) =~= Seq::<Seq<char>>::empty());
    assert(seen.deep_view() =~= Seq::<Seq<char>>::empty());
    while i < pieces.len()
        invariant
            i <= pieces.len(),
            pv == views(pieces@),
            seen.deep_view() == dedup(non_empty_pieces(trim_each(pv.take(i as int)))),
        decreases pieces.len() - i,
    {
        assert(pv.take(i + 1).drop_last() =~= pv.take(i as int));
        assert(pv.take(i + 1).last() == pieces@[i as int]@);
        let t = trimmed(&pieces[i]);
        let ghost kept = non_empty_pieces(trim_each(pv.take(i as int)));
        assert(trim_each(pv.take(i + 1)) == trim_each(pv.take(i as int)).push(t@));
        assert(trim_each(pv.take(i + 1)).drop_last() =~= trim_each(pv.take(i as int)));
        if t.len() > 0 {
            let line = string_from(&t);
            assert(non_empty_pieces(trim_each(pv.take(i + 1))) == kept.push(t@));
            assert(kept.push(t@).drop_last() =~= kept);
            if !contains_string(seen.as_slice(), &line) {
                let ghost before = seen.deep_view();
                seen.push(line);
                assert(seen.deep_view() =~= before.push(t@));
            }
        } else {
            assert(non_empty_pieces(trim_each(pv.take(i + 1))) == kept);
        }
        i += 1;
    }
    assert(pv.take(pieces.len() as int) =~= pv);
    seen
}

/// Base `pct exec <id> --` / `docker exec <id>` command.
pub open spec fn guest_command(runtime: Runtime, id: Seq<char>) -> CommandView {
    match runtime {
        Runtime::Lxc => cmd("pct"@).with("exec"@).with(id).with("--"@),
        Runtime::Docker => cmd("docker"@).with("exec"@).with(id),
    }
}

/// Base `pct exec <id> --` / `docker exec <id>` command.
pub fn guest(runtime: Runtime, id: &str) -> (c: CommandLine)
    ensures
        c@ == guest_command(runtime, id@),
{
    match runtime {
        Runtime::Lxc => CommandLine::new("pct").arg("exec").arg(id).arg("--"),
        Runtime::Docker => CommandLine::new("docker").arg("exec").arg(id),
    }
}

/// The command that prints every `.mblink` file under `config_root`, each
/// followed by a newline.
pub open spec fn find_roots_command(
    runtime: Runtime,
    id: Seq<char>,
    config_root: Seq<char>,
) -> CommandView {
    guest_command(runtime, id).with("find"@).with(config_root).with("-name"@).with(
        "*.mblink"@,
    ).with("-type"@).with("f"@).with("-exec"@).with("sh"@).with("-c"@).with(
        "cat \"$1\"; echo"@,
    ).with("_"@).with("{}"@).with(";"@)
}

/// The command that prints every `.mblink` file under `config_root`, each
/// followed by a newline (so concatenated files stay on separate lines).
pub fn find_roots(runtime: Runtime, id: &str, config_root: &str) -> (c: CommandLine)
    ensures
        c@ == find_roots_command(runtime, id@, config_root@),
{
    guest(runtime, id).arg("find").arg(config_root).arg("-name").arg("*.mblink").arg(
        "-type",
    ).arg("f").arg("-exec").arg("sh").arg("-c").arg("cat \"$1\"; echo").arg("_").arg(
        "{}",
    ).arg(";")
}

/// The command that lists the live mount targets inside the guest.
pub open spec fn list_mounts_command(runtime: Runtime, id: Seq<char>) -> CommandView {
    guest_command(runtime, id).with("findmnt"@).with("-rno"@).with("TARGET"@)
}

/// The command that lists the live mount targets inside the guest.
pub fn list_mounts(runtime: Runtime, id: &str) -> (c: CommandLine)
    ensures
        c@ == list_mounts_command(runtime, id@),
{
    guest(runtime, id).arg("findmnt").arg("-rno").arg("TARGET")
}

/// The command that succeeds exactly when `root` is a directory in the guest.
pub open spec fn probe_root_command(runtime: Runtime, id: Seq<char>, root: Seq<char>) -> CommandView {
    guest_command(runtime, id).with("test"@).with("-d"@).with(root)
}

/// The command that succeeds exactly when `root` is a directory in the guest
/// (one probe per root, since paths may contain spaces).
pub fn probe_root(runtime: Runtime, id: &str, root: &str) -> (c: CommandLine)
    ensures
        c@ == probe_root_command(runtime, id@, root@),
{
    guest(runtime, id).arg("test").arg("-d").arg(root)
}

/// The roots whose probe failed, in order: `probe_ok[i]` is the outcome of
/// probing `roots[i]`.
pub fn unresolved_roots(roots: &Vec<String>, probe_ok: &Vec<bool>) -> (r: Vec<String>)
    requires
        roots.len() == probe_ok.len(),
    ensures
        r.deep_view() == failed_probes(roots.deep_view(), probe_ok@),
{
    let ghost rd = roots.deep_view();
    let mut r: Vec<String> = Vec::new();
    let mut i: usize = 0;
    assert(r.deep_view() =~= Seq::<Seq<char>>::empty());
    assert(failed_probes(rd.take(0), probe_ok@.take(0)) == Seq::<Seq<char>>::empty());
    while i < roots.len()
        invariant
            i <= roots.len() == probe_ok.len(),
            rd == roots.deep_view(),
            r.deep_view() == failed_probes(rd.take(i as int), probe_ok@.take(i as int)),
        decreases roots.len() - i,
    {
        assert(rd.take(i + 1).drop_last() =~= rd.take(i as int));
        assert(probe_ok@.take(i + 1).drop_last() =~= probe_ok@.take(i as int));
        assert(rd.take(i + 1).last() == roots@[i as int]@);
        if !probe_ok[i] {
            let ghost before = r.deep_view();
            r.push(roots[i].clone());
            assert(r.deep_view() =~= before.push(roots@[i as int]@));
        }
        i += 1;
    }
    assert(rd.take(roots.len() as int) =~= rd);
    assert(probe_ok@.take(roots.len() as int) =~= probe_ok@);
    r
}

/// The text of an optional command output; a command that failed counts as
/// having printed nothing.
pub open spec fn output_or_empty(out: Option<Seq<char>>) -> Seq<char> {
    match out {
        Some(t) => t,
        None => Seq::empty(),
    }
}

/// The report of a check from what the guest printed: the output of the
/// `.mblink` listing, the output of the mount listing (`None` when it failed,
/// which counts as no mounts), and the outcome of probing each root that
/// [`lines`] reads from the first output, in order.
pub fn check_report(roots_out: &str, mounts_out: Option<&str>, probe_ok: &Vec<bool>) -> (report:
    StorageReport)
    requires
        probe_ok.len() == output_lines(roots_out@).len(),
    ensures
        report@ == classified(
            output_lines(roots_out@),
            output_lines(
                output_or_empty(
                    match mounts_out {
                        Some(t) => Some(t@),
                        None => None,
                    },
                ),
            ),
            failed_probes(output_lines(roots_out@), probe_ok@),
        ),
{
    let roots = lines(roots_out);
    let mounts = match mounts_out {
        Some(t) => lines(t),
        None => lines(""),
    };
    proof {
        reveal_strlit("");
        assert(""@ =~= Seq::<char>::empty());
    }
    let unresolved = unresolved_roots(&roots, probe_ok);
    classify(roots, mounts, unresolved.as_slice())
}

// ---------------------------------------------------------------------------
// Tool arguments
// ---------------------------------------------------------------------------

/// Default server data root holding the `*.mblink` library maps.
pub fn default_config_root() -> (r: String)
    ensures
        r@ == "/var/lib/jellyfin/root/default"@,
{
    String::from_str("/var/lib/jellyfin/root/default")
}

/// Arguments of the storage check.
#[derive(Debug, Clone, PartialEq, Eq)]
pub struct JellyfinStorageCheckArgs {
    /// Where the instance runs: `lxc` or `docker`.
    pub runtime: Runtime,
    /// LXC vmid or docker container name/id.
    pub target: String,
    /// Override the server data root holding the `.mblink` maps.
    pub config_root: String,
}

/// Arguments of the storage repair.
#[derive(Debug, Clone, PartialEq, Eq)]
pub struct JellyfinStorageRepairArgs {
    /// Where the instance runs: `lxc` or `docker`.
    pub runtime: Runtime,
    /// LXC vmid or docker container name/id.
    pub target: String,
    /// Registered Jellyfin endpoint name, used to trigger the rescan.
    pub endpoint: String,
    /// Override the server data root holding the `.mblink` maps.
    pub config_root: String,
    /// Trigger the rescan. Without this the tool only reports what it would do.
    pub apply: bool,
}

// ---------------------------------------------------------------------------
// Repair decision
// ---------------------------------------------------------------------------

/// What the storage repair reports.
#[derive(Debug, Clone, PartialEq, Eq)]
pub struct JellyfinStorageRepairOutput {
    /// True when a rescan was triggered.
    pub rescan_triggered: bool,
    /// What happened (or would happen on `apply`).
    pub action: String,
    /// Issues that block a rescan (mount must be restored first).
    pub blocking_issues: Vec<StorageIssue>,
}

/// The contents of a [`JellyfinStorageRepairOutput`].
pub struct RepairView {
    pub rescan_triggered: bool,
    pub action: Seq<char>,
    pub blocking_issues: Seq<IssueView>,
}

impl View for JellyfinStorageRepairOutput {
    type V = RepairView;

    open spec fn view(&self) -> RepairView {
        RepairView {
            rescan_triggered: self.rescan_triggered,
            action: self.action@,
            blocking_issues: issue_views(self.blocking_issues@),
        }
    }
}

/// The next step of a repair, once the check has run.
#[derive(Debug)]
pub enum RepairStep {
    /// Nothing more to do: report this.
    Finish(JellyfinStorageRepairOutput),
    /// Trigger `POST /Library/Refresh`, then report [`rescan_triggered`].
    TriggerRescan,
}

/// The issues that block a rescan, in order.
pub open spec fn blocking(issues: Seq<IssueView>) -> Seq<IssueView>
    decreases issues.len(),
{
    if issues.len() == 0 {
        issues
    } else if issues.last().blocks_rescan {
        blocking(issues.drop_last()).push(issues.last())
    } else {
        blocking(issues.drop_last())
    }
}

/// The report of a repair refused because of blocking issues.
pub open spec fn refused_output(blocking_issues: Seq<IssueView>) -> RepairView {
    RepairView {
        rescan_triggered: false,
        action: "refused: restore the missing/unresolved mount(s) before rescanning"@,
        blocking_issues,
    }
}

/// The report of a repair run without `apply` on healthy roots.
pub open spec fn dry_run_output() -> RepairView {
    RepairView {
        rescan_triggered: false,
        action: "would trigger POST /Library/Refresh (rescan) \u{2014} pass --apply"@,
        blocking_issues: Seq::empty(),
    }
}

/// The report of a repair that triggered the rescan.
pub open spec fn triggered_output() -> RepairView {
    RepairView {
        rescan_triggered: true,
        action: "triggered POST /Library/Refresh"@,
        blocking_issues: Seq::empty(),
    }
}

/// A copy of an issue.
fn copy_issue(issue: &StorageIssue) -> (c: StorageIssue)
    ensures
        c@ == issue@,
{
    StorageIssue {
        kind: issue.kind.clone(),
        severity: issue.severity,
        root: issue.root.clone(),
        detail: issue.detail.clone(),
        blocks_rescan: issue.blocks_rescan,
    }
}

/// Decide the repair from the issues the check found. Any issue that blocks a
/// rescan makes the repair refuse and report those issues; otherwise, without
/// `apply`, it only reports what it would do; with `apply` the rescan is due.
pub fn repair_decision(issues: &Vec<StorageIssue>, apply: bool) -> (step: RepairStep)
    ensures
        blocking(issue_views(issues@)).len() > 0 ==> (step matches RepairStep::Finish(out)
            && out@ == refused_output(blocking(issue_views(issues@)))),
        blocking(issue_views(issues@)).len() == 0 && !apply ==> (step matches RepairStep::Finish(
            out,
        ) && out@ == dry_run_output()),
        blocking(issue_views(issues@)).len() == 0 && apply ==> step is TriggerRescan,
{
    let ghost iv = issue_views(issues@);
    let mut found: Vec<StorageIssue> = Vec::new();
    let mut i: usize = 0;
    assert(iv.take(0) =~= Seq::<IssueView>::empty());
    assert(issue_views(found@) =~= Seq::<IssueView>::empty());
    while i < issues.len()
        invariant
            i <= issues.len(),
            iv == issue_views(issues@),
            issue_views(found@) == blocking(iv.take(i as int)),
        decreases issues.len() - i,
    {
        assert(iv.take(i + 1).drop_last() =~= iv.take(i as int));
        assert(iv.take(i + 1).last() == issues@[i as int]@);
        if issues[i].blocks_rescan {
            let c = copy_issue(&issues[i]);
            let ghost before = issue_views(found@);
            found.push(c);
            assert(issue_views(found@) =~= before.push(c@));
        }
        i += 1;
    }
    assert(iv.take(issues.len() as int) =~= iv);
    if found.len() > 0 {
        return RepairStep::Finish(
            JellyfinStorageRepairOutput {
                rescan_triggered: false,
                action: String::from_str(
                    "refused: restore the missing/unresolved mount(s) before rescanning",
                ),
                blocking_issues: found,
            },
        );
    }
    if !apply {
        let out = JellyfinStorageRepairOutput {
            rescan_triggered: false,
            action: String::from_str(
                "would trigger POST /Library/Refresh (rescan) \u{2014} pass --apply",
            ),
            blocking_issues: Vec::new(),
        };
        assert(issue_views(out.blocking_issues@) =~= Seq::<IssueView>::empty());
        return RepairStep::Finish(out);
    }
    RepairStep::TriggerRescan
}

/// The report once the rescan has been triggered.
pub fn rescan_triggered() -> (out: JellyfinStorageRepairOutput)
    ensures
        out@ == triggered_output(),
{
    let out = JellyfinStorageRepairOutput {
        rescan_triggered: true,
        action: String::from_str("triggered POST /Library/Refresh"),
        blocking_issues: Vec::new(),
    };
    assert(issue_views(out.blocking_issues@) =~= Seq::<IssueView>::empty());
    out
}

// ---------------------------------------------------------------------------
// Laws
// ---------------------------------------------------------------------------

/// Every path lies beneath itself.
pub proof fn law_under_reflexive(path: Seq<char>)
    ensures
        under(path, path),
{
    let p = path_segments(path);
    assert(p.take(p.len() as int) =~= p);
}

/// Lying beneath is transitive: beneath a path that lies beneath a root is
/// beneath that root.
pub proof fn law_under_transitive(a: Seq<char>, b: Seq<char>, c: Seq<char>)
    requires
        under(a, b),
        under(b, c),
    ensures
        under(a, c),
{
    let sa = path_segments(a);
    let sb = path_segments(b);
    let sc = path_segments(c);
    assert(sa.take(sc.len() as int) =~= sb.take(sc.len() as int)) by {
        assert forall|i: int| 0 <= i < sc.len() implies sa[i] == sb[i] by {
            assert(sa.take(sb.len() as int)[i] == sb[i]);
        }
    }
}

/// Every path lies beneath a root made only of slashes (such as `/`).
pub proof fn law_under_filesystem_root(path: Seq<char>, root: Seq<char>)
    requires
        forall|i: int| 0 <= i < root.len() ==> root[i] == '/',
    ensures
        under(path, root),
{
    lemma_split_all_separators(root, '/');
    lemma_non_empty_pieces_of_empties(split(root, '/'));
    assert(path_segments(path).take(0) =~= path_segments(root));
}

/// What each reported issue is: it blocks a rescan, is critical, concerns
/// one of the library roots, and is `mount_missing` for a root no mount
/// backs or `root_unresolved` for a backed root that did not resolve.
pub proof fn law_classified_issues(
    roots: Seq<Seq<char>>,
    mounts: Seq<Seq<char>>,
    unresolved: Seq<Seq<char>>,
)
    ensures
        issues_for(roots, mounts, unresolved).len() <= roots.len(),
        forall|i: int|
            #![trigger issues_for(roots, mounts, unresolved)[i]]
            0 <= i < issues_for(roots, mounts, unresolved).len() ==> {
                let issue = issues_for(roots, mounts, unresolved)[i];
                &&& issue.blocks_rescan
                &&& issue.severity == Severity::Critical
                &&& roots.contains(issue.root)
                &&& issue == if backed(issue.root, mounts) {
                    root_unresolved_issue(issue.root)
                } else {
                    mount_missing_issue(issue.root, mounts)
                }
                &&& backed(issue.root, mounts) ==> unresolved.contains(issue.root)
            },
    decreases roots.len(),
{
    if roots.len() > 0 {
        let d = roots.drop_last();
        law_classified_issues(d, mounts, unresolved);
        let earlier = issues_for(d, mounts, unresolved);
        assert forall|i: int|
            #![trigger issues_for(roots, mounts, unresolved)[i]]
            0 <= i < issues_for(roots, mounts, unresolved).len() implies {
                let issue = issues_for(roots, mounts, unresolved)[i];
                &&& issue.blocks_rescan
                &&& issue.severity == Severity::Critical
                &&& roots.contains(issue.root)
                &&& issue == if backed(issue.root, mounts) {
                    root_unresolved_issue(issue.root)
                } else {
                    mount_missing_issue(issue.root, mounts)
                }
                &&& backed(issue.root, mounts) ==> unresolved.contains(issue.root)
            } by {
            if i < earlier.len() {
                assert(issues_for(roots, mounts, unresolved)[i] == earlier[i]);
                let j = choose|j: int| 0 <= j < d.len() && d[j] == earlier[i].root;
                assert(roots[j] == d[j]);
            } else {
                assert(roots[roots.len() - 1] == roots.last());
            }
        }
    }
}

/// A report is healthy exactly when every library root is backed by a live
/// mount and resolves on disk.
pub proof fn law_healthy_iff_all_roots_sound(
    roots: Seq<Seq<char>>,
    mounts: Seq<Seq<char>>,
    unresolved: Seq<Seq<char>>,
)
    ensures
        classified(roots, mounts, unresolved).healthy <==> forall|i: int|
            0 <= i < roots.len() ==> backed(#[trigger] roots[i], mounts) && !unresolved.contains(
                roots[i],
            ),
    decreases roots.len(),
{
    if roots.len() > 0 {
        let d = roots.drop_last();
        law_healthy_iff_all_roots_sound(d, mounts, unresolved);
        if issues_for(roots, mounts, unresolved).len() == 0 {
            assert forall|i: int| 0 <= i < roots.len() implies backed(
                #[trigger] roots[i],
                mounts,
            ) && !unresolved.contains(roots[i]) by {
                if i < d.len() {
                    assert(d[i] == roots[i]);
                }
            }
        } else {
            let last = roots.len() - 1;
            if issue_for(roots.last(), mounts, unresolved) is None {
                let i = choose|i: int|
                    0 <= i < d.len() && !(backed(#[trigger] d[i], mounts) && !unresolved.contains(
                        d[i],
                    ));
                assert(roots[i] == d[i]);
            } else {
                assert(roots[last] == roots.last());
            }
        }
    }
}

/// The repair refuses exactly the issues the classifier reports: each one
/// blocks a rescan, so a repair after a check refuses exactly when the
/// report is unhealthy, and lists every issue.
pub proof fn law_classified_issues_all_block(
    roots: Seq<Seq<char>>,
    mounts: Seq<Seq<char>>,
    unresolved: Seq<Seq<char>>,
)
    ensures
        blocking(issues_for(roots, mounts, unresolved)) == issues_for(roots, mounts, unresolved),
        blocking(issues_for(roots, mounts, unresolved)).len() > 0 <==> !classified(
            roots,
            mounts,
            unresolved,
        ).healthy,
    decreases roots.len(),
{
    if roots.len() > 0 {
        let d = roots.drop_last();
        law_classified_issues_all_block(d, mounts, unresolved);
        let earlier = issues_for(d, mounts, unresolved);
        match issue_for(roots.last(), mounts, unresolved) {
            Some(issue) => {
                assert(earlier.push(issue).drop_last() =~= earlier);
                assert(blocking(earlier.push(issue)) == blocking(earlier).push(issue));
            },
            None => {},
        }
    }
}

/// The lines read from a command's output are distinct, non-empty and
/// trimmed; each is the trimmed form of some line of the output, and every
/// line that is not blank after trimming is listed.
pub proof fn law_output_lines(out: Seq<char>)
    ensures
        output_lines(out).no_duplicates(),
        forall|i: int|
            0 <= i < output_lines(out).len() ==> #[trigger] output_lines(out)[i].len() > 0 && trim(
                output_lines(out)[i],
            ) == output_lines(out)[i] && exists|j: int|
                0 <= j < split(out, '\n').len() && trim(#[trigger] split(out, '\n')[j])
                    == output_lines(out)[i],
        forall|j: int|
            0 <= j < split(out, '\n').len() && trim(#[trigger] split(out, '\n')[j]).len() > 0
                ==> output_lines(out).contains(trim(split(out, '\n')[j])),
{
    let pieces = split(out, '\n');
    let trimmed_pieces = trim_each(pieces);
    let kept = non_empty_pieces(trimmed_pieces);
    lemma_dedup_distinct(kept);
    lemma_trim_each(pieces);
    lemma_non_empty_pieces(trimmed_pieces);
    assert forall|i: int| 0 <= i < output_lines(out).len() implies #[trigger] output_lines(
        out,
    )[i].len() > 0 && trim(output_lines(out)[i]) == output_lines(out)[i] && exists|j: int|
        0 <= j < split(out, '\n').len() && trim(#[trigger] split(out, '\n')[j]) == output_lines(
            out,
        )[i] by {
        let e = output_lines(out)[i];
        lemma_dedup_subset(kept, i);
        let k = choose|k: int| 0 <= k < kept.len() && kept[k] == e;
        assert(kept[k].len() > 0 && trimmed_pieces.contains(kept[k]));
        let j = choose|j: int| 0 <= j < trimmed_pieces.len() && trimmed_pieces[j] == e;
        assert(trimmed_pieces[j] == trim(pieces[j]));
        lemma_trim_idempotent(pieces[j]);
    }
    assert forall|j: int|
        0 <= j < split(out, '\n').len() && trim(#[trigger] split(out, '\n')[j]).len() > 0 implies output_lines(
        out,
    ).contains(trim(split(out, '\n')[j])) by {
        assert(trimmed_pieces[j] == trim(pieces[j]));
        assert(kept.contains(trimmed_pieces[j]));
        lemma_dedup_contains(kept, trimmed_pieces[j]);
    }
}

/// The lines read from a command's output keep the order in which they first
/// appear: wherever a later entry occurs among the trimmed non-empty lines, an
/// earlier entry occurs before it.
pub proof fn law_output_lines_order(out: Seq<char>)
    ensures
        forall|i: int, j: int, b: int|
            #![trigger output_lines(out)[i], output_lines(out)[j], clean_lines(out)[b]]
            0 <= i < j < output_lines(out).len() && 0 <= b < clean_lines(out).len()
                && clean_lines(out)[b] == output_lines(out)[j] ==> occurs_before(
                clean_lines(out),
                output_lines(out)[i],
                b,
            ),
{
    lemma_dedup_order(clean_lines(out));
}

/// No line read from a command's output holds a line break.
pub proof fn lemma_output_lines_single(out: Seq<char>)
    ensures
        forall|j: int, k: int|
            0 <= j < output_lines(out).len() && 0 <= k < output_lines(out)[j].len()
                ==> #[trigger] output_lines(out)[j][k] != '\n',
{
    let pieces = split(out, '\n');
    let tp = trim_each(pieces);
    let kept = non_empty_pieces(tp);
    lemma_split_pieces_lack_separator(out, '\n');
    lemma_trim_each(pieces);
    lemma_non_empty_pieces(tp);
    assert forall|j: int, k: int|
        0 <= j < output_lines(out).len() && 0 <= k < output_lines(out)[j].len()
            implies #[trigger] output_lines(out)[j][k] != '\n' by {
        let e = output_lines(out)[j];
        lemma_dedup_subset(kept, j);
        let m = choose|m: int| 0 <= m < kept.len() && kept[m] == e;
        assert(tp.contains(kept[m]));
        let t = choose|t: int| 0 <= t < tp.len() && tp[t] == e;
        assert(tp[t] == trim(pieces[t]));
        lemma_trim_within(pieces[t], k);
        let i = choose|i: int| 0 <= i < pieces[t].len() && pieces[t][i] == trim(pieces[t])[k];
        assert(pieces[t][i] != '\n');
    }
}

/// Reading the lines back from their newline-joined text gives the same
/// lines.
pub proof fn law_output_lines_reread(out: Seq<char>)
    ensures
        output_lines(join(output_lines(out), seq!['\n'])) == output_lines(out),
{
    let lines = output_lines(out);
    law_output_lines(out);
    if lines.len() == 0 {
        let e = Seq::<char>::empty();
        assert(join(lines, seq!['\n']) == e);
        assert(split(e, '\n') == seq![e]);
        assert(trim_start(e) == e);
        assert(trim_end(e) == e);
        let one = seq![e];
        let none = Seq::<Seq<char>>::empty();
        assert(one.drop_last() =~= none);
        assert(trim_each(none) == none);
        assert(trim_each(one) == none.push(trim(e)));
        assert(none.push(e) =~= one);
        assert(trim_each(one) == one);
        assert(non_empty_pieces(none) == none);
        assert(non_empty_pieces(one) == none);
    } else {
        lemma_output_lines_single(out);
        lemma_split_join(lines, '\n');
        assert forall|j: int| 0 <= j < lines.len() implies trim(#[trigger] lines[j]) == lines[j] by {}
        lemma_trim_each_fixed(lines);
        assert forall|j: int| 0 <= j < lines.len() implies #[trigger] lines[j].len() > 0 by {}
        lemma_non_empty_pieces_fixed(lines);
        lemma_dedup_fixed(lines);
    }
}

/// A library root that no live mount backs, or that did not resolve.
pub open spec fn unsound(root: Seq<char>, mounts: Seq<Seq<char>>, unresolved: Seq<Seq<char>>) -> bool {
    !backed(root, mounts) || unresolved.contains(root)
}

/// The number of unsound roots in `roots`.
pub open spec fn unsound_count(
    roots: Seq<Seq<char>>,
    mounts: Seq<Seq<char>>,
    unresolved: Seq<Seq<char>>,
) -> nat
    decreases roots.len(),
{
    if roots.len() == 0 {
        0
    } else {
        unsound_count(roots.drop_last(), mounts, unresolved) + if unsound(
            roots.last(),
            mounts,
            unresolved,
        ) {
            1nat
        } else {
            0nat
        }
    }
}

/// Every unsound library root gets an issue of its own: some issue names
/// each root that no live mount backs or that did not resolve, and there are
/// exactly as many issues as unsound roots.
pub proof fn law_every_unsound_root_reported(
    roots: Seq<Seq<char>>,
    mounts: Seq<Seq<char>>,
    unresolved: Seq<Seq<char>>,
)
    ensures
        classified(roots, mounts, unresolved).issues.len() == unsound_count(
            roots,
            mounts,
            unresolved,
        ),
        forall|i: int|
            0 <= i < roots.len() && unsound(#[trigger] roots[i], mounts, unresolved) ==> exists|
                k: int,
            |
                0 <= k < classified(roots, mounts, unresolved).issues.len() && (#[trigger] classified(
                    roots,
                    mounts,
                    unresolved,
                ).issues[k]).root == roots[i],
    decreases roots.len(),
{
    if roots.len() > 0 {
        let d = roots.drop_last();
        law_every_unsound_root_reported(d, mounts, unresolved);
        let earlier = issues_for(d, mounts, unresolved);
        let all = issues_for(roots, mounts, unresolved);
        assert forall|i: int|
            0 <= i < roots.len() && unsound(#[trigger] roots[i], mounts, unresolved) implies exists|
                k: int,
            |
                0 <= k < classified(roots, mounts, unresolved).issues.len() && (#[trigger] classified(
                    roots,
                    mounts,
                    unresolved,
                ).issues[k]).root == roots[i] by {
            if i < d.len() {
                assert(d[i] == roots[i]);
                assert(unsound(d[i], mounts, unresolved));
                let k = choose|k: int|
                    0 <= k < classified(d, mounts, unresolved).issues.len() && (#[trigger] classified(
                        d,
                        mounts,
                        unresolved,
                    ).issues[k]).root == d[i];
                assert(all[k] == earlier[k]);
                assert(classified(roots, mounts, unresolved).issues[k] == all[k]);
            } else {
                assert(roots[i] == roots.last());
                let k = earlier.len() as int;
                assert(all[k].root == roots.last());
                assert(classified(roots, mounts, unresolved).issues[k] == all[k]);
            }
        }
    }
}

} // verus!

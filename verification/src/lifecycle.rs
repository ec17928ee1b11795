//! Deployment lifecycle: where an instance runs, which release channel it
//! follows, and the host commands that install, update, back up and restore it.
use vstd::prelude::*;

use crate::command::{cmd, CommandLine, CommandView};
use crate::error::PluginError;
use crate::tools::opt_view;
use crate::text::{chars_of, decimal, decimal_string, strip_trailing, strip_trailing_char};

verus! {

/// Where a Jellyfin instance is deployed: selects which runtime the lifecycle
/// tools drive.
#[derive(Debug, Clone, Copy, PartialEq, Eq, Structural)]
pub enum Runtime {
    /// Proxmox LXC, driven via `pct`.
    Lxc,
    /// Docker / Compose, driven via `docker`.
    Docker,
}

impl Default for Runtime {
    fn default() -> (r: Runtime)
        ensures
            r == Runtime::Lxc,
    {
        Runtime::Lxc
    }
}

/// Release channel for an update; maps to an image tag.
#[derive(Debug, Clone, Copy, PartialEq, Eq, Structural)]
pub enum Channel {
    /// Newest published Jellyfin release.
    Latest,
    /// Release-candidate / unstable channel.
    Rc,
    /// Pinned stable line.
    Stable,
}

impl Default for Channel {
    fn default() -> (c: Channel)
        ensures
            c == Channel::Latest,
    {
        Channel::Latest
    }
}

/// The container image tag a channel resolves to.
pub open spec fn channel_tag(c: Channel) -> Seq<char> {
    match c {
        Channel::Latest => "latest"@,
        Channel::Rc => "unstable"@,
        Channel::Stable => "stable"@,
    }
}

impl Channel {
    /// The container image tag this channel resolves to. Jellyfin publishes
    /// `latest`, `unstable`, and version-pinned tags on `jellyfin/jellyfin`.
    pub fn image_tag(self) -> (t: &'static str)
        ensures
            t@ == channel_tag(self),
    {
        match self {
            Channel::Latest => "latest",
            Channel::Rc => "unstable",
            Channel::Stable => "stable",
        }
    }
}

/// The contents of a sequence of commands.
pub open spec fn command_views(v: Seq<CommandLine>) -> Seq<CommandView> {
    v.map_values(|c: CommandLine| c@)
}

/// The text of `o`, or `default` when it is absent.
pub open spec fn text_or(o: Option<String>, default: Seq<char>) -> Seq<char> {
    match o {
        Some(s) => s@,
        None => default,
    }
}

/// Default host path of the persistent `/config` volume.
pub fn default_config_path() -> (r: String)
    ensures
        r@ == "/opt/jellyfin/config"@,
{
    String::from_str("/opt/jellyfin/config")
}

/// Default Compose file.
pub fn default_compose() -> (r: String)
    ensures
        r@ == "compose.yml"@,
{
    String::from_str("compose.yml")
}

// ---------------------------------------------------------------------------
// install
// ---------------------------------------------------------------------------

/// Arguments of `jellyfin.install`.
#[derive(Debug, Clone, PartialEq, Eq)]
pub struct JellyfinInstallArgs {
    /// Where to deploy: `lxc` (Proxmox) or `docker` (Compose).
    pub runtime: Runtime,
    /// LXC vmid (LXC runtime only). Required when `runtime=lxc`.
    pub vmid: Option<u32>,
    /// Host path for the persistent `/config` volume.
    pub config_path: String,
    /// Host path to the media library, mounted read-only.
    pub media_path: Option<String>,
    /// Skip GPU passthrough (software-transcode-only minimal deploy).
    pub no_gpu: bool,
    /// Path to the bootstrap `provision.sh` (LXC) or `compose.yml` (Docker).
    pub bootstrap_path: Option<String>,
}

/// What `jellyfin.install` reports.
#[derive(Debug, Clone, PartialEq, Eq)]
pub struct JellyfinInstallOutput {
    /// True when the provisioning command completed successfully.
    pub provisioned: bool,
    /// The runtime the deployment targeted.
    pub runtime: Runtime,
    /// Combined stdout from the provisioning step.
    pub log: String,
}

/// The report of an install whose provisioning command completed, printing
/// `log`.
pub fn install_output(runtime: Runtime, log: String) -> (out: JellyfinInstallOutput)
    ensures
        out.provisioned,
        out.runtime == runtime,
        out.log == log,
{
    JellyfinInstallOutput { provisioned: true, runtime, log }
}

/// The provisioning command, or `None` when an LXC install lacks its vmid.
/// On LXC it runs the `provision.sh` bootstrap with the vmid, the config
/// path, the media path if any and `--no-gpu` if asked; on Docker it brings
/// up the Compose stack.
pub open spec fn install_command(args: JellyfinInstallArgs) -> Option<CommandView> {
    match args.runtime {
        Runtime::Lxc => match args.vmid {
            None => None,
            Some(vmid) => {
                let base = cmd("bash"@).with(text_or(args.bootstrap_path, "lxc/provision.sh"@)).with(
                    decimal(vmid as nat),
                ).with("--config"@).with(args.config_path@);
                let with_media = match args.media_path {
                    Some(m) => base.with("--media"@).with(m@),
                    None => base,
                };
                Some(if args.no_gpu { with_media.with("--no-gpu"@) } else { with_media })
            },
        },
        Runtime::Docker => Some(
            cmd("docker"@).with("compose"@).with("-f"@).with(
                text_or(args.bootstrap_path, "compose.yml"@),
            ).with("up"@).with("-d"@),
        ),
    }
}

/// The command that provisions the deployment `args` describes.
pub fn install_plan(args: &JellyfinInstallArgs) -> (r: Result<CommandLine, PluginError>)
    ensures
        match install_command(*args) {
            Some(c) => r matches Ok(line) && line@ == c,
            None => r matches Err(e) && e is VmidRequired,
        },
{
    match args.runtime {
        Runtime::Lxc => {
            let vmid = match args.vmid {
                Some(v) => v,
                None => {
                    return Err(PluginError::VmidRequired);
                },
            };
            let script = match &args.bootstrap_path {
                Some(p) => p.clone(),
                None => String::from_str("lxc/provision.sh"),
            };
            let id = decimal_string(vmid as u64);
            let mut c = CommandLine::new("bash").arg(script.as_str()).arg(id.as_str()).arg(
                "--config",
            ).arg(args.config_path.as_str());
            match &args.media_path {
                Some(m) => {
                    c = c.arg("--media").arg(m.as_str());
                },
                None => {},
            }
            if args.no_gpu {
                c = c.arg("--no-gpu");
            }
            Ok(c)
        },
        Runtime::Docker => {
            let compose = match &args.bootstrap_path {
                Some(p) => p.clone(),
                None => String::from_str("compose.yml"),
            };
            Ok(
                CommandLine::new("docker").arg("compose").arg("-f").arg(compose.as_str()).arg(
                    "up",
                ).arg("-d"),
            )
        },
    }
}

// ---------------------------------------------------------------------------
// update
// ---------------------------------------------------------------------------

/// Arguments of `jellyfin.update`.
#[derive(Debug, Clone, PartialEq, Eq)]
pub struct JellyfinUpdateArgs {
    /// Where the instance runs: `lxc` or `docker`.
    pub runtime: Runtime,
    /// Release channel to move to.
    pub channel: Channel,
    /// LXC vmid (LXC runtime only).
    pub vmid: Option<u32>,
    /// Compose file (Docker runtime only).
    pub compose_file: String,
}

/// What `jellyfin.update` reports.
#[derive(Debug, Clone, PartialEq, Eq)]
pub struct JellyfinUpdateOutput {
    /// True when the update command completed.
    pub updated: bool,
    /// Image tag the channel resolved to.
    pub image_tag: String,
    /// Combined stdout from the update step.
    pub log: String,
}

/// The report of an update whose commands printed `logs`, in order: the log
/// is what the last command printed (nothing when none ran).
pub fn update_output(channel: Channel, logs: &Vec<String>) -> (out: JellyfinUpdateOutput)
    ensures
        out.updated,
        out.image_tag@ == channel_tag(channel),
        out.log@ == if logs.len() == 0 {
            Seq::<char>::empty()
        } else {
            logs@.last()@
        },
{
    let log = if logs.len() == 0 {
        String::new()
    } else {
        logs[logs.len() - 1].clone()
    };
    JellyfinUpdateOutput { updated: true, image_tag: String::from_str(channel.image_tag()), log }
}

/// The in-container upgrade script run on LXC.
pub open spec fn lxc_upgrade_script() -> Seq<char> {
    "apt-get update && apt-get install -y --only-upgrade jellyfin && systemctl restart jellyfin"@
}

/// The commands of an update, run in order, or `None` when an LXC update
/// lacks its vmid. On Docker: pull the channel's image, then recreate the
/// Compose stack; on LXC: the in-container package upgrade and restart.
pub open spec fn update_commands(args: JellyfinUpdateArgs) -> Option<Seq<CommandView>> {
    match args.runtime {
        Runtime::Docker => Some(
            seq![
                cmd("docker"@).with("pull"@).with("jellyfin/jellyfin:"@ + channel_tag(args.channel)),
                cmd("docker"@).with("compose"@).with("-f"@).with(args.compose_file@).with("up"@).with(
                    "-d"@,
                ),
            ],
        ),
        Runtime::Lxc => match args.vmid {
            None => None,
            Some(vmid) => Some(
                seq![
                    cmd("pct"@).with("exec"@).with(decimal(vmid as nat)).with("--"@).with("bash"@).with(
                        "-c"@,
                    ).with(lxc_upgrade_script()),
                ],
            ),
        },
    }
}

/// The commands that move the deployment `args` describes to its channel.
pub fn update_plan(args: &JellyfinUpdateArgs) -> (r: Result<Vec<CommandLine>, PluginError>)
    ensures
        match update_commands(*args) {
            Some(cs) => r matches Ok(lines) && command_views(lines@) == cs,
            None => r matches Err(e) && e is VmidRequired,
        },
{
    let mut lines: Vec<CommandLine> = Vec::new();
    match args.runtime {
        Runtime::Docker => {
            let mut image = String::from_str("jellyfin/jellyfin:");
            image.append(args.channel.image_tag());
            let pull = CommandLine::new("docker").arg("pull").arg(image.as_str());
            let up = CommandLine::new("docker").arg("compose").arg("-f").arg(
                args.compose_file.as_str(),
            ).arg("up").arg("-d");
            let ghost (p, u) = (pull@, up@);
            lines.push(pull);
            lines.push(up);
            assert(command_views(lines@) =~= seq![p, u]);
        },
        Runtime::Lxc => {
            let vmid = match args.vmid {
                Some(v) => v,
                None => {
                    return Err(PluginError::VmidRequired);
                },
            };
            let id = decimal_string(vmid as u64);
            let upgrade = CommandLine::new("pct").arg("exec").arg(id.as_str()).arg("--").arg(
                "bash",
            ).arg("-c").arg(
                "apt-get update && apt-get install -y --only-upgrade jellyfin && systemctl restart jellyfin",
            );
            let ghost g = upgrade@;
            lines.push(upgrade);
            assert(command_views(lines@) =~= seq![g]);
        },
    }
    Ok(lines)
}

// ---------------------------------------------------------------------------
// backup
// ---------------------------------------------------------------------------

/// Arguments of `jellyfin.backup`.
#[derive(Debug, Clone, PartialEq, Eq)]
pub struct JellyfinBackupArgs {
    /// Host path of the Jellyfin `/config` volume to archive.
    pub config_path: String,
    /// Directory to write the `.tar.gz` into. Created if missing.
    pub destination: String,
}

/// What `jellyfin.backup` reports.
#[derive(Debug, Clone, PartialEq, Eq)]
pub struct JellyfinBackupOutput {
    /// Absolute path of the archive written.
    pub archive: String,
}

/// The commands of a backup and the archive they write.
#[derive(Debug, Clone, PartialEq, Eq)]
pub struct BackupPlan {
    /// Creates the destination directory.
    pub make_destination: CommandLine,
    /// Writes the archive.
    pub write_archive: CommandLine,
    /// Absolute path of the archive written.
    pub archive: String,
}

/// The contents of a [`BackupPlan`].
pub struct BackupView {
    pub make_destination: CommandView,
    pub write_archive: CommandView,
    pub archive: Seq<char>,
}

impl View for BackupPlan {
    type V = BackupView;

    open spec fn view(&self) -> BackupView {
        BackupView {
            make_destination: self.make_destination@,
            write_archive: self.write_archive@,
            archive: self.archive@,
        }
    }
}

/// `destination` as an absolute path: unchanged when it starts with `/`,
/// otherwise taken relative to the working directory `cwd`.
pub open spec fn absolute_destination(destination: Seq<char>, cwd: Seq<char>) -> Seq<char> {
    if destination.len() > 0 && destination[0] == '/' {
        destination
    } else {
        strip_trailing(cwd, '/') + "/"@ + destination
    }
}

/// The archive a backup into the absolute directory `destination` stamped
/// `stamp` writes.
pub open spec fn archive_path(destination: Seq<char>, stamp: Seq<char>) -> Seq<char> {
    strip_trailing(destination, '/') + "/jellyfin-config-"@ + stamp + ".tar.gz"@
}

/// The `tar` command that archives `config` into `archive`, leaving out the
/// trees Jellyfin regenerates (`cache/`, `transcodes/`, `log/`).
pub open spec fn archive_command(config: Seq<char>, archive: Seq<char>) -> CommandView {
    cmd("tar"@).with("-czf"@).with(archive).with("--exclude=./cache"@).with(
        "--exclude=./transcodes"@,
    ).with("--exclude=./log"@).with("-C"@).with(config).with("."@)
}

/// The backup of `args` stamped `stamp`, run from the working directory
/// `cwd`.
pub open spec fn backup_view(args: JellyfinBackupArgs, cwd: Seq<char>, stamp: Seq<char>) -> BackupView
{
    let destination = absolute_destination(args.destination@, cwd);
    let archive = archive_path(destination, stamp);
    BackupView {
        make_destination: cmd("mkdir"@).with("-p"@).with(args.destination@),
        write_archive: archive_command(args.config_path@, archive),
        archive,
    }
}

/// `s` without its trailing `c` is a prefix of `s`.
pub proof fn lemma_strip_trailing_prefix(s: Seq<char>, c: char)
    ensures
        strip_trailing(s, c).len() <= s.len(),
        strip_trailing(s, c) == s.take(strip_trailing(s, c).len() as int),
    decreases s.len(),
{
    if s.len() > 0 && s.last() == c {
        lemma_strip_trailing_prefix(s.drop_last(), c);
        let t = strip_trailing(s.drop_last(), c);
        assert(s.drop_last().take(t.len() as int) =~= s.take(t.len() as int));
    } else {
        assert(s.take(s.len() as int) =~= s);
    }
}

/// A backup's archive is an absolute path, whatever the destination, when
/// the working directory is absolute.
pub proof fn law_archive_is_absolute(destination: Seq<char>, cwd: Seq<char>, stamp: Seq<char>)
    requires
        cwd.len() > 0,
        cwd[0] == '/',
    ensures
        archive_path(absolute_destination(destination, cwd), stamp).len() > 0,
        archive_path(absolute_destination(destination, cwd), stamp)[0] == '/',
{
    reveal_strlit("/");
    reveal_strlit("/jellyfin-config-");
    let abs = absolute_destination(destination, cwd);
    lemma_strip_trailing_prefix(cwd, '/');
    lemma_strip_trailing_prefix(abs, '/');
    let sc = strip_trailing(cwd, '/');
    if !(destination.len() > 0 && destination[0] == '/') {
        if sc.len() > 0 {
            assert(sc[0] == cwd[0]);
        }
        assert(abs.len() > 0 && abs[0] == '/');
    }
    let sa = strip_trailing(abs, '/');
    if sa.len() > 0 {
        assert(sa[0] == abs[0]);
    }
    let p = sa + "/jellyfin-config-"@;
    assert(p[0] == '/');
    assert((p + stamp + ".tar.gz"@)[0] == p[0]);
}

/// `destination` as an absolute path, relative to the working directory
/// `cwd` unless it starts with `/`.
pub fn absolute_path(destination: &str, cwd: &str) -> (r: String)
    ensures
        r@ == absolute_destination(destination@, cwd@),
{
    let v = chars_of(destination);
    if v.len() > 0 && v[0] == '/' {
        String::from_str(destination)
    } else {
        let mut r = strip_trailing_char(cwd, '/');
        r.append("/");
        r.append(destination);
        r
    }
}

/// Plan a backup of the `/config` volume, run from the absolute working
/// directory `cwd`: refused unless the config path is a directory
/// (`config_is_dir`); otherwise create the destination and write a `.tar.gz`
/// named after `stamp` into it. The archive is reported as an absolute path.
pub fn backup_plan(args: &JellyfinBackupArgs, cwd: &str, config_is_dir: bool, stamp: &str) -> (r:
    Result<BackupPlan, PluginError>)
    requires
        cwd@.len() > 0,
        cwd@[0] == '/',
    ensures
        config_is_dir ==> (r matches Ok(plan) && plan@ == backup_view(*args, cwd@, stamp@)
            && plan@.archive[0] == '/'),
        !config_is_dir ==> (r matches Err(e) && e == PluginError::ConfigNotDirectory(
            args.config_path,
        )),
{
    if !config_is_dir {
        return Err(PluginError::ConfigNotDirectory(args.config_path.clone()));
    }
    proof {
        law_archive_is_absolute(args.destination@, cwd@, stamp@);
    }
    let destination = absolute_path(args.destination.as_str(), cwd);
    let make_destination = CommandLine::new("mkdir").arg("-p").arg(args.destination.as_str());
    let mut archive = strip_trailing_char(destination.as_str(), '/');
    archive.append("/jellyfin-config-");
    archive.append(stamp);
    archive.append(".tar.gz");
    let write_archive = CommandLine::new("tar").arg("-czf").arg(archive.as_str()).arg(
        "--exclude=./cache",
    ).arg("--exclude=./transcodes").arg("--exclude=./log").arg("-C").arg(
        args.config_path.as_str(),
    ).arg(".");
    Ok(BackupPlan { make_destination, write_archive, archive })
}

/// An ASCII decimal digit.
pub open spec fn is_digit(c: char) -> bool {
    '0' <= c <= '9'
}

/// The shape of a `%Y%m%d-%H%M%S` stamp: the year (at least four digits,
/// with a leading sign outside years 0 to 9999), then two digits each of
/// month and day, a `-`, and two digits each of hour, minute and second.
pub open spec fn stamp_shaped(s: Seq<char>) -> bool {
    &&& s.len() >= 15
    &&& s[s.len() - 7] == '-'
    &&& forall|i: int|
        s.len() - 11 <= i < s.len() && i != s.len() - 7 ==> is_digit(#[trigger] s[i])
    &&& forall|i: int|
        0 <= i < s.len() - 11 ==> is_digit(#[trigger] s[i]) || (i == 0 && (s[i] == '+' || s[i]
            == '-'))
}

/// What chrono renders for the UTC instant `secs` seconds and `nanos`
/// nanoseconds after the Unix epoch in the format `fmt`, or `None` when
/// chrono cannot represent that instant.
pub uninterp spec fn utc_rendering(secs: i64, nanos: u32, fmt: Seq<char>) -> Option<Seq<char>>;

/// chrono's rendering of a UTC instant (`DateTime::from_timestamp(secs,
/// nanos)` then `format(fmt)`); only the archive-stamp format, which chrono
/// always renders, is admitted. `from_timestamp` returns `None` outside its
/// range or for an invalid nanosecond count, and otherwise the instant; it
/// represents every instant from the epoch to beyond year 250000, so an
/// instant in that span with fewer than a billion nanoseconds is rendered.
/// The rendering has the stamp shape, as chrono's formatter writes it: the
/// year zero-padded to four digits (signed outside 0 to 9999), the other
/// fields as two digits each.
#[verifier::external_body]
fn format_utc_timestamp(secs: i64, nanos: u32, fmt: &str) -> (r: Option<String>)
    requires
        fmt@ == "%Y%m%d-%H%M%S"@,
    ensures
        opt_view(r) == utc_rendering(secs, nanos, fmt@),
        r matches Some(s) ==> stamp_shaped(s@),
        0 <= secs <= 8_000_000_000_000 && nanos < 1_000_000_000 ==> r is Some,
{
    match chrono::DateTime::from_timestamp(secs, nanos) {
        Some(t) => Some(t.format(fmt).to_string()),
        None => None,
    }
}

/// The system clock's reading as time since the Unix epoch
/// (`SystemTime::now().duration_since(UNIX_EPOCH)`), in whole seconds and
/// the nanoseconds beyond them, which are fewer than a billion; `None` when
/// the clock reads before the epoch. Which time it reads is not stated.
#[verifier::external_body]
fn clock_since_epoch() -> (r: Option<(u64, u32)>)
    ensures
        r matches Some(t) ==> t.1 < 1_000_000_000,
{
    match std::time::SystemTime::now().duration_since(std::time::UNIX_EPOCH) {
        Ok(d) => Some((d.as_secs(), d.subsec_nanos())),
        Err(_) => None,
    }
}

/// The archive stamp (`YYYYMMDD-HHMMSS`, UTC) of the instant `secs` seconds
/// and `nanos` nanoseconds after the Unix epoch, or `None` when chrono
/// cannot represent that instant.
pub fn stamp_at(secs: u64, nanos: u32) -> (r: Option<String>)
    ensures
        secs > i64::MAX ==> r is None,
        secs <= i64::MAX ==> opt_view(r) == utc_rendering(
            secs as i64,
            nanos,
            "%Y%m%d-%H%M%S"@,
        ),
        r matches Some(s) ==> stamp_shaped(s@),
        secs <= 8_000_000_000_000 && nanos < 1_000_000_000 ==> r is Some,
{
    if secs > i64::MAX as u64 {
        return None;
    }
    format_utc_timestamp(secs as i64, nanos, "%Y%m%d-%H%M%S")
}

/// UTC timestamp `YYYYMMDD-HHMMSS` of the current time, for archive names;
/// `None` when the clock reads before the epoch or beyond what chrono can
/// represent.
pub fn now_stamp() -> (stamp: Option<String>)
    ensures
        stamp matches Some(s) ==> stamp_shaped(s@),
{
    match clock_since_epoch() {
        Some((secs, nanos)) => stamp_at(secs, nanos),
        None => None,
    }
}

/// Plan a backup stamped with the current UTC time: refused when the config
/// path is not a directory, and failing when the clock cannot be read.
pub fn backup_plan_now(args: &JellyfinBackupArgs, cwd: &str, config_is_dir: bool) -> (r:
    Result<BackupPlan, PluginError>)
    requires
        cwd@.len() > 0,
        cwd@[0] == '/',
    ensures
        config_is_dir ==> match r {
            Ok(plan) => exists|stamp: Seq<char>|
                stamp_shaped(stamp) && plan@ == #[trigger] backup_view(*args, cwd@, stamp)
                    && plan@.archive[0] == '/',
            Err(e) => e is ClockUnavailable,
        },
        !config_is_dir ==> (r matches Err(e) && e == PluginError::ConfigNotDirectory(
            args.config_path,
        )),
{
    if !config_is_dir {
        return Err(PluginError::ConfigNotDirectory(args.config_path.clone()));
    }
    match now_stamp() {
        Some(stamp) => backup_plan(args, cwd, config_is_dir, stamp.as_str()),
        None => Err(PluginError::ClockUnavailable),
    }
}

// ---------------------------------------------------------------------------
// restore
// ---------------------------------------------------------------------------

/// Arguments of `jellyfin.restore`.
#[derive(Debug, Clone, PartialEq, Eq)]
pub struct JellyfinRestoreArgs {
    /// The backup tarball to restore from.
    pub from: String,
    /// Host path of the `/config` volume to restore into. Created if missing.
    pub config_path: String,
}

/// What `jellyfin.restore` reports.
#[derive(Debug, Clone, PartialEq, Eq)]
pub struct JellyfinRestoreOutput {
    /// True when extraction completed.
    pub restored: bool,
    /// Where the config was restored to.
    pub config_path: String,
}

/// The report of a restore whose extraction into `config_path` completed.
pub fn restore_output(config_path: String) -> (out: JellyfinRestoreOutput)
    ensures
        out.restored,
        out.config_path == config_path,
{
    JellyfinRestoreOutput { restored: true, config_path }
}

/// The commands of a restore.
#[derive(Debug, Clone, PartialEq, Eq)]
pub struct RestorePlan {
    /// Creates the config directory.
    pub make_config_dir: CommandLine,
    /// Extracts the archive into it.
    pub extract_archive: CommandLine,
}

/// The `tar` command that extracts `archive` into `config`.
pub open spec fn extract_command(archive: Seq<char>, config: Seq<char>) -> CommandView {
    cmd("tar"@).with("-xzf"@).with(archive).with("-C"@).with(config)
}

/// Plan a restore of the `/config` volume: refused unless the tarball exists
/// (`from_is_file`); otherwise create the config directory and extract the
/// archive over it.
pub fn restore_plan(args: &JellyfinRestoreArgs, from_is_file: bool) -> (r: Result<
    RestorePlan,
    PluginError,
>)
    ensures
        from_is_file ==> (r matches Ok(plan) && plan.make_config_dir@ == cmd("mkdir"@).with(
            "-p"@,
        ).with(args.config_path@) && plan.extract_archive@ == extract_command(
            args.from@,
            args.config_path@,
        )),
        !from_is_file ==> (r matches Err(e) && e == PluginError::TarballNotFound(args.from)),
{
    if !from_is_file {
        return Err(PluginError::TarballNotFound(args.from.clone()));
    }
    let make_config_dir = CommandLine::new("mkdir").arg("-p").arg(args.config_path.as_str());
    let extract_archive = CommandLine::new("tar").arg("-xzf").arg(args.from.as_str()).arg(
        "-C",
    ).arg(args.config_path.as_str());
    Ok(RestorePlan { make_config_dir, extract_archive })
}

/// A backup archives the config volume (`-C` then the config path) and leaves
/// out the trees Jellyfin regenerates: `cache/`, `transcodes/` and `log/`.
pub proof fn law_backup_skips_regenerated_trees(
    args: JellyfinBackupArgs,
    cwd: Seq<char>,
    stamp: Seq<char>,
)
    ensures
        ({
            let tar = backup_view(args, cwd, stamp).write_archive;
            &&& tar.args.contains("--exclude=./cache"@)
            &&& tar.args.contains("--exclude=./transcodes"@)
            &&& tar.args.contains("--exclude=./log"@)
            &&& tar.args[5] == "-C"@
            &&& tar.args[6] == args.config_path@
        }),
{
    let tar = backup_view(args, cwd, stamp).write_archive;
    assert(tar.args[2] == "--exclude=./cache"@);
    assert(tar.args[3] == "--exclude=./transcodes"@);
    assert(tar.args[4] == "--exclude=./log"@);
}

/// Restoring from the archive a backup wrote extracts exactly that archive
/// into the config volume being restored.
pub proof fn law_restore_reads_backup_archive(
    backup: JellyfinBackupArgs,
    cwd: Seq<char>,
    stamp: Seq<char>,
    config: Seq<char>,
)
    ensures
        extract_command(backup_view(backup, cwd, stamp).archive, config).args == seq![
            "-xzf"@,
            archive_path(absolute_destination(backup.destination@, cwd), stamp),
            "-C"@,
            config,
        ],
{
    assert(extract_command(backup_view(backup, cwd, stamp).archive, config).args =~= seq![
        "-xzf"@,
        archive_path(absolute_destination(backup.destination@, cwd), stamp),
        "-C"@,
        config,
    ]);
}

/// The number of provisioning options an LXC install passes beyond the
/// script, vmid and config: two for a media path, one for `--no-gpu`.
pub open spec fn install_option_count(args: JellyfinInstallArgs) -> int {
    (if args.media_path is Some {
        2int
    } else {
        0int
    }) + (if args.no_gpu {
        1int
    } else {
        0int
    })
}

/// What an install runs. On LXC with a vmid: `bash <script> <vmid> --config
/// <config>`, then `--media <path>` exactly when a media path is given and
/// `--no-gpu` last exactly when asked, each whatever the other is; the script
/// is the bootstrap path or `lxc/provision.sh`. On LXC without a vmid
/// nothing runs. On Docker: `docker compose -f <file> up -d` with the
/// bootstrap path or `compose.yml`, whatever the other options are.
pub proof fn law_install_command(args: JellyfinInstallArgs)
    ensures
        args.runtime == Runtime::Lxc && args.vmid is None ==> install_command(args) is None,
        args.runtime == Runtime::Lxc && args.vmid is Some ==> match install_command(args) {
            Some(c) => {
                let n = 4 + install_option_count(args);
                &&& c.program == "bash"@
                &&& c.args.len() == n
                &&& c.args[0] == text_or(args.bootstrap_path, "lxc/provision.sh"@)
                &&& c.args[1] == decimal(args.vmid->0 as nat)
                &&& c.args[2] == "--config"@
                &&& c.args[3] == args.config_path@
                &&& (args.media_path matches Some(m) ==> c.args[4] == "--media"@ && c.args[5]
                    == m@)
                &&& (args.no_gpu ==> c.args[n - 1] == "--no-gpu"@)
            },
            None => false,
        },
        args.runtime == Runtime::Docker ==> match install_command(args) {
            Some(c) => c.program == "docker"@ && c.args == seq![
                "compose"@,
                "-f"@,
                text_or(args.bootstrap_path, "compose.yml"@),
                "up"@,
                "-d"@,
            ],
            None => false,
        },
{
    if args.runtime == Runtime::Docker {
        let c = install_command(args)->0;
        assert(c.args =~= seq![
            "compose"@,
            "-f"@,
            text_or(args.bootstrap_path, "compose.yml"@),
            "up"@,
            "-d"@,
        ]);
    }
}

/// What a Docker update runs, for every channel: first `docker pull
/// jellyfin/jellyfin:<tag>`, with the tag `Channel::image_tag` gives, then
/// `docker compose -f <file> up -d`, and nothing else. On LXC it is the one
/// in-container upgrade, and nothing without a vmid.
pub proof fn law_update_commands(args: JellyfinUpdateArgs)
    ensures
        args.runtime == Runtime::Docker ==> match update_commands(args) {
            Some(cs) => {
                &&& cs.len() == 2
                &&& cs[0].program == "docker"@
                &&& cs[0].args == seq!["pull"@, "jellyfin/jellyfin:"@ + channel_tag(args.channel)]
                &&& cs[1].program == "docker"@
                &&& cs[1].args == seq!["compose"@, "-f"@, args.compose_file@, "up"@, "-d"@]
            },
            None => false,
        },
        args.runtime == Runtime::Lxc && args.vmid is None ==> update_commands(args) is None,
        args.runtime == Runtime::Lxc && args.vmid is Some ==> match update_commands(args) {
            Some(cs) => {
                &&& cs.len() == 1
                &&& cs[0].program == "pct"@
                &&& cs[0].args == seq![
                    "exec"@,
                    decimal(args.vmid->0 as nat),
                    "--"@,
                    "bash"@,
                    "-c"@,
                    lxc_upgrade_script(),
                ]
            },
            None => false,
        },
{
    if args.runtime == Runtime::Docker {
        let cs = update_commands(args)->0;
        assert(cs[0].args =~= seq!["pull"@, "jellyfin/jellyfin:"@ + channel_tag(args.channel)]);
        assert(cs[1].args =~= seq!["compose"@, "-f"@, args.compose_file@, "up"@, "-d"@]);
    } else if args.vmid is Some {
        let cs = update_commands(args)->0;
        assert(cs[0].args =~= seq![
            "exec"@,
            decimal(args.vmid->0 as nat),
            "--"@,
            "bash"@,
            "-c"@,
            lxc_upgrade_script(),
        ]);
    }
}

} // verus!

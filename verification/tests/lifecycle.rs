use std::path::Path;

use jellyfin::error::PluginError;
use jellyfin::lifecycle::{
    absolute_path, backup_plan, backup_plan_now, default_compose, default_config_path,
    install_output, install_plan, now_stamp, restore_output, stamp_at, update_output,
    restore_plan, update_plan, Channel, JellyfinBackupArgs, JellyfinInstallArgs,
    JellyfinRestoreArgs, JellyfinUpdateArgs, Runtime,
};

fn s(v: &[&str]) -> Vec<String> {
    v.iter().map(|x| (*x).to_string()).collect()
}

#[test]
fn channel_maps_to_image_tag() {
    assert_eq!(Channel::Latest.image_tag(), "latest");
    assert_eq!(Channel::Rc.image_tag(), "unstable");
    assert_eq!(Channel::Stable.image_tag(), "stable");
}

#[test]
fn defaults() {
    assert_eq!(Runtime::default(), Runtime::Lxc);
    assert_eq!(Channel::default(), Channel::Latest);
    assert_eq!(default_config_path(), "/opt/jellyfin/config");
    assert_eq!(default_compose(), "compose.yml");
}

fn install_args(runtime: Runtime, vmid: Option<u32>) -> JellyfinInstallArgs {
    JellyfinInstallArgs {
        runtime,
        vmid,
        config_path: default_config_path(),
        media_path: None,
        no_gpu: false,
        bootstrap_path: None,
    }
}

#[test]
fn install_lxc_requires_vmid() {
    let err = install_plan(&install_args(Runtime::Lxc, None)).unwrap_err();
    assert_eq!(err, PluginError::VmidRequired);
    assert_eq!(err.message(), "`vmid` is required when runtime=lxc");
}

#[test]
fn install_lxc_runs_provision_script() {
    let c = install_plan(&install_args(Runtime::Lxc, Some(120))).unwrap();
    assert_eq!(c.program, "bash");
    assert_eq!(c.args, s(&["lxc/provision.sh", "120", "--config", "/opt/jellyfin/config"]));
    let mut args = install_args(Runtime::Lxc, Some(7));
    args.media_path = Some("/mnt/media".to_string());
    args.no_gpu = true;
    args.bootstrap_path = Some("/opt/p.sh".to_string());
    let c = install_plan(&args).unwrap();
    assert_eq!(
        c.args,
        s(&["/opt/p.sh", "7", "--config", "/opt/jellyfin/config", "--media", "/mnt/media", "--no-gpu"])
    );
}

#[test]
fn install_docker_brings_up_compose() {
    let c = install_plan(&install_args(Runtime::Docker, None)).unwrap();
    assert_eq!(c.program, "docker");
    assert_eq!(c.args, s(&["compose", "-f", "compose.yml", "up", "-d"]));
}

#[test]
fn update_docker_pulls_channel_image() {
    let args = JellyfinUpdateArgs {
        runtime: Runtime::Docker,
        channel: Channel::Rc,
        vmid: None,
        compose_file: "c.yml".to_string(),
    };
    let cs = update_plan(&args).unwrap();
    assert_eq!(cs.len(), 2);
    assert_eq!(cs[0].args, s(&["pull", "jellyfin/jellyfin:unstable"]));
    assert_eq!(cs[1].args, s(&["compose", "-f", "c.yml", "up", "-d"]));
}

#[test]
fn update_lxc_upgrades_in_container() {
    let args = JellyfinUpdateArgs {
        runtime: Runtime::Lxc,
        channel: Channel::Stable,
        vmid: Some(4294967295),
        compose_file: default_compose(),
    };
    let cs = update_plan(&args).unwrap();
    assert_eq!(cs.len(), 1);
    assert_eq!(cs[0].program, "pct");
    assert_eq!(
        cs[0].args,
        s(&[
            "exec",
            "4294967295",
            "--",
            "bash",
            "-c",
            "apt-get update && apt-get install -y --only-upgrade jellyfin && systemctl restart jellyfin"
        ])
    );
    let missing = JellyfinUpdateArgs { vmid: None, ..args };
    assert_eq!(update_plan(&missing).unwrap_err(), PluginError::VmidRequired);
}

#[test]
fn backup_rejects_missing_config_dir() {
    let args = JellyfinBackupArgs {
        config_path: "/nonexistent/jellyfin/config/path".to_string(),
        destination: "/tmp/jellyfin-test-dest".to_string(),
    };
    let config_is_dir = Path::new(&args.config_path).is_dir();
    let err = backup_plan_now(&args, "/srv", config_is_dir).unwrap_err();
    assert!(err.message().contains("not a directory"), "{err:?}");
}

#[test]
fn backup_refuses_non_directory_config() {
    let args = JellyfinBackupArgs {
        config_path: "/nonexistent/jellyfin/config/path".to_string(),
        destination: "/tmp/jellyfin-test-dest".to_string(),
    };
    let err = backup_plan(&args, "/srv", false, "20240101-000000").unwrap_err();
    assert!(err.message().contains("not a directory"));
    assert_eq!(
        err.message(),
        "config path '/nonexistent/jellyfin/config/path' is not a directory"
    );
}

#[test]
fn backup_archive_name_and_commands() {
    let args = JellyfinBackupArgs {
        config_path: "/opt/jellyfin/config".to_string(),
        destination: "/backups//".to_string(),
    };
    let plan = backup_plan(&args, "/srv", true, "20240102-030405").unwrap();
    assert_eq!(plan.archive, "/backups/jellyfin-config-20240102-030405.tar.gz");
    assert_eq!(plan.make_destination.program, "mkdir");
    assert_eq!(plan.make_destination.args, s(&["-p", "/backups//"]));
    assert_eq!(plan.write_archive.program, "tar");
    assert_eq!(
        plan.write_archive.args,
        s(&[
            "-czf",
            "/backups/jellyfin-config-20240102-030405.tar.gz",
            "--exclude=./cache",
            "--exclude=./transcodes",
            "--exclude=./log",
            "-C",
            "/opt/jellyfin/config",
            "."
        ])
    );
}

#[test]
fn backup_now_stamps_with_utc_time() {
    let stamp = now_stamp().expect("the clock reads a representable time");
    assert_eq!(stamp.len(), 15);
    assert_eq!(stamp.as_bytes()[8], b'-');
    assert!(stamp.chars().enumerate().all(|(i, c)| i == 8 || c.is_ascii_digit()));
    let args = JellyfinBackupArgs {
        config_path: "/c".to_string(),
        destination: "/d".to_string(),
    };
    let plan = backup_plan_now(&args, "/srv", true).unwrap();
    assert!(plan.archive.starts_with("/d/jellyfin-config-"));
    assert!(plan.archive.ends_with(".tar.gz"));
    assert_eq!(plan.archive.len(), "/d/jellyfin-config-".len() + 15 + ".tar.gz".len());
}

#[test]
fn restore_rejects_missing_tarball() {
    let args = JellyfinRestoreArgs {
        from: "/nonexistent/backup.tar.gz".to_string(),
        config_path: "/tmp/jellyfin-test-restore".to_string(),
    };
    let from_is_file = Path::new(&args.from).is_file();
    let err = restore_plan(&args, from_is_file).unwrap_err();
    assert!(err.message().contains("not found"), "{err:?}");
    assert_eq!(err, PluginError::TarballNotFound("/nonexistent/backup.tar.gz".to_string()));
}

#[test]
fn restore_error_names_tarball() {
    let args = JellyfinRestoreArgs {
        from: "/nonexistent/backup.tar.gz".to_string(),
        config_path: "/tmp/jellyfin-test-restore".to_string(),
    };
    let err = restore_plan(&args, false).unwrap_err();
    assert_eq!(err.message(), "backup tarball '/nonexistent/backup.tar.gz' not found");
    assert_eq!(err, PluginError::TarballNotFound("/nonexistent/backup.tar.gz".to_string()));
}

#[test]
fn restore_extracts_backup_archive() {
    let backup = backup_plan(
        &JellyfinBackupArgs { config_path: "/c".to_string(), destination: "/d".to_string() },
        "/srv",
        true,
        "20240101-000000",
    )
    .unwrap();
    let plan = restore_plan(
        &JellyfinRestoreArgs { from: backup.archive.clone(), config_path: "/r".to_string() },
        true,
    )
    .unwrap();
    assert_eq!(plan.make_config_dir.args, s(&["-p", "/r"]));
    assert_eq!(plan.extract_archive.program, "tar");
    assert_eq!(plan.extract_archive.args, s(&["-xzf", &backup.archive, "-C", "/r"]));
}

#[test]
fn backup_archive_is_absolute_for_relative_destination() {
    let args = JellyfinBackupArgs {
        config_path: "/opt/jellyfin/config".to_string(),
        destination: "backups".to_string(),
    };
    let plan = backup_plan(&args, "/home/op/", true, "20240102-030405").unwrap();
    assert_eq!(plan.archive, "/home/op/backups/jellyfin-config-20240102-030405.tar.gz");
    assert_eq!(plan.make_destination.args, s(&["-p", "backups"]));
    let at_root = backup_plan(
        &JellyfinBackupArgs { config_path: "/c".to_string(), destination: "".to_string() },
        "/",
        true,
        "20240102-030405",
    )
    .unwrap();
    assert_eq!(at_root.archive, "/jellyfin-config-20240102-030405.tar.gz");
    assert_eq!(absolute_path("/abs/dir", "/ignored"), "/abs/dir");
    assert_eq!(absolute_path("rel", "/"), "/rel");
}

#[test]
fn update_log_is_last_command_output() {
    let out = update_output(Channel::Rc, &vec!["pulled".to_string(), "recreated".to_string()]);
    assert!(out.updated);
    assert_eq!(out.image_tag, "unstable");
    assert_eq!(out.log, "recreated");
    assert_eq!(update_output(Channel::Latest, &Vec::new()).log, "");
}

#[test]
fn empty_destination_is_created_as_given() {
    let plan = backup_plan(
        &JellyfinBackupArgs { config_path: "/c".to_string(), destination: "".to_string() },
        "/srv",
        true,
        "20240102-030405",
    )
    .unwrap();
    assert_eq!(plan.make_destination.args, s(&["-p", ""]));
}

#[test]
fn stamps_of_instants() {
    assert_eq!(stamp_at(0, 0).as_deref(), Some("19700101-000000"));
    assert_eq!(stamp_at(1431648000, 999_999_999).as_deref(), Some("20150515-000000"));
    assert_eq!(stamp_at(1704164645, 0).as_deref(), Some("20240102-030405"));
    assert_eq!(stamp_at(u64::MAX, 0), None);
    assert_eq!(stamp_at(i64::MAX as u64, 0), None);
}

#[test]
fn clock_error_message() {
    assert_eq!(
        PluginError::ClockUnavailable.message(),
        "system clock is outside the range of archive timestamps"
    );
}

#[test]
fn install_and_restore_reports() {
    let out = install_output(Runtime::Docker, "ok".to_string());
    assert!(out.provisioned);
    assert_eq!(out.runtime, Runtime::Docker);
    assert_eq!(out.log, "ok");
    let out = restore_output("/r".to_string());
    assert!(out.restored);
    assert_eq!(out.config_path, "/r");
}

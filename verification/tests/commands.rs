//! The command lines of `msb`.

use rightsize_msb::commands::{
    capture_workload_cmdline, copy_in, copy_out, exec, exec_stream, exec_workload, follow_logs,
    image_remove, logs, logs_system, ls, parse_captured_cmdline, port_flag_value, restore, rm, run,
    snapshot_create, snapshot_create_in, snapshot_export, snapshot_import, snapshot_inspect,
    snapshot_rm, stop, CAPTURE_CMDLINE_SCRIPT,
};
use rightsize_msb::model::{ContainerSpec, FileMount, PortBinding, Protocol};

fn full_spec() -> ContainerSpec {
    ContainerSpec {
        name: "rz-abc-1".to_string(),
        image: "redis:8.6-alpine".to_string(),
        env: vec![("A".to_string(), "1".to_string())],
        command: Some(vec![
            "redis-server".to_string(),
            "--port".to_string(),
            "6379".to_string(),
        ]),
        ports: vec![PortBinding {
            host_port: 12345,
            guest_port: 6379,
            protocol: Protocol::Tcp,
        }],
        mounts: vec![FileMount::new(
            "/tmp/f.conf".to_string(),
            "/etc/f.conf".to_string(),
        )],
        network_id: Some("rz-net-1".to_string()),
        aliases: vec!["redis".to_string()],
        run_id: "abc".to_string(),
        memory_limit_mb: None,
        keep_alive: false,
        checkpoint_ref: None,
        disk_limit_mb: None,
        tmpfs_root_mb: None,
        network_disabled: false,
        checkpoint_captured_cmdline: None,
        restore_name_candidates: None,
    }
}

#[test]
fn run_command_carries_all_spec_parts_attached_no_d() {
    let cmd = run(&full_spec());
    assert_eq!(
        cmd,
        vec![
            "run",
            "--name",
            "rz-abc-1",
            "-p",
            "12345:6379",
            "-e",
            "A=1",
            "--mount-file",
            "/tmp/f.conf:/etc/f.conf:rw,nodev",
            "redis:8.6-alpine",
            "--",
            "redis-server",
            "--port",
            "6379",
        ]
    );
    assert!(!cmd.contains(&"-d".to_string()));
}

#[test]
fn mount_file_always_carries_an_explicit_access_token() {
    let mut spec = full_spec();
    spec.mounts = vec![
        FileMount::new("/tmp/rw.conf".to_string(), "/etc/rw.conf".to_string()),
        FileMount::new("/tmp/ro.conf".to_string(), "/etc/ro.conf".to_string()).read_only(),
    ];
    let cmd = run(&spec);
    assert!(
        cmd.contains(&"/tmp/rw.conf:/etc/rw.conf:rw,nodev".to_string()),
        "{cmd:?}"
    );
    assert!(
        cmd.contains(&"/tmp/ro.conf:/etc/ro.conf:ro,nodev".to_string()),
        "{cmd:?}"
    );
    assert!(
        !cmd.iter().any(|a| a == "/tmp/rw.conf:/etc/rw.conf"),
        "{cmd:?}"
    );
}

#[test]
fn image_default_entrypoint_runs_when_command_is_none() {
    let mut spec = full_spec();
    spec.command = None;
    let cmd = run(&spec);
    assert_eq!(cmd.last().unwrap(), "redis:8.6-alpine");
    assert!(!cmd.contains(&"--".to_string()));
}

#[test]
fn run_command_includes_dash_m_when_memory_limit_is_set_absent_when_none() {
    let mut spec = full_spec();
    spec.memory_limit_mb = Some(1024);
    let with_limit = run(&spec);
    let m_index = with_limit
        .iter()
        .position(|a| a == "-m")
        .expect("expected -m flag");
    assert_eq!(with_limit[m_index + 1], "1024M");
    assert_eq!(with_limit[3], "-m");

    let without_limit = run(&full_spec());
    assert!(!without_limit.contains(&"-m".to_string()));
}

#[test]
fn run_command_includes_root_disk_when_disk_limit_is_set_absent_when_none() {
    let mut spec = full_spec();
    spec.disk_limit_mb = Some(2048);
    let with_limit = run(&spec);
    assert_eq!(
        with_limit,
        vec![
            "run",
            "--name",
            "rz-abc-1",
            "--root-disk",
            "2048M",
            "-p",
            "12345:6379",
            "-e",
            "A=1",
            "--mount-file",
            "/tmp/f.conf:/etc/f.conf:rw,nodev",
            "redis:8.6-alpine",
            "--",
            "redis-server",
            "--port",
            "6379",
        ]
    );

    let without_limit = run(&full_spec());
    assert!(!without_limit.contains(&"--root-disk".to_string()));
}

#[test]
fn run_command_includes_tmpfs_root_disk_when_tmpfs_root_is_set() {
    let mut spec = full_spec();
    spec.tmpfs_root_mb = Some(512);
    let cmd = run(&spec);
    let index = cmd
        .iter()
        .position(|a| a == "--root-disk")
        .expect("expected --root-disk flag");
    assert_eq!(cmd[index + 1], "tmpfs:512M");
}

#[test]
fn run_command_includes_net_private_when_network_disabled_absent_when_false() {
    let mut spec = full_spec();
    spec.network_disabled = true;
    let disabled = run(&spec);
    let index = disabled
        .iter()
        .position(|a| a == "--net")
        .expect("expected --net flag");
    assert_eq!(disabled[index + 1], "private");

    let enabled = run(&full_spec());
    assert!(!enabled.contains(&"--net".to_string()));
}

#[test]
fn run_command_orders_root_disk_and_net_between_memory_and_ports() {
    let mut spec = full_spec();
    spec.memory_limit_mb = Some(1024);
    spec.disk_limit_mb = Some(2048);
    spec.network_disabled = true;
    let cmd = run(&spec);
    assert_eq!(
        cmd,
        vec![
            "run",
            "--name",
            "rz-abc-1",
            "-m",
            "1024M",
            "--root-disk",
            "2048M",
            "--net",
            "private",
            "-p",
            "12345:6379",
            "-e",
            "A=1",
            "--mount-file",
            "/tmp/f.conf:/etc/f.conf:rw,nodev",
            "redis:8.6-alpine",
            "--",
            "redis-server",
            "--port",
            "6379",
        ]
    );
}

#[test]
fn exec_logs_stop_rm_ls_spellings() {
    assert_eq!(
        exec("rz-abc-1", &["redis-cli".to_string(), "ping".to_string()]),
        vec!["exec", "rz-abc-1", "--", "redis-cli", "ping"]
    );
    assert_eq!(
        exec_stream("rz-abc-1", &["nc".to_string(), "-l".to_string()]),
        vec!["exec", "--stream", "rz-abc-1", "--", "nc", "-l"]
    );
    assert_eq!(logs("rz-abc-1"), vec!["logs", "rz-abc-1", "--tail", "1000"]);
    assert_eq!(follow_logs("rz-abc-1"), vec!["logs", "rz-abc-1", "-f"]);
    assert_eq!(
        logs_system("rz-abc-1"),
        vec!["logs", "rz-abc-1", "--source", "system", "--tail", "1000"]
    );
    assert_eq!(stop("rz-abc-1"), vec!["stop", "rz-abc-1"]);
    assert_eq!(rm("rz-abc-1"), vec!["rm", "rz-abc-1"]);
    assert_eq!(ls(), vec!["ls", "--format", "json"]);
    assert_eq!(
        image_remove("floci/floci-az:0.8.0"),
        vec!["image", "remove", "floci/floci-az:0.8.0"]
    );
}

#[test]
fn run_command_with_no_ports_env_or_mounts_omits_their_flags() {
    let spec = ContainerSpec::new("rz-bare-1", "alpine:3.19", "bare");
    let cmd = run(&spec);
    assert_eq!(cmd, vec!["run", "--name", "rz-bare-1", "alpine:3.19"]);
}

#[test]
fn restore_command_carries_name_ports_and_memory_with_no_disk_only_flag() {
    let mut spec = full_spec();
    spec.memory_limit_mb = Some(1024);
    let cmd = restore(&spec, "/cache/checkpoints/rz-ckpt-deadbeefcafe");
    assert_eq!(
        cmd,
        vec![
            "restore",
            "/cache/checkpoints/rz-ckpt-deadbeefcafe",
            "--name",
            "rz-abc-1",
            "-m",
            "1024M",
            "-p",
            "12345:6379",
        ]
    );
}

#[test]
fn restore_command_omits_dash_m_when_memory_limit_is_unset() {
    let cmd = restore(&full_spec(), "/cache/checkpoints/rz-ckpt-deadbeefcafe");
    assert!(!cmd.contains(&"-m".to_string()));
    assert_eq!(cmd.last().unwrap(), "12345:6379");
}

#[test]
fn restore_command_never_carries_env_mounts_net_root_disk_or_disk_only_flags() {
    let mut spec = full_spec();
    spec.network_disabled = true;
    spec.disk_limit_mb = Some(2048);
    let cmd = restore(&spec, "/cache/checkpoints/rz-ckpt-deadbeefcafe");
    for forbidden in [
        "-e",
        "A=1",
        "--mount-file",
        "--net",
        "--root-disk",
        "--disk-only",
        "--",
    ] {
        assert!(
            !cmd.iter().any(|a| a == forbidden),
            "restore argv must never contain {forbidden:?}: {cmd:?}"
        );
    }
}

#[test]
fn restore_command_with_no_ports_or_memory_is_just_path_and_name() {
    let spec = ContainerSpec::new("rz-bare-1", "alpine:3.19", "bare");
    let cmd = restore(&spec, "/cache/checkpoints/rz-ckpt-bare");
    assert_eq!(
        cmd,
        vec![
            "restore",
            "/cache/checkpoints/rz-ckpt-bare",
            "--name",
            "rz-bare-1",
        ]
    );
}

#[test]
fn run_command_appends_slash_udp_for_a_udp_binding_and_leaves_tcp_unsuffixed() {
    let mut spec = full_spec();
    spec.ports.push(PortBinding {
        host_port: 40000,
        guest_port: 53,
        protocol: Protocol::Udp,
    });
    let cmd = run(&spec);
    assert!(
        cmd.windows(2).any(|w| w[0] == "-p" && w[1] == "12345:6379"),
        "the tcp binding must stay byte-identical to before UDP existed: {cmd:?}"
    );
    assert!(
        cmd.windows(2)
            .any(|w| w[0] == "-p" && w[1] == "40000:53/udp"),
        "a udp binding must emit the /udp suffix: {cmd:?}"
    );
}

#[test]
fn restore_command_appends_slash_udp_for_a_udp_binding_and_leaves_tcp_unsuffixed() {
    let mut spec = full_spec();
    spec.ports.push(PortBinding {
        host_port: 40000,
        guest_port: 53,
        protocol: Protocol::Udp,
    });
    let cmd = restore(&spec, "/cache/checkpoints/rz-ckpt-deadbeefcafe");
    assert!(
        cmd.windows(2).any(|w| w[0] == "-p" && w[1] == "12345:6379"),
        "the tcp binding must stay byte-identical to before UDP existed: {cmd:?}"
    );
    assert!(
        cmd.windows(2)
            .any(|w| w[0] == "-p" && w[1] == "40000:53/udp"),
        "a udp binding must emit the /udp suffix: {cmd:?}"
    );
}

#[test]
fn run_command_with_only_a_udp_port_emits_exactly_one_suffixed_flag() {
    let mut spec = ContainerSpec::new("rz-udp-only", "alpine:3.19", "run-1");
    spec.ports = vec![PortBinding {
        host_port: 51000,
        guest_port: 5353,
        protocol: Protocol::Udp,
    }];
    let cmd = run(&spec);
    assert!(
        cmd.windows(2)
            .any(|w| w[0] == "-p" && w[1] == "51000:5353/udp"),
        "{cmd:?}"
    );
    assert_eq!(
        cmd.iter().filter(|a| a.as_str() == "-p").count(),
        1,
        "{cmd:?}"
    );
}

#[test]
fn copy_in_and_out_and_snapshot_spellings() {
    assert_eq!(
        copy_in("/host/src.txt", "rz-abc-1", "/guest/dst.txt"),
        vec!["copy", "-q", "/host/src.txt", "rz-abc-1:/guest/dst.txt"]
    );
    assert_eq!(
        copy_out("rz-abc-1", "/guest/src.txt", "/host/dst.txt"),
        vec!["copy", "-q", "rz-abc-1:/guest/src.txt", "/host/dst.txt"]
    );
    assert_eq!(
        snapshot_create("rz-abc-1", "rz-ckpt-deadbeefcafe"),
        vec![
            "snapshot",
            "create",
            "--from-sandbox",
            "rz-abc-1",
            "rz-ckpt-deadbeefcafe"
        ]
    );
    assert_eq!(
        snapshot_create_in("rz-abc-1", "rz-ckpt-deadbeefcafe", "/cache/checkpoints"),
        vec![
            "snapshot",
            "create",
            "--from-sandbox",
            "rz-abc-1",
            "rz-ckpt-deadbeefcafe",
            "--dest-dir",
            "/cache/checkpoints"
        ]
    );
    assert_eq!(
        snapshot_rm("rz-ckpt-deadbeefcafe"),
        vec!["snapshot", "rm", "rz-ckpt-deadbeefcafe", "-f"]
    );
    assert_eq!(
        snapshot_rm("/cache/checkpoints/rz-abc-1/snap_deadbeefcafedeadbeefcafedeadbeef"),
        vec![
            "snapshot",
            "rm",
            "/cache/checkpoints/rz-abc-1/snap_deadbeefcafedeadbeefcafedeadbeef",
            "-f"
        ],
        "an artifact path must pass through unchanged"
    );
    assert_eq!(
        snapshot_inspect("rz-ckpt-deadbeefcafe"),
        vec!["snapshot", "inspect", "rz-ckpt-deadbeefcafe"]
    );
}

#[test]
fn exec_workload_emits_dash_e_pairs_before_the_name_then_dash_dash_and_the_argv() {
    let cmd = exec_workload(
        "rz-abc-1",
        &[
            ("A".to_string(), "1".to_string()),
            ("B".to_string(), "2".to_string()),
        ],
        &[
            "redis-server".to_string(),
            "--port".to_string(),
            "6379".to_string(),
        ],
    );
    assert_eq!(
        cmd,
        vec![
            "exec",
            "-e",
            "A=1",
            "-e",
            "B=2",
            "rz-abc-1",
            "--",
            "redis-server",
            "--port",
            "6379",
        ]
    );
}

#[test]
fn exec_workload_with_no_env_omits_dash_e_entirely() {
    let cmd = exec_workload("rz-abc-1", &[], &["true".to_string()]);
    assert_eq!(cmd, vec!["exec", "rz-abc-1", "--", "true"]);
    assert!(!cmd.contains(&"-e".to_string()));
}

#[test]
fn capture_workload_cmdline_execs_sh_c_with_the_capture_script() {
    let cmd = capture_workload_cmdline("rz-abc-1");
    assert_eq!(
        cmd,
        vec!["exec", "rz-abc-1", "--", "sh", "-c", CAPTURE_CMDLINE_SCRIPT]
    );
    assert!(CAPTURE_CMDLINE_SCRIPT.contains("/proc/"));
    assert!(CAPTURE_CMDLINE_SCRIPT.contains("init.krun"));
    assert!(CAPTURE_CMDLINE_SCRIPT.contains("cmdline"));
    assert!(
        CAPTURE_CMDLINE_SCRIPT.contains("/proc/$$"),
        "must exclude the script's own process"
    );
}

#[test]
fn parse_captured_cmdline_splits_on_nul_and_drops_the_terminator() {
    assert_eq!(
        parse_captured_cmdline("redis-server\0--port\x006379\0\n"),
        Some(vec![
            "redis-server".to_string(),
            "--port".to_string(),
            "6379".to_string(),
        ])
    );
}

#[test]
fn parse_captured_cmdline_tolerates_a_missing_trailing_newline_or_nul() {
    assert_eq!(
        parse_captured_cmdline("redis-server\0--port\x006379"),
        Some(vec![
            "redis-server".to_string(),
            "--port".to_string(),
            "6379".to_string(),
        ])
    );
}

#[test]
fn parse_captured_cmdline_preserves_a_genuine_empty_argument() {
    assert_eq!(
        parse_captured_cmdline("prog\0\0arg\0\n"),
        Some(vec!["prog".to_string(), String::new(), "arg".to_string()])
    );
}

#[test]
fn parse_captured_cmdline_is_none_when_the_script_found_no_process_at_all() {
    assert_eq!(parse_captured_cmdline(""), None);
    assert_eq!(parse_captured_cmdline("\n"), None);
}

#[test]
fn parse_captured_cmdline_a_lone_nul_is_one_empty_argument_not_nothing() {
    assert_eq!(parse_captured_cmdline("\0"), Some(vec![String::new()]));
    assert_eq!(parse_captured_cmdline("\0\n"), Some(vec![String::new()]));
}

#[test]
fn snapshot_save_load_spellings() {
    assert_eq!(
        snapshot_export("rz-ckpt-deadbeefcafe", "/tmp/cp.archive"),
        vec![
            "snapshot",
            "save",
            "rz-ckpt-deadbeefcafe",
            "/tmp/cp.archive"
        ]
    );
    assert!(
        !snapshot_export("rz-ckpt-deadbeefcafe", "/tmp/cp.archive")
            .contains(&"--with-image".to_string()),
        "archives must never bundle the OCI image"
    );
    assert_eq!(
        snapshot_import("/tmp/cp.archive", "/cache/checkpoints"),
        vec![
            "snapshot",
            "load",
            "/tmp/cp.archive",
            "--dest",
            "/cache/checkpoints"
        ]
    );
}

#[test]
fn a_command_line_the_kernel_lists_is_read_back() {
    let argv = vec!["sh".to_string(), String::new(), "-c".to_string()];
    let listed: String = argv.iter().map(|a| format!("{a}\0")).collect();
    assert_eq!(parse_captured_cmdline(&listed), Some(argv.clone()));
    assert_eq!(parse_captured_cmdline(&format!("{listed}\n")), Some(argv));
}

#[test]
fn port_flags_reach_the_ends_of_the_range() {
    let port = PortBinding {
        host_port: 65535,
        guest_port: 0,
        protocol: Protocol::Udp,
    };
    assert_eq!(port_flag_value(&port), "65535:0/udp");
}

#[test]
fn restore_depends_on_name_memory_and_ports_alone() {
    let a = full_spec();
    let mut b = full_spec();
    b.env.clear();
    b.mounts.clear();
    b.image = "other".to_string();
    b.command = None;
    b.network_disabled = true;
    assert_eq!(restore(&a, "/s"), restore(&b, "/s"));
}

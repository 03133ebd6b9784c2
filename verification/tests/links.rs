//! Network links.

use rightsize_msb::links::{
    after_forwarder_install, after_hosts_install, alias_is_valid, begin_links, bind_step,
    bound_probe_script, distinct_aliases, forwarder_install_script, forwarder_log_path_text, forwarder_not_bound_error,
    hosts_script, log_tail_text, partition_links_by_protocol, plan_links, port_hex_text,
    require_aliases_are_valid, require_installable, require_nc_available,
    require_no_duplicate_guest_ports, require_udp_nc_available, shell_command, BindStep,
    LinkStep, NC_PROBE_SCRIPT, UDP_LINK_FORWARDER_SCRIPT, UDP_NC_PROBE_SCRIPT,
};
use rightsize_msb::model::{ExecResult, NetworkLink, Protocol, RightsizeError};

fn result(exit_code: i32, stderr: &str) -> ExecResult {
    ExecResult {
        exit_code,
        stdout: String::new(),
        stderr: stderr.to_string(),
    }
}

fn link(alias: &str, guest_port: u16, protocol: Protocol) -> NetworkLink {
    NetworkLink {
        alias: alias.to_string(),
        guest_port,
        target_host_port: 41000,
        protocol,
    }
}

#[test]
fn partition_links_by_protocol_splits_a_mixed_batch_tcp_still_gets_its_own_path() {
    let tcp = NetworkLink {
        alias: "redis".to_string(),
        guest_port: 6379,
        target_host_port: 1,
        protocol: Protocol::Tcp,
    };
    let udp = NetworkLink {
        alias: "udp-echo".to_string(),
        guest_port: 9153,
        target_host_port: 2,
        protocol: Protocol::Udp,
    };
    let links = vec![tcp.clone(), udp.clone()];
    let (tcp_links, udp_links) = partition_links_by_protocol(&links);
    assert_eq!(
        tcp_links,
        vec![&tcp],
        "the TCP link must route to the exec-tunnel path"
    );
    assert_eq!(
        udp_links,
        vec![&udp],
        "the UDP link must route to the forwarder path"
    );
}

#[test]
fn require_no_duplicate_guest_ports_rejects_a_genuine_duplicate() {
    let links = vec![
        NetworkLink {
            alias: "a".to_string(),
            guest_port: 8000,
            target_host_port: 1,
            protocol: Protocol::Tcp,
        },
        NetworkLink {
            alias: "b".to_string(),
            guest_port: 8000,
            target_host_port: 2,
            protocol: Protocol::Tcp,
        },
    ];
    let err = require_no_duplicate_guest_ports(&links).unwrap_err();
    assert!(err.message().contains("8000"), "{err:?}");
}

#[test]
fn require_no_duplicate_guest_ports_allows_distinct_ports() {
    let links = vec![
        NetworkLink {
            alias: "a".to_string(),
            guest_port: 8000,
            target_host_port: 1,
            protocol: Protocol::Tcp,
        },
        NetworkLink {
            alias: "b".to_string(),
            guest_port: 8001,
            target_host_port: 2,
            protocol: Protocol::Tcp,
        },
    ];
    assert!(require_no_duplicate_guest_ports(&links).is_ok());
}

#[test]
fn require_no_duplicate_guest_ports_allows_the_same_guest_port_on_tcp_and_udp() {
    let links = vec![
        NetworkLink {
            alias: "dns".to_string(),
            guest_port: 53,
            target_host_port: 1,
            protocol: Protocol::Tcp,
        },
        NetworkLink {
            alias: "dns".to_string(),
            guest_port: 53,
            target_host_port: 2,
            protocol: Protocol::Udp,
        },
    ];
    assert!(require_no_duplicate_guest_ports(&links).is_ok());
}

#[test]
fn require_no_duplicate_guest_ports_rejects_the_same_guest_port_on_udp_twice() {
    let links = vec![
        NetworkLink {
            alias: "a".to_string(),
            guest_port: 53,
            target_host_port: 1,
            protocol: Protocol::Udp,
        },
        NetworkLink {
            alias: "b".to_string(),
            guest_port: 53,
            target_host_port: 2,
            protocol: Protocol::Udp,
        },
    ];
    let err = require_no_duplicate_guest_ports(&links).unwrap_err();
    assert!(err.message().contains("53"), "{err:?}");
}

#[test]
fn require_aliases_are_valid_accepts_dns_label_charset() {
    let links = vec![NetworkLink {
        alias: "configuration-stub.local_1".to_string(),
        guest_port: 8000,
        target_host_port: 1,
        protocol: Protocol::Tcp,
    }];
    assert!(require_aliases_are_valid(&links).is_ok());
}

#[test]
fn require_aliases_are_valid_rejects_shell_breaking_alias() {
    let links = vec![NetworkLink {
        alias: "bad'alias".to_string(),
        guest_port: 8000,
        target_host_port: 1,
        protocol: Protocol::Tcp,
    }];
    let err = require_aliases_are_valid(&links).unwrap_err();
    assert!(err.message().contains("bad'alias"), "{err:?}");
}

#[test]
fn install_udp_forwarder_writes_the_exact_script_and_launch_command_then_confirms_bound() {
    let script = forwarder_install_script(&link("udp-echo", 9153, Protocol::Udp));
    assert_eq!(
        script,
        format!(
            "cat > /tmp/rz-udp-link-9153.sh <<'RZ_UDP_LINK_EOF'\n{UDP_LINK_FORWARDER_SCRIPT}RZ_UDP_LINK_EOF\n\
             nohup sh /tmp/rz-udp-link-9153.sh 9153 41000 >/tmp/rz-udp-link-9153.log 2>&1 &"
        )
    );
    assert_eq!(
        bound_probe_script(9153),
        "awk -v p=':23C1' 'NR>1 && substr($2, length($2)-4) == p {f=1} END {exit !f}' /proc/net/udp /proc/net/udp6"
    );
    assert!(after_forwarder_install(9153, "rz-1", &result(0, "")).is_ok());
    assert_eq!(bind_step(&result(0, ""), 0, 5_000), BindStep::Bound);
}

#[test]
fn await_udp_forwarder_bound_times_out_with_a_descriptive_error_including_the_log_tail() {
    assert_eq!(bind_step(&result(1, ""), 299, 300), BindStep::Wait);
    assert_eq!(bind_step(&result(1, ""), 300, 300), BindStep::TimedOut);
    let msg = forwarder_not_bound_error(9153, "rz-udp-consumer-2", "300ms", " tail \n").message();
    assert_eq!(
        msg,
        "UDP link forwarder for guest port 9153 in rz-udp-consumer-2 never bound within 300ms — forwarder log tail: tail"
    );
}

#[test]
fn require_udp_nc_available_rejects_an_image_whose_probe_exits_nonzero() {
    let msg = require_udp_nc_available("debian:12", &result(1, ""))
        .unwrap_err()
        .message();
    assert!(msg.contains("UDP"), "{msg}");
    assert!(msg.contains("debian:12"), "{msg}");
    assert!(msg.contains("docker"), "{msg}");
}

#[test]
fn require_udp_nc_available_accepts_an_image_whose_probe_exits_zero() {
    assert!(require_udp_nc_available("alpine:3.19", &result(0, "")).is_ok());
    assert!(UDP_NC_PROBE_SCRIPT.contains("-e PROG") && UDP_NC_PROBE_SCRIPT.contains("-u"));
}

#[test]
fn udp_link_install_path_exec_arguments_contain_no_double_quote() {
    let udp = link("udp-echo", 9154, Protocol::Udp);
    for script in [
        UDP_LINK_FORWARDER_SCRIPT.to_string(),
        UDP_NC_PROBE_SCRIPT.to_string(),
        forwarder_install_script(&udp),
        bound_probe_script(9154),
        log_tail_text(&forwarder_log_path_text(9154)),
    ] {
        assert!(!script.contains('"'), "{script}");
    }
    assert_eq!(
        log_tail_text(&forwarder_log_path_text(9154)),
        "tail -c 2000 /tmp/rz-udp-link-9154.log 2>/dev/null"
    );
}

#[test]
fn links_are_installed_in_one_order() {
    let links = [
        link("a", 1, Protocol::Tcp),
        link("b", 2, Protocol::Udp),
        link("c", 3, Protocol::Tcp),
        link("d", 4, Protocol::Udp),
    ];
    let planned = vec![
        LinkStep::ProbeTcp,
        LinkStep::ProbeUdp,
        LinkStep::HostNames,
        LinkStep::Forward(&links[1]),
        LinkStep::Forward(&links[3]),
        LinkStep::Tunnel(&links[0]),
        LinkStep::Tunnel(&links[2]),
    ];
    assert_eq!(plan_links(&links), planned);
    assert_eq!(begin_links(&links).unwrap(), planned);
}

#[test]
fn only_the_tools_that_links_need_are_probed_for() {
    let tcp = [link("a", 1, Protocol::Tcp)];
    assert_eq!(
        plan_links(&tcp),
        vec![LinkStep::ProbeTcp, LinkStep::HostNames, LinkStep::Tunnel(&tcp[0])]
    );
    let udp = [link("a", 1, Protocol::Udp)];
    assert_eq!(
        plan_links(&udp),
        vec![LinkStep::ProbeUdp, LinkStep::HostNames, LinkStep::Forward(&udp[0])]
    );
    assert!(plan_links(&[]).is_empty());
    assert!(begin_links(&[]).unwrap().is_empty());
}

#[test]
fn links_that_cannot_be_installed_have_no_plan() {
    let twice = [link("a", 1, Protocol::Udp), link("b", 1, Protocol::Udp)];
    let refused = begin_links(&twice).unwrap_err().message();
    assert_eq!(refused, require_installable(&twice).unwrap_err().message());
    let bad = [link("a b", 1, Protocol::Tcp)];
    let refused = begin_links(&bad).unwrap_err().message();
    assert_eq!(refused, require_installable(&bad).unwrap_err().message());
}

#[test]
fn tcp_links_need_nc() {
    assert_eq!(shell_command(NC_PROBE_SCRIPT), vec!["sh", "-c", "command -v nc"]);
    assert!(require_nc_available("alpine", &result(0, "")).is_ok());
    match require_nc_available("scratch", &result(127, "")).unwrap_err() {
        RightsizeError::Unsupported { feature, backend, remedy } => {
            assert_eq!(feature, "network links (no nc/busybox in consumer image 'scratch')");
            assert_eq!(backend, "microsandbox");
            assert_eq!(
                remedy,
                Some("run this test with RIGHTSIZE_BACKEND=docker instead".to_string())
            );
        }
        other => panic!("unexpected {other:?}"),
    }
}

#[test]
fn each_alias_is_written_once_in_order() {
    let links = [
        link("b", 1, Protocol::Tcp),
        link("a", 2, Protocol::Tcp),
        link("b", 3, Protocol::Udp),
    ];
    assert_eq!(distinct_aliases(&links), vec!["b", "a"]);
    assert_eq!(
        hosts_script(&links),
        "echo '127.0.0.1 b' >> /etc/hosts; echo '127.0.0.1 a' >> /etc/hosts"
    );
    assert!(after_hosts_install("rz-1", &result(0, "")).is_ok());
    assert_eq!(
        after_hosts_install("rz-1", &result(1, "read-only")).unwrap_err().message(),
        "failed to install /etc/hosts aliases in rz-1: read-only"
    );
    assert_eq!(
        after_forwarder_install(53, "rz-1", &result(1, "no")).unwrap_err().message(),
        "failed to install the UDP link forwarder for guest port 53 in rz-1: no"
    );
}

#[test]
fn ports_come_before_aliases_in_what_is_refused() {
    let bad = [link("b'", 1, Protocol::Tcp), link("a", 1, Protocol::Tcp)];
    assert!(require_installable(&bad).unwrap_err().message().contains("guest port 1"));
    assert!(require_installable(&bad[..1]).unwrap_err().message().contains("b'"));
    assert!(require_installable(&bad[1..]).is_ok());
    assert!(require_installable(&[]).is_ok());
    assert!(!alias_is_valid(""));
    assert!(!alias_is_valid("ä"));
}

#[test]
fn ports_in_hexadecimal() {
    assert_eq!(port_hex_text(0), "0000");
    assert_eq!(port_hex_text(53), "0035");
    assert_eq!(port_hex_text(65535), "FFFF");
    assert_eq!(port_hex_text(41000), "A028");
}

//! Restoring through a broker.

use rightsize_msb::boot::RestoreLaunch;
use rightsize_msb::broker::{
    broker_file_name, broker_launch_from_child_exit, broker_with_direct_fallback, build_broker_script,
    classify_broker_report, extract_restore_name, judge_broker_report, parse_broker_script_output,
    parse_i32, powershell_double_quote_escape, powershell_quoted, powershell_single_quote_escape,
    BrokerScriptReport,
};
use rightsize_msb::classify::{is_name_conflict, is_restore_access_denied};
use std::cell::RefCell;

#[test]
fn build_broker_script_single_quotes_every_interpolated_path_and_arg() {
    let script = build_broker_script(
        "/opt/msb/msb",
        &[
            "restore".to_string(),
            "/snap/path".to_string(),
            "--name".to_string(),
            "rz-abc-1".to_string(),
        ],
        "/tmp/out.log",
        "/tmp/ec.txt",
    );
    assert!(script.contains("'/opt/msb/msb'"), "{script}");
    assert!(script.contains("'restore'"), "{script}");
    assert!(script.contains("'/snap/path'"), "{script}");
    assert!(script.contains("'--name'"), "{script}");
    assert!(script.contains("'rz-abc-1'"), "{script}");
    assert!(script.contains("'/tmp/out.log'"), "{script}");
    assert!(script.contains("'/tmp/ec.txt'"), "{script}");
    assert!(script.contains("Invoke-CimMethod"), "{script}");
    assert!(script.contains("Win32_Process"), "{script}");
    assert!(script.contains("LASTEXITCODE"), "{script}");
    assert!(script.contains("OUT_BEGIN"), "{script}");
    assert!(script.contains("OUT_END"), "{script}");
}

#[test]
fn build_broker_script_doubles_embedded_single_quotes_in_every_interpolated_value() {
    let script = build_broker_script(
        "/opt/it's/msb",
        &[
            "restore".to_string(),
            "/snap/it's/here".to_string(),
            "--name".to_string(),
            "rz-abc-1".to_string(),
        ],
        "/tmp/it's/out.log",
        "/tmp/ec.txt",
    );
    assert!(
        script.contains("/opt/it''s/msb"),
        "an embedded single quote in the msb path must be doubled: {script}"
    );
    assert!(
        script.contains("/snap/it''s/here"),
        "an embedded single quote in an argv element must be doubled: {script}"
    );
    assert!(
        script.contains("/tmp/it''s/out.log"),
        "an embedded single quote in the out-file path must be doubled: {script}"
    );
    assert!(!script.contains("it's"), "{script}");
}

#[test]
fn powershell_single_quote_escape_doubles_single_quotes_and_leaves_everything_else_alone() {
    assert_eq!(powershell_single_quote_escape("plain"), "plain");
    assert_eq!(powershell_single_quote_escape("it's"), "it''s");
    assert_eq!(powershell_single_quote_escape("''"), "''''");
    assert_eq!(powershell_quoted("it's"), "'it''s'");
}

#[test]
fn extract_restore_name_finds_the_value_right_after_the_name_flag() {
    let argv = vec![
        "restore".to_string(),
        "/snap".to_string(),
        "--name".to_string(),
        "rz-abc-1".to_string(),
        "-m".to_string(),
        "512M".to_string(),
    ];
    assert_eq!(extract_restore_name(&argv), Some("rz-abc-1"));
}

#[test]
fn extract_restore_name_is_none_when_name_flag_is_absent() {
    assert_eq!(extract_restore_name(&["restore".to_string()]), None);
    assert_eq!(
        extract_restore_name(&["restore".to_string(), "--name".to_string()]),
        None,
        "a trailing --name with no value must not panic or return a bogus name"
    );
}

#[test]
fn parse_broker_script_output_reads_the_last_ec_line_and_the_out_markers() {
    let stdout =
        "CIM_RETURN:0\nCIM_PID:1234\nEC_FOUND:True\nEC:0\nOUT_BEGIN\nhello\nworld\nOUT_END\n";
    let report = parse_broker_script_output(stdout);
    assert_eq!(report.ec, Some(0));
    assert_eq!(report.out, "hello\nworld");
}

#[test]
fn parse_broker_script_output_ec_is_none_when_the_ecfile_never_appeared() {
    let stdout = "CIM_RETURN:0\nCIM_PID:1234\nEC_FOUND:False\nOUT_BEGIN\nOUT_END\n";
    let report = parse_broker_script_output(stdout);
    assert_eq!(report.ec, None);
    assert_eq!(report.out, "");
}

#[test]
fn parse_broker_script_output_tolerates_malformed_or_missing_markers() {
    let report = parse_broker_script_output("garbage, not a script report at all");
    assert_eq!(report.ec, None);
    assert_eq!(report.out, "");
}

#[test]
fn classify_broker_report_a_present_ecfile_zero_is_success() {
    let argv = vec![
        "restore".to_string(),
        "--name".to_string(),
        "rz-1".to_string(),
    ];
    let report = BrokerScriptReport {
        ec: Some(0),
        out: "restored fine".to_string(),
    };
    let launch = classify_broker_report(&argv, &report, |_| panic!("must not consult ls"));
    match launch {
        RestoreLaunch::Exited {
            success,
            code,
            output,
        } => {
            assert!(success);
            assert_eq!(code, Some(0));
            assert_eq!(output, "restored fine");
        }
        other => panic!("expected Exited, got {other:?}"),
    }
}

#[test]
fn classify_broker_report_a_present_ecfile_nonzero_is_failure_classified_like_direct_output() {
    let argv = vec![
        "restore".to_string(),
        "--name".to_string(),
        "rz-1".to_string(),
    ];
    let report = BrokerScriptReport {
        ec: Some(1),
        out: "error: sandbox already exists".to_string(),
    };
    let launch = classify_broker_report(&argv, &report, |_| panic!("must not consult ls"));
    match launch {
        RestoreLaunch::Exited {
            success, output, ..
        } => {
            assert!(!success);
            assert!(is_name_conflict(&output), "{output}");
        }
        other => panic!("expected Exited, got {other:?}"),
    }
}

#[test]
fn classify_broker_report_a_present_ecfile_can_report_access_denied_again() {
    let argv = vec![
        "restore".to_string(),
        "--name".to_string(),
        "rz-1".to_string(),
    ];
    let report = BrokerScriptReport {
        ec: Some(1),
        out: "error: io error: Access is denied. (os error 5)".to_string(),
    };
    let launch = classify_broker_report(&argv, &report, |_| panic!("must not consult ls"));
    match launch {
        RestoreLaunch::Exited {
            success, output, ..
        } => {
            assert!(!success);
            assert!(is_restore_access_denied(&output), "{output}");
        }
        other => panic!("expected Exited, got {other:?}"),
    }
}

#[test]
fn classify_broker_report_missing_ecfile_but_ls_shows_the_name_is_treated_as_launched() {
    let argv = vec![
        "restore".to_string(),
        "--name".to_string(),
        "rz-1".to_string(),
    ];
    let report = BrokerScriptReport {
        ec: None,
        out: String::new(),
    };
    let launch = classify_broker_report(&argv, &report, |name| {
        assert_eq!(name, "rz-1");
        Some(true)
    });
    match launch {
        RestoreLaunch::Exited { success, .. } => assert!(success),
        other => panic!("expected Exited{{success:true}}, got {other:?}"),
    }
}

#[test]
fn classify_broker_report_missing_ecfile_and_ls_silent_is_genuinely_unconfirmed() {
    let argv = vec![
        "restore".to_string(),
        "--name".to_string(),
        "rz-1".to_string(),
    ];
    let report = BrokerScriptReport {
        ec: None,
        out: String::new(),
    };
    let launch = classify_broker_report(&argv, &report, |_| Some(false));
    assert!(
        matches!(launch, RestoreLaunch::TimedOut { .. }),
        "neither an ecFile nor an `ls` hit must never be silently treated as success"
    );
}

#[test]
fn broker_launch_from_child_exit_a_nonzero_outer_exit_is_an_infra_failure() {
    let stdout =
        "CIM_RETURN:0\nCIM_PID:1234\nEC_FOUND:True\nEC:0\nOUT_BEGIN\nrestored\nOUT_END\n";
    let argv = vec![
        "restore".to_string(),
        "--name".to_string(),
        "rz-1".to_string(),
    ];
    let err = broker_launch_from_child_exit(false, "exit status: 1", stdout, &argv, |_| {
        panic!("an infrastructure failure must not consult ls")
    })
    .expect_err(
        "a nonzero outer exit must surface as an io::Error, not a classified RestoreLaunch",
    );
    assert!(err.contains("outer"), "{err}");
}

#[test]
fn broker_launch_from_child_exit_a_success_exit_with_no_cim_diagnostics_is_also_an_infra_failure()
 {
    let stdout = "";
    let argv = vec![
        "restore".to_string(),
        "--name".to_string(),
        "rz-1".to_string(),
    ];
    let err = broker_launch_from_child_exit(true, "exit status: 0", stdout, &argv, |_| {
        panic!("an infrastructure failure must not consult ls")
    })
    .expect_err("a success exit with no CIM diagnostics must still fall back to direct");
    assert!(err.contains("CIM"), "{err}");
}

#[test]
fn a_broker_that_did_not_run_says_what_it_printed() {
    let err = broker_launch_from_child_exit(false, "exit status: 1", "a\n\"b\"", &[], |_| None)
        .expect_err("the script did not run");
    assert_eq!(
        err,
        "broker script's outer powershell process exited exit status: 1 without completing (its \
         own CIM diagnostics never appeared in stdout/stderr: \"a\\n\\\"b\\\"\") — treating this \
         as a broker infrastructure failure so the caller falls back to a direct restore \
         attempt, per POLICY v2 item 5"
    );
}

#[test]
fn broker_launch_from_child_exit_a_confirmed_run_is_classified_like_a_direct_success() {
    let stdout =
        "CIM_RETURN:0\nCIM_PID:1234\nEC_FOUND:True\nEC:0\nOUT_BEGIN\nrestored\nOUT_END\n";
    let argv = vec![
        "restore".to_string(),
        "--name".to_string(),
        "rz-1".to_string(),
    ];
    let launch = broker_launch_from_child_exit(true, "exit status: 0", stdout, &argv, |_| {
        panic!("must not consult ls once the CIM diagnostics confirm the script ran")
    })
    .expect("a success exit with real CIM diagnostics must be classified, not errored");
    match launch {
        RestoreLaunch::Exited {
            success,
            code,
            output,
        } => {
            assert!(success);
            assert_eq!(code, Some(0));
            assert_eq!(output, "restored");
        }
        other => panic!("expected Exited, got {other:?}"),
    }
}

#[test]
fn broker_launch_from_child_exit_a_confirmed_run_can_still_classify_a_failed_restore() {
    let stdout = "CIM_RETURN:0\nCIM_PID:1234\nEC_FOUND:True\nEC:1\nOUT_BEGIN\nerror: io \
                   error: Access is denied. (os error 5)\nOUT_END\n";
    let argv = vec![
        "restore".to_string(),
        "--name".to_string(),
        "rz-1".to_string(),
    ];
    let launch = broker_launch_from_child_exit(true, "exit status: 0", stdout, &argv, |_| {
        panic!("must not consult ls once the CIM diagnostics confirm the script ran")
    })
    .expect("a success exit with real CIM diagnostics must be classified, not errored");
    match launch {
        RestoreLaunch::Exited {
            success, output, ..
        } => {
            assert!(!success);
            assert!(is_restore_access_denied(&output), "{output}");
        }
        other => panic!("expected Exited, got {other:?}"),
    }
}

fn exited(output: &str) -> RestoreLaunch {
    RestoreLaunch::Exited {
        success: true,
        code: Some(0),
        output: output.to_string(),
    }
}

#[test]
fn broker_with_direct_fallback_uses_the_broker_when_it_launches_successfully() {
    let direct_calls = RefCell::new(0u32);
    let launch = broker_with_direct_fallback(Ok(exited("brokered")), || {
        *direct_calls.borrow_mut() += 1;
        Ok(exited("direct"))
    })
    .expect("must succeed");
    match launch {
        RestoreLaunch::Exited { output, .. } => assert_eq!(output, "brokered"),
        other => panic!("expected Exited, got {other:?}"),
    }
    assert_eq!(
        *direct_calls.borrow(),
        0,
        "a broker that launches successfully must never fall back to direct"
    );
}

#[test]
fn broker_with_direct_fallback_falls_back_to_direct_when_the_broker_cannot_even_launch() {
    let launch = broker_with_direct_fallback(
        Err("simulated: powershell.exe not found".to_string()),
        || Ok(exited("direct")),
    )
    .expect("a broker infra failure must fall back to direct, not propagate");
    match launch {
        RestoreLaunch::Exited { output, .. } => assert_eq!(output, "direct"),
        other => panic!("expected Exited, got {other:?}"),
    }
}

#[test]
fn a_listing_that_cannot_be_read_confirms_nothing() {
    let argv = vec!["restore".to_string(), "--name".to_string(), "rz-1".to_string()];
    let report = BrokerScriptReport {
        ec: None,
        out: "partial".to_string(),
    };
    for listed in [None, Some(false)] {
        match judge_broker_report(&argv, &report, listed) {
            RestoreLaunch::TimedOut { output } => assert_eq!(output, "partial"),
            other => panic!("expected TimedOut, got {other:?}"),
        }
    }
    assert!(matches!(
        judge_broker_report(&argv, &report, Some(true)),
        RestoreLaunch::Exited { success: true, code: None, .. }
    ));
    assert!(matches!(
        classify_broker_report(&["restore".to_string()], &report, |_| Some(true)),
        RestoreLaunch::TimedOut { .. }
    ));
}

#[test]
fn numbers_are_read_as_std_reads_them() {
    for text in [
        "0", "-1", "+7", "2147483647", "2147483648", "-2147483648", "-2147483649", "", "-", "+",
        "1a", " 1", "00012", "99999999999999999999",
    ] {
        assert_eq!(parse_i32(text), text.parse::<i32>().ok(), "{text:?}");
    }
}

#[test]
fn the_last_exit_code_line_counts_even_where_it_cannot_be_read() {
    assert_eq!(parse_broker_script_output("EC:1\nEC:0\r\n").ec, Some(0));
    assert_eq!(parse_broker_script_output("EC:0\nEC:x\n").ec, None);
    assert_eq!(parse_broker_script_output("OUT_BEGIN a OUT_END b OUT_END").out, "a");
    assert_eq!(parse_broker_script_output("OUT_BEGIN a").out, "");
}

#[test]
fn a_failed_broker_quotes_what_the_script_printed() {
    let err = broker_launch_from_child_exit(false, "exit status: 1", "a\n\"b\"", &[], |_| None)
        .expect_err("the script did not run");
    assert!(err.contains("exited exit status: 1 without"), "{err}");
    assert!(err.contains("\"a\\n\\\"b\\\"\""), "{err}");
}

#[test]
fn double_quoted_values_are_escaped() {
    assert_eq!(powershell_double_quote_escape("a`b\"c$d"), "a``b`\"c`$d");
}

#[test]
fn the_whole_script_is_what_it_is() {
    let script = build_broker_script("/m", &["x".to_string()], "/o", "/e");
    assert_eq!(
        script,
        "$rzCmd = \"powershell -NoProfile -Command `\"& '/m' 'x' *> '/o'; `$LASTEXITCODE | Set-Content -Path '/e'`\"\"\n\
         $result = Invoke-CimMethod -ClassName Win32_Process -MethodName Create -Arguments @{ CommandLine = $rzCmd }\n\
         Write-Output \"CIM_RETURN:$($result.ReturnValue)\"\n\
         Write-Output \"CIM_PID:$($result.ProcessId)\"\n\
         $deadline = (Get-Date).AddSeconds(30)\n\
         while (-not (Test-Path '/e')) {\n\
         \x20   if ((Get-Date) -ge $deadline) { break }\n\
         \x20   Start-Sleep -Milliseconds 300\n\
         }\n\
         if (Test-Path '/e') {\n\
         \x20   Write-Output \"EC:$(Get-Content -Path '/e' -Raw)\"\n\
         }\n\
         Write-Output 'OUT_BEGIN'\n\
         if (Test-Path '/o') { Get-Content -Path '/o' -Raw }\n\
         Write-Output 'OUT_END'\n"
    );
}

#[test]
fn broker_temp_file_produces_distinct_paths_across_calls() {
    let a = broker_file_name("script", "ps1", 7, 0);
    let b = broker_file_name("script", "ps1", 7, 1);
    assert_ne!(a, b);
    assert_eq!(a, ".rz-restore-broker-script-7-0.ps1");
}

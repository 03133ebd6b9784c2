//! Restoring through a broker: on Windows a restore may have to be started by a process
//! outside the job of the caller. A PowerShell script asks the system to start it, waits
//! for the file that holds its exit code, and prints a report.

use vstd::prelude::*;
use vstd::string::*;

use crate::boot::{LaunchView, RestoreLaunch};
use crate::commands;
use crate::messages;
use crate::model::ContainerSpec;
use crate::text;

verus! {

/// A text as the inside of a single-quoted PowerShell string: each quote is doubled.
pub open spec fn single_quote_escaped(value: Seq<char>) -> Seq<char> {
    text::replace_char_spec(value, '\'', "''"@)
}

/// A text as a single-quoted PowerShell string.
pub open spec fn single_quoted(value: Seq<char>) -> Seq<char> {
    "'"@ + single_quote_escaped(value) + "'"@
}

/// A text as the inside of a double-quoted PowerShell string: backticks, quotes and dollar
/// signs are escaped.
pub open spec fn double_quote_escaped(value: Seq<char>) -> Seq<char> {
    text::replace_char_spec(
        text::replace_char_spec(text::replace_char_spec(value, '`', "``"@), '"', "`\""@),
        '$',
        "`$"@,
    )
}

/// Escapes a text for the inside of a single-quoted PowerShell string.
pub fn powershell_single_quote_escape(value: &str) -> (escaped: String)
    ensures
        escaped@ == single_quote_escaped(value@),
{
    text::replace_char(value, '\'', "''")
}

/// Writes a text as a single-quoted PowerShell string.
pub fn powershell_quoted(value: &str) -> (quoted: String)
    ensures
        quoted@ == single_quoted(value@),
{
    let mut quoted = "'".to_owned();
    quoted.append(powershell_single_quote_escape(value).as_str());
    quoted.append("'");
    quoted
}

/// Escapes a text for the inside of a double-quoted PowerShell string.
pub fn powershell_double_quote_escape(value: &str) -> (escaped: String)
    ensures
        escaped@ == double_quote_escaped(value@),
{
    let backticks = text::replace_char(value, '`', "``");
    let quotes = text::replace_char(backticks.as_str(), '"', "`\"");
    text::replace_char(quotes.as_str(), '$', "`$")
}

/// The texts of a list, each as a single-quoted PowerShell string.
pub open spec fn all_quoted(values: Seq<Seq<char>>) -> Seq<Seq<char>> {
    values.map_values(|value: Seq<char>| single_quoted(value))
}

/// The command line that runs a restore, keeps its output in one file and its exit code in
/// another.
pub open spec fn inner_command(
    restore: Seq<char>,
    out_file: Seq<char>,
    ec_file: Seq<char>,
) -> Seq<char> {
    "powershell -NoProfile -Command \"& "@ + restore + " *> "@ + out_file
        + "; $LASTEXITCODE | Set-Content -Path "@ + ec_file + "\""@
}

/// The command line that runs a restore, keeps its output in one file and its exit code in
/// another.
fn inner_command_text(restore: &str, out_file: &str, ec_file: &str) -> (script: String)
    ensures
        script@ == inner_command(restore@, out_file@, ec_file@),
{
    let mut script = "powershell -NoProfile -Command \"& ".to_owned();
    script.append(restore);
    script.append(" *> ");
    script.append(out_file);
    script.append("; $LASTEXITCODE | Set-Content -Path ");
    script.append(ec_file);
    script.append("\"");
    script
}

/// The script around a command line.
pub open spec fn broker_script_of(
    command_line: Seq<char>,
    ec_file: Seq<char>,
    out_file: Seq<char>,
) -> Seq<char> {
    "$rzCmd = \""@ + command_line
        + "\"\n$result = Invoke-CimMethod -ClassName Win32_Process -MethodName Create -Arguments @{ CommandLine = $rzCmd }\nWrite-Output \"CIM_RETURN:$($result.ReturnValue)\"\nWrite-Output \"CIM_PID:$($result.ProcessId)\"\n$deadline = (Get-Date).AddSeconds(30)\nwhile (-not (Test-Path "@ + ec_file
        + ")) {\n    if ((Get-Date) -ge $deadline) { break }\n    Start-Sleep -Milliseconds 300\n}\nif (Test-Path "@ + ec_file
        + ") {\n    Write-Output \"EC:$(Get-Content -Path "@ + ec_file
        + " -Raw)\"\n}\nWrite-Output 'OUT_BEGIN'\nif (Test-Path "@ + out_file
        + ") { Get-Content -Path "@ + out_file
        + " -Raw }\nWrite-Output 'OUT_END'\n"@
}

/// The script around a command line.
fn broker_script_of_text(command_line: &str, ec_file: &str, out_file: &str) -> (script: String)
    ensures
        script@ == broker_script_of(command_line@, ec_file@, out_file@),
{
    let mut script = "$rzCmd = \"".to_owned();
    script.append(command_line);
    script.append("\"\n$result = Invoke-CimMethod -ClassName Win32_Process -MethodName Create -Arguments @{ CommandLine = $rzCmd }\nWrite-Output \"CIM_RETURN:$($result.ReturnValue)\"\nWrite-Output \"CIM_PID:$($result.ProcessId)\"\n$deadline = (Get-Date).AddSeconds(30)\nwhile (-not (Test-Path ");
    script.append(ec_file);
    script.append(")) {\n    if ((Get-Date) -ge $deadline) { break }\n    Start-Sleep -Milliseconds 300\n}\nif (Test-Path ");
    script.append(ec_file);
    script.append(") {\n    Write-Output \"EC:$(Get-Content -Path ");
    script.append(ec_file);
    script.append(" -Raw)\"\n}\nWrite-Output 'OUT_BEGIN'\nif (Test-Path ");
    script.append(out_file);
    script.append(") { Get-Content -Path ");
    script.append(out_file);
    script.append(" -Raw }\nWrite-Output 'OUT_END'\n");
    script
}

/// The script that brokers a restore: every path and argument stands in it as a
/// single-quoted string, and the command line around them is escaped once more.
pub open spec fn broker_script(
    msb: Seq<char>,
    argv: Seq<Seq<char>>,
    out_file: Seq<char>,
    ec_file: Seq<char>,
) -> Seq<char> {
    let restore = text::join_spec(seq![single_quoted(msb)] + all_quoted(argv), " "@);
    let command = inner_command(restore, single_quoted(out_file), single_quoted(ec_file));
    broker_script_of(double_quote_escaped(command), single_quoted(ec_file), single_quoted(out_file))
}

/// Writes the script that brokers a restore.
pub fn build_broker_script(msb: &str, argv: &[String], out_file: &str, ec_file: &str) -> (script:
    String)
    ensures
        script@ == broker_script(msb@, text::texts(argv@), out_file@, ec_file@),
{
    let out_quoted = powershell_quoted(out_file);
    let ec_quoted = powershell_quoted(ec_file);
    let mut words: Vec<String> = Vec::new();
    words.push(powershell_quoted(msb));
    let ghost wanted = all_quoted(text::texts(argv@));
    let mut i: usize = 0;
    assert(text::texts(words@) =~= seq![single_quoted(msb@)] + wanted.take(0));
    while i < argv.len()
        invariant
            i <= argv@.len(),
            wanted == all_quoted(text::texts(argv@)),
            text::texts(words@) == seq![single_quoted(msb@)] + wanted.take(i as int),
        decreases argv.len() - i,
    {
        let ghost before = text::texts(words@);
        let quoted = powershell_quoted(argv[i].as_str());
        words.push(quoted);
        assert(text::texts(words@) =~= before.push(quoted@));
        assert(wanted[i as int] == single_quoted(argv@[i as int]@));
        assert(text::texts(words@) =~= seq![single_quoted(msb@)] + wanted.take(i + 1));
        i = i + 1;
    }
    assert(wanted.take(i as int) =~= wanted);
    let restore = text::join(words.as_slice(), " ");
    let command = inner_command_text(restore.as_str(), out_quoted.as_str(), ec_quoted.as_str());
    let escaped = powershell_double_quote_escape(command.as_str());
    broker_script_of_text(escaped.as_str(), ec_quoted.as_str(), out_quoted.as_str())
}

/// What the script printed: the exit code of the restore, where it was there in time, and
/// the output of the restore.
#[derive(Clone, Debug)]
pub struct BrokerScriptReport {
    pub ec: Option<i32>,
    pub out: String,
}

/// Whether a character is a decimal digit.
pub open spec fn is_digit(c: char) -> bool {
    '0' <= c && c <= '9'
}

/// Whether every character of a text is a decimal digit.
pub open spec fn all_digits(digits: Seq<char>) -> bool {
    forall|i: int| 0 <= i < digits.len() ==> is_digit(#[trigger] digits[i])
}

/// The number that decimal digits stand for.
pub open spec fn digits_value(digits: Seq<char>) -> int
    decreases digits.len(),
{
    if digits.len() == 0 {
        0
    } else {
        10 * digits_value(digits.drop_last()) + (digits.last() as int - '0' as int)
    }
}

/// The digits of a number, without its sign.
pub open spec fn unsigned_part(number: Seq<char>) -> Seq<char> {
    if number.len() > 0 && (number[0] == '-' || number[0] == '+') {
        number.skip(1)
    } else {
        number
    }
}

/// The 32-bit number a text stands for: an optional sign and at least one digit, within
/// range.
pub open spec fn parsed_i32(number: Seq<char>) -> Option<i32> {
    let digits = unsigned_part(number);
    let magnitude = digits_value(digits);
    let value = if number.len() > 0 && number[0] == '-' {
        -magnitude
    } else {
        magnitude
    };
    if digits.len() > 0 && all_digits(digits) && i32::MIN <= value <= i32::MAX {
        Some(value as i32)
    } else {
        None
    }
}

/// More digits never make a number smaller.
proof fn lemma_digits_value_grows(digits: Seq<char>, count: int)
    requires
        0 <= count <= digits.len(),
        all_digits(digits),
    ensures
        0 <= digits_value(digits.take(count)) <= digits_value(digits),
    decreases digits.len() - count,
{
    if count == digits.len() {
        assert(digits.take(count) =~= digits);
        lemma_digits_value_positive(digits);
    } else {
        let longer = digits.take(count + 1);
        assert(longer.drop_last() =~= digits.take(count));
        assert(is_digit(digits[count]));
        assert(all_digits(digits.take(count)));
        lemma_digits_value_positive(digits.take(count));
        lemma_digits_value_grows(digits, count + 1);
    }
}

/// Digits stand for no negative number.
proof fn lemma_digits_value_positive(digits: Seq<char>)
    requires
        all_digits(digits),
    ensures
        0 <= digits_value(digits),
    decreases digits.len(),
{
    if digits.len() > 0 {
        assert(is_digit(digits[digits.len() - 1]));
        assert(all_digits(digits.drop_last()));
        lemma_digits_value_positive(digits.drop_last());
    }
}

/// Reads a 32-bit number.
pub fn parse_i32(number: &str) -> (value: Option<i32>)
    ensures
        value == parsed_i32(number@),
{
    let chars = text::chars_of(number);
    let total: usize = chars.len();
    let signed = total > 0 && (chars[0] == '-' || chars[0] == '+');
    let negative = total > 0 && chars[0] == '-';
    let from: usize = if signed { 1 } else { 0 };
    let ghost digits = unsigned_part(number@);
    assert(digits =~= chars@.skip(from as int));
    if from == total {
        return None;
    }
    let mut magnitude: i64 = 0;
    let mut i: usize = from;
    assert(digits.take(0) =~= Seq::empty());
    while i < total
        invariant
            from <= i <= total,
            from <= 1,
            total == chars@.len(),
            digits == chars@.skip(from as int),
            digits == unsigned_part(number@),
            negative == (number@.len() > 0 && number@[0] == '-'),
            forall|j: int| 0 <= j < i - from ==> is_digit(#[trigger] digits[j]),
            magnitude == digits_value(digits.take(i - from)),
            0 <= magnitude <= 2_147_483_648,
        decreases total - i,
    {
        let c = chars[i];
        assert(digits[i - from] == c);
        if !('0' <= c && c <= '9') {
            assert(!all_digits(digits));
            return None;
        }
        let ghost longer = digits.take(i - from + 1);
        assert(longer.drop_last() =~= digits.take(i - from));
        let code: u32 = c as u32;
        magnitude = 10 * magnitude + (code as i64 - 48);
        if magnitude > 2_147_483_648 {
            proof {
                if all_digits(digits) {
                    lemma_digits_value_grows(digits, i - from + 1);
                }
            }
            return None;
        }
        i = i + 1;
    }
    assert(digits.take(i - from) =~= digits);
    if negative {
        Some((-magnitude) as i32)
    } else if magnitude <= 2_147_483_647 {
        Some(magnitude as i32)
    } else {
        None
    }
}

/// What follows `EC:` on the last line that begins with it.
pub open spec fn last_exit_code_line(lines: Seq<Seq<char>>) -> Option<Seq<char>>
    decreases lines.len(),
{
    if lines.len() == 0 {
        None
    } else if "EC:"@.is_prefix_of(lines.last()) {
        Some(lines.last().skip("EC:"@.len() as int))
    } else {
        last_exit_code_line(lines.drop_last())
    }
}

/// The exit code that a report gives.
pub open spec fn reported_exit_code(stdout: Seq<char>) -> Option<i32> {
    match last_exit_code_line(text::split_on_spec(stdout, '\n')) {
        Some(rest) => parsed_i32(text::trim_spec(rest)),
        None => None,
    }
}

/// The output that a report gives: what stands between the markers, trimmed.
pub open spec fn reported_output(stdout: Seq<char>) -> Seq<char> {
    match text::split_once_spec(stdout, "OUT_BEGIN"@) {
        Some((_, rest)) => match text::split_once_spec(rest, "OUT_END"@) {
            Some((body, _)) => text::trim_spec(body),
            None => Seq::empty(),
        },
        None => Seq::empty(),
    }
}

/// The exit code that a report gives.
fn read_exit_code(stdout: &str) -> (ec: Option<i32>)
    ensures
        ec == reported_exit_code(stdout@),
{
    let lines = text::split_on(stdout, '\n');
    let mut i: usize = lines.len();
    assert(text::texts(lines@).take(i as int) =~= text::texts(lines@));
    while i > 0
        invariant
            i <= lines@.len(),
            text::texts(lines@) == text::split_on_spec(stdout@, '\n'),
            last_exit_code_line(text::texts(lines@)) == last_exit_code_line(
                text::texts(lines@).take(i as int),
            ),
        decreases i,
    {
        let ghost head = text::texts(lines@).take(i as int);
        assert(head.drop_last() =~= text::texts(lines@).take(i - 1));
        assert(head.last() == lines@[i - 1]@);
        if text::starts_with(lines[i - 1].as_str(), "EC:") {
            let line = text::chars_of(lines[i - 1].as_str());
            let marker = text::chars_of("EC:");
            let rest = text::text_of(&line, marker.len(), line.len());
            assert(rest@ =~= head.last().skip("EC:"@.len() as int));
            return parse_i32(text::trim(rest.as_str()).as_str());
        }
        i = i - 1;
    }
    None
}

/// Reads what the script printed. A malformed report gives no exit code and no output.
pub fn parse_broker_script_output(stdout: &str) -> (report: BrokerScriptReport)
    ensures
        report.ec == reported_exit_code(stdout@),
        report.out@ == reported_output(stdout@),
{
    let ec = read_exit_code(stdout);
    let out = match text::split_once(stdout, "OUT_BEGIN") {
        Some((_, rest)) => match text::split_once(rest.as_str(), "OUT_END") {
            Some((body, _)) => text::trim(body.as_str()),
            None => String::new(),
        },
        None => String::new(),
    };
    BrokerScriptReport { ec, out }
}

/// The name that the arguments of a restore give the sandbox: what follows the first
/// `--name`.
pub open spec fn restore_name(argv: Seq<Seq<char>>) -> Option<Seq<char>>
    decreases argv.len(),
{
    if argv.len() == 0 {
        None
    } else if argv[0] == "--name"@ {
        if argv.len() > 1 {
            Some(argv[1])
        } else {
            None
        }
    } else {
        restore_name(argv.skip(1))
    }
}

/// The contents of an optional text.
pub open spec fn str_option(value: Option<&str>) -> Option<Seq<char>> {
    match value {
        Some(value) => Some(value@),
        None => None,
    }
}

/// The name that the arguments of a restore give the sandbox.
pub fn extract_restore_name(argv: &[String]) -> (name: Option<&str>)
    ensures
        str_option(name) == restore_name(text::texts(argv@)),
{
    let mut i: usize = 0;
    let ghost all = text::texts(argv@);
    assert(all.skip(0) =~= all);
    while i < argv.len()
        invariant
            i <= argv@.len(),
            all == text::texts(argv@),
            restore_name(all) == restore_name(all.skip(i as int)),
        decreases argv.len() - i,
    {
        assert(all.skip(i as int)[0] == argv@[i as int]@);
        assert(all.skip(i as int).skip(1) =~= all.skip(i + 1));
        if text::same_text(argv[i].as_str(), "--name") {
            let last: usize = argv.len() - 1;
            if i < last {
                assert(all.skip(i as int)[1] == argv@[i + 1]@);
                return Some(argv[i + 1].as_str());
            }
            return None;
        }
        i = i + 1;
    }
    None
}

/// How a brokered restore ended. Without an exit code, a sandbox that is listed was
/// started all the same; one that is not, or that nobody can say, was not.
pub open spec fn brokered_launch(
    argv: Seq<Seq<char>>,
    ec: Option<i32>,
    out: Seq<char>,
    listed: Option<bool>,
) -> LaunchView {
    match ec {
        Some(ec) => LaunchView::Exited(ec == 0, Some(ec), out),
        None => if restore_name(argv) is Some && listed == Some(true) {
            LaunchView::Exited(true, None, out)
        } else {
            LaunchView::TimedOut(out)
        },
    }
}

/// Judges a report; `listed` is whether the sandbox is listed.
pub fn judge_broker_report(argv: &[String], report: &BrokerScriptReport, listed: Option<bool>) ->
    (launch: RestoreLaunch)
    ensures
        launch@ == brokered_launch(text::texts(argv@), report.ec, report.out@, listed),
{
    match report.ec {
        Some(ec) => RestoreLaunch::Exited {
            success: ec == 0,
            code: Some(ec),
            output: report.out.clone(),
        },
        None => {
            let there = match listed {
                Some(listed) => listed,
                None => false,
            };
            if extract_restore_name(argv).is_some() && there {
                RestoreLaunch::Exited { success: true, code: None, output: report.out.clone() }
            } else {
                RestoreLaunch::TimedOut { output: report.out.clone() }
            }
        },
    }
}

/// How a brokered restore ended, as far as it takes asking `is_listed`: only where there
/// is no exit code and the arguments give a name.
pub open spec fn judged_with<F: Fn(&str) -> Option<bool>>(
    is_listed: F,
    argv: Seq<Seq<char>>,
    ec: Option<i32>,
    out: Seq<char>,
    launch: LaunchView,
) -> bool {
    if ec is Some || restore_name(argv) is None {
        launch == brokered_launch(argv, ec, out, None)
    } else {
        exists|name: &str, listed: Option<bool>|
            #![trigger call_ensures(is_listed, (name,), listed)]
            Some(name@) == restore_name(argv) && call_ensures(is_listed, (name,), listed) && launch
                == brokered_launch(argv, ec, out, listed)
    }
}

/// Judges a report, asking whether the sandbox is listed only where that matters.
pub fn classify_broker_report<F: Fn(&str) -> Option<bool>>(
    argv: &[String],
    report: &BrokerScriptReport,
    is_listed: F,
) -> (launch: RestoreLaunch)
    requires
        forall|name: &str| call_requires(is_listed, (name,)),
    ensures
        judged_with(is_listed, text::texts(argv@), report.ec, report.out@, launch@),
{
    if report.ec.is_none() {
        match extract_restore_name(argv) {
            Some(name) => {
                let listed = is_listed(name);
                return judge_broker_report(argv, report, listed);
            },
            None => {},
        }
    }
    judge_broker_report(argv, report, None)
}

/// Whether a script ran at all: the process around it succeeded, and the script said what
/// came of asking the system to start the restore.
pub open spec fn script_ran(success: bool, stdout: Seq<char>) -> bool {
    success && text::contains_text(stdout, "CIM_RETURN:"@)
}

/// What std's `Debug` format makes of a text: a string literal.
pub uninterp spec fn debug_quoted(value: Seq<char>) -> Seq<char>;

/// Calls the `Debug` format of std's `str`, whose result is a function of the text alone.
#[verifier::external_body]
fn debug_text(value: &str) -> (quoted: String)
    ensures
        quoted@ == debug_quoted(value@),
{
    format!("{value:?}")
}

/// Judges the process around a script. One that did not run the script is an error of the
/// broker and says nothing of the restore; otherwise the report counts.
pub fn broker_launch_from_child_exit<F: Fn(&str) -> Option<bool>>(
    success: bool,
    status: &str,
    script_stdout: &str,
    argv: &[String],
    is_listed: F,
) -> (launch: Result<RestoreLaunch, String>)
    requires
        forall|name: &str| call_requires(is_listed, (name,)),
    ensures
        launch is Ok == script_ran(success, script_stdout@),
        launch matches Err(error) ==> error@ == messages::broker_not_run(
            status@,
            debug_quoted(script_stdout@),
        ),
        launch matches Ok(launch) ==> judged_with(
            is_listed,
            text::texts(argv@),
            reported_exit_code(script_stdout@),
            reported_output(script_stdout@),
            launch@,
        ),
{
    if !success || !text::contains(script_stdout, "CIM_RETURN:") {
        let shown = debug_text(script_stdout);
        return Err(messages::broker_not_run_text(status, shown.as_str()));
    }
    let report = parse_broker_script_output(script_stdout);
    Ok(classify_broker_report(argv, &report, is_listed))
}

/// Takes what the broker gave; where the broker itself failed, restores directly.
pub fn broker_with_direct_fallback<D: FnOnce() -> Result<RestoreLaunch, String>>(
    brokered: Result<RestoreLaunch, String>,
    direct: D,
) -> (launch: Result<RestoreLaunch, String>)
    requires
        call_requires(direct, ()),
    ensures
        brokered is Ok ==> launch == brokered,
        brokered is Err ==> call_ensures(direct, (), launch),
{
    match brokered {
        Ok(launch) => Ok(launch),
        Err(_) => direct(),
    }
}

/// Where a reader of a quoted literal is.
pub enum LiteralState {
    /// Before the first quote.
    Before,
    /// Between the quotes.
    Inside,
    /// Behind a character that gives the next one its meaning: a quote that may be the last
    /// one or the first of two, or a backtick.
    Pending,
    /// Behind the last quote of a double-quoted literal.
    Ended,
    /// Past something that is no part of the literal.
    Over,
}

/// What a reader of single-quoted literals, to which two quotes stand for one, makes of a
/// text, from left to right: where it then is, and the characters that were read.
pub open spec fn single_quote_read(literal: Seq<char>) -> (LiteralState, Seq<char>)
    decreases literal.len(),
{
    if literal.len() == 0 {
        (LiteralState::Before, Seq::empty())
    } else {
        let (state, value) = single_quote_read(literal.drop_last());
        let c = literal.last();
        match state {
            LiteralState::Before => if c == '\'' {
                (LiteralState::Inside, value)
            } else {
                (LiteralState::Over, value)
            },
            LiteralState::Inside => if c == '\'' {
                (LiteralState::Pending, value)
            } else {
                (LiteralState::Inside, value.push(c))
            },
            LiteralState::Pending => if c == '\'' {
                (LiteralState::Inside, value.push(c))
            } else {
                (LiteralState::Over, value)
            },
            LiteralState::Ended | LiteralState::Over => (LiteralState::Over, value),
        }
    }
}

/// What a reader has read of a single-quoted literal before its last quote.
proof fn lemma_single_quote_read_inside(value: Seq<char>)
    ensures
        single_quote_read("'"@ + single_quote_escaped(value)) == (LiteralState::Inside, value),
    decreases value.len(),
{
    reveal_strlit("'");
    reveal_strlit("''");
    let read = "'"@ + single_quote_escaped(value);
    if value.len() == 0 {
        assert(value =~= Seq::empty());
        assert(read.drop_last() =~= Seq::empty());
        assert(single_quote_read(read.drop_last()) == (LiteralState::Before, value));
        assert(read.last() == '\'');
    } else {
        let before = value.drop_last();
        let head = "'"@ + single_quote_escaped(before);
        lemma_single_quote_read_inside(before);
        if value.last() == '\'' {
            let one = head.push('\'');
            assert(one.drop_last() =~= head);
            assert(read =~= one.push('\''));
            assert(read.drop_last() =~= one);
            assert(single_quote_read(one) == (LiteralState::Pending, before));
        } else {
            assert(read.drop_last() =~= head);
        }
        assert(before.push(value.last()) =~= value);
    }
}

/// A single-quoted literal is read back as the text that was quoted, and its last quote is
/// the one that ends it.
pub proof fn law_single_quoting_is_undone(value: Seq<char>)
    ensures
        single_quote_read(single_quoted(value)) == (LiteralState::Pending, value),
{
    reveal_strlit("'");
    lemma_single_quote_read_inside(value);
    let literal = single_quoted(value);
    assert(literal.drop_last() =~= "'"@ + single_quote_escaped(value));
    assert(literal.last() == '\'');
}

/// A character as it stands inside a double-quoted PowerShell string.
pub open spec fn double_quote_piece(c: char) -> Seq<char> {
    if c == '`' || c == '"' || c == '$' {
        seq!['`', c]
    } else {
        seq![c]
    }
}

/// Replacing a character in two texts put together is replacing it in each.
proof fn lemma_replace_in_parts(a: Seq<char>, b: Seq<char>, c: char, with: Seq<char>)
    ensures
        text::replace_char_spec(a + b, c, with) == text::replace_char_spec(a, c, with)
            + text::replace_char_spec(b, c, with),
    decreases b.len(),
{
    if b.len() == 0 {
        assert(a + b =~= a);
        assert(text::replace_char_spec(a, c, with) + Seq::<char>::empty()
            =~= text::replace_char_spec(a, c, with));
    } else {
        lemma_replace_in_parts(a, b.drop_last(), c, with);
        assert((a + b).drop_last() =~= a + b.drop_last());
        assert((a + b).last() == b.last());
        assert(text::replace_char_spec(a + b, c, with) =~= text::replace_char_spec(a, c, with)
            + text::replace_char_spec(b, c, with));
    }
}

/// Replacing a character in a text of one character.
proof fn lemma_replace_in_one(only: char, c: char, with: Seq<char>)
    ensures
        text::replace_char_spec(seq![only], c, with) == (if only == c {
            with
        } else {
            seq![only]
        }),
{
    assert(seq![only].drop_last() =~= Seq::empty());
    assert(text::replace_char_spec(seq![only].drop_last(), c, with) =~= Seq::empty());
    assert(Seq::<char>::empty() + with =~= with);
    assert(Seq::<char>::empty().push(only) =~= seq![only]);
}

/// Replacing a character in a text of two characters.
proof fn lemma_replace_in_two(first: char, second: char, c: char, with: Seq<char>)
    requires
        first != c,
        second != c,
    ensures
        text::replace_char_spec(seq![first, second], c, with) == seq![first, second],
{
    assert(seq![first, second] =~= seq![first] + seq![second]);
    lemma_replace_in_parts(seq![first], seq![second], c, with);
    lemma_replace_in_one(first, c, with);
    lemma_replace_in_one(second, c, with);
}

/// The escapes of a text are those of its characters, one after the other.
proof fn lemma_double_quote_escaped_by_char(value: Seq<char>)
    requires
        value.len() > 0,
    ensures
        double_quote_escaped(value) == double_quote_escaped(value.drop_last())
            + double_quote_piece(value.last()),
{
    reveal_strlit("``");
    reveal_strlit("`\"");
    reveal_strlit("`$");
    let before = value.drop_last();
    let last = value.last();
    assert(value =~= before + seq![last]);
    let one = text::replace_char_spec(seq![last], '`', "``"@);
    lemma_replace_in_parts(before, seq![last], '`', "``"@);
    lemma_replace_in_one(last, '`', "``"@);
    lemma_replace_in_parts(
        text::replace_char_spec(before, '`', "``"@),
        one,
        '"',
        "`\""@,
    );
    let two = text::replace_char_spec(one, '"', "`\""@);
    lemma_replace_in_parts(
        text::replace_char_spec(text::replace_char_spec(before, '`', "``"@), '"', "`\""@),
        two,
        '$',
        "`$"@,
    );
    let three = text::replace_char_spec(two, '$', "`$"@);
    assert("``"@ =~= seq!['`', '`']);
    assert("`\""@ =~= seq!['`', '"']);
    assert("`$"@ =~= seq!['`', '$']);
    if last == '`' {
        lemma_replace_in_two('`', '`', '"', "`\""@);
        lemma_replace_in_two('`', '`', '$', "`$"@);
    } else if last == '"' {
        lemma_replace_in_one('"', '"', "`\""@);
        lemma_replace_in_two('`', '"', '$', "`$"@);
    } else {
        lemma_replace_in_one(last, '"', "`\""@);
        lemma_replace_in_one(last, '$', "`$"@);
    }
    assert(three =~= double_quote_piece(last));
}

/// What a reader of double-quoted literals makes of a text, from left to right: where it
/// then is, and the characters that were read. A backtick takes the meaning from a backtick,
/// a quote or a dollar sign; a dollar sign without one would be expanded.
pub open spec fn double_quote_read(literal: Seq<char>) -> (LiteralState, Seq<char>)
    decreases literal.len(),
{
    if literal.len() == 0 {
        (LiteralState::Before, Seq::empty())
    } else {
        let (state, value) = double_quote_read(literal.drop_last());
        let c = literal.last();
        match state {
            LiteralState::Before => if c == '"' {
                (LiteralState::Inside, value)
            } else {
                (LiteralState::Over, value)
            },
            LiteralState::Inside => if c == '`' {
                (LiteralState::Pending, value)
            } else if c == '"' {
                (LiteralState::Ended, value)
            } else if c == '$' {
                (LiteralState::Over, value)
            } else {
                (LiteralState::Inside, value.push(c))
            },
            LiteralState::Pending => if c == '`' || c == '"' || c == '$' {
                (LiteralState::Inside, value.push(c))
            } else {
                (LiteralState::Over, value)
            },
            LiteralState::Ended | LiteralState::Over => (LiteralState::Over, value),
        }
    }
}

/// What a reader has read of a double-quoted literal before its last quote.
proof fn lemma_double_quote_read_inside(value: Seq<char>)
    ensures
        double_quote_read("\""@ + double_quote_escaped(value)) == (LiteralState::Inside, value),
    decreases value.len(),
{
    reveal_strlit("\"");
    let read = "\""@ + double_quote_escaped(value);
    if value.len() == 0 {
        assert(double_quote_escaped(value) =~= Seq::empty());
        assert(value =~= Seq::empty());
        assert(read.drop_last() =~= Seq::empty());
        assert(double_quote_read(read.drop_last()) == (LiteralState::Before, value));
        assert(read.last() == '"');
    } else {
        let before = value.drop_last();
        let last = value.last();
        let head = "\""@ + double_quote_escaped(before);
        lemma_double_quote_read_inside(before);
        lemma_double_quote_escaped_by_char(value);
        if last == '`' || last == '"' || last == '$' {
            let one = head.push('`');
            assert(one.drop_last() =~= head);
            assert(read =~= one.push(last));
            assert(read.drop_last() =~= one);
            assert(double_quote_read(one) == (LiteralState::Pending, before));
        } else {
            assert(read =~= head.push(last));
            assert(read.drop_last() =~= head);
        }
        assert(before.push(last) =~= value);
    }
}

/// A double-quoted literal is read back as the text that was escaped: nothing in it is
/// expanded, and its last quote is the one that ends it.
pub proof fn law_double_quoting_is_undone(value: Seq<char>)
    ensures
        double_quote_read("\""@ + double_quote_escaped(value) + "\""@) == (
            LiteralState::Ended,
            value,
        ),
{
    reveal_strlit("\"");
    lemma_double_quote_read_inside(value);
    let literal = "\""@ + double_quote_escaped(value) + "\""@;
    assert(literal.drop_last() =~= "\""@ + double_quote_escaped(value));
    assert(literal.last() == '"');
}

/// The name of a file that a brokered restore leaves its traces in. `process` is the number
/// of this process, and `count` is different for each file.
pub open spec fn broker_file(label: Seq<char>, extension: Seq<char>, process: nat, count: nat) ->
    Seq<char> {
    ".rz-restore-broker-"@ + label + "-"@ + (text::decimal(process) + "-"@ + text::decimal(count))
        + "."@ + extension
}

/// The name of a file that a brokered restore leaves its traces in.
pub fn broker_file_name(label: &str, extension: &str, process: u32, count: u64) -> (name: String)
    ensures
        name@ == broker_file(label@, extension@, process as nat, count as nat),
{
    let mut name = ".rz-restore-broker-".to_owned();
    name.append(label);
    name.append("-");
    name.append(text::decimal_text(process as u64).as_str());
    name.append("-");
    name.append(text::decimal_text(count).as_str());
    name.append(".");
    name.append(extension);
    assert(name@ =~= broker_file(label@, extension@, process as nat, count as nat));
    name
}

/// No two files of one kind share a name, neither in one process nor across two.
pub proof fn law_broker_files_are_distinct(
    label: Seq<char>,
    extension: Seq<char>,
    process: nat,
    count: nat,
    other_process: nat,
    other_count: nat,
)
    requires
        process != other_process || count != other_count,
    ensures
        broker_file(label, extension, process, count) != broker_file(
            label,
            extension,
            other_process,
            other_count,
        ),
{
    let one = broker_file(label, extension, process, count);
    let two = broker_file(label, extension, other_process, other_count);
    if one == two {
        let head = ".rz-restore-broker-"@.len() + label.len() + "-"@.len();
        let tail = "."@.len() + extension.len();
        let numbers = text::decimal(process) + "-"@ + text::decimal(count);
        let other = text::decimal(other_process) + "-"@ + text::decimal(other_count);
        assert(one.subrange(head as int, one.len() - tail) =~= numbers);
        assert(two.subrange(head as int, two.len() - tail) =~= other);
        text::lemma_dashed_numbers_are_distinct(process, count, other_process, other_count);
    }
}

/// Decimal notation is made of digits that stand for the number.
proof fn lemma_decimal_value(n: nat)
    ensures
        all_digits(text::decimal(n)),
        digits_value(text::decimal(n)) == n,
        text::decimal(n).len() > 0,
    decreases n,
{
    let digits = text::decimal(n);
    if n < 10 {
        assert(digits.drop_last() =~= Seq::empty());
        assert(digits_value(digits.drop_last()) == 0);
    } else {
        lemma_decimal_value(n / 10);
        assert(digits.drop_last() =~= text::decimal(n / 10));
    }
    assert forall|i: int| 0 <= i < digits.len() implies is_digit(#[trigger] digits[i]) by {
        text::lemma_decimal_is_digits(n, i);
    }
}

/// A number in decimal notation is read as the number where it has 32 bits, with a plus before
/// it too, and is no number where it has more.
pub proof fn law_numbers_are_read_back(n: int)
    ensures
        -0x8000_0000 <= n <= 0x7fff_ffff ==> parsed_i32(text::decimal_int(n)) == Some(n as i32),
        0 <= n <= 0x7fff_ffff ==> parsed_i32("+"@ + text::decimal_int(n)) == Some(n as i32),
        n < -0x8000_0000 || n > 0x7fff_ffff ==> parsed_i32(text::decimal_int(n)) is None,
{
    reveal_strlit("-");
    reveal_strlit("+");
    if n < 0 {
        lemma_decimal_value((-n) as nat);
        let number = text::decimal_int(n);
        assert(number[0] == '-');
        assert(unsigned_part(number) =~= text::decimal((-n) as nat));
    } else {
        lemma_decimal_value(n as nat);
        let number = text::decimal_int(n);
        text::lemma_decimal_is_digits(n as nat, 0);
        assert(number[0] != '-' && number[0] != '+');
        assert(unsigned_part(number) == number);
        let signed = "+"@ + number;
        assert(signed[0] == '+');
        assert(unsigned_part(signed) =~= number);
    }
}

/// A text is no number where it is empty or a sign alone, or where anything but its first
/// character is no digit, or its first is neither a digit nor a sign.
pub proof fn law_what_is_no_number(number: Seq<char>, i: int)
    requires
        number.len() == 0 || number == "-"@ || number == "+"@ || (0 <= i < number.len() && !('0'
            <= number[i] <= '9') && (i > 0 || (number[0] != '-' && number[0] != '+'))),
    ensures
        parsed_i32(number) is None,
{
    reveal_strlit("-");
    reveal_strlit("+");
    if number.len() > 0 && number != "-"@ && number != "+"@ {
        let digits = unsigned_part(number);
        let at = if number[0] == '-' || number[0] == '+' {
            i - 1
        } else {
            i
        };
        assert(digits[at] == number[i]);
        assert(!is_digit(digits[at]));
    }
}

/// The exit code that a report gives is the number behind `EC:` at the beginning of its last
/// line, white space around it aside; where its last line does not begin so, that line counts
/// for nothing, and a report that has no such line gives none.
pub proof fn law_the_last_exit_code_is_reported(
    stdout: Seq<char>,
    left: Seq<char>,
    code: i32,
    right: Seq<char>,
    line: Seq<char>,
)
    requires
        forall|i: int|
            0 <= i < left.len() ==> text::is_white_space(#[trigger] left[i]) && left[i] != '\n',
        forall|i: int|
            0 <= i < right.len() ==> text::is_white_space(#[trigger] right[i]) && right[i] != '\n',
        forall|i: int| 0 <= i < line.len() ==> #[trigger] line[i] != '\n',
    ensures
        reported_exit_code(
            stdout + "\nEC:"@ + left + text::decimal_int(code as int) + right,
        ) == Some(code),
        line.take(3) != "EC:"@ || line.len() < 3 ==> reported_exit_code(stdout + "\n"@ + line)
            == reported_exit_code(stdout),
        reported_exit_code(Seq::empty()) is None,
{
    reveal_strlit("\n");
    reveal_strlit("\nEC:");
    reveal_strlit("EC:");
    reveal_strlit("-");
    let number = text::decimal_int(code as int);
    let rest = left + number + right;
    let last = "EC:"@ + rest;
    let whole = stdout + "\nEC:"@ + left + number + right;
    assert(whole =~= stdout + seq!['\n'] + last);
    if code < 0 {
        lemma_decimal_value((-(code as int)) as nat);
    } else {
        lemma_decimal_value(code as nat);
    }
    assert forall|i: int| 0 <= i < number.len() implies (#[trigger] number[i] == '-' || is_digit(
        number[i],
    )) by {
        if code < 0 {
            if i > 0 {
                text::lemma_decimal_is_digits((-(code as int)) as nat, i - 1);
                assert(number[i] == text::decimal((-(code as int)) as nat)[i - 1]);
            } else {
                assert(number[0] == '-');
            }
        } else {
            text::lemma_decimal_is_digits(code as nat, i);
        }
    }
    assert forall|i: int| 0 <= i < number.len() implies !text::is_white_space(
        #[trigger] number[i],
    ) by {
        text::law_white_space_in_ascii(number[i]);
    }
    assert(!text::is_white_space(number[0]));
    assert(!text::is_white_space(number[number.len() - 1]));
    assert forall|i: int| 0 <= i < last.len() implies #[trigger] last[i] != '\n' by {
        let at = i - 3 - left.len();
        if i < 3 {
            assert(last[i] == "EC:"@[i]);
        } else if i < 3 + left.len() {
            assert(last[i] == left[i - 3]);
        } else if at < number.len() {
            assert(last[i] == number[at]);
        } else {
            assert(last[i] == right[at - number.len()]);
        }
    }
    text::law_a_separator_begins_a_piece(stdout, last, '\n');
    let lines = text::split_on_spec(whole, '\n');
    assert(lines.last() == last);
    assert("EC:"@.is_prefix_of(last));
    assert(last.skip(3) =~= rest);
    text::law_trim_keeps_what_stands_between(left, number, right);
    law_numbers_are_read_back(code as int);
    assert(stdout + "\n"@ + line =~= stdout + seq!['\n'] + line);
    text::law_a_separator_begins_a_piece(stdout, line, '\n');
    let more = text::split_on_spec(stdout + seq!['\n'] + line, '\n');
    assert(more.last() == line);
    assert(more.drop_last() =~= text::split_on_spec(stdout, '\n'));
    if "EC:"@.is_prefix_of(line) {
        assert(line.take(3) =~= "EC:"@);
    }
    let none = text::split_on_spec(Seq::<char>::empty(), '\n');
    assert(none.last() =~= Seq::<char>::empty());
    assert(!"EC:"@.is_prefix_of(none.last()));
    assert(none.drop_last() =~= Seq::empty());
    assert(last_exit_code_line(none.drop_last()) is None);
}

/// The output that a report gives is all that stands between the first `OUT_BEGIN` and the first
/// `OUT_END` behind it, white space at its ends aside; a report that lacks either gives none.
pub proof fn law_the_output_stands_between_the_markers(
    before: Seq<char>,
    left: Seq<char>,
    body: Seq<char>,
    right: Seq<char>,
    after: Seq<char>,
    stdout: Seq<char>,
)
    requires
        forall|i: int| 0 <= i < left.len() ==> text::is_white_space(#[trigger] left[i]),
        forall|i: int| 0 <= i < right.len() ==> text::is_white_space(#[trigger] right[i]),
        body.len() > 0 ==> !text::is_white_space(body[0]) && !text::is_white_space(body.last()),
        forall|at: int|
            0 <= at < before.len() ==> !text::occurs_at(
                before + "OUT_BEGIN"@ + (left + body + right + "OUT_END"@ + after),
                "OUT_BEGIN"@,
                at,
            ),
        forall|at: int|
            0 <= at < (left + body + right).len() ==> !text::occurs_at(
                left + body + right + "OUT_END"@ + after,
                "OUT_END"@,
                at,
            ),
    ensures
        reported_output(before + "OUT_BEGIN"@ + left + body + right + "OUT_END"@ + after) == body,
        !text::contains_text(stdout, "OUT_BEGIN"@) || !text::contains_text(stdout, "OUT_END"@)
            ==> reported_output(stdout) == Seq::<char>::empty(),
{
    let inner = left + body + right;
    let rest = inner + "OUT_END"@ + after;
    text::law_split_once_parts_at_the_first(before, "OUT_BEGIN"@, rest);
    text::law_split_once_parts_at_the_first(inner, "OUT_END"@, after);
    text::law_trim_keeps_what_stands_between(left, body, right);
    assert(before + "OUT_BEGIN"@ + left + body + right + "OUT_END"@ + after =~= before
        + "OUT_BEGIN"@ + rest);
    if let Some((head, tail)) = text::split_once_spec(stdout, "OUT_BEGIN"@) {
        if text::contains_text(tail, "OUT_END"@) {
            let at = choose|at: int| text::occurs_at(tail, "OUT_END"@, at);
            let skipped = head.len() + "OUT_BEGIN"@.len();
            lemma_split_once_is_a_part(stdout, "OUT_BEGIN"@);
            assert(stdout.subrange(skipped + at, skipped + at + "OUT_END"@.len())
                =~= tail.subrange(at, at + "OUT_END"@.len()));
            assert(text::occurs_at(stdout, "OUT_END"@, skipped + at));
            assert(text::contains_text(stdout, "OUT_BEGIN"@));
        }
    }
}

/// What a text is parted into at a separator makes the text up again with the separator between.
proof fn lemma_split_once_is_a_part(whole: Seq<char>, separator: Seq<char>)
    ensures
        text::split_once_spec(whole, separator) matches Some((head, tail)) ==> whole == head
            + separator + tail && text::contains_text(whole, separator),
{
    text::lemma_first_occurrence_from(whole, separator, 0);
    if let Some(at) = text::first_occurrence(whole, separator) {
        assert(text::occurs_at(whole, separator, at));
        assert(whole =~= whole.take(at) + separator + whole.skip(at + separator.len())) by {
            assert(whole.subrange(at, at + separator.len()) == separator);
            assert forall|i: int| at <= i < at + separator.len() implies whole[i]
                == #[trigger] separator[i - at] by {
                assert(whole.subrange(at, at + separator.len())[i - at] == whole[i]);
            }
        }
    }
}

/// The name is the argument behind the first `--name`, whatever stands around the two; without
/// `--name`, and where nothing follows it, there is none.
pub proof fn law_the_name_follows_its_flag(
    before: Seq<Seq<char>>,
    name: Seq<char>,
    after: Seq<Seq<char>>,
)
    requires
        forall|i: int| 0 <= i < before.len() ==> #[trigger] before[i] != "--name"@,
    ensures
        restore_name(before + seq!["--name"@, name] + after) == Some(name),
        restore_name(before) is None,
        restore_name(before.push("--name"@)) is None,
    decreases before.len(),
{
    let argv = before + seq!["--name"@, name] + after;
    let flagged = before.push("--name"@);
    if before.len() == 0 {
        assert(argv[0] == "--name"@ && argv[1] == name);
        assert(flagged[0] == "--name"@);
    } else {
        let rest = before.skip(1);
        assert forall|i: int| 0 <= i < rest.len() implies #[trigger] rest[i] != "--name"@ by {
            assert(rest[i] == before[i + 1]);
        }
        law_the_name_follows_its_flag(rest, name, after);
        assert(before[0] != "--name"@);
        assert(argv.skip(1) =~= rest + seq!["--name"@, name] + after);
        assert(flagged.skip(1) =~= rest.push("--name"@));
    }
}

/// The arguments of a restore give the name of the container they are made for.
pub proof fn law_a_restore_is_told_by_its_name(spec: ContainerSpec, snapshot_path: Seq<char>)
    requires
        snapshot_path != "--name"@,
    ensures
        restore_name(commands::restore_argv(spec, snapshot_path)) == Some(spec.name@),
{
    reveal_strlit("restore");
    reveal_strlit("--name");
    commands::law_restore_says_all_that_is_asked_for(spec, snapshot_path, 0);
    let argv = commands::restore_argv(spec, snapshot_path);
    let before = seq!["restore"@, snapshot_path];
    assert("restore"@[0] == 'r' && "--name"@[0] == '-');
    law_the_name_follows_its_flag(before, spec.name@, argv.skip(4));
    assert(argv =~= before + seq!["--name"@, spec.name@] + argv.skip(4));
}

/// An exit code decides, whoever is listed: the restore succeeded exactly where it is 0. Without
/// one the restore succeeded exactly where its arguments give a name and the sandbox is listed;
/// it timed out otherwise. The output is passed on as it is.
pub proof fn law_how_a_brokered_restore_ended(
    argv: Seq<Seq<char>>,
    ec: i32,
    out: Seq<char>,
    listed: Option<bool>,
)
    ensures
        brokered_launch(argv, Some(ec), out, listed) == LaunchView::Exited(ec == 0, Some(ec), out),
        restore_name(argv) is Some && listed == Some(true) ==> brokered_launch(
            argv,
            None,
            out,
            listed,
        ) == LaunchView::Exited(true, None, out),
        restore_name(argv) is None || listed != Some(true) ==> brokered_launch(
            argv,
            None,
            out,
            listed,
        ) == LaunchView::TimedOut(out),
{
}

/// Nobody is asked whether a sandbox is listed where there is an exit code or no name: what came
/// of the restore is known then. Where somebody is asked, it is about the name of the restore,
/// and the answer decides.
pub proof fn law_the_listing_is_asked_only_where_it_counts<F: Fn(&str) -> Option<bool>>(
    is_listed: F,
    argv: Seq<Seq<char>>,
    ec: Option<i32>,
    out: Seq<char>,
    launch: LaunchView,
)
    requires
        judged_with(is_listed, argv, ec, out, launch),
    ensures
        ec is Some ==> launch == LaunchView::Exited(ec == Some(0i32), ec, out),
        ec is None && restore_name(argv) is None ==> launch == LaunchView::TimedOut(out),
        ec is None && restore_name(argv) is Some ==> exists|name: &str, listed: Option<bool>|
            #![trigger call_ensures(is_listed, (name,), listed)]
            Some(name@) == restore_name(argv) && call_ensures(is_listed, (name,), listed) && (
            if listed == Some(true) {
                launch == LaunchView::Exited(true, None, out)
            } else {
                launch == LaunchView::TimedOut(out)
            }),
{
    if ec is None && restore_name(argv) is Some {
        let (name, listed) = choose|name: &str, listed: Option<bool>|
            #![trigger call_ensures(is_listed, (name,), listed)]
            Some(name@) == restore_name(argv) && call_ensures(is_listed, (name,), listed) && launch
                == brokered_launch(argv, ec, out, listed);
        assert(call_ensures(is_listed, (name,), listed));
    }
}

/// A script ran exactly where its process succeeded and it told what came of the start.
pub proof fn law_when_a_script_ran(before: Seq<char>, after: Seq<char>, stdout: Seq<char>)
    ensures
        script_ran(true, before + "CIM_RETURN:"@ + after),
        !script_ran(false, stdout),
        !text::contains_text(stdout, "CIM_RETURN:"@) ==> !script_ran(true, stdout),
{
    text::law_a_text_is_contained_in_what_surrounds_it(before, "CIM_RETURN:"@, after);
}

/// The command line that a brokered restore is started with stands in the script as a
/// double-quoted literal that is read back as it is. It runs the binary with every argument, in
/// order, each as a literal that is read back as it is, keeps the output in the one file and
/// then the exit code in the other.
pub proof fn law_a_broker_runs_what_it_is_told(
    msb: Seq<char>,
    argv: Seq<Seq<char>>,
    out_file: Seq<char>,
    ec_file: Seq<char>,
    words: Seq<Seq<char>>,
    out_word: Seq<char>,
    ec_word: Seq<char>,
)
    requires
        words.len() == argv.len() + 1,
        words[0] == "'"@ + text::replace_char_spec(msb, '\'', "''"@) + "'"@,
        forall|i: int|
            0 <= i < argv.len() ==> #[trigger] words[i + 1] == "'"@ + text::replace_char_spec(
                argv[i],
                '\'',
                "''"@,
            ) + "'"@,
        out_word == "'"@ + text::replace_char_spec(out_file, '\'', "''"@) + "'"@,
        ec_word == "'"@ + text::replace_char_spec(ec_file, '\'', "''"@) + "'"@,
    ensures
        ({
            let command = "powershell -NoProfile -Command \"& "@ + text::join_spec(words, " "@)
                + " *> "@ + out_word + "; $LASTEXITCODE | Set-Content -Path "@ + ec_word + "\""@;
            let literal = "\""@ + double_quote_escaped(command) + "\""@;
            &&& double_quote_read(literal) == (LiteralState::Ended, command)
            &&& single_quote_read(words[0]) == (LiteralState::Pending, msb)
            &&& forall|i: int|
                0 <= i < argv.len() ==> single_quote_read(#[trigger] words[i + 1]) == (
                    LiteralState::Pending,
                    argv[i],
                )
            &&& single_quote_read(out_word) == (LiteralState::Pending, out_file)
            &&& single_quote_read(ec_word) == (LiteralState::Pending, ec_file)
            &&& exists|rest: Seq<char>|
                broker_script(msb, argv, out_file, ec_file) == #[trigger] ("$rzCmd = "@ + literal
                    + "\n$result = Invoke-CimMethod"@ + rest)
        }),
{
    reveal_strlit("\"");
    reveal_strlit("$rzCmd = \"");
    reveal_strlit("$rzCmd = ");
    reveal_strlit("\n$result = Invoke-CimMethod");
    reveal_strlit("\"\n$result = Invoke-CimMethod -ClassName Win32_Process -MethodName Create -Arguments @{ CommandLine = $rzCmd }\nWrite-Output \"CIM_RETURN:$($result.ReturnValue)\"\nWrite-Output \"CIM_PID:$($result.ProcessId)\"\n$deadline = (Get-Date).AddSeconds(30)\nwhile (-not (Test-Path ");
    let start = "\"\n$result = Invoke-CimMethod -ClassName Win32_Process -MethodName Create -Arguments @{ CommandLine = $rzCmd }\nWrite-Output \"CIM_RETURN:$($result.ReturnValue)\"\nWrite-Output \"CIM_PID:$($result.ProcessId)\"\n$deadline = (Get-Date).AddSeconds(30)\nwhile (-not (Test-Path "@;
    let command = inner_command(text::join_spec(words, " "@), out_word, ec_word);
    let quoted = seq![single_quoted(msb)] + all_quoted(argv);
    assert forall|i: int| 0 <= i < quoted.len() implies quoted[i] == #[trigger] words[i] by {
        if i > 0 {
            assert(words[(i - 1) + 1] == single_quoted(argv[i - 1]));
        }
    }
    assert(quoted =~= words);
    law_double_quoting_is_undone(command);
    law_single_quoting_is_undone(msb);
    law_single_quoting_is_undone(out_file);
    law_single_quoting_is_undone(ec_file);
    assert forall|i: int| 0 <= i < argv.len() implies single_quote_read(#[trigger] words[i + 1])
        == (LiteralState::Pending, argv[i]) by {
        law_single_quoting_is_undone(argv[i]);
    }
    let escaped = double_quote_escaped(command);
    let literal = "\""@ + escaped + "\""@;
    let script = broker_script(msb, argv, out_file, ec_file);
    let size = ("$rzCmd = "@ + literal + "\n$result = Invoke-CimMethod"@).len() as int;
    let rest = script.skip(size);
    let head = "$rzCmd = \""@ + escaped + start;
    assert(script.take(head.len() as int) =~= head);
    assert(start =~= "\""@ + "\n$result = Invoke-CimMethod"@ + start.skip(28));
    assert(head =~= "$rzCmd = "@ + literal + "\n$result = Invoke-CimMethod"@ + start.skip(28));
    assert(script.take(size) =~= head.take(size));
    assert(head.take(size) =~= "$rzCmd = "@ + literal + "\n$result = Invoke-CimMethod"@);
    assert(script =~= script.take(size) + rest);
}

/// The script waits for the file of the exit code, thirty seconds at most, prints what is in it
/// behind `EC:`, and prints the file of the output between the markers; each file stands in it
/// as a literal that is read back as it is.
pub proof fn law_a_broker_reports_both_files(
    msb: Seq<char>,
    argv: Seq<Seq<char>>,
    out_file: Seq<char>,
    ec_file: Seq<char>,
)
    ensures
        ({
            let script = broker_script(msb, argv, out_file, ec_file);
            let out = "'"@ + text::replace_char_spec(out_file, '\'', "''"@) + "'"@;
            let ec = "'"@ + text::replace_char_spec(ec_file, '\'', "''"@) + "'"@;
            &&& text::contains_text(script, "AddSeconds(30)\nwhile (-not (Test-Path "@ + ec + ")"@)
            &&& text::contains_text(
                script,
                "Write-Output \"EC:$(Get-Content -Path "@ + ec + " -Raw)\""@,
            )
            &&& text::contains_text(
                script,
                "Write-Output 'OUT_BEGIN'\nif (Test-Path "@ + out + ") { Get-Content -Path "@ + out
                    + " -Raw }\nWrite-Output 'OUT_END'\n"@,
            )
        }),
{
    let out = single_quoted(out_file);
    let ec = single_quoted(ec_file);
    let restore = text::join_spec(seq![single_quoted(msb)] + all_quoted(argv), " "@);
    let command = double_quote_escaped(inner_command(restore, out, ec));
    let script = broker_script(msb, argv, out_file, ec_file);
    let one = "$rzCmd = \""@;
    let two = "\"\n$result = Invoke-CimMethod -ClassName Win32_Process -MethodName Create -Arguments @{ CommandLine = $rzCmd }\nWrite-Output \"CIM_RETURN:$($result.ReturnValue)\"\nWrite-Output \"CIM_PID:$($result.ProcessId)\"\n$deadline = (Get-Date).AddSeconds(30)\nwhile (-not (Test-Path "@;
    let three = ")) {\n    if ((Get-Date) -ge $deadline) { break }\n    Start-Sleep -Milliseconds 300\n}\nif (Test-Path "@;
    let four = ") {\n    Write-Output \"EC:$(Get-Content -Path "@;
    let five = " -Raw)\"\n}\nWrite-Output 'OUT_BEGIN'\nif (Test-Path "@;
    let six = ") { Get-Content -Path "@;
    let seven = " -Raw }\nWrite-Output 'OUT_END'\n"@;
    assert(script == one + command + two + ec + three + ec + four + ec + five + out + six + out
        + seven);
    lemma_report_literals();
    let tail = ec + four + ec + five + out + six + out + seven;
    assert(script =~= (one + command) + two + ec + three + tail);
    lemma_contained_across(one + command, two, two.len() - 38, ec, three, 1, tail);
    let head = one + command + two + ec + three + ec;
    let tail = out + six + out + seven;
    assert(script =~= head + four + ec + five + tail);
    lemma_contained_across(head, four, four.len() - 37, ec, five, 7, tail);
    let head = one + command + two + ec + three + ec + four + ec;
    let middle = out + six + out;
    assert(script =~= head + five + middle + seven + Seq::<char>::empty());
    lemma_contained_across(
        head,
        five,
        five.len() - 39,
        middle,
        seven,
        seven.len() as int,
        Seq::empty(),
    );
    assert(seven.take(seven.len() as int) =~= seven);
    assert(five.skip(five.len() - 39) + middle + seven =~= five.skip(five.len() - 39) + out + six
        + out + seven);
}

/// What the texts around the files in a script end in and begin with.
proof fn lemma_report_literals()
    ensures
        ({
            let two = "\"\n$result = Invoke-CimMethod -ClassName Win32_Process -MethodName Create -Arguments @{ CommandLine = $rzCmd }\nWrite-Output \"CIM_RETURN:$($result.ReturnValue)\"\nWrite-Output \"CIM_PID:$($result.ProcessId)\"\n$deadline = (Get-Date).AddSeconds(30)\nwhile (-not (Test-Path "@;
            two.len() >= 38 && two.skip(two.len() - 38)
                == "AddSeconds(30)\nwhile (-not (Test-Path "@
        }),
        ({
            let three = ")) {\n    if ((Get-Date) -ge $deadline) { break }\n    Start-Sleep -Milliseconds 300\n}\nif (Test-Path "@;
            three.len() >= 1 && three.take(1) == ")"@
        }),
        ({
            let four = ") {\n    Write-Output \"EC:$(Get-Content -Path "@;
            four.len() >= 37 && four.skip(four.len() - 37)
                == "Write-Output \"EC:$(Get-Content -Path "@
        }),
        ({
            let five = " -Raw)\"\n}\nWrite-Output 'OUT_BEGIN'\nif (Test-Path "@;
            five.len() >= 39 && five.take(7) == " -Raw)\""@ && five.skip(five.len() - 39)
                == "Write-Output 'OUT_BEGIN'\nif (Test-Path "@
        }),
{
    reveal_strlit("\"\n$result = Invoke-CimMethod -ClassName Win32_Process -MethodName Create -Arguments @{ CommandLine = $rzCmd }\nWrite-Output \"CIM_RETURN:$($result.ReturnValue)\"\nWrite-Output \"CIM_PID:$($result.ProcessId)\"\n$deadline = (Get-Date).AddSeconds(30)\nwhile (-not (Test-Path ");
    reveal_strlit(")) {\n    if ((Get-Date) -ge $deadline) { break }\n    Start-Sleep -Milliseconds 300\n}\nif (Test-Path ");
    reveal_strlit(") {\n    Write-Output \"EC:$(Get-Content -Path ");
    reveal_strlit(" -Raw)\"\n}\nWrite-Output 'OUT_BEGIN'\nif (Test-Path ");
    reveal_strlit("AddSeconds(30)\nwhile (-not (Test-Path ");
    reveal_strlit(")");
    reveal_strlit("Write-Output \"EC:$(Get-Content -Path ");
    reveal_strlit(" -Raw)\"");
    reveal_strlit("Write-Output 'OUT_BEGIN'\nif (Test-Path ");
}

/// What stands in a text across a part, from somewhere in the part before it to somewhere in the
/// part behind it.
proof fn lemma_contained_across(
    before: Seq<char>,
    head: Seq<char>,
    cut: int,
    middle: Seq<char>,
    tail: Seq<char>,
    size: int,
    after: Seq<char>,
)
    requires
        0 <= cut <= head.len(),
        0 <= size <= tail.len(),
    ensures
        text::contains_text(
            before + head + middle + tail + after,
            head.skip(cut) + middle + tail.take(size),
        ),
{
    let part = head.skip(cut) + middle + tail.take(size);
    text::law_a_text_is_contained_in_what_surrounds_it(
        before + head.take(cut),
        part,
        tail.skip(size) + after,
    );
    assert(before + head + middle + tail + after =~= before + head.take(cut) + part + (tail.skip(
        size,
    ) + after));
}

/// The name of a file tells what it is for, the process and the count, and has the extension
/// that was asked for.
pub proof fn law_broker_files_are_told_by_their_parts(
    label: Seq<char>,
    extension: Seq<char>,
    process: nat,
    count: nat,
)
    ensures
        broker_file(label, extension, process, count) == ".rz-restore-broker-"@ + label + "-"@
            + text::decimal(process) + "-"@ + text::decimal(count) + "."@ + extension,
{
    assert(broker_file(label, extension, process, count) =~= ".rz-restore-broker-"@ + label + "-"@
        + text::decimal(process) + "-"@ + text::decimal(count) + "."@ + extension);
}

} // verus!

//! Putting the `msb` toolchain in place: where it goes, when it is downloaded, and what a
//! download must be.

use vstd::prelude::*;
use vstd::string::*;

use crate::message_laws;
use crate::messages;
use crate::model::{ErrorView, RightsizeError};
use crate::platform;
use crate::platform::Platform;
use crate::refs;
use crate::refs::PathStyle;
use crate::registry::TextMap;
use crate::text;

verus! {

/// The release of `msb` that is used.
pub const MSB_VERSION: &'static str = "0.6.6";

/// Where the release is downloaded from.
pub const DEFAULT_BASE: &'static str = "https://github.com/superradcompany/microsandbox/releases/download/v0.6.6";

/// How long a connection may take, in seconds.
pub const CONNECT_TIMEOUT_SECS: u64 = 10;

/// How long an answer may take, in seconds.
pub const READ_TIMEOUT_SECS: u64 = 300;

/// The most bytes that a download may have.
pub const MAX_ASSET_SIZE: u64 = 268_435_456;

/// From which age on a lock counts as left behind, in seconds.
pub const STALE_LOCK_AGE_SECS: u64 = 600;

/// How long a lock is waited for, in milliseconds.
pub const LOCK_TIMEOUT_MS: u64 = 300_000;

/// How long to wait before a lock is tried again, in milliseconds.
pub const LOCK_POLL_MS: u64 = 50;

/// How a host writes its paths, from the name std gives its operating system.
pub open spec fn style_of_spec(os: Seq<char>) -> PathStyle {
    if os == "windows"@ {
        PathStyle::Windows
    } else {
        PathStyle::Unix
    }
}

/// How a host writes its paths.
pub fn style_of(os: &str) -> (style: PathStyle)
    ensures
        style == style_of_spec(os@),
{
    if text::same_text(os, "windows") {
        PathStyle::Windows
    } else {
        PathStyle::Unix
    }
}

/// The contents of an optional text, or another.
pub open spec fn or_else(value: Option<String>, otherwise: Seq<char>) -> Seq<char> {
    match value {
        Some(value) => value@,
        None => otherwise,
    }
}

/// The cache directory of a user: on Windows under the local application data, or under the
/// profile where that is not said; elsewhere under the home directory.
pub open spec fn default_cache_dir_spec(
    os: Seq<char>,
    local_app_data: Option<String>,
    user_profile: Option<String>,
    home: Option<String>,
) -> Seq<char> {
    let style = style_of_spec(os);
    match style {
        PathStyle::Windows => refs::join_path_spec(
            style,
            or_else(
                local_app_data,
                refs::join_path_spec(
                    style,
                    refs::join_path_spec(style, or_else(user_profile, "."@), "AppData"@),
                    "Local"@,
                ),
            ),
            "rightsize"@,
        ),
        PathStyle::Unix => refs::join_path_spec(
            style,
            refs::join_path_spec(style, or_else(home, "."@), ".cache"@),
            "rightsize"@,
        ),
    }
}

/// The value of a variable, or a dot.
fn or_dot(value: &Option<String>) -> (text: String)
    ensures
        text@ == or_else(*value, "."@),
{
    match value {
        Some(value) => value.clone(),
        None => ".".to_owned(),
    }
}

/// The cache directory of a user, from the variables `LOCALAPPDATA`, `USERPROFILE` and
/// `HOME`.
pub fn default_cache_dir(
    os: &str,
    local_app_data: &Option<String>,
    user_profile: &Option<String>,
    home: &Option<String>,
) -> (dir: String)
    ensures
        dir@ == default_cache_dir_spec(os@, *local_app_data, *user_profile, *home),
{
    let style = style_of(os);
    match style {
        PathStyle::Windows => {
            let data = match local_app_data {
                Some(data) => data.clone(),
                None => {
                    let profile = or_dot(user_profile);
                    let app_data = refs::join_path(style, profile.as_str(), "AppData");
                    refs::join_path(style, app_data.as_str(), "Local")
                },
            };
            refs::join_path(style, data.as_str(), "rightsize")
        },
        PathStyle::Unix => {
            let base = or_dot(home);
            let cache = refs::join_path(style, base.as_str(), ".cache");
            refs::join_path(style, cache.as_str(), "rightsize")
        },
    }
}

/// The file name of `msb`.
pub fn msb_install_basename(os: &str) -> (name: &'static str)
    ensures
        name@ == msb_basename_spec(os@),
{
    if text::same_text(os, "windows") {
        "msb.exe"
    } else {
        "msb"
    }
}

/// The file name of `msb`.
pub open spec fn msb_basename_spec(os: Seq<char>) -> Seq<char> {
    if os == "windows"@ {
        "msb.exe"@
    } else {
        "msb"@
    }
}

/// Where the toolchain comes from.
#[derive(Clone, Debug, PartialEq, Eq)]
pub enum ProvisionBegin {
    /// It is the binary that the variable `MSB_PATH` names.
    Override(String),
    /// It is the release that belongs to this library, in place already or yet to be put there.
    Release,
}

/// Decides where the toolchain comes from. A binary that the variable `MSB_PATH` names goes
/// before everything else: whether there is a build for the host, what is in place, and
/// whether a download is to be skipped do not count then.
pub fn begin_provision(msb_path: &Option<String>) -> (begin: ProvisionBegin)
    ensures
        match begin {
            ProvisionBegin::Override(path) => crate::model::text_option(*msb_path) == Some(path@),
            ProvisionBegin::Release => *msb_path is None,
        },
{
    match msb_path {
        Some(path) => ProvisionBegin::Override(path.clone()),
        None => ProvisionBegin::Release,
    }
}

/// Judges the binary that the variable `MSB_PATH` names: it is used as it is, or not at all.
pub fn judge_override(path: &str, executable: bool) -> (outcome: Result<String, RightsizeError>)
    ensures
        match outcome {
            Ok(msb) => executable && msb@ == path@,
            Err(error) => !executable && error@ == ErrorView::Provision(
                messages::msb_path_not_executable(path@),
            ),
        },
{
    if executable {
        Ok(path.to_owned())
    } else {
        Err(RightsizeError::Provision(messages::msb_path_not_executable_text(path)))
    }
}

/// Where the toolchain goes.
#[derive(Clone, Debug)]
pub struct Layout {
    /// The directory of the release.
    pub install_dir: String,
    /// The directory of the binary.
    pub bin_dir: String,
    /// The directory of the guest kernel.
    pub lib_dir: String,
    /// The binary.
    pub msb: String,
    /// The guest kernel.
    pub krun: String,
    /// The lock that whoever downloads holds.
    pub lock_dir: String,
}

/// Where the toolchain of a platform goes under a cache directory.
pub open spec fn is_layout(
    layout: Layout,
    os: Seq<char>,
    platform: Platform,
    cache_dir: Seq<char>,
) -> bool {
    let style = style_of_spec(os);
    let install = refs::join_path_spec(
        style,
        refs::join_path_spec(style, cache_dir, "msb"@),
        MSB_VERSION@,
    );
    let bin = refs::join_path_spec(style, install, "bin"@);
    let lib = refs::join_path_spec(style, install, "lib"@);
    &&& layout.install_dir@ == install
    &&& layout.bin_dir@ == bin
    &&& layout.lib_dir@ == lib
    &&& layout.msb@ == refs::join_path_spec(style, bin, msb_basename_spec(os))
    &&& layout.krun@ == refs::join_path_spec(
        style,
        lib,
        platform::krun_install_name_spec(platform),
    )
    &&& layout.lock_dir@ == refs::join_path_spec(style, install, ".lock"@)
}

/// Where the toolchain goes on a host; an error where there is no build for it.
pub fn plan_layout(os: &str, arch: &str, cache_dir: &str) -> (outcome: Result<
    (Platform, Layout),
    RightsizeError,
>)
    ensures
        match outcome {
            Ok(planned) => platform::platform_of(os@, arch@) == Some(planned.0) && is_layout(
                planned.1,
                os@,
                planned.0,
                cache_dir@,
            ),
            Err(error) => platform::platform_of(os@, arch@) is None && error@
                == ErrorView::Provision(messages::no_build(os@, arch@)),
        },
{
    let platform = match Platform::current(os, arch) {
        Some(platform) => platform,
        None => {
            return Err(RightsizeError::Provision(messages::no_build_text(os, arch)));
        },
    };
    let style = style_of(os);
    let releases = refs::join_path(style, cache_dir, "msb");
    let install_dir = refs::join_path(style, releases.as_str(), MSB_VERSION);
    let bin_dir = refs::join_path(style, install_dir.as_str(), "bin");
    let lib_dir = refs::join_path(style, install_dir.as_str(), "lib");
    let msb = refs::join_path(style, bin_dir.as_str(), msb_install_basename(os));
    let krun = refs::join_path(style, lib_dir.as_str(), platform.krun_install_name());
    let lock_dir = refs::join_path(style, install_dir.as_str(), ".lock");
    Ok((platform, Layout { install_dir, bin_dir, lib_dir, msb, krun, lock_dir }))
}

/// Whether the toolchain is in place: the binary can be run, and the guest kernel is there.
pub fn is_installed(msb_executable: bool, krun_exists: bool) -> (yes: bool)
    ensures
        yes == (msb_executable && krun_exists),
{
    msb_executable && krun_exists
}

/// How far putting the toolchain in place has come.
#[derive(Clone, Copy, Debug, PartialEq, Eq, Structural)]
pub enum ProvisionStage {
    /// Nothing is held.
    Unlocked,
    /// The lock is held.
    Locked,
}

/// What is to be done about the toolchain.
#[derive(Clone, Debug)]
pub enum ProvisionStep {
    /// It is in place, here.
    Ready(String),
    /// It cannot be put in place.
    Fail(RightsizeError),
    /// Take the lock, then look again.
    TakeLock,
    /// Download it.
    Download,
}

/// The contents of a [`ProvisionStep`].
pub enum ProvisionView {
    Ready(Seq<char>),
    Fail(ErrorView),
    TakeLock,
    Download,
}

impl View for ProvisionStep {
    type V = ProvisionView;

    open spec fn view(&self) -> ProvisionView {
        match self {
            ProvisionStep::Ready(path) => ProvisionView::Ready(path@),
            ProvisionStep::Fail(error) => ProvisionView::Fail(error@),
            ProvisionStep::TakeLock => ProvisionView::TakeLock,
            ProvisionStep::Download => ProvisionView::Download,
        }
    }
}

/// What is to be done about the toolchain. `skip_download` is the variable
/// `RIGHTSIZE_MSB_SKIP_DOWNLOAD`.
pub open spec fn provision_step_spec(
    stage: ProvisionStage,
    msb: Seq<char>,
    installed: bool,
    skip_download: Option<Seq<char>>,
) -> ProvisionView {
    if installed {
        ProvisionView::Ready(msb)
    } else {
        match stage {
            ProvisionStage::Unlocked => if skip_download == Some("true"@) {
                ProvisionView::Fail(
                    ErrorView::Provision(messages::download_skipped(MSB_VERSION@, msb)),
                )
            } else {
                ProvisionView::TakeLock
            },
            ProvisionStage::Locked => ProvisionView::Download,
        }
    }
}

/// Decides what is to be done about the toolchain.
pub fn provision_step(
    stage: ProvisionStage,
    layout: &Layout,
    installed: bool,
    skip_download: &Option<String>,
) -> (step: ProvisionStep)
    ensures
        step@ == provision_step_spec(
            stage,
            layout.msb@,
            installed,
            crate::model::text_option(*skip_download),
        ),
{
    if installed {
        return ProvisionStep::Ready(layout.msb.clone());
    }
    match stage {
        ProvisionStage::Unlocked => {
            let skip = match skip_download {
                Some(value) => text::same_text(value.as_str(), "true"),
                None => false,
            };
            if skip {
                ProvisionStep::Fail(
                    RightsizeError::Provision(
                        messages::download_skipped_text(MSB_VERSION, layout.msb.as_str()),
                    ),
                )
            } else {
                ProvisionStep::TakeLock
            }
        },
        ProvisionStage::Locked => ProvisionStep::Download,
    }
}

/// A toolchain that is in place is used as it is: it is never downloaded, and no lock is
/// taken for it. One that is not is downloaded under the lock only, and never where the
/// download is to be skipped.
pub proof fn law_download_only_when_needed(
    stage: ProvisionStage,
    msb: Seq<char>,
    installed: bool,
    skip_download: Option<Seq<char>>,
)
    ensures
        ({
            let step = provision_step_spec(stage, msb, installed, skip_download);
            &&& installed ==> step == ProvisionView::Ready(msb)
            &&& step is Download ==> stage == ProvisionStage::Locked && !installed
            &&& step is TakeLock ==> skip_download != Some("true"@) && !installed
        }),
{
}

/// What became of creating the lock directory.
#[derive(Clone, Debug)]
pub enum LockAttempt {
    Created,
    AlreadyExists,
    Failed { error: String },
}

/// What is to be done about the lock.
#[derive(Clone, Debug)]
pub enum LockStep {
    /// It is held.
    Acquired,
    /// It was left behind: remove it and create it again at once.
    TakeOver,
    /// Wait, then try again.
    Wait,
    /// It cannot be had.
    Fail(RightsizeError),
}

/// The contents of a [`LockStep`].
pub enum LockView {
    Acquired,
    TakeOver,
    Wait,
    Fail(ErrorView),
}

impl View for LockStep {
    type V = LockView;

    open spec fn view(&self) -> LockView {
        match self {
            LockStep::Acquired => LockView::Acquired,
            LockStep::TakeOver => LockView::TakeOver,
            LockStep::Wait => LockView::Wait,
            LockStep::Fail(error) => LockView::Fail(error@),
        }
    }
}

/// Whether a lock counts as left behind; one whose age is not known does not.
pub open spec fn is_stale(age_secs: Option<u64>) -> bool {
    age_secs matches Some(age) && age >= STALE_LOCK_AGE_SECS
}

/// What is to be done about the lock. `taken_over` is whether the attempt followed the
/// removal of a lock that was left behind.
pub open spec fn lock_step_spec(
    lock_dir: Seq<char>,
    attempt: LockAttempt,
    age_secs: Option<u64>,
    taken_over: bool,
    elapsed_ms: u64,
) -> LockView {
    match attempt {
        LockAttempt::Created => LockView::Acquired,
        LockAttempt::Failed { error } => LockView::Fail(ErrorView::Io(error@)),
        LockAttempt::AlreadyExists => if !taken_over && is_stale(age_secs) {
            LockView::TakeOver
        } else if elapsed_ms >= LOCK_TIMEOUT_MS {
            LockView::Fail(ErrorView::Provision(messages::lock_timed_out(lock_dir)))
        } else {
            LockView::Wait
        },
    }
}

/// Decides what is to be done about the lock.
pub fn lock_step(
    lock_dir: &str,
    attempt: LockAttempt,
    age_secs: Option<u64>,
    taken_over: bool,
    elapsed_ms: u64,
) -> (step: LockStep)
    ensures
        step@ == lock_step_spec(lock_dir@, attempt, age_secs, taken_over, elapsed_ms),
{
    match attempt {
        LockAttempt::Created => LockStep::Acquired,
        LockAttempt::Failed { error } => LockStep::Fail(RightsizeError::Io(error)),
        LockAttempt::AlreadyExists => {
            let stale = match age_secs {
                Some(age) => age >= STALE_LOCK_AGE_SECS,
                None => false,
            };
            if !taken_over && stale {
                LockStep::TakeOver
            } else if elapsed_ms >= LOCK_TIMEOUT_MS {
                LockStep::Fail(
                    RightsizeError::Provision(messages::lock_timed_out_text(lock_dir)),
                )
            } else {
                LockStep::Wait
            }
        },
    }
}

/// A lock is taken from its holder only where it counts as left behind, and a take-over is
/// never followed by another without a wait.
pub proof fn law_fresh_locks_are_respected(
    lock_dir: Seq<char>,
    attempt: LockAttempt,
    age_secs: Option<u64>,
    taken_over: bool,
    elapsed_ms: u64,
)
    ensures
        lock_step_spec(lock_dir, attempt, age_secs, taken_over, elapsed_ms) is TakeOver ==> attempt
            is AlreadyExists && is_stale(age_secs) && !taken_over,
        lock_step_spec(lock_dir, attempt, age_secs, taken_over, elapsed_ms) is Acquired ==> attempt
            is Created,
{
}

/// The renames that put two downloads in place, in order: the guest kernel first, the binary
/// last.
pub open spec fn moves_of(
    msb_tmp: Seq<char>,
    msb: Seq<char>,
    krun_tmp: Seq<char>,
    krun: Seq<char>,
) -> Seq<(Seq<char>, Seq<char>)> {
    seq![(krun_tmp, krun), (msb_tmp, msb)]
}

/// The contents of a list of renames.
pub open spec fn moves_view(moves: Seq<(String, String)>) -> Seq<(Seq<char>, Seq<char>)> {
    moves.map_values(|pair: (String, String)| (pair.0@, pair.1@))
}

/// The renames that put two downloads in place, in order.
pub fn install_moves(layout: &Layout, msb_tmp: &str, krun_tmp: &str) -> (moves: Vec<
    (String, String),
>)
    ensures
        moves_view(moves@) == moves_of(msb_tmp@, layout.msb@, krun_tmp@, layout.krun@),
{
    let mut moves: Vec<(String, String)> = Vec::new();
    moves.push((krun_tmp.to_owned(), layout.krun.clone()));
    moves.push((msb_tmp.to_owned(), layout.msb.clone()));
    assert(moves_view(moves@) =~= moves_of(msb_tmp@, layout.msb@, krun_tmp@, layout.krun@));
    moves
}

/// Wherever putting two downloads in place is cut short, the binary is in place only where
/// the guest kernel is: an install that was cut short is never taken for a complete one.
pub proof fn law_binary_is_put_in_place_last(
    msb_tmp: Seq<char>,
    msb: Seq<char>,
    krun_tmp: Seq<char>,
    krun: Seq<char>,
    done: int,
)
    requires
        0 <= done <= 2,
    ensures
        ({
            let made = moves_of(msb_tmp, msb, krun_tmp, krun).take(done);
            made.contains((msb_tmp, msb)) ==> made.contains((krun_tmp, krun))
        }),
{
    let made = moves_of(msb_tmp, msb, krun_tmp, krun).take(done);
    if made.contains((msb_tmp, msb)) {
        assert(made[0] == (krun_tmp, krun));
    }
}

/// The temporary files that are removed once an install is over, however it ended. `msb_tmp`
/// and `krun_tmp` are those of the downloads that passed their check, where they did: none
/// after a failure to download the binary, that of the binary after a failure to download the
/// guest kernel, both after the renames, whether these failed or not.
pub open spec fn leftovers_of(msb_tmp: Option<Seq<char>>, krun_tmp: Option<Seq<char>>) -> Seq<
    Seq<char>,
> {
    let msb = match msb_tmp {
        Some(path) => seq![path],
        None => Seq::empty(),
    };
    let krun = match krun_tmp {
        Some(path) => seq![path],
        None => Seq::empty(),
    };
    msb + krun
}

/// The temporary files to remove once an install is over.
pub fn leftover_downloads(msb_tmp: &Option<String>, krun_tmp: &Option<String>) -> (paths: Vec<
    String,
>)
    ensures
        text::texts(paths@) == leftovers_of(
            crate::model::text_option(*msb_tmp),
            crate::model::text_option(*krun_tmp),
        ),
{
    let mut paths: Vec<String> = Vec::new();
    if let Some(path) = msb_tmp {
        paths.push(path.clone());
    }
    if let Some(path) = krun_tmp {
        paths.push(path.clone());
    }
    assert(text::texts(paths@) =~= leftovers_of(
        crate::model::text_option(*msb_tmp),
        crate::model::text_option(*krun_tmp),
    ));
    paths
}

/// No download outlives an install that was cut short: wherever it failed, the temporary file
/// of every download that passed its check is removed, and no other file is.
pub proof fn law_no_download_is_left_behind(
    msb_tmp: Option<Seq<char>>,
    krun_tmp: Option<Seq<char>>,
    path: Seq<char>,
)
    ensures
        leftovers_of(msb_tmp, krun_tmp).contains(path) <==> (msb_tmp == Some(path) || krun_tmp
            == Some(path)),
{
    let paths = leftovers_of(msb_tmp, krun_tmp);
    if msb_tmp == Some(path) {
        assert(paths[0] == path);
    }
    if krun_tmp == Some(path) {
        assert(paths.last() == path);
    }
}

/// The first word of a line: what stands before the first white space.
pub open spec fn first_word(line: Seq<char>) -> Seq<char>
    decreases line.len(),
{
    if line.len() == 0 || text::is_white_space(line[0]) {
        Seq::empty()
    } else {
        seq![line[0]] + first_word(line.skip(1))
    }
}

/// What follows the first word of a line and the white space after it, trimmed.
pub open spec fn after_first_word(line: Seq<char>) -> Seq<char> {
    let size = first_word(line).len();
    if size < line.len() {
        text::trim_spec(line.skip(size as int + 1))
    } else {
        Seq::empty()
    }
}

/// What lines of a list of checksums say: for each file its checksum, the last one where a
/// file comes twice. The first line that has no checksum or no file is an error. Blank lines
/// are left out.
pub open spec fn checksums_of(lines: Seq<Seq<char>>) -> Result<Map<Seq<char>, Seq<char>>, Seq<char>>
    decreases lines.len(),
{
    if lines.len() == 0 {
        Ok(Map::empty())
    } else {
        match checksums_of(lines.drop_last()) {
            Err(line) => Err(line),
            Ok(sums) => {
                let line = text::trim_spec(lines.last());
                if line.len() == 0 {
                    Ok(sums)
                } else if first_word(line).len() == 0 || after_first_word(line).len() == 0 {
                    Err(line)
                } else {
                    Ok(sums.insert(after_first_word(line), first_word(line)))
                }
            },
        }
    }
}

/// The contents of a map to texts.
pub open spec fn sums_view(sums: TextMap<String>) -> Map<Seq<char>, Seq<char>> {
    sums@.map_values(|sum: String| sum@)
}

/// Once a line is in error, more lines do not change it.
proof fn lemma_bad_line_stays(lines: Seq<Seq<char>>, count: int)
    requires
        0 <= count <= lines.len(),
        checksums_of(lines.take(count)) is Err,
    ensures
        checksums_of(lines) == checksums_of(lines.take(count)),
    decreases lines.len() - count,
{
    if count == lines.len() {
        assert(lines.take(count) =~= lines);
    } else {
        assert(lines.take(count + 1).drop_last() =~= lines.take(count));
        lemma_bad_line_stays(lines, count + 1);
    }
}

/// The first word has no more characters than the line, and none of them is white space.
proof fn lemma_first_word_at(line: Seq<char>, count: int)
    requires
        0 <= count <= line.len(),
        forall|i: int| 0 <= i < count ==> !text::is_white_space(#[trigger] line[i]),
        count == line.len() || text::is_white_space(line[count]),
    ensures
        first_word(line) == line.take(count),
    decreases count,
{
    if count > 0 {
        assert(!text::is_white_space(line[0]));
        let rest = line.skip(1);
        assert forall|i: int| 0 <= i < count - 1 implies !text::is_white_space(
            #[trigger] rest[i],
        ) by {
            assert(rest[i] == line[i + 1]);
        }
        lemma_first_word_at(rest, count - 1);
        assert(seq![line[0]] + rest.take(count - 1) =~= line.take(count));
    } else {
        assert(line.take(0) =~= Seq::empty());
    }
}

/// Parts a trimmed line into its first word and the rest.
fn split_line(line: &str) -> (parts: (String, String))
    ensures
        parts.0@ == first_word(line@),
        parts.1@ == after_first_word(line@),
{
    let chars = text::chars_of(line);
    let total: usize = chars.len();
    let mut at: usize = 0;
    while at < total && !text::white_space(chars[at])
        invariant
            at <= total,
            total == chars@.len(),
            forall|i: int| 0 <= i < at ==> !text::is_white_space(#[trigger] chars@[i]),
        decreases total - at,
    {
        at = at + 1;
    }
    proof {
        lemma_first_word_at(line@, at as int);
    }
    let first = text::text_of(&chars, 0, at);
    assert(first@ =~= line@.take(at as int));
    if at < total {
        let rest = text::text_of(&chars, at + 1, total);
        assert(rest@ =~= line@.skip(at + 1));
        (first, text::trim(rest.as_str()))
    } else {
        (first, String::new())
    }
}

/// Reads a list of checksums.
pub fn parse_checksums(list: &str) -> (outcome: Result<TextMap<String>, RightsizeError>)
    ensures
        match (outcome, checksums_of(text::split_on_spec(list@, '\n'))) {
            (Ok(got), Ok(want)) => got.wf() && sums_view(got) == want,
            (Err(error), Err(line)) => error@ == ErrorView::Provision(
                messages::malformed_line(line),
            ),
            _ => false,
        },
{
    let lines = text::split_on(list, '\n');
    let ghost all = text::texts(lines@);
    let mut sums: TextMap<String> = TextMap::new();
    let mut i: usize = 0;
    assert(all.take(0) =~= Seq::empty());
    assert(sums_view(sums) =~= Map::empty());
    while i < lines.len()
        invariant
            i <= lines@.len(),
            all == text::texts(lines@),
            all == text::split_on_spec(list@, '\n'),
            sums.wf(),
            checksums_of(all.take(i as int)) == Ok::<Map<Seq<char>, Seq<char>>, Seq<char>>(
                sums_view(sums),
            ),
        decreases lines.len() - i,
    {
        let ghost head = all.take(i + 1);
        assert(head.drop_last() =~= all.take(i as int));
        assert(head.last() == lines@[i as int]@);
        let line = text::trim(lines[i].as_str());
        if !line.as_str().is_empty() {
            let (hex, file) = split_line(line.as_str());
            if hex.as_str().is_empty() || file.as_str().is_empty() {
                proof {
                    lemma_bad_line_stays(all, i + 1);
                }
                return Err(
                    RightsizeError::Provision(messages::malformed_line_text(line.as_str())),
                );
            }
            let ghost before = sums_view(sums);
            sums.insert(file.as_str(), hex);
            assert(sums_view(sums) =~= before.insert(file@, hex@));
        }
        i = i + 1;
    }
    assert(all.take(i as int) =~= all);
    Ok(sums)
}

/// The checksum that an asset must have; an error where the list leaves it out.
pub fn expected_checksum(base_url: &str, asset: &str, sums: &TextMap<String>) -> (outcome: Result<
    String,
    RightsizeError,
>)
    requires
        sums.wf(),
    ensures
        match outcome {
            Ok(sum) => sums_view(*sums).dom().contains(asset@) && sum@ == sums_view(*sums)[asset@],
            Err(error) => !sums_view(*sums).dom().contains(asset@) && error@
                == ErrorView::Provision(messages::no_checksum(asset@, base_url@)),
        },
{
    match sums.get(asset) {
        Some(sum) => Ok(sum.clone()),
        None => Err(RightsizeError::Provision(messages::no_checksum_text(asset, base_url))),
    }
}

/// The SHA-256 digest of bytes, as the crate `sha2` computes it.
pub uninterp spec fn sha256_digest(bytes: Seq<u8>) -> Seq<u8>;

/// Calls `Sha256::digest` of the crate `sha2`: the digest is a function of the bytes alone
/// and has 32 bytes.
#[verifier::external_body]
fn sha256(bytes: &[u8]) -> (digest: Vec<u8>)
    ensures
        digest@ == sha256_digest(bytes@),
        digest@.len() == 32,
{
    <sha2::Sha256 as sha2::Digest>::digest(bytes).to_vec()
}

/// The SHA-256 digest of bytes in hexadecimal notation, 64 lower-case digits.
pub fn hex_sha256(bytes: &[u8]) -> (hex: String)
    ensures
        hex@ == text::hex_spec(sha256_digest(bytes@)),
        hex@.len() == 64,
{
    let digest = sha256(bytes);
    proof {
        text::lemma_hex_len(digest@);
    }
    text::hex(digest.as_slice())
}

/// Holds the checksum that a download has against the one it must have.
pub fn judge_checksum(base_url: &str, asset: &str, dir: &str, expected: &str, actual: &str) ->
    (outcome: Result<(), RightsizeError>)
    ensures
        match outcome {
            Ok(()) => actual@ == expected@,
            Err(error) => actual@ != expected@ && error@ == ErrorView::Provision(
                messages::checksum_mismatch(asset@, base_url@, expected@, actual@, dir@),
            ),
        },
{
    if text::same_text(actual, expected) {
        Ok(())
    } else {
        Err(
            RightsizeError::Provision(
                messages::checksum_mismatch_text(asset, base_url, expected, actual, dir),
            ),
        )
    }
}

/// Accepts a download only where its digest is the one the list of checksums gives.
pub fn check_download(base_url: &str, asset: &str, dir: &str, expected: &str, bytes: &[u8]) ->
    (outcome: Result<(), RightsizeError>)
    ensures
        match outcome {
            Ok(()) => text::hex_spec(sha256_digest(bytes@)) == expected@,
            Err(error) => text::hex_spec(sha256_digest(bytes@)) != expected@ && error@
                == ErrorView::Provision(
                messages::checksum_mismatch(
                    asset@,
                    base_url@,
                    expected@,
                    text::hex_spec(sha256_digest(bytes@)),
                    dir@,
                ),
            ),
        },
{
    let actual = hex_sha256(bytes);
    judge_checksum(base_url, asset, dir, expected, actual.as_str())
}

/// The name under which a download is kept until it is put in place. `process` is the number
/// of this process, and `count` is different for each download.
pub open spec fn part_file(process: nat, count: nat) -> Seq<char> {
    ".dl-"@ + (text::decimal(process) + "-"@ + text::decimal(count)) + ".part"@
}

/// The name under which a download is kept until it is put in place.
pub fn part_file_name(process: u32, count: u64) -> (name: String)
    ensures
        name@ == part_file(process as nat, count as nat),
{
    let mut name = ".dl-".to_owned();
    name.append(text::decimal_text(process as u64).as_str());
    name.append("-");
    name.append(text::decimal_text(count).as_str());
    name.append(".part");
    assert(name@ =~= part_file(process as nat, count as nat));
    name
}

/// No two downloads share a name, neither in one process nor across two.
pub proof fn law_part_files_are_distinct(
    process: nat,
    count: nat,
    other_process: nat,
    other_count: nat,
)
    requires
        process != other_process || count != other_count,
    ensures
        part_file(process, count) != part_file(other_process, other_count),
{
    let one = part_file(process, count);
    let two = part_file(other_process, other_count);
    if one == two {
        let head = ".dl-"@.len();
        let tail = ".part"@.len();
        let numbers = text::decimal(process) + "-"@ + text::decimal(count);
        let other = text::decimal(other_process) + "-"@ + text::decimal(other_count);
        assert(one.subrange(head as int, one.len() - tail) =~= numbers);
        assert(two.subrange(head as int, two.len() - tail) =~= other);
        text::lemma_dashed_numbers_are_distinct(process, count, other_process, other_count);
    }
}

/// Judges the status of an answer: from 200 to 299 it tells of success. `shown` is the
/// status as it is shown.
pub fn judge_status(url: &str, status: u16, shown: &str) -> (outcome: Result<(), RightsizeError>)
    ensures
        match outcome {
            Ok(()) => 200 <= status < 300,
            Err(error) => !(200 <= status < 300) && error@ == ErrorView::Provision(
                messages::http_status(shown@, url@),
            ),
        },
{
    if 200 <= status && status < 300 {
        Ok(())
    } else {
        Err(RightsizeError::Provision(messages::http_status_text(shown, url)))
    }
}

/// The cache directory: the one asked for, or the one of the user.
pub fn cache_dir(
    chosen: &Option<String>,
    os: &str,
    local_app_data: &Option<String>,
    user_profile: &Option<String>,
    home: &Option<String>,
) -> (dir: String)
    ensures
        dir@ == or_else(
            *chosen,
            default_cache_dir_spec(os@, *local_app_data, *user_profile, *home),
        ),
{
    match chosen {
        Some(chosen) => chosen.clone(),
        None => default_cache_dir(os, local_app_data, user_profile, home),
    }
}

/// Whether a path is an ordinary one to which more can be joined: it is more than a drive, does
/// not end in a separator, and does not begin with what makes a path verbatim on Windows.
pub open spec fn is_ordinary(os: Seq<char>, path: Seq<char>) -> bool {
    &&& path.len() > 2
    &&& path.last() != '/'
    &&& os == "windows"@ ==> path.last() != '\\' && !(path[0] == '\\' && path[1] == '\\' && path[2]
        == '?')
}

/// What the host writes between two components.
pub open spec fn separator_of(os: Seq<char>) -> char {
    if os == "windows"@ {
        '\\'
    } else {
        '/'
    }
}

/// A component goes behind an ordinary path and a separator, and the path is ordinary then too.
proof fn lemma_join_to_ordinary(os: Seq<char>, base: Seq<char>, component: Seq<char>)
    requires
        is_ordinary(os, base),
        component.len() > 0,
        component.last() != '/' && component.last() != '\\',
    ensures
        refs::join_path_spec(style_of_spec(os), base, component) == base + seq![separator_of(os)]
            + component,
        is_ordinary(os, base + seq![separator_of(os)] + component),
{
    refs::law_joining_puts_one_separator(style_of_spec(os), base, component);
    let joined = base + seq![separator_of(os)] + component;
    assert(joined.last() == component.last());
    assert(joined[0] == base[0] && joined[1] == base[1] && joined[2] == base[2]);
}

/// The cache directory of a user is the directory `rightsize` under the local application data
/// on Windows, or under `AppData\Local` of the profile where that is not said, and the directory
/// `.cache/rightsize` of the home elsewhere; where neither is said, it is under the directory
/// that the process is in. What is said for the other hosts does not count.
pub proof fn law_where_the_cache_is(
    os: Seq<char>,
    data: Option<String>,
    profile: Option<String>,
    home: Option<String>,
)
    ensures
        ({
            let dir = default_cache_dir_spec(os, data, profile, home);
            &&& os == "windows"@ && data is Some && is_ordinary(os, data->0@) ==> dir == data->0@
                + "\\rightsize"@
            &&& os == "windows"@ && data is None && profile is Some && is_ordinary(os, profile->0@)
                ==> dir == profile->0@ + "\\AppData\\Local\\rightsize"@
            &&& os == "windows"@ && data is None && profile is None ==> dir
                == ".\\AppData\\Local\\rightsize"@
            &&& os != "windows"@ && home is Some && is_ordinary(os, home->0@) ==> dir == home->0@
                + "/.cache/rightsize"@
            &&& os != "windows"@ && home is None ==> dir == "./.cache/rightsize"@
        }),
{
    reveal_strlit("rightsize");
    reveal_strlit("AppData");
    reveal_strlit("Local");
    reveal_strlit(".cache");
    reveal_strlit(".");
    reveal_strlit("\\rightsize");
    reveal_strlit("\\AppData\\Local\\rightsize");
    reveal_strlit(".\\AppData\\Local\\rightsize");
    reveal_strlit("/.cache/rightsize");
    reveal_strlit("./.cache/rightsize");
    let style = style_of_spec(os);
    let dir = default_cache_dir_spec(os, data, profile, home);
    if os == "windows"@ {
        if data is Some {
            if is_ordinary(os, data->0@) {
                lemma_join_to_ordinary(os, data->0@, "rightsize"@);
                assert(dir =~= data->0@ + "\\rightsize"@);
            }
        } else if profile is Some {
            if is_ordinary(os, profile->0@) {
                let base = profile->0@;
                lemma_join_to_ordinary(os, base, "AppData"@);
                let one = base + seq!['\\'] + "AppData"@;
                lemma_join_to_ordinary(os, one, "Local"@);
                let two = one + seq!['\\'] + "Local"@;
                lemma_join_to_ordinary(os, two, "rightsize"@);
                assert(dir =~= base + "\\AppData\\Local\\rightsize"@);
            }
        } else {
            refs::law_joining_puts_one_separator(style, "."@, "AppData"@);
            reveal_strlit("\\");
            let one = refs::join_path_spec(style, "."@, "AppData"@);
            assert(one =~= "."@ + seq!['\\'] + "AppData"@);
            assert(one[0] == '.');
            assert(one.last() == "AppData"@[6]);
            lemma_join_to_ordinary(os, one, "Local"@);
            let two = one + seq!['\\'] + "Local"@;
            lemma_join_to_ordinary(os, two, "rightsize"@);
            assert(dir =~= ".\\AppData\\Local\\rightsize"@);
        }
    } else if home is Some {
        if is_ordinary(os, home->0@) {
            let base = home->0@;
            lemma_join_to_ordinary(os, base, ".cache"@);
            let one = base + seq!['/'] + ".cache"@;
            lemma_join_to_ordinary(os, one, "rightsize"@);
            assert(dir =~= base + "/.cache/rightsize"@);
        }
    } else {
        refs::law_joining_puts_one_separator(style, "."@, ".cache"@);
        let one = refs::join_path_spec(style, "."@, ".cache"@);
        assert(one =~= "."@ + seq!['/'] + ".cache"@);
        assert(one.last() == ".cache"@[5]);
        lemma_join_to_ordinary(os, one, "rightsize"@);
        assert(dir =~= "./.cache/rightsize"@);
    }
}

/// What is chosen goes before what is there otherwise.
pub proof fn law_a_choice_comes_first(chosen: String, otherwise: Seq<char>)
    ensures
        or_else(Some(chosen), otherwise) == chosen@,
        or_else(None, otherwise) == otherwise,
{
}

/// The toolchain goes under the directory of its release in the cache: the binary under `bin`,
/// the guest kernel under `lib` with the name `msb` looks for, and the lock beside them.
pub proof fn law_where_the_toolchain_goes(
    layout: Layout,
    os: Seq<char>,
    platform: Platform,
    cache: Seq<char>,
)
    requires
        is_layout(layout, os, platform, cache),
        is_ordinary(os, cache),
    ensures
        os != "windows"@ ==> layout.install_dir@ == cache + "/msb/0.6.6"@,
        os != "windows"@ ==> layout.bin_dir@ == cache + "/msb/0.6.6/bin"@,
        os != "windows"@ ==> layout.lib_dir@ == cache + "/msb/0.6.6/lib"@,
        os != "windows"@ ==> layout.msb@ == cache + "/msb/0.6.6/bin/msb"@,
        os != "windows"@ ==> layout.lock_dir@ == cache + "/msb/0.6.6/.lock"@,
        os != "windows"@ && platform == Platform::DarwinArm64 ==> layout.krun@ == cache
            + "/msb/0.6.6/lib/libkrunfw.5.dylib"@,
        os != "windows"@ && (platform == Platform::LinuxX64 || platform == Platform::LinuxArm64)
            ==> layout.krun@ == cache + "/msb/0.6.6/lib/libkrunfw.so.5.6.1"@,
        os == "windows"@ ==> layout.install_dir@ == cache + "\\msb\\0.6.6"@,
        os == "windows"@ ==> layout.bin_dir@ == cache + "\\msb\\0.6.6\\bin"@,
        os == "windows"@ ==> layout.lib_dir@ == cache + "\\msb\\0.6.6\\lib"@,
        os == "windows"@ ==> layout.msb@ == cache + "\\msb\\0.6.6\\bin\\msb.exe"@,
        os == "windows"@ ==> layout.lock_dir@ == cache + "\\msb\\0.6.6\\.lock"@,
        os == "windows"@ && (platform == Platform::WindowsX64 || platform
            == Platform::WindowsArm64) ==> layout.krun@ == cache
            + "\\msb\\0.6.6\\lib\\libkrunfw.dll"@,
{
    reveal_strlit("msb");
    reveal_strlit("msb.exe");
    reveal_strlit("0.6.6");
    reveal_strlit("bin");
    reveal_strlit("lib");
    reveal_strlit(".lock");
    reveal_strlit("libkrunfw.5.dylib");
    reveal_strlit("libkrunfw.so.5.6.1");
    reveal_strlit("libkrunfw.dll");
    let slash = seq![separator_of(os)];
    let name = msb_basename_spec(os);
    let krun = platform::krun_install_name_spec(platform);
    lemma_join_to_ordinary(os, cache, "msb"@);
    let releases = cache + slash + "msb"@;
    lemma_join_to_ordinary(os, releases, "0.6.6"@);
    let install = releases + slash + "0.6.6"@;
    lemma_join_to_ordinary(os, install, "bin"@);
    lemma_join_to_ordinary(os, install, "lib"@);
    lemma_join_to_ordinary(os, install, ".lock"@);
    let bin = install + slash + "bin"@;
    let lib = install + slash + "lib"@;
    lemma_join_to_ordinary(os, bin, name);
    lemma_join_to_ordinary(os, lib, krun);
    if os == "windows"@ {
        reveal_strlit("\\msb\\0.6.6");
        reveal_strlit("\\msb\\0.6.6\\bin");
        reveal_strlit("\\msb\\0.6.6\\lib");
        reveal_strlit("\\msb\\0.6.6\\bin\\msb.exe");
        reveal_strlit("\\msb\\0.6.6\\.lock");
        reveal_strlit("\\msb\\0.6.6\\lib\\libkrunfw.dll");
        assert(install =~= cache + "\\msb\\0.6.6"@);
        assert(bin =~= cache + "\\msb\\0.6.6\\bin"@);
        assert(lib =~= cache + "\\msb\\0.6.6\\lib"@);
        assert(bin + slash + name =~= cache + "\\msb\\0.6.6\\bin\\msb.exe"@);
        assert(install + slash + ".lock"@ =~= cache + "\\msb\\0.6.6\\.lock"@);
        if platform == Platform::WindowsX64 || platform == Platform::WindowsArm64 {
            assert(lib + slash + krun =~= cache + "\\msb\\0.6.6\\lib\\libkrunfw.dll"@);
        }
    } else {
        reveal_strlit("/msb/0.6.6");
        reveal_strlit("/msb/0.6.6/bin");
        reveal_strlit("/msb/0.6.6/lib");
        reveal_strlit("/msb/0.6.6/bin/msb");
        reveal_strlit("/msb/0.6.6/.lock");
        reveal_strlit("/msb/0.6.6/lib/libkrunfw.5.dylib");
        reveal_strlit("/msb/0.6.6/lib/libkrunfw.so.5.6.1");
        assert(install =~= cache + "/msb/0.6.6"@);
        assert(bin =~= cache + "/msb/0.6.6/bin"@);
        assert(lib =~= cache + "/msb/0.6.6/lib"@);
        assert(bin + slash + name =~= cache + "/msb/0.6.6/bin/msb"@);
        assert(install + slash + ".lock"@ =~= cache + "/msb/0.6.6/.lock"@);
        if platform == Platform::DarwinArm64 {
            assert(lib + slash + krun =~= cache + "/msb/0.6.6/lib/libkrunfw.5.dylib"@);
        } else if platform == Platform::LinuxX64 || platform == Platform::LinuxArm64 {
            assert(lib + slash + krun =~= cache + "/msb/0.6.6/lib/libkrunfw.so.5.6.1"@);
        }
    }
}

/// What is in place is used where it is. What is not is put there under the lock, which is taken
/// first; nothing but the word `true` keeps it from being downloaded, and the error then tells
/// the release and where it was looked for.
pub proof fn law_a_missing_toolchain_is_downloaded(
    stage: ProvisionStage,
    msb: Seq<char>,
    skip_download: Option<Seq<char>>,
)
    ensures
        provision_step_spec(stage, msb, true, skip_download) == ProvisionView::Ready(msb),
        provision_step_spec(ProvisionStage::Locked, msb, false, skip_download)
            == ProvisionView::Download,
        skip_download != Some("true"@) ==> provision_step_spec(
            ProvisionStage::Unlocked,
            msb,
            false,
            skip_download,
        ) == ProvisionView::TakeLock,
        skip_download == Some("true"@) ==> (match provision_step_spec(
            ProvisionStage::Unlocked,
            msb,
            false,
            skip_download,
        ) {
            ProvisionView::Fail(ErrorView::Provision(message)) => text::contains_text(
                message,
                "msb "@ + "0.6.6"@ + " not found at "@,
            ) && text::contains_text(message, " not found at "@ + msb + " and"@),
            _ => false,
        }),
{
    message_laws::law_download_skipped_tells_all("0.6.6"@, msb);
}

/// A lock that exists is taken over exactly where it is ten minutes old or older and was not
/// taken over just before. Any other is waited for, five minutes in all: the wait fails exactly
/// where they have passed, with an error that tells the lock, and goes on before.
pub proof fn law_a_held_lock_is_waited_for(
    lock_dir: Seq<char>,
    age_secs: Option<u64>,
    taken_over: bool,
    elapsed_ms: u64,
)
    ensures
        ({
            let step = lock_step_spec(
                lock_dir,
                LockAttempt::AlreadyExists,
                age_secs,
                taken_over,
                elapsed_ms,
            );
            let left_behind = age_secs is Some && age_secs->0 >= 600 && !taken_over;
            &&& step is TakeOver <==> left_behind
            &&& step is Fail <==> !left_behind && elapsed_ms >= 300_000
            &&& step is Wait <==> !left_behind && elapsed_ms < 300_000
            &&& step matches LockView::Fail(error) ==> (error matches ErrorView::Provision(message)
                && text::contains_text(
                message,
                "for the provisioner lock at "@ + lock_dir + " — another process may"@,
            ))
        }),
{
    message_laws::law_lock_timed_out_tells_all(lock_dir);
}

/// Whoever creates the lock has it, however old it seems and however long it took; an error in
/// creating it is passed on as it is.
pub proof fn law_a_created_lock_is_held(
    lock_dir: Seq<char>,
    error: String,
    age_secs: Option<u64>,
    taken_over: bool,
    elapsed_ms: u64,
)
    ensures
        lock_step_spec(lock_dir, LockAttempt::Created, age_secs, taken_over, elapsed_ms)
            == LockView::Acquired,
        lock_step_spec(lock_dir, LockAttempt::Failed { error }, age_secs, taken_over, elapsed_ms)
            == LockView::Fail(ErrorView::Io(error@)),
{
}

/// Both downloads are put in place, each where it belongs, and nothing else is renamed.
pub proof fn law_both_downloads_are_put_in_place(
    msb_tmp: Seq<char>,
    msb: Seq<char>,
    krun_tmp: Seq<char>,
    krun: Seq<char>,
)
    ensures
        ({
            let moves = moves_of(msb_tmp, msb, krun_tmp, krun);
            &&& moves.len() == 2
            &&& moves.first() == (krun_tmp, krun)
            &&& moves.last() == (msb_tmp, msb)
        }),
{
}

/// The last line of a list of checksums that has a checksum and a file says that the file has
/// the checksum, whatever the lines before said of it, and leaves what they said of other files;
/// white space may surround both, and may stand inside the name of the file.
pub proof fn law_a_line_gives_a_file_its_checksum(
    list: Seq<char>,
    left: Seq<char>,
    hex: Seq<char>,
    gap: Seq<char>,
    file: Seq<char>,
    right: Seq<char>,
)
    requires
        checksums_of(text::split_on_spec(list, '\n')) is Ok,
        forall|i: int|
            0 <= i < left.len() ==> text::is_white_space(#[trigger] left[i]) && left[i] != '\n',
        hex.len() > 0,
        forall|i: int| 0 <= i < hex.len() ==> !text::is_white_space(#[trigger] hex[i]),
        gap.len() > 0,
        forall|i: int|
            0 <= i < gap.len() ==> text::is_white_space(#[trigger] gap[i]) && gap[i] != '\n',
        file.len() > 0,
        !text::is_white_space(file[0]) && !text::is_white_space(file.last()),
        forall|i: int| 0 <= i < file.len() ==> #[trigger] file[i] != '\n',
        forall|i: int|
            0 <= i < right.len() ==> text::is_white_space(#[trigger] right[i]) && right[i] != '\n',
    ensures
        ({
            let longer = list + "\n"@ + left + hex + gap + file + right;
            match checksums_of(text::split_on_spec(longer, '\n')) {
                Ok(sums) => sums == checksums_of(text::split_on_spec(list, '\n'))->Ok_0.insert(
                    file,
                    hex,
                ),
                Err(_) => false,
            }
        }),
{
    reveal_strlit("\n");
    text::law_white_space_in_ascii('\n');
    let core = hex + gap + file;
    let line = left + core + right;
    let longer = list + "\n"@ + left + hex + gap + file + right;
    assert(longer =~= list + seq!['\n'] + line);
    assert forall|i: int| 0 <= i < line.len() implies #[trigger] line[i] != '\n' by {
        let at = i - left.len();
        if i < left.len() {
            assert(line[i] == left[i]);
        } else if at < hex.len() {
            assert(line[i] == hex[at]);
            assert(!text::is_white_space(hex[at]));
        } else if at < hex.len() + gap.len() {
            assert(line[i] == gap[at - hex.len()]);
        } else if at < core.len() {
            assert(line[i] == file[at - hex.len() - gap.len()]);
        } else {
            assert(line[i] == right[at - core.len()]);
        }
    }
    text::law_a_separator_begins_a_piece(list, line, '\n');
    let lines = text::split_on_spec(longer, '\n');
    assert(lines.drop_last() =~= text::split_on_spec(list, '\n'));
    assert(lines.last() == line);
    assert(core[0] == hex[0]);
    assert(core.last() == file.last());
    text::law_trim_keeps_what_stands_between(left, core, right);
    assert forall|i: int| 0 <= i < hex.len() implies !text::is_white_space(#[trigger] core[i]) by {
        assert(core[i] == hex[i]);
    }
    assert(core[hex.len() as int] == gap[0]);
    lemma_first_word_at(core, hex.len() as int);
    assert(core.take(hex.len() as int) =~= hex);
    let spaces = gap.skip(1);
    assert forall|i: int| 0 <= i < spaces.len() implies text::is_white_space(
        #[trigger] spaces[i],
    ) by {
        assert(spaces[i] == gap[i + 1]);
    }
    text::law_trim_keeps_what_stands_between(spaces, file, Seq::empty());
    assert(core.skip(hex.len() as int + 1) =~= spaces + file + Seq::<char>::empty());
}

/// A list of white space alone says nothing. A blank line says nothing either; a line of one
/// word is an error that tells it, and whatever follows an error does not mend it.
pub proof fn law_a_line_without_a_file_is_an_error(
    list: Seq<char>,
    left: Seq<char>,
    word: Seq<char>,
    right: Seq<char>,
    line: Seq<char>,
)
    requires
        forall|i: int|
            0 <= i < left.len() ==> text::is_white_space(#[trigger] left[i]) && left[i] != '\n',
        forall|i: int| 0 <= i < word.len() ==> !text::is_white_space(#[trigger] word[i]),
        forall|i: int|
            0 <= i < right.len() ==> text::is_white_space(#[trigger] right[i]) && right[i] != '\n',
        forall|i: int| 0 <= i < line.len() ==> #[trigger] line[i] != '\n',
    ensures
        checksums_of(text::split_on_spec(Seq::empty(), '\n')) == Ok::<
            Map<Seq<char>, Seq<char>>,
            Seq<char>,
        >(Map::empty()),
        ({
            let before = checksums_of(text::split_on_spec(list, '\n'));
            let after = checksums_of(
                text::split_on_spec(list + "\n"@ + left + word + right, '\n'),
            );
            &&& word.len() == 0 ==> after == before
            &&& word.len() > 0 && before is Ok ==> after is Err && after->Err_0 == word
            &&& before is Err ==> checksums_of(
                text::split_on_spec(list + "\n"@ + line, '\n'),
            ) == before
        }),
{
    reveal_strlit("\n");
    text::law_white_space_in_ascii('\n');
    let short = left + word + right;
    assert(list + "\n"@ + left + word + right =~= list + seq!['\n'] + short);
    assert forall|i: int| 0 <= i < short.len() implies #[trigger] short[i] != '\n' by {
        let at = i - left.len();
        if i < left.len() {
            assert(short[i] == left[i]);
        } else if at < word.len() {
            assert(short[i] == word[at]);
            assert(!text::is_white_space(word[at]));
        } else {
            assert(short[i] == right[at - word.len()]);
        }
    }
    text::law_a_separator_begins_a_piece(list, short, '\n');
    let lines = text::split_on_spec(list + seq!['\n'] + short, '\n');
    assert(lines.drop_last() =~= text::split_on_spec(list, '\n'));
    assert(lines.last() == short);
    text::law_trim_keeps_what_stands_between(left, word, right);
    lemma_first_word_at(word, word.len() as int);
    assert(word.take(word.len() as int) =~= word);
    assert(list + "\n"@ + line =~= list + seq!['\n'] + line);
    text::law_a_separator_begins_a_piece(list, line, '\n');
    let more = text::split_on_spec(list + seq!['\n'] + line, '\n');
    assert(more.drop_last() =~= text::split_on_spec(list, '\n'));
    let none = text::split_on_spec(Seq::<char>::empty(), '\n');
    assert(none.last() =~= Seq::<char>::empty());
    text::law_trim_keeps_what_stands_between(Seq::empty(), Seq::empty(), Seq::empty());
    assert(Seq::<char>::empty() + Seq::<char>::empty() + Seq::<char>::empty()
        =~= Seq::<char>::empty());
    assert(none.drop_last() =~= Seq::empty());
    assert(checksums_of(none.drop_last()) == Ok::<Map<Seq<char>, Seq<char>>, Seq<char>>(
        Map::empty(),
    ));
}

/// The name of a download tells the process and the count, between what sets it apart from a
/// file in place.
pub proof fn law_part_files_are_told_by_their_ends(process: nat, count: nat)
    ensures
        part_file(process, count) == ".dl-"@ + text::decimal(process) + "-"@ + text::decimal(count)
            + ".part"@,
{
    assert(part_file(process, count) =~= ".dl-"@ + text::decimal(process) + "-"@
        + text::decimal(count) + ".part"@);
}

/// The release is downloaded from the place of its own version.
pub proof fn law_the_download_is_of_the_release()
    ensures
        DEFAULT_BASE@ == "https://github.com/superradcompany/microsandbox/releases/download/v"@
            + MSB_VERSION@,
{
    reveal_strlit(
        "https://github.com/superradcompany/microsandbox/releases/download/v0.6.6",
    );
    reveal_strlit("https://github.com/superradcompany/microsandbox/releases/download/v");
    reveal_strlit("0.6.6");
    assert(DEFAULT_BASE@
        =~= "https://github.com/superradcompany/microsandbox/releases/download/v"@
        + MSB_VERSION@);
}

} // verus!

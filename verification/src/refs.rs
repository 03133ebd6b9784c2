//! Paths and checkpoint references. A checkpoint is named either by a bare name or by
//! the absolute path of its artifact directory.

use vstd::prelude::*;
use vstd::string::*;

use crate::text;

verus! {

/// How the host writes its paths.
#[derive(Clone, Copy, Debug, PartialEq, Eq, Structural)]
pub enum PathStyle {
    /// Components parted by `/`; absolute where the path begins with one.
    Unix,
    /// Components parted by `\` or `/`; absolute with a drive, a share or a device in front.
    Windows,
}

/// Whether a character parts the components of a path.
pub open spec fn is_separator(style: PathStyle, c: char) -> bool {
    c == '/' || (style == PathStyle::Windows && c == '\\')
}

/// Whether a path begins with a drive: a letter and a colon.
pub open spec fn has_drive(path: Seq<char>) -> bool {
    path.len() >= 2 && path[1] == ':' && (('a' <= path[0] && path[0] <= 'z') || ('A' <= path[0]
        && path[0] <= 'Z'))
}

/// Whether the server part of a share ends at a position, a share name following it.
pub open spec fn share_begins_at(path: Seq<char>, at: int) -> bool {
    &&& 2 < at && at + 1 < path.len()
    &&& is_separator(PathStyle::Windows, path[at])
    &&& !is_separator(PathStyle::Windows, path[at + 1])
    &&& forall|k: int| 2 <= k < at ==> !is_separator(PathStyle::Windows, #[trigger] path[k])
}

/// Whether a path begins with a share: two separators, a server, a separator, a name.
pub open spec fn has_share(path: Seq<char>) -> bool {
    &&& path.len() >= 2
    &&& is_separator(PathStyle::Windows, path[0])
    &&& is_separator(PathStyle::Windows, path[1])
    &&& exists|at: int| share_begins_at(path, at)
}

/// Whether a path begins with `\\?\`, behind which nothing is interpreted.
pub open spec fn is_verbatim(path: Seq<char>) -> bool {
    path.len() >= 4 && path[0] == '\\' && path[1] == '\\' && path[2] == '?' && path[3] == '\\'
}

/// Whether a path begins with `\\.\`, behind which devices are named.
pub open spec fn is_device(path: Seq<char>) -> bool {
    &&& path.len() >= 4
    &&& is_separator(PathStyle::Windows, path[0])
    &&& is_separator(PathStyle::Windows, path[1])
    &&& path[2] == '.'
    &&& is_separator(PathStyle::Windows, path[3])
}

/// Whether a path says where it starts, whatever the working directory.
pub open spec fn is_absolute_spec(style: PathStyle, path: Seq<char>) -> bool {
    match style {
        PathStyle::Unix => path.len() > 0 && path[0] == '/',
        PathStyle::Windows => is_verbatim(path) || is_device(path) || has_share(path) || (
        has_drive(path) && path.len() >= 3 && is_separator(PathStyle::Windows, path[2])),
    }
}

/// Whether a character parts the components of a path.
fn separator(style: PathStyle, c: char) -> (yes: bool)
    ensures
        yes == is_separator(style, c),
{
    c == '/' || (style == PathStyle::Windows && c == '\\')
}

/// Whether a path begins with a drive.
fn begins_with_drive(path: &Vec<char>) -> (yes: bool)
    ensures
        yes == has_drive(path@),
{
    path.len() >= 2 && path[1] == ':' && (('a' <= path[0] && path[0] <= 'z') || ('A' <= path[0]
        && path[0] <= 'Z'))
}

/// Whether a path begins with a share.
fn begins_with_share(path: &Vec<char>) -> (yes: bool)
    ensures
        yes == has_share(path@),
{
    if path.len() < 2 || !separator(PathStyle::Windows, path[0]) || !separator(
        PathStyle::Windows,
        path[1],
    ) {
        return false;
    }
    let mut at: usize = 2;
    while at < path.len() && !separator(PathStyle::Windows, path[at])
        invariant
            2 <= at <= path@.len(),
            forall|k: int| 2 <= k < at ==> !is_separator(PathStyle::Windows, #[trigger] path@[k]),
        decreases path.len() - at,
    {
        at = at + 1;
    }
    let total: usize = path.len();
    let yes = 2 < at && at < total && at < total - 1 && !separator(PathStyle::Windows, path[at + 1]);
    proof {
        if yes {
            assert(share_begins_at(path@, at as int));
        } else {
            assert forall|other: int| !share_begins_at(path@, other) by {
                if share_begins_at(path@, other) {
                    if at < other {
                        assert(!is_separator(PathStyle::Windows, path@[at as int]));
                    }
                }
            }
        }
    }
    yes
}

/// Whether a path begins with `\\?\` or `\\.\`.
fn begins_verbatim_or_device(path: &Vec<char>) -> (yes: bool)
    ensures
        yes == (is_verbatim(path@) || is_device(path@)),
{
    if path.len() < 4 {
        return false;
    }
    (path[0] == '\\' && path[1] == '\\' && path[2] == '?' && path[3] == '\\') || (separator(
        PathStyle::Windows,
        path[0],
    ) && separator(PathStyle::Windows, path[1]) && path[2] == '.' && separator(
        PathStyle::Windows,
        path[3],
    ))
}

/// Whether a path says where it starts, whatever the working directory.
pub fn is_absolute(style: PathStyle, path: &str) -> (yes: bool)
    ensures
        yes == is_absolute_spec(style, path@),
{
    let chars = text::chars_of(path);
    match style {
        PathStyle::Unix => chars.len() > 0 && chars[0] == '/',
        PathStyle::Windows => begins_verbatim_or_device(&chars) || begins_with_share(&chars) || (
        begins_with_drive(&chars) && chars.len() >= 3 && separator(PathStyle::Windows, chars[2])),
    }
}

/// Whether a path is one behind whose first characters nothing is interpreted.
pub open spec fn is_verbatim_path(style: PathStyle, path: Seq<char>) -> bool {
    style == PathStyle::Windows && is_verbatim(path)
}

/// Whether a character parts the components of a path: in a verbatim one only `\\` does.
pub open spec fn parts_at(style: PathStyle, verbatim: bool, c: char) -> bool {
    if verbatim {
        c == '\\'
    } else {
        is_separator(style, c)
    }
}

/// Where the piece of a path that begins at a position ends: at the next separator.
pub open spec fn piece_end(style: PathStyle, verbatim: bool, path: Seq<char>, from: int) -> int
    decreases path.len() - from,
{
    if from < 0 || from >= path.len() {
        path.len() as int
    } else if parts_at(style, verbatim, path[from]) {
        from
    } else {
        piece_end(style, verbatim, path, from + 1)
    }
}

/// Where the piece of a path that ends at a position begins: behind the separator before it,
/// and at `start` at the earliest.
pub open spec fn piece_begin(
    style: PathStyle,
    verbatim: bool,
    path: Seq<char>,
    start: int,
    end: int,
) -> int
    decreases end - start,
{
    if end <= start {
        start
    } else if parts_at(style, verbatim, path[end - 1]) {
        end
    } else {
        piece_begin(style, verbatim, path, start, end - 1)
    }
}

/// Where a server, and a share behind it if there is one, end.
pub open spec fn share_end(verbatim: bool, path: Seq<char>, from: int) -> int {
    let server = piece_end(PathStyle::Windows, verbatim, path, from);
    let share = piece_end(PathStyle::Windows, verbatim, path, server + 1);
    if server + 1 < share {
        share
    } else {
        server
    }
}

/// Whether a verbatim path names a share: `UNC` and a separator follow.
pub open spec fn has_verbatim_share(path: Seq<char>) -> bool {
    &&& path.len() >= 8
    &&& path[4] == 'U' && path[5] == 'N' && path[6] == 'C'
    &&& is_separator(PathStyle::Windows, path[7])
}

/// Whether a verbatim path names a drive: a letter and a colon follow, and nothing else or a
/// separator behind them.
pub open spec fn has_verbatim_drive(path: Seq<char>) -> bool {
    has_drive(path.skip(4)) && (path.len() == 6 || is_separator(PathStyle::Windows, path[6]))
}

/// The length of the drive, the share or the device that a path begins with.
pub open spec fn prefix_len(style: PathStyle, path: Seq<char>) -> int {
    match style {
        PathStyle::Unix => 0,
        PathStyle::Windows => if is_verbatim(path) {
            if has_verbatim_share(path) {
                share_end(true, path, 8)
            } else if has_verbatim_drive(path) {
                6
            } else {
                piece_end(style, true, path, 4)
            }
        } else if is_device(path) {
            piece_end(style, false, path, 4)
        } else if has_share(path) {
            share_end(false, path, 2)
        } else if has_drive(path) {
            2
        } else {
            0
        },
    }
}

/// Where the names of a path begin: behind its prefix, and behind the separator or the `.`
/// that follows it.
pub open spec fn body_start(style: PathStyle, path: Seq<char>) -> int {
    let prefix = prefix_len(style, path);
    if prefix < path.len() && (is_separator(style, path[prefix]) || (path[prefix] == '.' && (prefix
        + 1 == path.len() || is_separator(style, path[prefix + 1])))) {
        prefix + 1
    } else {
        prefix
    }
}

/// Whether a piece between two separators is no name: nothing at all, or `.` where the path is
/// interpreted.
pub open spec fn is_idle(verbatim: bool, piece: Seq<char>) -> bool {
    piece.len() == 0 || (!verbatim && piece == "."@)
}

/// Where what stands before a piece ends: before the separator, if one parts them.
pub open spec fn before_piece(start: int, begin: int) -> int {
    if begin > start {
        begin - 1
    } else {
        start
    }
}

/// The names in a part of a path, in order.
pub open spec fn names_between(
    style: PathStyle,
    verbatim: bool,
    path: Seq<char>,
    start: int,
    end: int,
) -> Seq<Seq<char>>
    decreases end - start,
{
    if end <= start {
        Seq::empty()
    } else {
        let begin = piece_begin(style, verbatim, path, start, end);
        let piece = path.subrange(begin, end);
        proof {
            lemma_piece_begin(style, verbatim, path, start, end);
        }
        let before = names_between(style, verbatim, path, start, before_piece(start, begin));
        if is_idle(verbatim, piece) {
            before
        } else {
            before.push(piece)
        }
    }
}

/// The names of a path, behind its prefix.
pub open spec fn body_names(style: PathStyle, path: Seq<char>) -> Seq<Seq<char>> {
    names_between(
        style,
        is_verbatim_path(style, path),
        path,
        body_start(style, path),
        path.len() as int,
    )
}

/// A piece begins no later than it ends, holds no separator, and has one before it or begins
/// where the path does.
pub proof fn lemma_piece_begin(
    style: PathStyle,
    verbatim: bool,
    path: Seq<char>,
    start: int,
    end: int,
)
    requires
        start <= end,
    ensures
        start <= piece_begin(style, verbatim, path, start, end) <= end,
        forall|i: int|
            piece_begin(style, verbatim, path, start, end) <= i < end ==> !parts_at(
                style,
                verbatim,
                #[trigger] path[i],
            ),
        piece_begin(style, verbatim, path, start, end) > start ==> parts_at(
            style,
            verbatim,
            path[piece_begin(style, verbatim, path, start, end) - 1],
        ),
    decreases end - start,
{
    if start < end && !parts_at(style, verbatim, path[end - 1]) {
        lemma_piece_begin(style, verbatim, path, start, end - 1);
    }
}

/// A piece ends no earlier than it begins and no later than the path, before a separator or
/// at its end.
proof fn lemma_piece_end(style: PathStyle, verbatim: bool, path: Seq<char>, from: int)
    requires
        0 <= from <= path.len(),
    ensures
        from <= piece_end(style, verbatim, path, from) <= path.len(),
        piece_end(style, verbatim, path, from) < path.len() ==> parts_at(
            style,
            verbatim,
            path[piece_end(style, verbatim, path, from)],
        ),
    decreases path.len() - from,
{
    if from < path.len() && !parts_at(style, verbatim, path[from]) {
        lemma_piece_end(style, verbatim, path, from + 1);
    }
}

/// A prefix is part of the path, and a verbatim one holds the characters that make it one.
proof fn lemma_prefix_len(style: PathStyle, path: Seq<char>)
    ensures
        0 <= prefix_len(style, path) <= body_start(style, path) <= path.len(),
        is_verbatim_path(style, path) ==> prefix_len(style, path) >= 4,
        is_verbatim_path(style, path) && prefix_len(style, path) < path.len() ==> is_separator(
            style,
            path[prefix_len(style, path)],
        ),
{
    let verbatim = is_verbatim(path);
    let from: int = if verbatim && has_verbatim_share(path) {
        8
    } else if verbatim || is_device(path) {
        4
    } else {
        2
    };
    if from <= path.len() {
        lemma_piece_end(PathStyle::Windows, verbatim, path, from);
        let server = piece_end(PathStyle::Windows, verbatim, path, from);
        if server < path.len() {
            lemma_piece_end(PathStyle::Windows, verbatim, path, server + 1);
        }
    }
}

/// Finds where a piece ends.
fn find_piece_end(style: PathStyle, verbatim: bool, path: &Vec<char>, from: usize) -> (end: usize)
    ensures
        end == piece_end(style, verbatim, path@, from as int),
        end <= path@.len(),
{
    let total: usize = path.len();
    if from >= total {
        return total;
    }
    let mut end: usize = from;
    while end < total && !parts(style, verbatim, path[end])
        invariant
            from <= end <= total,
            total == path@.len(),
            piece_end(style, verbatim, path@, from as int) == piece_end(
                style,
                verbatim,
                path@,
                end as int,
            ),
        decreases total - end,
    {
        end = end + 1;
    }
    end
}

/// Finds where a piece begins.
fn find_piece_begin(
    style: PathStyle,
    verbatim: bool,
    path: &Vec<char>,
    start: usize,
    end: usize,
) -> (begin: usize)
    requires
        start <= end <= path@.len(),
    ensures
        begin == piece_begin(style, verbatim, path@, start as int, end as int),
        start <= begin <= end,
{
    let mut begin: usize = end;
    while begin > start && !parts(style, verbatim, path[begin - 1])
        invariant
            start <= begin <= end <= path@.len(),
            piece_begin(style, verbatim, path@, start as int, end as int) == piece_begin(
                style,
                verbatim,
                path@,
                start as int,
                begin as int,
            ),
        decreases begin,
    {
        begin = begin - 1;
    }
    begin
}

/// Whether a character parts the components of a path.
fn parts(style: PathStyle, verbatim: bool, c: char) -> (yes: bool)
    ensures
        yes == parts_at(style, verbatim, c),
{
    if verbatim {
        c == '\\'
    } else {
        separator(style, c)
    }
}

/// Whether a path is verbatim.
fn verbatim_path(style: PathStyle, path: &Vec<char>) -> (yes: bool)
    ensures
        yes == is_verbatim_path(style, path@),
{
    style == PathStyle::Windows && path.len() >= 4 && path[0] == '\\' && path[1] == '\\' && path[2]
        == '?' && path[3] == '\\'
}

/// Finds where a server and its share end.
fn find_share_end(verbatim: bool, path: &Vec<char>, from: usize) -> (end: usize)
    requires
        from <= path@.len(),
    ensures
        end == share_end(verbatim, path@, from as int),
        end <= path@.len(),
{
    let server = find_piece_end(PathStyle::Windows, verbatim, path, from);
    if server == path.len() {
        return server;
    }
    let share = find_piece_end(PathStyle::Windows, verbatim, path, server + 1);
    if server + 1 < share {
        share
    } else {
        server
    }
}

/// Measures the prefix of a path.
fn measure_prefix(style: PathStyle, path: &Vec<char>) -> (size: usize)
    ensures
        size == prefix_len(style, path@),
        size <= path@.len(),
{
    let total: usize = path.len();
    if style == PathStyle::Unix {
        return 0;
    }
    if verbatim_path(style, path) {
        if total >= 8 && path[4] == 'U' && path[5] == 'N' && path[6] == 'C' && separator(
            style,
            path[7],
        ) {
            return find_share_end(true, path, 8);
        }
        assert(path@.len() >= 6 ==> path@.skip(4)[0] == path@[4] && path@.skip(4)[1] == path@[5]);
        if total >= 6 && path[5] == ':' && (('a' <= path[4] && path[4] <= 'z') || ('A' <= path[4]
            && path[4] <= 'Z')) && (total == 6 || separator(style, path[6])) {
            return 6;
        }
        return find_piece_end(style, true, path, 4);
    }
    if begins_verbatim_or_device(path) {
        return find_piece_end(style, false, path, 4);
    }
    if begins_with_share(path) {
        return find_share_end(false, path, 2);
    }
    if begins_with_drive(path) {
        2
    } else {
        0
    }
}

/// Finds where the names of a path begin.
fn find_body_start(style: PathStyle, path: &Vec<char>) -> (start: usize)
    ensures
        start == body_start(style, path@),
        start <= path@.len(),
{
    let total: usize = path.len();
    let prefix = measure_prefix(style, path);
    if prefix < total && (separator(style, path[prefix]) || (path[prefix] == '.' && (prefix + 1
        == total || separator(style, path[prefix + 1])))) {
        prefix + 1
    } else {
        prefix
    }
}

/// Whether a piece of a path is no name.
fn idle(verbatim: bool, path: &Vec<char>, begin: usize, end: usize) -> (yes: bool)
    requires
        begin <= end <= path@.len(),
    ensures
        yes == is_idle(verbatim, path@.subrange(begin as int, end as int)),
{
    let ghost piece = path@.subrange(begin as int, end as int);
    let yes = begin == end || (!verbatim && end - begin == 1 && path[begin] == '.');
    proof {
        reveal_strlit(".");
        if yes && begin < end {
            assert(piece =~= "."@);
        }
        assert("."@.len() == 1 && "."@[0] == '.');
        if piece == "."@ {
            assert(piece.len() == end - begin);
            assert(path@[begin as int] == piece[0]);
        }
    }
    yes
}

/// Lists the names in a part of a path.
fn list_names(
    style: PathStyle,
    verbatim: bool,
    path: &Vec<char>,
    start: usize,
    end: usize,
) -> (names: Vec<String>)
    requires
        start <= end <= path@.len(),
    ensures
        text::texts(names@) == names_between(style, verbatim, path@, start as int, end as int),
{
    let mut names: Vec<String> = Vec::new();
    let mut at: usize = end;
    let ghost all = names_between(style, verbatim, path@, start as int, end as int);
    assert(all =~= all + text::texts(names@));
    while at > start
        invariant
            start <= at <= end <= path@.len(),
            all == names_between(style, verbatim, path@, start as int, at as int) + text::texts(
                names@,
            ),
        decreases at,
    {
        let begin = find_piece_begin(style, verbatim, path, start, at);
        let ghost before = names_between(
            style,
            verbatim,
            path@,
            start as int,
            before_piece(start as int, begin as int),
        );
        if !idle(verbatim, path, begin, at) {
            let name = text::text_of(path, begin, at);
            let ghost known = text::texts(names@);
            names.insert(0, name);
            assert(text::texts(names@) =~= seq![name@] + known);
            assert(before.push(name@) + known =~= before + text::texts(names@));
        }
        at = if begin > start {
            begin - 1
        } else {
            start
        };
    }
    assert(all =~= text::texts(names@));
    names
}

/// Whether a separator has to stand between a path and what is joined to it: not where
/// the path is empty, ends in one already, or is a drive alone.
pub open spec fn needs_separator(style: PathStyle, base: Seq<char>) -> bool {
    base.len() > 0 && !is_separator(style, base.last()) && !(style == PathStyle::Windows
        && base.len() == 2 && has_drive(base))
}

/// The separator the host writes.
pub open spec fn main_separator(style: PathStyle) -> Seq<char> {
    match style {
        PathStyle::Unix => "/"@,
        PathStyle::Windows => "\\"@,
    }
}

/// Names added to the names of a verbatim path one by one. Nothing interprets `..` in it
/// later, so that it takes back the name before it now.
pub open spec fn with_names(names: Seq<Seq<char>>, more: Seq<Seq<char>>) -> Seq<Seq<char>>
    decreases more.len(),
{
    if more.len() == 0 {
        names
    } else {
        let before = with_names(names, more.drop_last());
        if more.last() != ".."@ {
            before.push(more.last())
        } else if before.len() > 0 && before.last() != "."@ && before.last() != ".."@ {
            before.drop_last()
        } else {
            before
        }
    }
}

/// Names, a separator before each.
pub open spec fn separated(names: Seq<Seq<char>>) -> Seq<char>
    decreases names.len(),
{
    if names.len() == 0 {
        Seq::empty()
    } else {
        separated(names.drop_last()) + "\\"@ + names.last()
    }
}

/// The verbatim path of a prefix and names; `rooted` is whether a separator follows the prefix
/// where there are no names.
pub open spec fn verbatim_text(prefix: Seq<char>, rooted: bool, names: Seq<Seq<char>>) -> Seq<
    char,
> {
    if names.len() == 0 && rooted {
        prefix + "\\"@
    } else {
        prefix + separated(names)
    }
}

/// A relative component joined to a path. A verbatim path is written anew from its names and
/// those of the component.
pub open spec fn join_path_spec(
    style: PathStyle,
    base: Seq<char>,
    component: Seq<char>,
) -> Seq<char> {
    if is_verbatim_path(style, base) && component.len() > 0 {
        let prefix = prefix_len(style, base);
        verbatim_text(
            base.take(prefix),
            prefix < base.len(),
            with_names(
                body_names(style, base),
                names_between(style, false, component, 0, component.len() as int),
            ),
        )
    } else if needs_separator(style, base) {
        base + main_separator(style) + component
    } else {
        base + component
    }
}

/// Adds names to the names of a verbatim path.
fn add_names(names: Vec<String>, more: &Vec<String>) -> (all: Vec<String>)
    ensures
        text::texts(all@) == with_names(text::texts(names@), text::texts(more@)),
{
    let mut all = names;
    let ghost known = text::texts(names@);
    let ghost added = text::texts(more@);
    let mut i: usize = 0;
    assert(added.take(0) =~= Seq::empty());
    while i < more.len()
        invariant
            i <= more@.len(),
            added == text::texts(more@),
            text::texts(all@) == with_names(known, added.take(i as int)),
        decreases more.len() - i,
    {
        let ghost before = text::texts(all@);
        assert(added.take(i + 1).drop_last() =~= added.take(i as int));
        assert(added.take(i + 1).last() == more@[i as int]@);
        if !text::same_text(more[i].as_str(), "..") {
            all.push(more[i].clone());
            assert(text::texts(all@) =~= before.push(more@[i as int]@));
        } else if all.len() > 0 {
            assert(before.last() == all@[all@.len() - 1]@);
            let last = all[all.len() - 1].as_str();
            if !text::same_text(last, ".") && !text::same_text(last, "..") {
                let _ = all.pop();
                assert(text::texts(all@) =~= before.drop_last());
            }
        }
        i = i + 1;
    }
    assert(added.take(i as int) =~= added);
    all
}

/// Writes a verbatim path.
fn write_verbatim(prefix: String, rooted: bool, names: &Vec<String>) -> (path: String)
    ensures
        path@ == verbatim_text(prefix@, rooted, text::texts(names@)),
{
    let mut path = prefix;
    let ghost all = text::texts(names@);
    let mut i: usize = 0;
    assert(all.take(0) =~= Seq::empty());
    assert(path@ =~= prefix@ + separated(all.take(0)));
    while i < names.len()
        invariant
            i <= names@.len(),
            all == text::texts(names@),
            path@ == prefix@ + separated(all.take(i as int)),
        decreases names.len() - i,
    {
        assert(all.take(i + 1).drop_last() =~= all.take(i as int));
        assert(all.take(i + 1).last() == names@[i as int]@);
        path.append("\\");
        path.append(names[i].as_str());
        assert(path@ =~= prefix@ + separated(all.take(i + 1)));
        i = i + 1;
    }
    assert(all.take(i as int) =~= all);
    if names.len() == 0 && rooted {
        assert(path@ =~= prefix@);
        path.append("\\");
    }
    path
}

/// Joins a relative component to a path.
pub fn join_path(style: PathStyle, base: &str, component: &str) -> (joined: String)
    ensures
        joined@ == join_path_spec(style, base@, component@),
{
    let chars = text::chars_of(base);
    let total: usize = chars.len();
    let more = text::chars_of(component);
    if verbatim_path(style, &chars) && more.len() > 0 {
        let prefix = measure_prefix(style, &chars);
        let start = find_body_start(style, &chars);
        let names = list_names(style, true, &chars, start, total);
        let added = list_names(style, false, &more, 0, more.len());
        let all = add_names(names, &added);
        let written = text::text_of(&chars, 0, prefix);
        assert(chars@.subrange(0, prefix as int) =~= base@.take(prefix as int));
        return write_verbatim(written, prefix < total, &all);
    }
    let needed = total > 0 && !separator(style, chars[total - 1]) && !(style == PathStyle::Windows
        && total == 2 && begins_with_drive(&chars));
    let mut joined = base.to_owned();
    if needed {
        joined.append(
            match style {
                PathStyle::Unix => "/",
                PathStyle::Windows => "\\",
            },
        );
    }
    joined.append(component);
    joined
}

/// Where a part of a path ends once the pieces at its end that are no names are left out, and
/// the separators before them.
pub open spec fn trimmed_end(
    style: PathStyle,
    verbatim: bool,
    path: Seq<char>,
    start: int,
    end: int,
) -> int
    decreases end - start,
{
    if end <= start {
        end
    } else {
        let begin = piece_begin(style, verbatim, path, start, end);
        proof {
            lemma_piece_begin(style, verbatim, path, start, end);
        }
        if is_idle(verbatim, path.subrange(begin, end)) {
            trimmed_end(style, verbatim, path, start, before_piece(start, begin))
        } else {
            end
        }
    }
}

/// The directory that a path lies in, and its last name; nothing where the path ends in no
/// name, as a root and `..` do.
pub open spec fn ref_parts_spec(style: PathStyle, path: Seq<char>) -> Option<
    (Seq<char>, Seq<char>),
> {
    let verbatim = is_verbatim_path(style, path);
    let start = body_start(style, path);
    let end = trimmed_end(style, verbatim, path, start, path.len() as int);
    let begin = piece_begin(style, verbatim, path, start, end);
    let name = path.subrange(begin, end);
    if end <= start || name == "."@ || name == ".."@ {
        None
    } else {
        Some(
            (
                path.take(
                    trimmed_end(style, verbatim, path, start, before_piece(start, begin)),
                ),
                name,
            ),
        )
    }
}

/// Whether a directory and a name, joined, lead where a path leads: behind the same prefix
/// stand the same names. A verbatim path is the very text that is joined, its names parted by
/// one separator each; a name in it that holds a `/` would be taken apart.
pub open spec fn joins_back(
    style: PathStyle,
    path: Seq<char>,
    dir: Seq<char>,
    name: Seq<char>,
) -> bool {
    let joined = join_path_spec(style, dir, name);
    let start = body_start(style, path);
    if is_verbatim_path(style, path) {
        !name.contains('/') ==> joined == verbatim_text(
            path.take(prefix_len(style, path)),
            true,
            body_names(style, path),
        )
    } else {
        joined.take(start) == path.take(start) && names_between(
            style,
            false,
            joined,
            start,
            joined.len() as int,
        ) == body_names(style, path)
    }
}

/// Finds where a part of a path ends once the pieces at its end that are no names are left
/// out.
fn find_trimmed_end(
    style: PathStyle,
    verbatim: bool,
    path: &Vec<char>,
    start: usize,
    end: usize,
) -> (trimmed: usize)
    requires
        start <= end <= path@.len(),
    ensures
        trimmed == trimmed_end(style, verbatim, path@, start as int, end as int),
        start <= trimmed <= end,
{
    let mut at: usize = end;
    while at > start
        invariant
            start <= at <= end <= path@.len(),
            trimmed_end(style, verbatim, path@, start as int, end as int) == trimmed_end(
                style,
                verbatim,
                path@,
                start as int,
                at as int,
            ),
        decreases at,
    {
        let begin = find_piece_begin(style, verbatim, path, start, at);
        if !idle(verbatim, path, begin, at) {
            return at;
        }
        at = if begin > start {
            begin - 1
        } else {
            start
        };
    }
    at
}

/// Parts a path into the directory that it lies in and its last name.
pub fn ref_parts(style: PathStyle, path: &str) -> (parts: Option<(String, String)>)
    ensures
        match parts {
            Some((dir, name)) => ref_parts_spec(style, path@) == Some((dir@, name@)) && joins_back(
                style,
                path@,
                dir@,
                name@,
            ),
            None => ref_parts_spec(style, path@) is None,
        },
{
    let chars = text::chars_of(path);
    let verbatim = verbatim_path(style, &chars);
    let start = find_body_start(style, &chars);
    let end = find_trimmed_end(style, verbatim, &chars, start, chars.len());
    if end <= start {
        return None;
    }
    let begin = find_piece_begin(style, verbatim, &chars, start, end);
    let name = text::text_of(&chars, begin, end);
    if text::same_text(name.as_str(), ".") || text::same_text(name.as_str(), "..") {
        return None;
    }
    let before: usize = if begin > start {
        begin - 1
    } else {
        start
    };
    let dir_end = find_trimmed_end(style, verbatim, &chars, start, before);
    let dir = text::text_of(&chars, 0, dir_end);
    proof {
        assert(chars@.subrange(0, dir_end as int) =~= path@.take(dir_end as int));
        lemma_parts_join_back(style, path@);
    }
    Some((dir, name))
}

/// Leaving out pieces that are no names leaves the names, and a name at the end.
proof fn lemma_trimmed_end(
    style: PathStyle,
    verbatim: bool,
    path: Seq<char>,
    start: int,
    end: int,
)
    requires
        0 <= start <= end <= path.len(),
    ensures
        ({
            let trimmed = trimmed_end(style, verbatim, path, start, end);
            &&& start <= trimmed <= end
            &&& names_between(style, verbatim, path, start, trimmed) == names_between(
                style,
                verbatim,
                path,
                start,
                end,
            )
            &&& trimmed > start ==> !is_idle(
                verbatim,
                path.subrange(piece_begin(style, verbatim, path, start, trimmed), trimmed),
            )
        }),
    decreases end - start,
{
    if start < end {
        let begin = piece_begin(style, verbatim, path, start, end);
        lemma_piece_begin(style, verbatim, path, start, end);
        if is_idle(verbatim, path.subrange(begin, end)) {
            lemma_trimmed_end(style, verbatim, path, start, before_piece(start, begin));
        }
    }
}

/// Pieces and names depend on the part of a path that they stand in alone.
proof fn lemma_names_of_equal_parts(
    style: PathStyle,
    verbatim: bool,
    path: Seq<char>,
    other: Seq<char>,
    start: int,
    end: int,
)
    requires
        0 <= start <= end <= path.len(),
        end <= other.len(),
        forall|i: int| start <= i < end ==> path[i] == #[trigger] other[i],
    ensures
        piece_begin(style, verbatim, other, start, end) == piece_begin(
            style,
            verbatim,
            path,
            start,
            end,
        ),
        names_between(style, verbatim, other, start, end) == names_between(
            style,
            verbatim,
            path,
            start,
            end,
        ),
    decreases end - start,
{
    if start < end {
        assert(path[end - 1] == other[end - 1]);
        lemma_names_of_equal_parts(style, verbatim, path, other, start, end - 1);
        lemma_piece_begin(style, verbatim, path, start, end);
        let begin = piece_begin(style, verbatim, path, start, end);
        lemma_names_of_equal_parts(
            style,
            verbatim,
            path,
            other,
            start,
            before_piece(start, begin),
        );
        assert(path.subrange(begin, end) =~= other.subrange(begin, end));
    }
}

/// A piece without a separator in it begins behind the separator before it.
proof fn lemma_last_piece(
    style: PathStyle,
    verbatim: bool,
    path: Seq<char>,
    start: int,
    begin: int,
    end: int,
)
    requires
        0 <= start <= begin <= end <= path.len(),
        begin > start ==> parts_at(style, verbatim, path[begin - 1]),
        forall|i: int| begin <= i < end ==> !parts_at(style, verbatim, #[trigger] path[i]),
    ensures
        piece_begin(style, verbatim, path, start, end) == begin,
    decreases end - begin,
{
    if begin < end {
        assert(!parts_at(style, verbatim, path[end - 1]));
        lemma_last_piece(style, verbatim, path, start, begin, end - 1);
    }
}

/// A piece of a path ends where it does in a part of the path that reaches beyond its end.
proof fn lemma_piece_end_of_part(path: Seq<char>, size: int, from: int)
    requires
        0 <= from,
        piece_end(PathStyle::Windows, true, path, from) < size <= path.len(),
    ensures
        piece_end(PathStyle::Windows, true, path.take(size), from) == piece_end(
            PathStyle::Windows,
            true,
            path,
            from,
        ),
    decreases path.len() - from,
{
    if from < path.len() {
        lemma_piece_end(PathStyle::Windows, true, path, from);
        assert(path.take(size)[from] == path[from]);
        if !parts_at(PathStyle::Windows, true, path[from]) {
            lemma_piece_end_of_part(path, size, from + 1);
        }
    }
}

/// A verbatim path keeps its prefix where it is cut off behind the separator that follows it.
proof fn lemma_verbatim_prefix_of_part(path: Seq<char>, size: int)
    requires
        is_verbatim(path),
        prefix_len(PathStyle::Windows, path) < size <= path.len(),
    ensures
        is_verbatim(path.take(size)),
        prefix_len(PathStyle::Windows, path.take(size)) == prefix_len(PathStyle::Windows, path),
        body_start(PathStyle::Windows, path.take(size)) == prefix_len(PathStyle::Windows, path) + 1,
        body_start(PathStyle::Windows, path) == prefix_len(PathStyle::Windows, path) + 1,
{
    let part = path.take(size);
    let prefix = prefix_len(PathStyle::Windows, path);
    lemma_prefix_len(PathStyle::Windows, path);
    assert forall|i: int| 0 <= i < size implies #[trigger] part[i] == path[i] by {}
    if has_verbatim_share(path) {
        lemma_piece_end(PathStyle::Windows, true, path, 8);
        let server = piece_end(PathStyle::Windows, true, path, 8);
        assert(server < path.len());
        lemma_piece_end(PathStyle::Windows, true, path, server + 1);
        lemma_piece_end_of_part(path, size, 8);
        if server < prefix {
            lemma_piece_end_of_part(path, size, server + 1);
        } else if size > server + 1 {
            assert(piece_end(PathStyle::Windows, true, part, server + 1) == server + 1);
        }
    } else {
        lemma_piece_end(PathStyle::Windows, true, path, 4);
        if size >= 6 {
            assert(part.skip(4)[0] == path.skip(4)[0]);
            assert(part.skip(4)[1] == path.skip(4)[1]);
        }
        if !has_verbatim_drive(path) {
            lemma_piece_end_of_part(path, size, 4);
            if size == 6 && has_drive(part.skip(4)) {
                assert(piece_end(PathStyle::Windows, true, path, 4) == piece_end(
                    PathStyle::Windows,
                    true,
                    path,
                    6,
                )) by {
                    reveal_with_fuel(piece_end, 3);
                }
            }
        }
    }
}

/// The directory of a path that is interpreted and the name that stands from `begin` to `end`,
/// joined, lead where the path leads.
proof fn lemma_interpreted_parts_join_back(
    style: PathStyle,
    path: Seq<char>,
    begin: int,
    end: int,
    dir_end: int,
)
    requires
        !is_verbatim_path(style, path),
        body_start(style, path) < end <= path.len(),
        begin == piece_begin(style, false, path, body_start(style, path), end),
        !is_idle(false, path.subrange(begin, end)),
        body_names(style, path) == names_between(
            style,
            false,
            path,
            body_start(style, path),
            dir_end,
        ).push(path.subrange(begin, end)),
        dir_end == trimmed_end(
            style,
            false,
            path,
            body_start(style, path),
            before_piece(body_start(style, path), begin),
        ),
    ensures
        joins_back(style, path, path.take(dir_end), path.subrange(begin, end)),
{
    reveal_strlit("/");
    reveal_strlit("\\");
    let start = body_start(style, path);
    lemma_prefix_len(style, path);
    lemma_piece_begin(style, false, path, start, end);
    lemma_trimmed_end(style, false, path, start, before_piece(start, begin));
    let dir = path.take(dir_end);
    let name = path.subrange(begin, end);
    let joined = join_path_spec(style, dir, name);
    assert(!is_verbatim_path(style, dir));
    assert forall|i: int| 0 <= i < dir_end implies #[trigger] joined[i] == path[i] by {
        assert(dir[i] == path[i]);
    }
    if dir_end > start {
        lemma_piece_begin(style, false, path, start, dir_end);
        assert(dir.last() == path[dir_end - 1]);
        assert(!parts_at(style, false, path[dir_end - 1]));
        if style == PathStyle::Windows && dir_end == 2 && has_drive(dir) {
            assert(has_drive(path));
            assert(prefix_len(style, path) == 2);
        }
        assert(needs_separator(style, dir));
    }
    let size: int = if needs_separator(style, dir) {
        dir_end + 1
    } else {
        dir_end
    };
    let total = joined.len() as int;
    assert(total == size + name.len());
    assert forall|i: int| size <= i < total implies !parts_at(
        style,
        false,
        #[trigger] joined[i],
    ) by {
        assert(joined[i] == name[i - size]);
        assert(name[i - size] == path[begin + (i - size)]);
    }
    lemma_last_piece(style, false, joined, start, size, total);
    assert(joined.subrange(size, total) =~= name);
    assert(joined.take(start) =~= path.take(start));
    lemma_names_of_equal_parts(style, false, path, joined, start, dir_end);
}

/// The directory and the last name of a path, joined, lead where the path leads.
proof fn lemma_parts_join_back(style: PathStyle, path: Seq<char>)
    ensures
        ref_parts_spec(style, path) matches Some((dir, name)) ==> joins_back(
            style,
            path,
            dir,
            name,
        ),
{
    if let Some((dir, name)) = ref_parts_spec(style, path) {
        let verbatim = is_verbatim_path(style, path);
        let start = body_start(style, path);
        let total = path.len() as int;
        lemma_prefix_len(style, path);
        let end = trimmed_end(style, verbatim, path, start, total);
        lemma_trimmed_end(style, verbatim, path, start, total);
        let begin = piece_begin(style, verbatim, path, start, end);
        lemma_piece_begin(style, verbatim, path, start, end);
        let before = before_piece(start, begin);
        let dir_end = trimmed_end(style, verbatim, path, start, before);
        lemma_trimmed_end(style, verbatim, path, start, before);
        let names = names_between(style, verbatim, path, start, dir_end);
        assert(body_names(style, path) == names.push(name));
        lemma_names_of_equal_parts(style, verbatim, path, dir, start, dir_end);
        assert forall|i: int| 0 <= i < name.len() implies #[trigger] name[i] == path[begin
            + i] by {}
        if verbatim {
            if !name.contains('/') {
                lemma_verbatim_prefix_of_part(path, dir_end);
                assert forall|i: int| 0 <= i < name.len() implies !parts_at(
                    style,
                    false,
                    #[trigger] name[i],
                ) by {
                    assert(name.contains(name[i]));
                }
                let total_name = name.len() as int;
                lemma_last_piece(style, false, name, 0, 0, total_name);
                assert(name.subrange(0, total_name) =~= name);
                let more = names_between(style, false, name, 0, total_name);
                assert(names_between(style, false, name, 0, 0) =~= Seq::empty());
                assert(more =~= seq![name]);
                assert(more.drop_last() =~= Seq::empty());
                assert(with_names(names, more.drop_last()) == names);
                assert(more.last() == name);
                assert(with_names(names, more) == names.push(name));
                let prefix = prefix_len(style, path);
                assert(dir.take(prefix) =~= path.take(prefix));
            }
        } else {
            lemma_interpreted_parts_join_back(style, path, begin, end, dir_end);
        }
    }
}

/// The directory under the cache that holds the checkpoints.
pub open spec fn checkpoints_dir_spec(style: PathStyle, cache_dir: Seq<char>) -> Seq<char> {
    join_path_spec(style, cache_dir, "checkpoints"@)
}

/// The directory under the cache that holds the checkpoints.
pub fn checkpoints_dir(style: PathStyle, cache_dir: &str) -> (dir: String)
    ensures
        dir@ == checkpoints_dir_spec(style, cache_dir@),
{
    join_path(style, cache_dir, "checkpoints")
}

/// The reference of a checkpoint that a nonce or a name chosen by the caller tells apart.
pub open spec fn minted_ref(
    style: PathStyle,
    nonce_or_name: Seq<char>,
    cache_dir: Seq<char>,
) -> Seq<char> {
    join_path_spec(style, checkpoints_dir_spec(style, cache_dir), "rz-ckpt-"@ + nonce_or_name)
}

/// Makes the reference of a checkpoint under the cache directory.
pub fn mint_checkpoint_ref(style: PathStyle, nonce_or_name: &str, cache_dir: &str) -> (path: String)
    ensures
        path@ == minted_ref(style, nonce_or_name@, cache_dir@),
{
    let mut component = "rz-ckpt-".to_owned();
    component.append(nonce_or_name);
    let dir = checkpoints_dir(style, cache_dir);
    join_path(style, dir.as_str(), component.as_str())
}

/// The artifact directory that a reference names, where it is a path and no bare name.
pub fn path_ref_dir(style: PathStyle, checkpoint_ref: &str) -> (dir: Option<String>)
    ensures
        match dir {
            Some(dir) => is_absolute_spec(style, checkpoint_ref@) && dir@ == checkpoint_ref@,
            None => !is_absolute_spec(style, checkpoint_ref@),
        },
{
    if is_absolute(style, checkpoint_ref) {
        Some(checkpoint_ref.to_owned())
    } else {
        None
    }
}

/// The path that a checkpoint is to get: the one asked for, or one under the cache directory
/// for a bare name.
pub open spec fn checkpoint_hint_spec(
    style: PathStyle,
    checkpoint_ref: Seq<char>,
    cache_dir: Seq<char>,
) -> Seq<char> {
    if is_absolute_spec(style, checkpoint_ref) {
        checkpoint_ref
    } else {
        minted_ref(style, checkpoint_ref, cache_dir)
    }
}

/// The path that a checkpoint is to get.
pub fn checkpoint_hint(style: PathStyle, checkpoint_ref: &str, cache_dir: &str) -> (path: String)
    ensures
        path@ == checkpoint_hint_spec(style, checkpoint_ref@, cache_dir@),
{
    match path_ref_dir(style, checkpoint_ref) {
        Some(dir) => dir,
        None => mint_checkpoint_ref(style, checkpoint_ref, cache_dir),
    }
}

/// Whether the artifact of a path reference is complete: its directory and the file
/// `snapshot.json` in it.
pub fn path_ref_artifact_exists(is_dir: bool, has_snapshot_json: bool) -> (exists_: bool)
    ensures
        exists_ == (is_dir && has_snapshot_json),
{
    is_dir && has_snapshot_json
}

/// The last line that is not blank, of the lines of a text.
pub open spec fn last_line_of(lines: Seq<Seq<char>>) -> Option<Seq<char>>
    decreases lines.len(),
{
    if lines.len() == 0 {
        None
    } else if !text::is_blank(lines.last()) {
        Some(lines.last())
    } else {
        last_line_of(lines.drop_last())
    }
}

/// The last line of a text that is not blank. A carriage return before a line feed
/// counts to the white space at the end of the line.
pub open spec fn last_line_spec(output: Seq<char>) -> Option<Seq<char>> {
    last_line_of(text::split_on_spec(output, '\n'))
}

/// The last line of a text that is not blank.
pub fn last_line(output: &str) -> (line: Option<String>)
    ensures
        match (line, last_line_spec(output@)) {
            (Some(got), Some(want)) => got@ == want,
            (None, None) => true,
            _ => false,
        },
{
    let lines = text::split_on(output, '\n');
    let mut i: usize = lines.len();
    assert(text::texts(lines@).take(i as int) =~= text::texts(lines@));
    while i > 0
        invariant
            i <= lines@.len(),
            text::texts(lines@) == text::split_on_spec(output@, '\n'),
            last_line_spec(output@) == last_line_of(text::texts(lines@).take(i as int)),
        decreases i,
    {
        let ghost head = text::texts(lines@).take(i as int);
        assert(head.drop_last() =~= text::texts(lines@).take(i - 1));
        assert(head.last() == lines@[i - 1]@);
        let trimmed = text::trim(lines[i - 1].as_str());
        if !trimmed.as_str().is_empty() {
            return Some(lines[i - 1].clone());
        }
        i = i - 1;
    }
    None
}

/// The path on the last line of an output, where the whole line is an absolute path.
pub open spec fn path_on_last_line(style: PathStyle, output: Seq<char>) -> Option<Seq<char>> {
    match last_line_spec(output) {
        Some(line) => if is_absolute_spec(style, text::trim_spec(line)) {
            Some(text::trim_spec(line))
        } else {
            None
        },
        None => None,
    }
}

/// Reads the path on the last line of an output; nothing where that line is no absolute path.
pub fn parse_last_line_as_absolute_path(style: PathStyle, output: &str) -> (path: Option<String>)
    ensures
        crate::model::text_option(path) == path_on_last_line(style, output@),
{
    match last_line(output) {
        Some(line) => {
            let candidate = text::trim(line.as_str());
            if is_absolute(style, candidate.as_str()) {
                Some(candidate)
            } else {
                None
            }
        },
        None => None,
    }
}

/// The artifact path in what `msb snapshot load` printed.
pub fn parse_snapshot_load_ref(style: PathStyle, stdout: &str) -> (path: Option<String>)
    ensures
        crate::model::text_option(path) == path_on_last_line(style, stdout@),
{
    parse_last_line_as_absolute_path(style, stdout)
}

/// The artifact path in what `msb snapshot create` printed.
pub fn parse_snapshot_create_ref(style: PathStyle, stdout: &str) -> (path: Option<String>)
    ensures
        crate::model::text_option(path) == path_on_last_line(style, stdout@),
{
    parse_last_line_as_absolute_path(style, stdout)
}

/// The path that the last line of an output ends in, where its last word is one.
pub open spec fn path_ending_last_line(style: PathStyle, output: Seq<char>) -> Option<Seq<char>> {
    match last_line_spec(output) {
        Some(line) => if is_absolute_spec(style, text::last_word_spec(line)) {
            Some(text::last_word_spec(line))
        } else {
            None
        },
        None => None,
    }
}

/// The artifact path at the end of an "already exists" message.
pub fn parse_already_exists_stderr_ref(style: PathStyle, stderr: &str) -> (path: Option<String>)
    ensures
        crate::model::text_option(path) == path_ending_last_line(style, stderr@),
{
    match last_line(stderr) {
        Some(line) => {
            let candidate = text::last_word(line.as_str());
            if is_absolute(style, candidate.as_str()) {
                Some(candidate)
            } else {
                None
            }
        },
        None => None,
    }
}

/// A name without a separator in it is never a path reference.
pub proof fn law_bare_name_is_no_path_ref(style: PathStyle, name: Seq<char>)
    requires
        forall|i: int| 0 <= i < name.len() ==> !is_separator(style, #[trigger] name[i]),
    ensures
        !is_absolute_spec(style, name),
{
}

/// What is joined to an absolute path is an absolute path.
pub proof fn law_join_keeps_absolute(style: PathStyle, base: Seq<char>, component: Seq<char>)
    requires
        is_absolute_spec(style, base),
    ensures
        is_absolute_spec(style, join_path_spec(style, base, component)),
{
    let joined = join_path_spec(style, base, component);
    if is_verbatim_path(style, base) && component.len() > 0 {
        lemma_prefix_len(style, base);
        assert forall|i: int| 0 <= i < 4 implies #[trigger] joined[i] == base[i] by {}
        return;
    }
    assert forall|i: int| 0 <= i < base.len() implies #[trigger] joined[i] == base[i] by {}
    if style == PathStyle::Windows && has_share(base) {
        let at = choose|at: int| share_begins_at(base, at);
        assert(joined[at] == base[at] && joined[at + 1] == base[at + 1]);
        assert forall|k: int| 2 <= k < at implies !is_separator(
            PathStyle::Windows,
            #[trigger] joined[k],
        ) by {
            assert(joined[k] == base[k]);
        }
        assert(share_begins_at(joined, at));
    }
}

/// A reference minted under an absolute cache directory is a path reference.
pub proof fn law_minted_ref_is_a_path_ref(
    style: PathStyle,
    nonce_or_name: Seq<char>,
    cache_dir: Seq<char>,
)
    requires
        is_absolute_spec(style, cache_dir),
    ensures
        is_absolute_spec(style, minted_ref(style, nonce_or_name, cache_dir)),
{
    law_join_keeps_absolute(style, cache_dir, "checkpoints"@);
    law_join_keeps_absolute(
        style,
        checkpoints_dir_spec(style, cache_dir),
        "rz-ckpt-"@ + nonce_or_name,
    );
}

/// A reference that is minted for a name is parted into the directory of the checkpoints and
/// `rz-ckpt-` with the name, so that these are what the snapshot command gets. The cache
/// directory is one that is interpreted, and does not end within the name of a share or a
/// device, which would take up the name of that directory.
pub proof fn law_minted_ref_is_parted_again(
    style: PathStyle,
    nonce_or_name: Seq<char>,
    cache_dir: Seq<char>,
)
    requires
        forall|i: int|
            0 <= i < nonce_or_name.len() ==> !is_separator(style, #[trigger] nonce_or_name[i]),
        !is_verbatim_path(style, checkpoints_dir_spec(style, cache_dir)),
        body_start(style, minted_ref(style, nonce_or_name, cache_dir)) + "checkpoints"@.len()
            <= checkpoints_dir_spec(style, cache_dir).len(),
    ensures
        ref_parts_spec(style, minted_ref(style, nonce_or_name, cache_dir)) == Some(
            (checkpoints_dir_spec(style, cache_dir), "rz-ckpt-"@ + nonce_or_name),
        ),
{
    reveal_strlit("/");
    reveal_strlit("\\");
    reveal_strlit(".");
    reveal_strlit("..");
    reveal_strlit("checkpoints");
    reveal_strlit("rz-ckpt-");
    let dir = checkpoints_dir_spec(style, cache_dir);
    let name = "rz-ckpt-"@ + nonce_or_name;
    let path = minted_ref(style, nonce_or_name, cache_dir);
    let start = body_start(style, path);
    let size = dir.len() as int;
    let total = path.len() as int;
    lemma_prefix_len(style, path);
    assert(!is_verbatim_path(style, cache_dir)) by {
        if is_verbatim_path(style, cache_dir) {
            lemma_prefix_len(style, cache_dir);
            assert forall|i: int| 0 <= i < 4 implies #[trigger] dir[i] == cache_dir[i] by {}
        }
    }
    let at = size - 11;
    assert forall|i: int| at <= i < size implies #[trigger] dir[i] == "checkpoints"@[i - at] by {}
    assert(dir.last() == dir[size - 1]);
    assert(needs_separator(style, dir));
    assert(path == dir + main_separator(style) + name);
    assert forall|i: int| 0 <= i < size implies #[trigger] path[i] == dir[i] by {}
    assert forall|i: int| size < i < total implies !parts_at(style, false, #[trigger] path[i]) by {
        assert(path[i] == name[i - size - 1]);
    }
    lemma_last_piece(style, false, path, start, size + 1, total);
    assert(path.subrange(size + 1, total) =~= name);
    assert(name.len() >= 8);
    lemma_piece_begin(style, false, path, start, size);
    let begin = piece_begin(style, false, path, start, size);
    assert(begin <= size - 11) by {
        if begin > size - 11 {
            assert(parts_at(style, false, path[begin - 1]));
            assert(path[begin - 1] == dir[begin - 1]);
        }
    }
    assert(path.subrange(begin, size).len() >= 11);
    assert(path.take(size) =~= dir);
}

/// A line feed at the end of an output changes nothing of what is read from it.
pub proof fn law_trailing_line_feed_is_skipped(style: PathStyle, output: Seq<char>)
    ensures
        path_on_last_line(style, output.push('\n')) == path_on_last_line(style, output),
        path_ending_last_line(style, output.push('\n')) == path_ending_last_line(style, output),
{
    let longer = output.push('\n');
    assert(longer.drop_last() =~= output);
    let lines = text::split_on_spec(longer, '\n');
    assert(lines.drop_last() =~= text::split_on_spec(output, '\n'));
    assert(text::is_blank(lines.last()));
}

/// Whatever path is read from an output is absolute.
pub proof fn law_parsed_refs_are_absolute(style: PathStyle, output: Seq<char>)
    ensures
        path_on_last_line(style, output) matches Some(path) ==> is_absolute_spec(style, path),
        path_ending_last_line(style, output) matches Some(path) ==> is_absolute_spec(style, path),
{
}

/// White space at the end of a line does not matter to what is left once it is trimmed.
proof fn lemma_trim_of_longer(line: Seq<char>, c: char)
    requires
        text::is_white_space(c),
    ensures
        text::trim_spec(line.push(c)) == text::trim_spec(line),
    decreases line.len(),
{
    let longer = line.push(c);
    if line.len() == 0 {
        assert(longer.skip(1) =~= line);
        assert(text::trim_start_spec(longer) == text::trim_start_spec(longer.skip(1)));
    } else if text::is_white_space(line[0]) {
        lemma_trim_of_longer(line.skip(1), c);
        assert(longer.skip(1) =~= line.skip(1).push(c));
        assert(longer[0] == line[0]);
    } else {
        assert(longer[0] == line[0]);
        assert(longer.drop_last() =~= line);
    }
}

/// The last line of a text that is not blank, trimmed.
pub open spec fn trimmed_last_line(output: Seq<char>) -> Option<Seq<char>> {
    match last_line_spec(output) {
        Some(line) => Some(text::trim_spec(line)),
        None => None,
    }
}

/// White space and empty lines at the end of an output do not matter to its last line.
proof fn lemma_last_line_before_white_space(output: Seq<char>, right: Seq<char>)
    requires
        forall|i: int| 0 <= i < right.len() ==> text::is_white_space(#[trigger] right[i]),
    ensures
        trimmed_last_line(output + right) == trimmed_last_line(output),
    decreases right.len(),
{
    if right.len() == 0 {
        assert(output + right =~= output);
    } else {
        let fewer = right.drop_last();
        assert forall|i: int| 0 <= i < fewer.len() implies text::is_white_space(
            #[trigger] fewer[i],
        ) by {
            assert(fewer[i] == right[i]);
        }
        lemma_last_line_before_white_space(output, fewer);
        let c = right[right.len() - 1];
        assert(text::is_white_space(c));
        let before = output + fewer;
        let whole = output + right;
        assert(whole.drop_last() =~= before);
        assert(whole.last() == c);
        text::lemma_split_on_nonempty(before, '\n');
        let lines = text::split_on_spec(before, '\n');
        let all = text::split_on_spec(whole, '\n');
        if c == '\n' {
            assert(all.drop_last() =~= lines);
            assert(text::is_blank(all.last()));
        } else {
            assert(all.drop_last() =~= lines.drop_last());
            assert(all.last() == lines.last().push(c));
            lemma_trim_of_longer(lines.last(), c);
        }
    }
}

/// The last line of an output that ends in a line, whatever stands on the lines before.
proof fn lemma_last_line_is_the_last(output: Seq<char>, line: Seq<char>, right: Seq<char>)
    requires
        !line.contains('\n'),
        !text::is_blank(line),
        forall|i: int| 0 <= i < right.len() ==> text::is_white_space(#[trigger] right[i]),
    ensures
        trimmed_last_line(output + seq!['\n'] + line + right) == Some(text::trim_spec(line)),
        trimmed_last_line(line + right) == Some(text::trim_spec(line)),
{
    assert forall|i: int| 0 <= i < line.len() implies #[trigger] line[i] != '\n' by {
        assert(line.contains(line[i]));
    }
    text::law_a_separator_begins_a_piece(output, line, '\n');
    let lines = text::split_on_spec(output + seq!['\n'] + line, '\n');
    assert(lines.last() == line);
    lemma_last_line_before_white_space(output + seq!['\n'] + line, right);
    assert(seq![line].last() == line);
    lemma_last_line_before_white_space(line, right);
}

/// A line that holds an absolute path and white space around it is not blank, and trimmed it is
/// the path.
proof fn lemma_trimmed_path(left: Seq<char>, path: Seq<char>)
    requires
        path.len() > 0,
        !text::is_white_space(path[0]),
        !text::is_white_space(path.last()),
        forall|i: int| 0 <= i < left.len() ==> text::is_white_space(#[trigger] left[i]),
    ensures
        text::trim_spec(left + path) == path,
{
    text::law_trim_keeps_what_stands_between(left, path, Seq::empty());
    assert(left + path + Seq::<char>::empty() =~= left + path);
}

/// An absolute path that makes up the last line of an output is read as it stands, white space
/// inside it included, whatever the output says before, and whatever white space, carriage
/// returns and empty lines surround it.
pub proof fn law_a_path_on_the_last_line_is_read_whole(
    style: PathStyle,
    output: Seq<char>,
    left: Seq<char>,
    path: Seq<char>,
    right: Seq<char>,
)
    requires
        is_absolute_spec(style, path),
        !path.contains('\n'),
        !text::is_white_space(path[0]),
        !text::is_white_space(path.last()),
        !left.contains('\n'),
        forall|i: int| 0 <= i < left.len() ==> text::is_white_space(#[trigger] left[i]),
        forall|i: int| 0 <= i < right.len() ==> text::is_white_space(#[trigger] right[i]),
    ensures
        path_on_last_line(style, output + "\n"@ + left + path + right) == Some(path),
        path_on_last_line(style, left + path + right) == Some(path),
        path_on_last_line(style, output + "\n"@ + path + "\n"@) == Some(path),
{
    reveal_strlit("\n");
    assert("\n"@ =~= seq!['\n']);
    assert(path.len() > 0);
    let line = left + path;
    lemma_trimmed_path(left, path);
    assert(!line.contains('\n')) by {
        if line.contains('\n') {
            let i = choose|i: int| 0 <= i < line.len() && line[i] == '\n';
            if i < left.len() {
                assert(left[i] == '\n');
            } else {
                assert(path[i - left.len()] == '\n');
            }
        }
    }
    lemma_last_line_is_the_last(output, line, right);
    assert(output + "\n"@ + left + path + right =~= output + seq!['\n'] + line + right);
    assert(left + path + right =~= line + right);
    lemma_trimmed_path(Seq::empty(), path);
    assert(Seq::<char>::empty() + path =~= path);
    lemma_last_line_is_the_last(output, path, "\n"@);
    assert(output + "\n"@ + path + "\n"@ =~= output + seq!['\n'] + path + "\n"@);
}

/// An output whose last line, trimmed, is no absolute path gives no path, whatever the lines
/// before it are; nor does one of white space alone.
pub proof fn law_no_path_on_the_last_line_is_none(
    style: PathStyle,
    output: Seq<char>,
    line: Seq<char>,
    right: Seq<char>,
)
    requires
        !line.contains('\n'),
        !is_absolute_spec(style, text::trim_spec(line)),
        forall|i: int| 0 <= i < right.len() ==> text::is_white_space(#[trigger] right[i]),
    ensures
        !text::is_blank(line) ==> path_on_last_line(style, output + "\n"@ + line + right) is None,
        !text::is_blank(line) ==> path_on_last_line(style, line + right) is None,
        path_on_last_line(style, right) is None,
        path_ending_last_line(style, right) is None,
{
    reveal_strlit("\n");
    assert("\n"@ =~= seq!['\n']);
    if !text::is_blank(line) {
        lemma_last_line_is_the_last(output, line, right);
    }
    lemma_no_path_in_white_space(style, right);
}

/// An absolute path that is the last word of the last line of an output is read from it,
/// whatever message stands before it on the line.
pub proof fn law_a_path_that_ends_the_last_line_is_read(
    style: PathStyle,
    output: Seq<char>,
    message: Seq<char>,
    path: Seq<char>,
    right: Seq<char>,
)
    requires
        is_absolute_spec(style, path),
        forall|i: int| 0 <= i < path.len() ==> !text::is_white_space(#[trigger] path[i]),
        !message.contains('\n'),
        message.len() > 0 ==> text::is_white_space(message.last()),
        forall|i: int| 0 <= i < right.len() ==> text::is_white_space(#[trigger] right[i]),
    ensures
        path_ending_last_line(style, output + "\n"@ + message + path + right) == Some(path),
        path_ending_last_line(style, message + path + right) == Some(path),
{
    reveal_strlit("\n");
    assert("\n"@ =~= seq!['\n']);
    let line = message + path;
    assert(path.len() > 0);
    text::law_last_word_is_the_one_at_the_end(message, path, Seq::empty());
    assert(message + path + Seq::<char>::empty() =~= line);
    assert(text::last_word_spec(line) == path);
    assert(!text::is_blank(line)) by {
        assert(text::word_at_end(text::trim_spec(line)).len() > 0);
    }
    assert(!line.contains('\n')) by {
        if line.contains('\n') {
            let i = choose|i: int| 0 <= i < line.len() && line[i] == '\n';
            if i < message.len() {
                assert(message[i] == '\n');
            } else {
                assert(path[i - message.len()] == '\n');
            }
        }
    }
    lemma_last_line_is_the_last(output, line, right);
    assert(output + "\n"@ + message + path + right =~= output + seq!['\n'] + line + right);
}

/// On Unix a path is absolute exactly where a slash begins it.
pub proof fn law_a_slash_makes_a_unix_path_absolute(rest: Seq<char>, c: char)
    ensures
        is_absolute_spec(PathStyle::Unix, seq!['/'] + rest),
        c != '/' ==> !is_absolute_spec(PathStyle::Unix, seq![c] + rest),
        !is_absolute_spec(PathStyle::Unix, Seq::empty()),
{
}

/// On Windows a drive makes a path absolute where a separator of either kind follows it and not
/// otherwise; a server and a share do, and `\\?\` and `\\.\`. A path that begins with neither a
/// drive nor two separators is never absolute.
pub proof fn law_what_makes_a_windows_path_absolute(
    drive: char,
    c: char,
    server: Seq<char>,
    share: char,
    rest: Seq<char>,
    path: Seq<char>,
)
    requires
        'a' <= drive <= 'z' || 'A' <= drive <= 'Z',
        server.len() > 0,
        forall|i: int| 0 <= i < server.len() ==> (#[trigger] server[i]) != '/' && server[i] != '\\',
        share != '/' && share != '\\',
    ensures
        is_absolute_spec(PathStyle::Windows, seq![drive, ':', '\\'] + rest),
        is_absolute_spec(PathStyle::Windows, seq![drive, ':', '/'] + rest),
        c != '/' && c != '\\' ==> !is_absolute_spec(PathStyle::Windows, seq![drive, ':', c] + rest),
        is_absolute_spec(
            PathStyle::Windows,
            seq!['\\', '\\'] + server + seq!['\\', share] + rest,
        ),
        is_absolute_spec(PathStyle::Windows, seq!['\\', '\\', '?', '\\'] + rest),
        is_absolute_spec(PathStyle::Windows, seq!['\\', '\\', '.', '\\'] + rest),
        path.len() < 2 || (path[1] != ':' && path[1] != '/' && path[1] != '\\')
            ==> !is_absolute_spec(PathStyle::Windows, path),
{
    let shared = seq!['\\', '\\'] + server + seq!['\\', share] + rest;
    let at = 2 + server.len() as int;
    assert forall|k: int| 2 <= k < at implies !is_separator(
        PathStyle::Windows,
        #[trigger] shared[k],
    ) by {
        assert(shared[k] == server[k - 2]);
    }
    assert(share_begins_at(shared, at));
    let plain = seq![drive, ':', c] + rest;
    assert(plain[1] == ':');
}

/// Joining puts exactly one separator between an interpreted path and what is joined to it,
/// and none where one is there already, where the path is empty, or behind a drive alone; the
/// path and the component stay as they are.
pub proof fn law_joining_puts_one_separator(style: PathStyle, base: Seq<char>, component: Seq<char>)
    requires
        !is_verbatim_path(style, base),
    ensures
        base.len() == 0 ==> join_path_spec(style, base, component) == component,
        style == PathStyle::Unix && base.len() > 0 && base.last() == '/' ==> join_path_spec(
            style,
            base,
            component,
        ) == base + component,
        style == PathStyle::Unix && base.len() > 0 && base.last() != '/' ==> join_path_spec(
            style,
            base,
            component,
        ) == base + seq!['/'] + component,
        style == PathStyle::Windows && base.len() > 0 && (base.last() == '/' || base.last() == '\\')
            ==> join_path_spec(style, base, component) == base + component,
        style == PathStyle::Windows && base.len() > 2 && base.last() != '/' && base.last() != '\\'
            ==> join_path_spec(style, base, component) == base + seq!['\\'] + component,
        style == PathStyle::Windows && base.len() == 2 && base[1] == ':' && ('a' <= base[0] <= 'z'
            || 'A' <= base[0] <= 'Z') ==> join_path_spec(style, base, component) == base
            + component,
{
    reveal_strlit("/");
    reveal_strlit("\\");
    assert("/"@ =~= seq!['/']);
    assert("\\"@ =~= seq!['\\']);
    if base.len() == 0 {
        assert(base + component =~= component);
    }
}

/// The names of a verbatim path that is written with one separator before each are those names.
proof fn lemma_names_of_separated(prefix: Seq<char>, names: Seq<Seq<char>>)
    requires
        names.len() > 0,
        forall|i: int| 0 <= i < names.len() ==> (#[trigger] names[i]).len() > 0,
        forall|i: int, j: int|
            0 <= i < names.len() && 0 <= j < names[i].len() ==> #[trigger] names[i][j] != '\\',
    ensures
        ({
            let path = prefix + separated(names);
            names_between(
                PathStyle::Windows,
                true,
                path,
                prefix.len() as int + 1,
                path.len() as int,
            ) == names
        }),
    decreases names.len(),
{
    reveal_strlit("\\");
    let style = PathStyle::Windows;
    let path = prefix + separated(names);
    let start = prefix.len() as int + 1;
    let total = path.len() as int;
    let before = names.drop_last();
    let last = names.last();
    assert(last == names[names.len() - 1]);
    let head = prefix + separated(before);
    let begin = head.len() as int + 1;
    assert(path =~= head + "\\"@ + last);
    assert forall|i: int| begin <= i < total implies !parts_at(style, true, #[trigger] path[i]) by {
        assert(path[i] == last[i - begin]);
        assert(names[names.len() - 1][i - begin] != '\\');
    }
    assert(path[begin - 1] == '\\');
    lemma_last_piece(style, true, path, start, begin, total);
    assert(path.subrange(begin, total) =~= last);
    if before.len() == 0 {
        assert(head =~= prefix);
        assert(names_between(style, true, path, start, start) =~= Seq::empty());
        assert(Seq::<Seq<char>>::empty().push(last) =~= names);
    } else {
        assert forall|i: int| 0 <= i < before.len() implies (#[trigger] before[i]).len() > 0 by {
            assert(before[i] == names[i]);
        }
        assert forall|i: int, j: int|
            0 <= i < before.len() && 0 <= j < before[i].len() implies #[trigger] before[i][j]
            != '\\' by {
            assert(names[i][j] != '\\');
        }
        lemma_names_of_separated(prefix, before);
        assert(separated(before).len() > 0);
        assert forall|i: int| start <= i < head.len() implies head[i] == #[trigger] path[i] by {}
        lemma_names_of_equal_parts(style, true, head, path, start, head.len() as int);
        assert(before.push(last) =~= names);
    }
}

/// What is joined to a verbatim path of a drive is one more name at its end, behind a `\`.
pub proof fn law_joining_adds_a_name_to_a_verbatim_path(
    drive: char,
    names: Seq<Seq<char>>,
    component: Seq<char>,
)
    requires
        'a' <= drive <= 'z' || 'A' <= drive <= 'Z',
        forall|i: int| 0 <= i < names.len() ==> (#[trigger] names[i]).len() > 0,
        forall|i: int, j: int|
            0 <= i < names.len() && 0 <= j < names[i].len() ==> #[trigger] names[i][j] != '\\',
        component.len() > 0,
        component != "."@ && component != ".."@,
        forall|i: int|
            0 <= i < component.len() ==> (#[trigger] component[i]) != '/' && component[i] != '\\',
    ensures
        ({
            let prefix = seq!['\\', '\\', '?', '\\', drive, ':'];
            join_path_spec(PathStyle::Windows, prefix + separated(names), component) == prefix
                + separated(names) + "\\"@ + component
        }),
{
    reveal_strlit("\\");
    let style = PathStyle::Windows;
    let prefix = seq!['\\', '\\', '?', '\\', drive, ':'];
    let base = prefix + separated(names);
    let total = component.len() as int;
    assert(base.take(6) =~= prefix);
    assert(base[4] == drive && base[5] == ':');
    assert(base.skip(4)[0] == drive && base.skip(4)[1] == ':');
    if names.len() > 0 {
        lemma_separated_begins(names);
        assert(base[6] == separated(names)[0]);
        lemma_names_of_separated(prefix, names);
    } else {
        assert(base =~= prefix);
    }
    assert(!has_verbatim_share(base));
    assert(prefix_len(style, base) == 6);
    assert(body_names(style, base) =~= names);
    assert forall|i: int| 0 <= i < total implies !parts_at(style, false, #[trigger] component[i]) by {}
    lemma_last_piece(style, false, component, 0, 0, total);
    assert(component.subrange(0, total) =~= component);
    let more = names_between(style, false, component, 0, total);
    assert(names_between(style, false, component, 0, 0) =~= Seq::empty());
    assert(more =~= seq![component]);
    assert(more.drop_last() =~= Seq::empty());
    assert(with_names(names, more.drop_last()) == names);
    assert(more.last() == component);
    assert(with_names(names, more) == names.push(component));
    assert(names.push(component).drop_last() =~= names);
    assert(prefix + separated(names.push(component)) =~= prefix + separated(names) + "\\"@
        + component);
}

/// Names with a separator before each begin with one.
proof fn lemma_separated_begins(names: Seq<Seq<char>>)
    requires
        names.len() > 0,
    ensures
        separated(names).len() > 0,
        separated(names)[0] == '\\',
    decreases names.len(),
{
    reveal_strlit("\\");
    let before = names.drop_last();
    if before.len() > 0 {
        lemma_separated_begins(before);
    } else {
        assert(separated(before) =~= Seq::empty());
    }
    assert(separated(names) == separated(before) + "\\"@ + names.last());
}

/// A directory and a name that are joined are parted into the same two again: what is told to
/// go under a directory and a name goes there.
pub proof fn law_joined_parts_are_parted_again(style: PathStyle, dir: Seq<char>, name: Seq<char>)
    requires
        !is_verbatim_path(style, join_path_spec(style, dir, name)),
        body_start(style, join_path_spec(style, dir, name)) < dir.len(),
        !is_separator(style, dir.last()) && dir.last() != '.',
        name.len() > 0 && name != "."@ && name != ".."@,
        forall|i: int| 0 <= i < name.len() ==> !is_separator(style, #[trigger] name[i]),
    ensures
        ref_parts_spec(style, join_path_spec(style, dir, name)) == Some((dir, name)),
{
    reveal_strlit("/");
    reveal_strlit("\\");
    reveal_strlit(".");
    let path = join_path_spec(style, dir, name);
    let start = body_start(style, path);
    let size = dir.len() as int;
    let total = path.len() as int;
    lemma_prefix_len(style, path);
    if is_verbatim_path(style, dir) {
        lemma_prefix_len(style, dir);
        assert forall|i: int| 0 <= i < 4 implies #[trigger] path[i] == dir[i] by {}
        assert(false);
    }
    if !needs_separator(style, dir) {
        assert(style == PathStyle::Windows && size == 2 && has_drive(dir));
        assert(path[0] == dir[0] && path[1] == dir[1]);
        assert(has_drive(path));
        assert(prefix_len(style, path) == 2);
        assert(false);
    }
    assert(path == dir + main_separator(style) + name);
    assert forall|i: int| 0 <= i < size implies #[trigger] path[i] == dir[i] by {}
    assert forall|i: int| size < i < total implies !parts_at(style, false, #[trigger] path[i]) by {
        assert(path[i] == name[i - size - 1]);
    }
    lemma_last_piece(style, false, path, start, size + 1, total);
    assert(path.subrange(size + 1, total) =~= name);
    lemma_piece_begin(style, false, path, start, size);
    let begin = piece_begin(style, false, path, start, size);
    assert(path[size - 1] == dir.last());
    assert(begin < size) by {
        if begin == size {
            assert(parts_at(style, false, path[size - 1]));
        }
    }
    let piece = path.subrange(begin, size);
    assert(piece.last() == dir.last());
    assert("."@.last() == '.');
    assert(!is_idle(false, piece));
    assert(path.take(size) =~= dir);
}

/// A checkpoint that is asked for by an absolute path gets that path; one that is asked for by a
/// bare name gets a path under the directory `checkpoints` of the cache, which ends in
/// `rz-ckpt-` and the name.
pub proof fn law_where_a_checkpoint_goes(
    style: PathStyle,
    checkpoint_ref: Seq<char>,
    cache_dir: Seq<char>,
)
    requires
        cache_dir.len() > 2,
        !is_verbatim_path(style, cache_dir),
        !is_separator(style, cache_dir.last()),
        !is_verbatim_path(style, cache_dir + seq!['\\']),
    ensures
        is_absolute_spec(style, checkpoint_ref) ==> checkpoint_hint_spec(
            style,
            checkpoint_ref,
            cache_dir,
        ) == checkpoint_ref,
        !is_absolute_spec(style, checkpoint_ref) && style == PathStyle::Unix
            ==> checkpoint_hint_spec(style, checkpoint_ref, cache_dir) == cache_dir
            + "/checkpoints/rz-ckpt-"@ + checkpoint_ref,
        !is_absolute_spec(style, checkpoint_ref) && style == PathStyle::Windows
            ==> checkpoint_hint_spec(style, checkpoint_ref, cache_dir) == cache_dir
            + "\\checkpoints\\rz-ckpt-"@ + checkpoint_ref,
{
    reveal_strlit("/");
    reveal_strlit("\\");
    reveal_strlit("checkpoints");
    reveal_strlit("rz-ckpt-");
    reveal_strlit("/checkpoints/rz-ckpt-");
    reveal_strlit("\\checkpoints\\rz-ckpt-");
    let dir = checkpoints_dir_spec(style, cache_dir);
    assert(dir == cache_dir + main_separator(style) + "checkpoints"@);
    assert(!is_verbatim_path(style, dir)) by {
        let short = cache_dir + seq!['\\'];
        assert forall|i: int| 0 <= i < cache_dir.len() implies dir[i] == #[trigger] short[i] by {}
        assert(style == PathStyle::Windows ==> dir[cache_dir.len() as int] == '\\');
    }
    assert(dir.last() == "checkpoints"@[10]);
    let minted = minted_ref(style, checkpoint_ref, cache_dir);
    assert(minted == dir + main_separator(style) + ("rz-ckpt-"@ + checkpoint_ref));
    if style == PathStyle::Unix {
        assert(minted =~= cache_dir + "/checkpoints/rz-ckpt-"@ + checkpoint_ref);
    } else {
        assert(minted =~= cache_dir + "\\checkpoints\\rz-ckpt-"@ + checkpoint_ref);
    }
}

/// No path is read from white space.
pub proof fn lemma_no_path_in_white_space(style: PathStyle, output: Seq<char>)
    requires
        forall|i: int| 0 <= i < output.len() ==> text::is_white_space(#[trigger] output[i]),
    ensures
        path_on_last_line(style, output) is None,
        path_ending_last_line(style, output) is None,
{
    lemma_last_line_before_white_space(Seq::empty(), output);
    assert(Seq::<char>::empty() + output =~= output);
    let none = text::split_on_spec(Seq::<char>::empty(), '\n');
    assert(none.last() =~= Seq::<char>::empty());
    assert(text::trim_start_spec(Seq::<char>::empty()).len() == 0);
    assert(text::is_blank(none.last()));
    assert(none.drop_last() =~= Seq::empty());
    assert(last_line_of(none.drop_last()) is None);
    assert(last_line_spec(output) is None);
}

/// The part of a path up to a position is trimmed as it is in any path that begins with it.
proof fn lemma_trimmed_of_equal_parts(
    style: PathStyle,
    verbatim: bool,
    path: Seq<char>,
    other: Seq<char>,
    start: int,
    end: int,
)
    requires
        0 <= start,
        end <= path.len(),
        end <= other.len(),
        forall|i: int| start <= i < end ==> path[i] == #[trigger] other[i],
    ensures
        trimmed_end(style, verbatim, other, start, end) == trimmed_end(
            style,
            verbatim,
            path,
            start,
            end,
        ),
    decreases end - start,
{
    if start < end {
        lemma_names_of_equal_parts(style, verbatim, path, other, start, end);
        lemma_piece_begin(style, verbatim, path, start, end);
        let begin = piece_begin(style, verbatim, path, start, end);
        assert(path.subrange(begin, end) =~= other.subrange(begin, end));
        if is_idle(verbatim, path.subrange(begin, end)) {
            lemma_trimmed_of_equal_parts(
                style,
                verbatim,
                path,
                other,
                start,
                before_piece(start, begin),
            );
        }
    }
}

/// A path that goes on with nothing but a separator, and a `.` behind it or not, is parted as
/// the path is.
proof fn lemma_idle_end(style: PathStyle, path: Seq<char>, longer: Seq<char>)
    requires
        !is_verbatim_path(style, path),
        !is_verbatim_path(style, longer),
        path.len() < longer.len() <= path.len() + 2,
        longer.take(path.len() as int) == path,
        is_separator(style, longer[path.len() as int]),
        longer.len() == path.len() + 2 ==> longer.last() == '.',
        body_start(style, longer) == body_start(style, path),
    ensures
        ref_parts_spec(style, longer) == ref_parts_spec(style, path),
{
    reveal_strlit(".");
    let size = path.len() as int;
    let total = longer.len() as int;
    let start = body_start(style, path);
    lemma_prefix_len(style, path);
    assert forall|i: int| 0 <= i < size implies path[i] == #[trigger] longer[i] by {
        assert(longer.take(size)[i] == longer[i]);
    }
    lemma_last_piece(style, false, longer, start, size + 1, total);
    let piece = longer.subrange(size + 1, total);
    if total == size + 2 {
        assert(piece =~= "."@);
    } else {
        assert(piece =~= Seq::empty());
    }
    assert(is_idle(false, piece));
    assert(trimmed_end(style, false, longer, start, total) == trimmed_end(
        style,
        false,
        longer,
        start,
        size,
    ));
    lemma_trimmed_of_equal_parts(style, false, path, longer, start, size);
    lemma_trimmed_end(style, false, path, start, size);
    let end = trimmed_end(style, false, path, start, size);
    lemma_names_of_equal_parts(style, false, path, longer, start, end);
    lemma_piece_begin(style, false, path, start, end);
    let begin = piece_begin(style, false, path, start, end);
    assert(path.subrange(begin, end) =~= longer.subrange(begin, end));
    let before = before_piece(start, begin);
    lemma_trimmed_of_equal_parts(style, false, path, longer, start, before);
    lemma_trimmed_end(style, false, path, start, before);
    let cut = trimmed_end(style, false, path, start, before);
    assert(path.take(cut) =~= longer.take(cut));
}

/// A separator at the end of a path, and a `.` behind it, do not count: the path is parted into
/// the same directory and the same name.
pub proof fn law_separators_at_the_end_do_not_count(path: Seq<char>, drive: char, rest: Seq<char>)
    requires
        path.len() > 0,
        'a' <= drive <= 'z' || 'A' <= drive <= 'Z',
    ensures
        ref_parts_spec(PathStyle::Unix, path + "/"@) == ref_parts_spec(PathStyle::Unix, path),
        ref_parts_spec(PathStyle::Unix, path + "/."@) == ref_parts_spec(PathStyle::Unix, path),
        ({
            let path = seq![drive, ':', '\\'] + rest;
            &&& ref_parts_spec(PathStyle::Windows, path + "\\"@) == ref_parts_spec(
                PathStyle::Windows,
                path,
            )
            &&& ref_parts_spec(PathStyle::Windows, path + "/"@) == ref_parts_spec(
                PathStyle::Windows,
                path,
            )
            &&& ref_parts_spec(PathStyle::Windows, path + "\\."@) == ref_parts_spec(
                PathStyle::Windows,
                path,
            )
        }),
{
    reveal_strlit("/");
    reveal_strlit("/.");
    reveal_strlit("\\");
    reveal_strlit("\\.");
    let size = path.len() as int;
    assert((path + "/"@).take(size) =~= path);
    assert((path + "/."@).take(size) =~= path);
    assert((path + "/"@)[0] == path[0] && (path + "/."@)[0] == path[0]);
    if size > 1 {
        assert((path + "/"@)[1] == path[1] && (path + "/."@)[1] == path[1]);
    }
    lemma_idle_end(PathStyle::Unix, path, path + "/"@);
    lemma_idle_end(PathStyle::Unix, path, path + "/."@);
    let long = seq![drive, ':', '\\'] + rest;
    let size = long.len() as int;
    lemma_drive_start(long);
    lemma_drive_start(long + "\\"@);
    lemma_drive_start(long + "/"@);
    lemma_drive_start(long + "\\."@);
    assert((long + "\\"@).take(size) =~= long);
    assert((long + "/"@).take(size) =~= long);
    assert((long + "\\."@).take(size) =~= long);
    lemma_idle_end(PathStyle::Windows, long, long + "\\"@);
    lemma_idle_end(PathStyle::Windows, long, long + "/"@);
    lemma_idle_end(PathStyle::Windows, long, long + "\\."@);
}

/// The names of a path on a drive begin behind the separator that follows the drive.
proof fn lemma_drive_start(path: Seq<char>)
    requires
        path.len() >= 3,
        'a' <= path[0] <= 'z' || 'A' <= path[0] <= 'Z',
        path[1] == ':',
        path[2] == '\\',
    ensures
        !is_verbatim_path(PathStyle::Windows, path),
        body_start(PathStyle::Windows, path) == 3,
{
    assert(!is_device(path) && !has_share(path));
    assert(prefix_len(PathStyle::Windows, path) == 2);
}

/// A path that ends in `..`, a root and a path of nothing have no last name.
pub proof fn law_what_has_no_last_name(path: Seq<char>, drive: char, rest: Seq<char>)
    requires
        'a' <= drive <= 'z' || 'A' <= drive <= 'Z',
    ensures
        ref_parts_spec(PathStyle::Unix, path + "/.."@) is None,
        ref_parts_spec(PathStyle::Unix, ".."@) is None,
        ref_parts_spec(PathStyle::Unix, "/"@) is None,
        ref_parts_spec(PathStyle::Unix, Seq::empty()) is None,
        ref_parts_spec(PathStyle::Windows, seq![drive, ':', '\\'] + rest + "\\.."@) is None,
        ref_parts_spec(PathStyle::Windows, seq![drive, ':', '\\']) is None,
{
    reveal_strlit("/..");
    reveal_strlit("\\..");
    reveal_strlit("..");
    reveal_strlit(".");
    reveal_strlit("/");
    let up = path + "/.."@;
    lemma_prefix_len(PathStyle::Unix, up);
    lemma_two_dots_at_the_end(PathStyle::Unix, up, path.len() as int + 1);
    lemma_two_dots_at_the_end(PathStyle::Unix, ".."@, 0);
    assert(body_start(PathStyle::Unix, "/"@) == 1);
    assert(body_start(PathStyle::Unix, Seq::empty()) == 0);
    let long = seq![drive, ':', '\\'] + rest + "\\.."@;
    lemma_drive_start(long);
    lemma_two_dots_at_the_end(PathStyle::Windows, long, long.len() - 2);
    lemma_drive_start(seq![drive, ':', '\\']);
}

/// A path whose last piece is `..` has no last name.
proof fn lemma_two_dots_at_the_end(style: PathStyle, path: Seq<char>, begin: int)
    requires
        !is_verbatim_path(style, path),
        body_start(style, path) <= begin,
        begin + 2 == path.len(),
        path[begin] == '.' && path[begin + 1] == '.',
        begin > body_start(style, path) ==> is_separator(style, path[begin - 1]),
    ensures
        ref_parts_spec(style, path) is None,
{
    reveal_strlit("..");
    reveal_strlit(".");
    let total = path.len() as int;
    lemma_prefix_len(style, path);
    lemma_last_piece(style, false, path, body_start(style, path), begin, total);
    assert(path.subrange(begin, total) =~= ".."@);
    assert(!is_idle(false, ".."@));
}

/// On Windows either kind of separator makes up what a share and a device begin with. A server
/// without a share, or with nothing behind the separator that follows it, makes no path
/// absolute; nor does one separator alone.
pub proof fn law_shares_and_devices_are_absolute(
    a: char,
    b: char,
    c: char,
    server: Seq<char>,
    share: char,
    rest: Seq<char>,
)
    requires
        a == '/' || a == '\\',
        b == '/' || b == '\\',
        c == '/' || c == '\\',
        server.len() > 0,
        forall|i: int| 0 <= i < server.len() ==> (#[trigger] server[i]) != '/' && server[i] != '\\',
        share != '/' && share != '\\',
    ensures
        is_absolute_spec(PathStyle::Windows, seq![a, b] + server + seq![c, share] + rest),
        is_absolute_spec(PathStyle::Windows, seq![a, b, '.', c] + rest),
        !is_absolute_spec(PathStyle::Windows, seq![a, b] + server),
        server != seq!['.'] && server != seq!['?'] ==> !is_absolute_spec(
            PathStyle::Windows,
            seq![a, b] + server + seq![c],
        ),
        !is_absolute_spec(PathStyle::Windows, seq![a, share] + rest),
        !is_absolute_spec(PathStyle::Windows, seq![a]),
{
    let shared = seq![a, b] + server + seq![c, share] + rest;
    let at = 2 + server.len() as int;
    assert forall|k: int| 2 <= k < at implies !is_separator(
        PathStyle::Windows,
        #[trigger] shared[k],
    ) by {
        assert(shared[k] == server[k - 2]);
    }
    assert(share_begins_at(shared, at));
    let alone = seq![a, b] + server;
    assert forall|k: int| 2 <= k < alone.len() implies !is_separator(
        PathStyle::Windows,
        #[trigger] alone[k],
    ) by {
        assert(alone[k] == server[k - 2]);
    }
    assert(!has_share(alone));
    let ended = seq![a, b] + server + seq![c];
    assert forall|k: int| 2 <= k < ended.len() - 1 implies !is_separator(
        PathStyle::Windows,
        #[trigger] ended[k],
    ) by {
        assert(ended[k] == server[k - 2]);
    }
    assert(!has_share(ended));
    if is_device(ended) || is_verbatim(ended) {
        assert(is_separator(PathStyle::Windows, ended[3]));
        assert(ended.len() == 4);
        assert(server[0] == ended[2]);
        assert(server =~= seq![ended[2]]);
    }
    let rooted = seq![a, share] + rest;
    assert(rooted[1] == share);
    assert(rooted[0] == a);
}

/// In a verbatim path of a drive `..` takes the last name back at once, and a component of two
/// names, parted by either kind of separator, adds both.
pub proof fn law_joining_more_to_a_verbatim_path(
    drive: char,
    names: Seq<Seq<char>>,
    last: Seq<char>,
    first: Seq<char>,
    separator: char,
    second: Seq<char>,
)
    requires
        'a' <= drive <= 'z' || 'A' <= drive <= 'Z',
        forall|i: int| 0 <= i < names.len() ==> (#[trigger] names[i]).len() > 0,
        forall|i: int, j: int|
            0 <= i < names.len() && 0 <= j < names[i].len() ==> #[trigger] names[i][j] != '\\',
        last.len() > 0 && last != "."@ && last != ".."@,
        forall|i: int| 0 <= i < last.len() ==> #[trigger] last[i] != '\\',
        separator == '/' || separator == '\\',
        first.len() > 0 && first != "."@ && first != ".."@,
        forall|i: int| 0 <= i < first.len() ==> (#[trigger] first[i]) != '/' && first[i] != '\\',
        second.len() > 0 && second != "."@ && second != ".."@,
        forall|i: int| 0 <= i < second.len() ==> (#[trigger] second[i]) != '/' && second[i] != '\\',
    ensures
        ({
            let prefix = seq!['\\', '\\', '?', '\\', drive, ':'];
            let base = prefix + separated(names) + "\\"@ + last;
            &&& names.len() > 0 ==> join_path_spec(PathStyle::Windows, base, ".."@) == prefix
                + separated(names)
            &&& names.len() == 0 ==> join_path_spec(PathStyle::Windows, base, ".."@) == prefix
                + "\\"@
            &&& join_path_spec(PathStyle::Windows, base, first + seq![separator] + second) == base
                + "\\"@ + first + "\\"@ + second
        }),
{
    reveal_strlit("\\");
    reveal_strlit("..");
    reveal_strlit(".");
    let style = PathStyle::Windows;
    let prefix = seq!['\\', '\\', '?', '\\', drive, ':'];
    let all = names.push(last);
    assert(all.drop_last() =~= names);
    assert(all.last() == last);
    let base = prefix + separated(all);
    assert(base =~= prefix + separated(names) + "\\"@ + last);
    assert forall|i: int| 0 <= i < all.len() implies (#[trigger] all[i]).len() > 0 by {
        if i < names.len() {
            assert(all[i] == names[i]);
        }
    }
    assert forall|i: int, j: int| 0 <= i < all.len() && 0 <= j < all[i].len() implies #[trigger] all[i][j]
        != '\\' by {
        if i < names.len() {
            assert(names[i][j] != '\\');
        } else {
            assert(last[j] != '\\');
        }
    }
    lemma_verbatim_drive(drive, all);
    let up = ".."@;
    assert forall|i: int| 0 <= i < 2 implies !parts_at(style, false, #[trigger] up[i]) by {}
    lemma_last_piece(style, false, up, 0, 0, 2);
    assert(up.subrange(0, 2) =~= up);
    assert(!is_idle(false, up));
    assert(names_between(style, false, up, 0, 0) =~= Seq::empty());
    let more = names_between(style, false, up, 0, 2);
    assert(more =~= seq![up]);
    assert(more.drop_last() =~= Seq::empty());
    assert(more.last() == up);
    assert(with_names(all, more.drop_last()) == all);
    assert(with_names(all, more) == names);
    assert(separated(Seq::<Seq<char>>::empty()) =~= Seq::empty());
    if names.len() == 0 {
        assert(names =~= Seq::empty());
    }
    let component = first + seq![separator] + second;
    let cut = first.len() as int;
    let total = component.len() as int;
    assert forall|i: int| cut < i < total implies !parts_at(style, false, #[trigger] component[i]) by {
        assert(component[i] == second[i - cut - 1]);
    }
    assert(component[cut] == separator);
    lemma_last_piece(style, false, component, 0, cut + 1, total);
    assert(component.subrange(cut + 1, total) =~= second);
    assert forall|i: int| 0 <= i < cut implies !parts_at(style, false, #[trigger] component[i]) by {
        assert(component[i] == first[i]);
    }
    lemma_last_piece(style, false, component, 0, 0, cut);
    assert(component.subrange(0, cut) =~= first);
    assert(names_between(style, false, component, 0, 0) =~= Seq::empty());
    assert(names_between(style, false, component, 0, cut) =~= seq![first]);
    let two = names_between(style, false, component, 0, total);
    assert(two =~= seq![first, second]);
    let one = two.drop_last();
    assert(one =~= seq![first]);
    assert(one.drop_last() =~= Seq::empty());
    assert(with_names(all, one.drop_last()) == all);
    assert(one.last() == first);
    assert(with_names(all, one) == all.push(first));
    assert(two.last() == second);
    assert(with_names(all, two) == all.push(first).push(second));
    assert(all.push(first).drop_last() =~= all);
    assert(all.push(first).push(second).drop_last() =~= all.push(first));
    let once = all.push(first);
    let twice = once.push(second);
    assert(once.last() == first && twice.last() == second);
    assert(separated(once) == separated(all) + "\\"@ + first);
    assert(separated(twice) == separated(once) + "\\"@ + second);
    assert(prefix + separated(twice) =~= base + "\\"@ + first + "\\"@ + second);
}

/// The prefix and the names of a verbatim path of a drive.
proof fn lemma_verbatim_drive(drive: char, names: Seq<Seq<char>>)
    requires
        'a' <= drive <= 'z' || 'A' <= drive <= 'Z',
        names.len() > 0,
        forall|i: int| 0 <= i < names.len() ==> (#[trigger] names[i]).len() > 0,
        forall|i: int, j: int|
            0 <= i < names.len() && 0 <= j < names[i].len() ==> #[trigger] names[i][j] != '\\',
    ensures
        ({
            let prefix = seq!['\\', '\\', '?', '\\', drive, ':'];
            let path = prefix + separated(names);
            &&& is_verbatim_path(PathStyle::Windows, path)
            &&& prefix_len(PathStyle::Windows, path) == 6
            &&& path.take(6) == prefix
            &&& path.len() > 6
            &&& body_start(PathStyle::Windows, path) == 7
            &&& body_names(PathStyle::Windows, path) == names
        }),
{
    let prefix = seq!['\\', '\\', '?', '\\', drive, ':'];
    let path = prefix + separated(names);
    assert(path.take(6) =~= prefix);
    assert(path[4] == drive && path[5] == ':');
    assert(path.skip(4)[0] == drive && path.skip(4)[1] == ':');
    lemma_separated_begins(names);
    assert(path[6] == separated(names)[0]);
    assert(!has_verbatim_share(path));
    lemma_names_of_separated(prefix, names);
}

/// A verbatim path of a drive is parted at its last `\`: what stands behind it is the name,
/// whatever characters but `\` it has, and the directory is what stands before it, with the `\`
/// where that is the one behind the drive.
pub proof fn law_a_verbatim_path_is_parted_at_the_last_name(
    drive: char,
    names: Seq<Seq<char>>,
    last: Seq<char>,
)
    requires
        'a' <= drive <= 'z' || 'A' <= drive <= 'Z',
        forall|i: int| 0 <= i < names.len() ==> (#[trigger] names[i]).len() > 0,
        forall|i: int, j: int|
            0 <= i < names.len() && 0 <= j < names[i].len() ==> #[trigger] names[i][j] != '\\',
        last.len() > 0 && last != "."@ && last != ".."@,
        forall|i: int| 0 <= i < last.len() ==> #[trigger] last[i] != '\\',
    ensures
        ({
            let prefix = seq!['\\', '\\', '?', '\\', drive, ':'];
            let path = prefix + separated(names) + "\\"@ + last;
            &&& names.len() > 0 ==> ref_parts_spec(PathStyle::Windows, path) == Some(
                (prefix + separated(names), last),
            )
            &&& names.len() == 0 ==> ref_parts_spec(PathStyle::Windows, path) == Some(
                (prefix + "\\"@, last),
            )
        }),
{
    reveal_strlit("\\");
    let style = PathStyle::Windows;
    let prefix = seq!['\\', '\\', '?', '\\', drive, ':'];
    let all = names.push(last);
    assert(all.drop_last() =~= names);
    assert(all.last() == last);
    let path = prefix + separated(all);
    assert(path =~= prefix + separated(names) + "\\"@ + last);
    assert forall|i: int| 0 <= i < all.len() implies (#[trigger] all[i]).len() > 0 by {
        if i < names.len() {
            assert(all[i] == names[i]);
        }
    }
    assert forall|i: int, j: int| 0 <= i < all.len() && 0 <= j < all[i].len() implies #[trigger] all[i][j]
        != '\\' by {
        if i < names.len() {
            assert(names[i][j] != '\\');
        } else {
            assert(last[j] != '\\');
        }
    }
    lemma_verbatim_drive(drive, all);
    let head = prefix + separated(names);
    let begin = head.len() as int + 1;
    let total = path.len() as int;
    assert(path[begin - 1] == '\\');
    assert forall|i: int| begin <= i < total implies !parts_at(style, true, #[trigger] path[i]) by {
        assert(path[i] == last[i - begin]);
    }
    lemma_last_piece(style, true, path, 7, begin, total);
    assert(path.subrange(begin, total) =~= last);
    if names.len() == 0 {
        assert(separated(names) =~= Seq::empty());
        assert(begin == 7);
        assert(path.take(7) =~= prefix + "\\"@);
    } else {
        let before = names.drop_last();
        let name = names.last();
        assert(name == names[names.len() - 1]);
        let front = prefix + separated(before);
        let at = front.len() as int + 1;
        assert(separated(names) == separated(before) + "\\"@ + name);
        assert(path[at - 1] == '\\');
        assert forall|i: int| at <= i < begin - 1 implies !parts_at(style, true, #[trigger] path[i]) by {
            assert(path[i] == name[i - at]);
            assert(names[names.len() - 1][i - at] != '\\');
        }
        lemma_last_piece(style, true, path, 7, at, begin - 1);
        assert(path.subrange(at, begin - 1) =~= name);
        assert(path.take(begin - 1) =~= head);
    }
}

/// What a path that begins with a share begins with ends behind the share, on a verbatim path as
/// on any other.
pub proof fn law_a_share_is_where_a_path_begins(
    server: Seq<char>,
    share: Seq<char>,
    rest: Seq<char>,
)
    requires
        server.len() > 0,
        forall|i: int| 0 <= i < server.len() ==> (#[trigger] server[i]) != '/' && server[i] != '\\',
        server != seq!['.'] && server != seq!['?'],
        share.len() > 0,
        forall|i: int| 0 <= i < share.len() ==> (#[trigger] share[i]) != '/' && share[i] != '\\',
    ensures
        prefix_len(PathStyle::Windows, "\\\\"@ + server + "\\"@ + share + "\\"@ + rest) == 3
            + server.len() + share.len(),
        prefix_len(PathStyle::Windows, "\\\\?\\UNC\\"@ + server + "\\"@ + share + "\\"@ + rest)
            == 9 + server.len() + share.len(),
{
    reveal_strlit("\\\\");
    reveal_strlit("\\");
    reveal_strlit("\\\\?\\UNC\\");
    let style = PathStyle::Windows;
    let path = "\\\\"@ + server + "\\"@ + share + "\\"@ + rest;
    lemma_share_end(false, path, 2, server, share);
    let at = 2 + server.len() as int;
    assert(path[at + 1] == share[0]);
    assert forall|k: int| 2 <= k < at implies !is_separator(style, #[trigger] path[k]) by {
        assert(path[k] == server[k - 2]);
    }
    assert(share_begins_at(path, at));
    if is_device(path) || is_verbatim(path) {
        assert(is_separator(style, path[3]));
        assert(server.len() == 1);
        assert(server[0] == path[2]);
        assert(server =~= seq![path[2]]);
    }
    let long = "\\\\?\\UNC\\"@ + server + "\\"@ + share + "\\"@ + rest;
    lemma_share_end(true, long, 8, server, share);
    assert(is_verbatim(long) && has_verbatim_share(long));
}

/// A server and a share that stand in a path end where the share does.
proof fn lemma_share_end(
    verbatim: bool,
    path: Seq<char>,
    from: int,
    server: Seq<char>,
    share: Seq<char>,
)
    requires
        0 <= from,
        from + server.len() + 1 + share.len() < path.len(),
        share.len() > 0,
        forall|i: int| 0 <= i < server.len() ==> path[from + i] == #[trigger] server[i],
        forall|i: int| 0 <= i < server.len() ==> (#[trigger] server[i]) != '/' && server[i] != '\\',
        path[from + server.len()] == '\\',
        forall|i: int|
            0 <= i < share.len() ==> path[from + server.len() + 1 + i] == #[trigger] share[i],
        forall|i: int| 0 <= i < share.len() ==> (#[trigger] share[i]) != '/' && share[i] != '\\',
        path[from + server.len() + 1 + share.len()] == '\\',
    ensures
        share_end(verbatim, path, from) == from + server.len() + 1 + share.len(),
{
    lemma_piece_runs_to(verbatim, path, from, server);
    lemma_piece_runs_to(verbatim, path, from + server.len() + 1, share);
}

/// A piece without separators that stands in a path ends before the separator behind it.
proof fn lemma_piece_runs_to(verbatim: bool, path: Seq<char>, from: int, piece: Seq<char>)
    requires
        0 <= from,
        from + piece.len() < path.len(),
        forall|i: int| 0 <= i < piece.len() ==> path[from + i] == #[trigger] piece[i],
        forall|i: int| 0 <= i < piece.len() ==> (#[trigger] piece[i]) != '/' && piece[i] != '\\',
        path[from + piece.len()] == '\\',
    ensures
        piece_end(PathStyle::Windows, verbatim, path, from) == from + piece.len(),
    decreases piece.len(),
{
    if piece.len() > 0 {
        let rest = piece.skip(1);
        assert(path[from] == piece[0]);
        assert forall|i: int| 0 <= i < rest.len() implies path[from + 1 + i] == #[trigger] rest[i] by {
            assert(rest[i] == piece[i + 1]);
        }
        assert forall|i: int| 0 <= i < rest.len() implies (#[trigger] rest[i]) != '/' && rest[i]
            != '\\' by {
            assert(rest[i] == piece[i + 1]);
        }
        lemma_piece_runs_to(verbatim, path, from + 1, rest);
    }
}

} // verus!

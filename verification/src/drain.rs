//! What a process writes: its bytes cut into lines, and the last of those lines kept for
//! an error message.

use vstd::prelude::*;
use vstd::string::*;

use crate::text;

verus! {

/// How many of the last lines are kept.
pub const TAIL_LINES: usize = 50;

/// What std's `String::from_utf8_lossy` makes of bytes.
pub uninterp spec fn lossy_text(bytes: Seq<u8>) -> Seq<char>;

/// Calls `String::from_utf8_lossy` of std. The result is a function of the bytes alone;
/// bytes that are valid UTF-8 come out as the text they encode.
#[verifier::external_body]
fn from_utf8_lossy(bytes: &[u8]) -> (decoded: String)
    ensures
        decoded@ == lossy_text(bytes@),
        vstd::utf8::valid_utf8(bytes@) ==> vstd::utf8::encode_utf8(decoded@) == bytes@,
{
    String::from_utf8_lossy(bytes).into_owned()
}

/// The complete lines in bytes, each without its line feed.
pub open spec fn complete_lines(bytes: Seq<u8>) -> Seq<Seq<u8>>
    decreases bytes.len(),
{
    if bytes.len() == 0 {
        Seq::empty()
    } else if bytes.last() == 10 {
        complete_lines(bytes.drop_last()).push(open_line(bytes.drop_last()))
    } else {
        complete_lines(bytes.drop_last())
    }
}

/// What follows the last line feed in bytes.
pub open spec fn open_line(bytes: Seq<u8>) -> Seq<u8>
    decreases bytes.len(),
{
    if bytes.len() == 0 || bytes.last() == 10 {
        Seq::empty()
    } else {
        open_line(bytes.drop_last()).push(bytes.last())
    }
}

/// Lines as texts.
pub open spec fn decoded_lines(lines: Seq<Seq<u8>>) -> Seq<Seq<char>> {
    lines.map_values(|line: Seq<u8>| lossy_text(line))
}

/// Cuts a stream of bytes into lines; holds what follows the last line feed.
#[derive(Debug)]
pub struct LineSplitter {
    pending: Vec<u8>,
}

impl View for LineSplitter {
    type V = Seq<u8>;

    closed spec fn view(&self) -> Seq<u8> {
        self.pending@
    }
}

impl LineSplitter {
    /// A splitter that has seen nothing.
    pub fn new() -> (splitter: LineSplitter)
        ensures
            splitter@ == Seq::<u8>::empty(),
    {
        LineSplitter { pending: Vec::new() }
    }

    /// Takes the next bytes, and gives the lines that they complete.
    pub fn feed(&mut self, chunk: &[u8]) -> (lines: Vec<String>)
        ensures
            text::texts(lines@) == decoded_lines(complete_after(old(self)@, chunk@)),
            final(self)@ == open_after(old(self)@, chunk@),
    {
        let mut lines: Vec<String> = Vec::new();
        let mut i: usize = 0;
        assert(chunk@.take(0) =~= Seq::empty());
        assert(text::texts(lines@) =~= decoded_lines(Seq::empty()));
        while i < chunk.len()
            invariant
                i <= chunk@.len(),
                text::texts(lines@) == decoded_lines(
                    complete_after(old(self)@, chunk@.take(i as int)),
                ),
                self@ == open_after(old(self)@, chunk@.take(i as int)),
            decreases chunk.len() - i,
        {
            let ghost head = chunk@.take(i + 1);
            assert(head.drop_last() =~= chunk@.take(i as int));
            if chunk[i] == 10 {
                let line = from_utf8_lossy(self.pending.as_slice());
                let ghost before = text::texts(lines@);
                lines.push(line);
                assert(text::texts(lines@) =~= before.push(line@));
                assert(text::texts(lines@) =~= decoded_lines(complete_after(old(self)@, head)));
                self.pending = Vec::new();
            } else {
                self.pending.push(chunk[i]);
            }
            i = i + 1;
        }
        assert(chunk@.take(i as int) =~= chunk@);
        lines
    }

    /// The line that the stream ended in, where it did not end in a line feed.
    pub fn finish(self) -> (line: Option<String>)
        ensures
            match line {
                Some(line) => self@.len() > 0 && line@ == lossy_text(self@),
                None => self@.len() == 0,
            },
    {
        if self.pending.len() == 0 {
            None
        } else {
            Some(from_utf8_lossy(self.pending.as_slice()))
        }
    }
}

/// The lines that the next bytes complete, where `pending` had been held back.
pub open spec fn complete_after(pending: Seq<u8>, chunk: Seq<u8>) -> Seq<Seq<u8>>
    decreases chunk.len(),
{
    if chunk.len() == 0 {
        Seq::empty()
    } else if chunk.last() == 10 {
        complete_after(pending, chunk.drop_last()).push(open_after(pending, chunk.drop_last()))
    } else {
        complete_after(pending, chunk.drop_last())
    }
}

/// What is held back after the next bytes, where `pending` had been held back.
pub open spec fn open_after(pending: Seq<u8>, chunk: Seq<u8>) -> Seq<u8>
    decreases chunk.len(),
{
    if chunk.len() == 0 {
        pending
    } else if chunk.last() == 10 {
        Seq::empty()
    } else {
        open_after(pending, chunk.drop_last()).push(chunk.last())
    }
}

/// The lines of a stream do not depend on how its bytes were read: the lines after two
/// reads are those of the bytes together, and so is what is held back.
pub proof fn law_lines_do_not_depend_on_reads(first: Seq<u8>, second: Seq<u8>)
    ensures
        complete_lines(first + second) == complete_lines(first) + complete_after(
            open_line(first),
            second,
        ),
        open_line(first + second) == open_after(open_line(first), second),
    decreases second.len(),
{
    if second.len() == 0 {
        assert(first + second =~= first);
        assert(complete_lines(first) + Seq::<Seq<u8>>::empty() =~= complete_lines(first));
    } else {
        let before = second.drop_last();
        law_lines_do_not_depend_on_reads(first, before);
        assert((first + second).drop_last() =~= first + before);
        assert((first + second).last() == second.last());
        if second.last() == 10 {
            assert(complete_lines(first + second) =~= complete_lines(first) + complete_after(
                open_line(first),
                second,
            ));
        }
    }
}

/// A splitter that had seen nothing gives exactly the lines of the bytes.
pub proof fn law_lines_of_one_read(bytes: Seq<u8>)
    ensures
        complete_after(Seq::empty(), bytes) == complete_lines(bytes),
        open_after(Seq::empty(), bytes) == open_line(bytes),
{
    law_lines_do_not_depend_on_reads(Seq::empty(), bytes);
    assert(Seq::<u8>::empty() + bytes =~= bytes);
    assert(complete_lines(Seq::empty()) + complete_after(Seq::empty(), bytes) =~= complete_after(
        Seq::empty(),
        bytes,
    ));
}

/// The lines of a list, each with a line feed after it.
pub open spec fn with_line_feeds(lines: Seq<Seq<char>>) -> Seq<char>
    decreases lines.len(),
{
    if lines.len() == 0 {
        Seq::empty()
    } else {
        with_line_feeds(lines.drop_last()) + lines.last() + "\n"@
    }
}

/// Adds lines to an output, a line feed after each.
pub fn append_lines(output: &mut String, lines: &[String])
    ensures
        final(output)@ == old(output)@ + with_line_feeds(text::texts(lines@)),
{
    let mut i: usize = 0;
    let ghost all = text::texts(lines@);
    assert(all.take(0) =~= Seq::empty());
    assert(output@ =~= old(output)@ + with_line_feeds(all.take(0)));
    while i < lines.len()
        invariant
            i <= lines@.len(),
            all == text::texts(lines@),
            output@ == old(output)@ + with_line_feeds(all.take(i as int)),
        decreases lines.len() - i,
    {
        assert(all.take(i + 1).drop_last() =~= all.take(i as int));
        assert(all.take(i + 1).last() == lines@[i as int]@);
        output.append(lines[i].as_str());
        output.append("\n");
        assert(output@ =~= old(output)@ + with_line_feeds(all.take(i + 1)));
        i = i + 1;
    }
    assert(all.take(i as int) =~= all);
}

/// The last lines of a list, as many as are kept.
pub open spec fn tail_of(lines: Seq<Seq<char>>) -> Seq<Seq<char>> {
    if lines.len() <= TAIL_LINES {
        lines
    } else {
        lines.skip(lines.len() - TAIL_LINES)
    }
}

/// The last lines of an output.
#[derive(Debug)]
pub struct Tail {
    lines: Vec<String>,
}

impl View for Tail {
    type V = Seq<Seq<char>>;

    closed spec fn view(&self) -> Seq<Seq<char>> {
        text::texts(self.lines@)
    }
}

impl Tail {
    /// No more lines are kept than are asked for.
    pub closed spec fn wf(&self) -> bool {
        self.lines@.len() <= TAIL_LINES
    }

    /// A tail of nothing.
    pub fn new() -> (tail: Tail)
        ensures
            tail.wf(),
            tail@ == Seq::<Seq<char>>::empty(),
    {
        let tail = Tail { lines: Vec::new() };
        assert(tail@ =~= Seq::empty());
        tail
    }

    /// Adds a line, and lets go of the oldest where there are too many.
    pub fn push(&mut self, line: String)
        requires
            old(self).wf(),
        ensures
            final(self).wf(),
            final(self)@ == tail_of(old(self)@.push(line@)),
    {
        let ghost before = self@;
        self.lines.push(line);
        assert(self@ =~= before.push(line@));
        if self.lines.len() > TAIL_LINES {
            let ghost full = self@;
            let _ = self.lines.remove(0);
            assert(self@ =~= full.skip(1));
        }
    }

    /// The lines that are kept, a line feed between each two.
    pub fn collect(&self) -> (output: String)
        ensures
            output@ == text::join_spec(self@, "\n"@),
    {
        text::join(self.lines.as_slice(), "\n")
    }
}

/// The lines that were pushed, kept as a tail after each push, leave the tail of all of
/// them: nothing but the last lines counts.
pub proof fn law_tail_keeps_the_last_lines(lines: Seq<Seq<char>>, line: Seq<char>)
    ensures
        tail_of(tail_of(lines).push(line)) == tail_of(lines.push(line)),
{
    assert(tail_of(tail_of(lines).push(line)) =~= tail_of(lines.push(line)));
}

/// Lines as a process writes them, a line feed after each.
pub open spec fn written(lines: Seq<Seq<u8>>) -> Seq<u8>
    decreases lines.len(),
{
    if lines.len() == 0 {
        Seq::empty()
    } else {
        written(lines.drop_last()) + lines.last() + seq![10u8]
    }
}

/// What follows the last line feed stays open, and completes no line.
proof fn lemma_open_part(bytes: Seq<u8>, rest: Seq<u8>)
    requires
        forall|i: int| 0 <= i < rest.len() ==> #[trigger] rest[i] != 10,
    ensures
        complete_lines(bytes + rest) == complete_lines(bytes),
        open_line(bytes + rest) == open_line(bytes) + rest,
    decreases rest.len(),
{
    if rest.len() == 0 {
        assert(bytes + rest =~= bytes);
        assert(open_line(bytes) + rest =~= open_line(bytes));
    } else {
        let fewer = rest.drop_last();
        assert forall|i: int| 0 <= i < fewer.len() implies #[trigger] fewer[i] != 10 by {
            assert(fewer[i] == rest[i]);
        }
        lemma_open_part(bytes, fewer);
        assert((bytes + rest).drop_last() =~= bytes + fewer);
        assert((bytes + rest).last() == rest[rest.len() - 1]);
        assert((open_line(bytes) + fewer).push(rest.last()) =~= open_line(bytes) + rest);
    }
}

/// The lines that a process writes come out as they are, one for one and in order, empty ones
/// too, and what it writes behind the last line feed is held back.
pub proof fn law_lines_come_out_as_they_were_written(lines: Seq<Seq<u8>>, rest: Seq<u8>)
    requires
        forall|i: int, j: int|
            0 <= i < lines.len() && 0 <= j < lines[i].len() ==> #[trigger] lines[i][j] != 10,
        forall|i: int| 0 <= i < rest.len() ==> #[trigger] rest[i] != 10,
    ensures
        complete_lines(written(lines) + rest) == lines,
        open_line(written(lines) + rest) == rest,
        complete_after(Seq::empty(), written(lines) + rest) == lines,
        open_after(Seq::empty(), written(lines) + rest) == rest,
    decreases lines.len(),
{
    lemma_written(lines);
    lemma_open_part(written(lines), rest);
    assert(Seq::<u8>::empty() + rest =~= rest);
    law_lines_of_one_read(written(lines) + rest);
}

/// The lines that a process writes, with nothing behind the last line feed, come out as they
/// are.
proof fn lemma_written(lines: Seq<Seq<u8>>)
    requires
        forall|i: int, j: int|
            0 <= i < lines.len() && 0 <= j < lines[i].len() ==> #[trigger] lines[i][j] != 10,
    ensures
        complete_lines(written(lines)) == lines,
        open_line(written(lines)) == Seq::<u8>::empty(),
    decreases lines.len(),
{
    if lines.len() == 0 {
        assert(complete_lines(written(lines)) =~= lines);
    } else {
        let before = lines.drop_last();
        let last = lines.last();
        assert forall|i: int, j: int|
            0 <= i < before.len() && 0 <= j < before[i].len() implies #[trigger] before[i][j]
            != 10 by {
            assert(lines[i][j] != 10);
        }
        lemma_written(before);
        assert forall|j: int| 0 <= j < last.len() implies #[trigger] last[j] != 10 by {
            assert(lines[lines.len() - 1][j] != 10);
        }
        lemma_open_part(written(before), last);
        assert(Seq::<u8>::empty() + last =~= last);
        assert(written(lines).drop_last() =~= written(before) + last);
        assert(written(lines).last() == 10);
        assert(before.push(last) =~= lines);
    }
}

/// What was held back belongs to the next line: bytes that complete a line complete it behind
/// what was held back, and bytes without a line feed are held back behind it.
pub proof fn law_what_was_held_back_begins_the_next_line(pending: Seq<u8>, rest: Seq<u8>)
    requires
        forall|i: int| 0 <= i < rest.len() ==> #[trigger] rest[i] != 10,
    ensures
        complete_after(pending, rest) == Seq::<Seq<u8>>::empty(),
        open_after(pending, rest) == pending + rest,
        complete_after(pending, rest.push(10)) == seq![pending + rest],
        open_after(pending, rest.push(10)) == Seq::<u8>::empty(),
    decreases rest.len(),
{
    let ended = rest.push(10);
    if rest.len() == 0 {
        assert(pending + rest =~= pending);
    } else {
        let fewer = rest.drop_last();
        assert forall|i: int| 0 <= i < fewer.len() implies #[trigger] fewer[i] != 10 by {
            assert(fewer[i] == rest[i]);
        }
        law_what_was_held_back_begins_the_next_line(pending, fewer);
        assert(rest.last() == rest[rest.len() - 1]);
        assert((pending + fewer).push(rest.last()) =~= pending + rest);
    }
    assert(ended.drop_last() =~= rest);
    assert(ended.last() == 10);
    assert(complete_after(pending, rest) =~= Seq::empty());
    assert(Seq::<Seq<u8>>::empty().push(pending + rest) =~= seq![pending + rest]);
}

/// Lines that are added to an output are the lines of it again, each ended by a line feed.
pub proof fn law_added_lines_are_ended(lines: Seq<Seq<char>>)
    requires
        forall|i: int, j: int|
            0 <= i < lines.len() && 0 <= j < lines[i].len() ==> #[trigger] lines[i][j] != '\n',
    ensures
        text::split_on_spec(with_line_feeds(lines), '\n') == lines.push(Seq::empty()),
    decreases lines.len(),
{
    reveal_strlit("\n");
    if lines.len() == 0 {
        text::law_a_separator_begins_a_piece(Seq::empty(), Seq::empty(), '\n');
        assert(seq![Seq::<char>::empty()] =~= lines.push(Seq::empty()));
    } else {
        let before = lines.drop_last();
        let last = lines.last();
        assert forall|i: int, j: int|
            0 <= i < before.len() && 0 <= j < before[i].len() implies #[trigger] before[i][j]
            != '\n' by {
            assert(lines[i][j] != '\n');
        }
        law_added_lines_are_ended(before);
        assert forall|j: int| 0 <= j < last.len() implies #[trigger] last[j] != '\n' by {
            assert(lines[lines.len() - 1][j] != '\n');
        }
        text::lemma_split_goes_on(with_line_feeds(before), last, '\n');
        let head = with_line_feeds(before) + last;
        assert(with_line_feeds(lines) =~= head + seq!['\n'] + Seq::<char>::empty());
        text::law_a_separator_begins_a_piece(head, Seq::empty(), '\n');
        assert(before.push(Seq::empty()).drop_last() =~= before);
        assert(Seq::<char>::empty() + last =~= last);
        assert(before.push(last) =~= lines);
    }
}

/// A tail is the last fifty lines, in their order, and all of them where there are no more.
pub proof fn law_a_tail_has_fifty_lines(lines: Seq<Seq<char>>, i: int)
    ensures
        lines.len() <= 50 ==> tail_of(lines) == lines,
        lines.len() > 50 ==> tail_of(lines).len() == 50,
        lines.len() > 50 && 0 <= i < 50 ==> tail_of(lines)[i] == lines[lines.len() - 50 + i],
{
}

/// Every line is decoded by itself, and as it is: nothing is taken from it, and none is left out.
pub proof fn law_each_line_is_decoded_as_it_is(lines: Seq<Seq<u8>>, i: int)
    requires
        0 <= i < lines.len(),
    ensures
        decoded_lines(lines).len() == lines.len(),
        decoded_lines(lines)[i] == lossy_text(lines[i]),
{
}

} // verus!

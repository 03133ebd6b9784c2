//! What the messages tell: each holds everything that it is made from, behind and before the
//! words that say what it is, so that no error loses a name, an exit code or the output of
//! `msb`, or takes one for another.

use vstd::prelude::*;
use vstd::string::*;

use crate::messages;
use crate::text;

verus! {

/// What a message says: a part of it, and the part with what stands around it, from somewhere in
/// what is said before it to somewhere in what is said behind it.
proof fn lemma_said_around(
    before: Seq<char>,
    head: Seq<char>,
    cut: int,
    part: Seq<char>,
    tail: Seq<char>,
    size: int,
    after: Seq<char>,
)
    requires
        0 <= cut <= head.len(),
        0 <= size <= tail.len(),
    ensures
        text::contains_text(before + head + part + tail + after, part),
        text::contains_text(
            before + head + part + tail + after,
            head.skip(cut) + part + tail.take(size),
        ),
{
    let whole = before + head + part + tail + after;
    let said = head.skip(cut) + part + tail.take(size);
    text::law_a_text_is_contained_in_what_surrounds_it(before + head, part, tail + after);
    assert(whole =~= before + head + part + (tail + after));
    text::law_a_text_is_contained_in_what_surrounds_it(
        before + head.take(cut),
        said,
        tail.skip(size) + after,
    );
    assert(whole =~= before + head.take(cut) + said + (tail.skip(size) + after));
}

/// [`messages::exited_early`] tells `verb`, `name` and `output`, each where it belongs.
pub proof fn law_exited_early_tells_all(verb: Seq<char>, name: Seq<char>, output: Seq<char>)
    ensures
        ({
            let message = messages::exited_early(verb, name, output);
            &&& text::contains_text(message, verb)
            &&& text::contains_text(message, name)
            &&& text::contains_text(message, output)
            &&& text::contains_text(message, "msb "@ + verb + " for sandbox "@)
            &&& text::contains_text(message, " for sandbox "@ + name + " exited before reaching"@)
            &&& text::contains_text(message, " exited before reaching Running:\n"@ + output)
        }),
{
    let message = messages::exited_early(verb, name, output);
    let none = Seq::<char>::empty();
    let one = "msb "@;
    let two = " for sandbox "@;
    let three = " exited before reaching Running:\n"@;
    reveal_strlit(" exited before reaching Running:\n");
    reveal_strlit(" exited before reaching");
    lemma_said_around(none, one, 0, verb, two, two.len() as int, name + three + output);
    assert(one.skip(0) =~= one);
    assert(two.take(two.len() as int) =~= two);
    assert(message =~= none + one + verb + two + (name + three + output));
    lemma_said_around(one + verb, two, 0, name, three, 23, output);
    assert(two.skip(0) =~= two);
    assert(three.take(23) =~= " exited before reaching"@);
    assert(message =~= (one + verb) + two + name + three + output);
    lemma_said_around(one + verb + two + name, three, 0, output, none, none.len() as int, none);
    assert(three.skip(0) =~= three);
    assert(none.take(none.len() as int) =~= none);
    assert(message =~= (one + verb + two + name) + three + output + none + none);
    assert(" exited before reaching Running:\n"@ + output + none =~= " exited before reaching Running:\n"@ + output);
}

/// [`messages::lock_held`] tells `verb`, `name`, `secs` and `last`, each where it belongs.
pub proof fn law_lock_held_tells_all(verb: Seq<char>, name: Seq<char>, secs: nat, last: Seq<char>)
    ensures
        ({
            let message = messages::lock_held(verb, name, secs, last);
            &&& text::contains_text(message, verb)
            &&& text::contains_text(message, name)
            &&& text::contains_text(message, text::decimal(secs))
            &&& text::contains_text(message, last)
            &&& text::contains_text(message, "msb "@ + verb + " for sandbox "@)
            &&& text::contains_text(message, " for sandbox "@ + name + " was refused for "@)
            &&& text::contains_text(
                message,
                " was refused for "@ + text::decimal(secs) + "s by msb's"@,
            )
            &&& text::contains_text(message, "stuck msb install on this host.\n"@ + last)
        }),
{
    let message = messages::lock_held(verb, name, secs, last);
    let none = Seq::<char>::empty();
    let one = "msb "@;
    let two = " for sandbox "@;
    let three = " was refused for "@;
    let four = "s by msb's install-operation lock — both observed occurrences cleared within seconds, so a lock held this long looks like a genuinely stuck msb install on this host.\n"@;
    reveal_strlit("s by msb's install-operation lock — both observed occurrences cleared within seconds, so a lock held this long looks like a genuinely stuck msb install on this host.\n");
    reveal_strlit("s by msb's");
    reveal_strlit("stuck msb install on this host.\n");
    lemma_said_around(
        none,
        one,
        0,
        verb,
        two,
        two.len() as int,
        name + three + text::decimal(secs) + four + last,
    );
    assert(one.skip(0) =~= one);
    assert(two.take(two.len() as int) =~= two);
    assert(message =~= none + one + verb + two + (name + three + text::decimal(secs) + four + last));
    lemma_said_around(
        one + verb,
        two,
        0,
        name,
        three,
        three.len() as int,
        text::decimal(secs) + four + last,
    );
    assert(two.skip(0) =~= two);
    assert(three.take(three.len() as int) =~= three);
    assert(message =~= (one + verb) + two + name + three + (text::decimal(secs) + four + last));
    lemma_said_around(one + verb + two + name, three, 0, text::decimal(secs), four, 10, last);
    assert(three.skip(0) =~= three);
    assert(four.take(10) =~= "s by msb's"@);
    assert(message =~= (one + verb + two + name) + three + text::decimal(secs) + four + last);
    lemma_said_around(
        one + verb + two + name + three + text::decimal(secs),
        four,
        134,
        last,
        none,
        none.len() as int,
        none,
    );
    assert(four.skip(134) =~= "stuck msb install on this host.\n"@);
    assert(none.take(none.len() as int) =~= none);
    assert(message =~= (one + verb + two + name + three + text::decimal(secs)) + four + last + none + none);
    assert("stuck msb install on this host.\n"@ + last + none =~= "stuck msb install on this host.\n"@ + last);
}

/// [`messages::denied_twice`] tells `name`, `first` and `retry`, each where it belongs.
pub proof fn law_denied_twice_tells_all(name: Seq<char>, first: Seq<char>, retry: Seq<char>)
    ensures
        ({
            let message = messages::denied_twice(name, first, retry);
            &&& text::contains_text(message, name)
            &&& text::contains_text(message, first)
            &&& text::contains_text(message, retry)
            &&& text::contains_text(
                message,
                "msb restore for sandbox "@ + name + " hit the Windows"@,
            )
            &&& text::contains_text(
                message,
                "on this host.\nfirst attempt:\n"@ + first + "\nafter retry:\n"@,
            )
            &&& text::contains_text(message, "\nafter retry:\n"@ + retry)
        }),
{
    let message = messages::denied_twice(name, first, retry);
    let none = Seq::<char>::empty();
    let one = "msb restore for sandbox "@;
    let two = " hit the Windows post-teardown access-denied transient twice in a row — the usual cause (the OS still releasing the snapshot artifact's file handle) clears well within one retry, so this looks like a real access problem on this host.\nfirst attempt:\n"@;
    let three = "\nafter retry:\n"@;
    reveal_strlit(" hit the Windows post-teardown access-denied transient twice in a row — the usual cause (the OS still releasing the snapshot artifact's file handle) clears well within one retry, so this looks like a real access problem on this host.\nfirst attempt:\n");
    reveal_strlit(" hit the Windows");
    reveal_strlit("on this host.\nfirst attempt:\n");
    lemma_said_around(none, one, 0, name, two, 16, first + three + retry);
    assert(one.skip(0) =~= one);
    assert(two.take(16) =~= " hit the Windows"@);
    assert(message =~= none + one + name + two + (first + three + retry));
    lemma_said_around(one + name, two, 220, first, three, three.len() as int, retry);
    assert(two.skip(220) =~= "on this host.\nfirst attempt:\n"@);
    assert(three.take(three.len() as int) =~= three);
    assert(message =~= (one + name) + two + first + three + retry);
    lemma_said_around(one + name + two + first, three, 0, retry, none, none.len() as int, none);
    assert(three.skip(0) =~= three);
    assert(none.take(none.len() as int) =~= none);
    assert(message =~= (one + name + two + first) + three + retry + none + none);
    assert("\nafter retry:\n"@ + retry + none =~= "\nafter retry:\n"@ + retry);
}

/// [`messages::state_db_twice`] tells `verb`, `name`, `first` and `retry`, each where it belongs.
pub proof fn law_state_db_twice_tells_all(
    verb: Seq<char>,
    name: Seq<char>,
    first: Seq<char>,
    retry: Seq<char>,
)
    ensures
        ({
            let message = messages::state_db_twice(verb, name, first, retry);
            &&& text::contains_text(message, verb)
            &&& text::contains_text(message, name)
            &&& text::contains_text(message, first)
            &&& text::contains_text(message, retry)
            &&& text::contains_text(message, "msb "@ + verb + " for sandbox "@)
            &&& text::contains_text(message, " for sandbox "@ + name + " hit msb's"@)
            &&& text::contains_text(
                message,
                "on this host.\nfirst attempt:\n"@ + first + "\nafter retry:\n"@,
            )
            &&& text::contains_text(message, "\nafter retry:\n"@ + retry)
        }),
{
    let message = messages::state_db_twice(verb, name, first, retry);
    let none = Seq::<char>::empty();
    let one = "msb "@;
    let two = " for sandbox "@;
    let three = " hit msb's state-database error twice in a row — the usual cause (concurrent msb invocations racing startup migrations) is transient and one retry covers it, so this looks like real state-database trouble on this host.\nfirst attempt:\n"@;
    let four = "\nafter retry:\n"@;
    reveal_strlit(" hit msb's state-database error twice in a row — the usual cause (concurrent msb invocations racing startup migrations) is transient and one retry covers it, so this looks like real state-database trouble on this host.\nfirst attempt:\n");
    reveal_strlit(" hit msb's");
    reveal_strlit("on this host.\nfirst attempt:\n");
    lemma_said_around(
        none,
        one,
        0,
        verb,
        two,
        two.len() as int,
        name + three + first + four + retry,
    );
    assert(one.skip(0) =~= one);
    assert(two.take(two.len() as int) =~= two);
    assert(message =~= none + one + verb + two + (name + three + first + four + retry));
    lemma_said_around(one + verb, two, 0, name, three, 10, first + four + retry);
    assert(two.skip(0) =~= two);
    assert(three.take(10) =~= " hit msb's"@);
    assert(message =~= (one + verb) + two + name + three + (first + four + retry));
    lemma_said_around(one + verb + two + name, three, 205, first, four, four.len() as int, retry);
    assert(three.skip(205) =~= "on this host.\nfirst attempt:\n"@);
    assert(four.take(four.len() as int) =~= four);
    assert(message =~= (one + verb + two + name) + three + first + four + retry);
    lemma_said_around(
        one + verb + two + name + three + first,
        four,
        0,
        retry,
        none,
        none.len() as int,
        none,
    );
    assert(four.skip(0) =~= four);
    assert(none.take(none.len() as int) =~= none);
    assert(message =~= (one + verb + two + name + three + first) + four + retry + none + none);
    assert("\nafter retry:\n"@ + retry + none =~= "\nafter retry:\n"@ + retry);
}

/// [`messages::cache_twice`] tells `verb`, `name`, `image`, `heal`, `first` and `retry`, each where it belongs.
pub proof fn law_cache_twice_tells_all(
    verb: Seq<char>,
    name: Seq<char>,
    image: Seq<char>,
    heal: Seq<char>,
    first: Seq<char>,
    retry: Seq<char>,
)
    ensures
        ({
            let message = messages::cache_twice(verb, name, image, heal, first, retry);
            &&& text::contains_text(message, verb)
            &&& text::contains_text(message, name)
            &&& text::contains_text(message, image)
            &&& text::contains_text(message, heal)
            &&& text::contains_text(message, first)
            &&& text::contains_text(message, retry)
            &&& text::contains_text(message, "msb "@ + verb + " for sandbox "@)
            &&& text::contains_text(message, " for sandbox "@ + name + " hit its image cache"@)
            &&& text::contains_text(
                message,
                "error twice in a row for image '"@ + image + "', even after removing"@,
            )
            &&& text::contains_text(
                message,
                "that image's cache entry ("@ + heal + ") and retrying — this is"@,
            )
            &&& text::contains_text(
                message,
                "under MSB_HOME).\nfirst attempt:\n"@ + first + "\nafter heal + retry:\n"@,
            )
            &&& text::contains_text(message, "\nafter heal + retry:\n"@ + retry)
        }),
{
    let message = messages::cache_twice(verb, name, image, heal, first, retry);
    let none = Seq::<char>::empty();
    let one = "msb "@;
    let two = " for sandbox "@;
    let three = " hit its image cache error twice in a row for image '"@;
    let four = "', even after removing that image's cache entry ("@;
    let five = ") and retrying — this is likely a deeper cache corruption than this backend's one-shot heal covers; try clearing the msb image cache by hand (`msb image prune` or removing the cache directory under MSB_HOME).\nfirst attempt:\n"@;
    let six = "\nafter heal + retry:\n"@;
    reveal_strlit(" hit its image cache error twice in a row for image '");
    reveal_strlit(" hit its image cache");
    reveal_strlit("error twice in a row for image '");
    reveal_strlit("', even after removing that image's cache entry (");
    reveal_strlit("', even after removing");
    reveal_strlit("that image's cache entry (");
    reveal_strlit(") and retrying — this is likely a deeper cache corruption than this backend's one-shot heal covers; try clearing the msb image cache by hand (`msb image prune` or removing the cache directory under MSB_HOME).\nfirst attempt:\n");
    reveal_strlit(") and retrying — this is");
    reveal_strlit("under MSB_HOME).\nfirst attempt:\n");
    lemma_said_around(
        none,
        one,
        0,
        verb,
        two,
        two.len() as int,
        name + three + image + four + heal + five + first + six + retry,
    );
    assert(one.skip(0) =~= one);
    assert(two.take(two.len() as int) =~= two);
    assert(message =~= none + one + verb + two + (name + three + image + four + heal + five + first + six + retry));
    lemma_said_around(
        one + verb,
        two,
        0,
        name,
        three,
        20,
        image + four + heal + five + first + six + retry,
    );
    assert(two.skip(0) =~= two);
    assert(three.take(20) =~= " hit its image cache"@);
    assert(message =~= (one + verb) + two + name + three + (image + four + heal + five + first + six + retry));
    lemma_said_around(
        one + verb + two + name,
        three,
        21,
        image,
        four,
        22,
        heal + five + first + six + retry,
    );
    assert(three.skip(21) =~= "error twice in a row for image '"@);
    assert(four.take(22) =~= "', even after removing"@);
    assert(message =~= (one + verb + two + name) + three + image + four + (heal + five + first + six + retry));
    lemma_said_around(
        one + verb + two + name + three + image,
        four,
        23,
        heal,
        five,
        24,
        first + six + retry,
    );
    assert(four.skip(23) =~= "that image's cache entry ("@);
    assert(five.take(24) =~= ") and retrying — this is"@);
    assert(message =~= (one + verb + two + name + three + image) + four + heal + five + (first + six + retry));
    lemma_said_around(
        one + verb + two + name + three + image + four + heal,
        five,
        192,
        first,
        six,
        six.len() as int,
        retry,
    );
    assert(five.skip(192) =~= "under MSB_HOME).\nfirst attempt:\n"@);
    assert(six.take(six.len() as int) =~= six);
    assert(message =~= (one + verb + two + name + three + image + four + heal) + five + first + six + retry);
    lemma_said_around(
        one + verb + two + name + three + image + four + heal + five + first,
        six,
        0,
        retry,
        none,
        none.len() as int,
        none,
    );
    assert(six.skip(0) =~= six);
    assert(none.take(none.len() as int) =~= none);
    assert(message =~= (one + verb + two + name + three + image + four + heal + five + first) + six + retry + none + none);
    assert("\nafter heal + retry:\n"@ + retry + none =~= "\nafter heal + retry:\n"@ + retry);
}

/// [`messages::denied_candidate`] tells `name` and `output`, each where it belongs.
pub proof fn law_denied_candidate_tells_all(name: Seq<char>, output: Seq<char>)
    ensures
        ({
            let message = messages::denied_candidate(name, output);
            &&& text::contains_text(message, name)
            &&& text::contains_text(message, output)
            &&& text::contains_text(
                message,
                "msb restore for sandbox "@ + name + " hit the Windows"@,
            )
            &&& text::contains_text(message, "for the underlying cause): "@ + output)
        }),
{
    let message = messages::denied_candidate(name, output);
    let none = Seq::<char>::empty();
    let one = "msb restore for sandbox "@;
    let two = " hit the Windows job-object access-denied transient — this attempt's own candidate is left for the walk's best-effort cleanup; the next candidate is tried immediately, escalated to the job-free broker on Windows (see the CHANGELOG for the underlying cause): "@;
    reveal_strlit(" hit the Windows job-object access-denied transient — this attempt's own candidate is left for the walk's best-effort cleanup; the next candidate is tried immediately, escalated to the job-free broker on Windows (see the CHANGELOG for the underlying cause): ");
    reveal_strlit(" hit the Windows");
    reveal_strlit("for the underlying cause): ");
    lemma_said_around(none, one, 0, name, two, 16, output);
    assert(one.skip(0) =~= one);
    assert(two.take(16) =~= " hit the Windows"@);
    assert(message =~= none + one + name + two + output);
    lemma_said_around(one + name, two, 231, output, none, none.len() as int, none);
    assert(two.skip(231) =~= "for the underlying cause): "@);
    assert(none.take(none.len() as int) =~= none);
    assert(message =~= (one + name) + two + output + none + none);
    assert("for the underlying cause): "@ + output + none =~= "for the underlying cause): "@ + output);
}

/// [`messages::denied_on_retry`] tells `name` and `output`, each where it belongs.
pub proof fn law_denied_on_retry_tells_all(name: Seq<char>, output: Seq<char>)
    ensures
        ({
            let message = messages::denied_on_retry(name, output);
            &&& text::contains_text(message, name)
            &&& text::contains_text(message, output)
            &&& text::contains_text(
                message,
                "msb restore for sandbox "@ + name + " hit the Windows"@,
            )
            &&& text::contains_text(message, "access-denied transient: "@ + output)
        }),
{
    let message = messages::denied_on_retry(name, output);
    let none = Seq::<char>::empty();
    let one = "msb restore for sandbox "@;
    let two = " hit the Windows job-object access-denied transient: "@;
    reveal_strlit(" hit the Windows job-object access-denied transient: ");
    reveal_strlit(" hit the Windows");
    reveal_strlit("access-denied transient: ");
    lemma_said_around(none, one, 0, name, two, 16, output);
    assert(one.skip(0) =~= one);
    assert(two.take(16) =~= " hit the Windows"@);
    assert(message =~= none + one + name + two + output);
    lemma_said_around(one + name, two, 28, output, none, none.len() as int, none);
    assert(two.skip(28) =~= "access-denied transient: "@);
    assert(none.take(none.len() as int) =~= none);
    assert(message =~= (one + name) + two + output + none + none);
    assert("access-denied transient: "@ + output + none =~= "access-denied transient: "@ + output);
}

/// [`messages::port_taken`] tells `verb`, `name` and `output`, each where it belongs.
pub proof fn law_port_taken_tells_all(verb: Seq<char>, name: Seq<char>, output: Seq<char>)
    ensures
        ({
            let message = messages::port_taken(verb, name, output);
            &&& text::contains_text(message, verb)
            &&& text::contains_text(message, name)
            &&& text::contains_text(message, output)
            &&& text::contains_text(message, "msb "@ + verb + " for sandbox "@)
            &&& text::contains_text(message, " for sandbox "@ + name + " could not bind a host"@)
            &&& text::contains_text(message, " could not bind a host port: "@ + output)
        }),
{
    let message = messages::port_taken(verb, name, output);
    let none = Seq::<char>::empty();
    let one = "msb "@;
    let two = " for sandbox "@;
    let three = " could not bind a host port: "@;
    reveal_strlit(" could not bind a host port: ");
    reveal_strlit(" could not bind a host");
    lemma_said_around(none, one, 0, verb, two, two.len() as int, name + three + output);
    assert(one.skip(0) =~= one);
    assert(two.take(two.len() as int) =~= two);
    assert(message =~= none + one + verb + two + (name + three + output));
    lemma_said_around(one + verb, two, 0, name, three, 22, output);
    assert(two.skip(0) =~= two);
    assert(three.take(22) =~= " could not bind a host"@);
    assert(message =~= (one + verb) + two + name + three + output);
    lemma_said_around(one + verb + two + name, three, 0, output, none, none.len() as int, none);
    assert(three.skip(0) =~= three);
    assert(none.take(none.len() as int) =~= none);
    assert(message =~= (one + verb + two + name) + three + output + none + none);
    assert(" could not bind a host port: "@ + output + none =~= " could not bind a host port: "@ + output);
}

/// [`messages::name_taken`] tells `verb`, `name` and `output`, each where it belongs.
pub proof fn law_name_taken_tells_all(verb: Seq<char>, name: Seq<char>, output: Seq<char>)
    ensures
        ({
            let message = messages::name_taken(verb, name, output);
            &&& text::contains_text(message, verb)
            &&& text::contains_text(message, name)
            &&& text::contains_text(message, output)
            &&& text::contains_text(message, "msb "@ + verb + " for sandbox "@)
            &&& text::contains_text(message, " for sandbox "@ + name + " could not start — a"@)
            &&& text::contains_text(message, "with this name already exists: "@ + output)
        }),
{
    let message = messages::name_taken(verb, name, output);
    let none = Seq::<char>::empty();
    let one = "msb "@;
    let two = " for sandbox "@;
    let three = " could not start — a sandbox with this name already exists: "@;
    reveal_strlit(" could not start — a sandbox with this name already exists: ");
    reveal_strlit(" could not start — a");
    reveal_strlit("with this name already exists: ");
    lemma_said_around(none, one, 0, verb, two, two.len() as int, name + three + output);
    assert(one.skip(0) =~= one);
    assert(two.take(two.len() as int) =~= two);
    assert(message =~= none + one + verb + two + (name + three + output));
    lemma_said_around(one + verb, two, 0, name, three, 20, output);
    assert(two.skip(0) =~= two);
    assert(three.take(20) =~= " could not start — a"@);
    assert(message =~= (one + verb) + two + name + three + output);
    lemma_said_around(one + verb + two + name, three, 29, output, none, none.len() as int, none);
    assert(three.skip(29) =~= "with this name already exists: "@);
    assert(none.take(none.len() as int) =~= none);
    assert(message =~= (one + verb + two + name) + three + output + none + none);
    assert("with this name already exists: "@ + output + none =~= "with this name already exists: "@ + output);
}

/// [`messages::run_exited`] tells `name`, `code` and `output`, each where it belongs.
pub proof fn law_run_exited_tells_all(name: Seq<char>, code: int, output: Seq<char>)
    ensures
        ({
            let message = messages::run_exited(name, code, output);
            &&& text::contains_text(message, name)
            &&& text::contains_text(message, text::decimal_int(code))
            &&& text::contains_text(message, output)
            &&& text::contains_text(message, "msb run for sandbox "@ + name + " exited (code "@)
            &&& text::contains_text(
                message,
                " exited (code "@ + text::decimal_int(code) + ") before reaching"@,
            )
            &&& text::contains_text(message, "and `msb run` output below:\n"@ + output)
        }),
{
    let message = messages::run_exited(name, code, output);
    let none = Seq::<char>::empty();
    let one = "msb run for sandbox "@;
    let two = " exited (code "@;
    let three = ") before reaching Running — check the image entrypoint and `msb run` output below:\n"@;
    reveal_strlit(") before reaching Running — check the image entrypoint and `msb run` output below:\n");
    reveal_strlit(") before reaching");
    reveal_strlit("and `msb run` output below:\n");
    lemma_said_around(
        none,
        one,
        0,
        name,
        two,
        two.len() as int,
        text::decimal_int(code) + three + output,
    );
    assert(one.skip(0) =~= one);
    assert(two.take(two.len() as int) =~= two);
    assert(message =~= none + one + name + two + (text::decimal_int(code) + three + output));
    lemma_said_around(one + name, two, 0, text::decimal_int(code), three, 17, output);
    assert(two.skip(0) =~= two);
    assert(three.take(17) =~= ") before reaching"@);
    assert(message =~= (one + name) + two + text::decimal_int(code) + three + output);
    lemma_said_around(
        one + name + two + text::decimal_int(code),
        three,
        55,
        output,
        none,
        none.len() as int,
        none,
    );
    assert(three.skip(55) =~= "and `msb run` output below:\n"@);
    assert(none.take(none.len() as int) =~= none);
    assert(message =~= (one + name + two + text::decimal_int(code)) + three + output + none + none);
    assert("and `msb run` output below:\n"@ + output + none =~= "and `msb run` output below:\n"@ + output);
}

/// [`messages::run_timed_out`] tells `name`, `secs` and `output`, each where it belongs.
pub proof fn law_run_timed_out_tells_all(name: Seq<char>, secs: nat, output: Seq<char>)
    ensures
        ({
            let message = messages::run_timed_out(name, secs, output);
            &&& text::contains_text(message, name)
            &&& text::contains_text(message, text::decimal(secs))
            &&& text::contains_text(message, output)
            &&& text::contains_text(message, "Sandbox "@ + name + " did not reach Running"@)
            &&& text::contains_text(
                message,
                " did not reach Running within "@ + text::decimal(secs) + "s — this can mean a slow"@,
            )
            &&& text::contains_text(message, "being unresponsive; last output:\n"@ + output)
        }),
{
    let message = messages::run_timed_out(name, secs, output);
    let none = Seq::<char>::empty();
    let one = "Sandbox "@;
    let two = " did not reach Running within "@;
    let three = "s — this can mean a slow image pull, a crash-looping entrypoint, or msb itself being unresponsive; last output:\n"@;
    reveal_strlit(" did not reach Running within ");
    reveal_strlit(" did not reach Running");
    reveal_strlit("s — this can mean a slow image pull, a crash-looping entrypoint, or msb itself being unresponsive; last output:\n");
    reveal_strlit("s — this can mean a slow");
    reveal_strlit("being unresponsive; last output:\n");
    lemma_said_around(none, one, 0, name, two, 22, text::decimal(secs) + three + output);
    assert(one.skip(0) =~= one);
    assert(two.take(22) =~= " did not reach Running"@);
    assert(message =~= none + one + name + two + (text::decimal(secs) + three + output));
    lemma_said_around(one + name, two, 0, text::decimal(secs), three, 24, output);
    assert(two.skip(0) =~= two);
    assert(three.take(24) =~= "s — this can mean a slow"@);
    assert(message =~= (one + name) + two + text::decimal(secs) + three + output);
    lemma_said_around(
        one + name + two + text::decimal(secs),
        three,
        79,
        output,
        none,
        none.len() as int,
        none,
    );
    assert(three.skip(79) =~= "being unresponsive; last output:\n"@);
    assert(none.take(none.len() as int) =~= none);
    assert(message =~= (one + name + two + text::decimal(secs)) + three + output + none + none);
    assert("being unresponsive; last output:\n"@ + output + none =~= "being unresponsive; last output:\n"@ + output);
}

/// [`messages::spawn_failed`] tells `args` and `error`, each where it belongs.
pub proof fn law_spawn_failed_tells_all(args: Seq<char>, error: Seq<char>)
    ensures
        ({
            let message = messages::spawn_failed(args, error);
            &&& text::contains_text(message, args)
            &&& text::contains_text(message, error)
            &&& text::contains_text(message, "failed to spawn msb "@ + args + ": "@)
            &&& text::contains_text(message, ": "@ + error)
        }),
{
    let message = messages::spawn_failed(args, error);
    let none = Seq::<char>::empty();
    let one = "failed to spawn msb "@;
    let two = ": "@;
    lemma_said_around(none, one, 0, args, two, two.len() as int, error);
    assert(one.skip(0) =~= one);
    assert(two.take(two.len() as int) =~= two);
    assert(message =~= none + one + args + two + error);
    lemma_said_around(one + args, two, 0, error, none, none.len() as int, none);
    assert(two.skip(0) =~= two);
    assert(none.take(none.len() as int) =~= none);
    assert(message =~= (one + args) + two + error + none + none);
    assert(": "@ + error + none =~= ": "@ + error);
}

/// [`messages::launch_failed`] tells `args` and `error`, each where it belongs.
pub proof fn law_launch_failed_tells_all(args: Seq<char>, error: Seq<char>)
    ensures
        ({
            let message = messages::launch_failed(args, error);
            &&& text::contains_text(message, args)
            &&& text::contains_text(message, error)
            &&& text::contains_text(message, "failed to launch msb "@ + args + ": "@)
            &&& text::contains_text(message, ": "@ + error)
        }),
{
    let message = messages::launch_failed(args, error);
    let none = Seq::<char>::empty();
    let one = "failed to launch msb "@;
    let two = ": "@;
    lemma_said_around(none, one, 0, args, two, two.len() as int, error);
    assert(one.skip(0) =~= one);
    assert(two.take(two.len() as int) =~= two);
    assert(message =~= none + one + args + two + error);
    lemma_said_around(one + args, two, 0, error, none, none.len() as int, none);
    assert(two.skip(0) =~= two);
    assert(none.take(none.len() as int) =~= none);
    assert(message =~= (one + args) + two + error + none + none);
    assert(": "@ + error + none =~= ": "@ + error);
}

/// [`messages::restore_timed_out`] tells `name`, `secs` and `output`, each where it belongs.
pub proof fn law_restore_timed_out_tells_all(name: Seq<char>, secs: nat, output: Seq<char>)
    ensures
        ({
            let message = messages::restore_timed_out(name, secs, output);
            &&& text::contains_text(message, name)
            &&& text::contains_text(message, text::decimal(secs))
            &&& text::contains_text(message, output)
            &&& text::contains_text(
                message,
                "msb restore for sandbox "@ + name + " did not exit within "@,
            )
            &&& text::contains_text(
                message,
                " did not exit within "@ + text::decimal(secs) + "s — a successful"@,
            )
            &&& text::contains_text(message, "or unresponsive; last output:\n"@ + output)
        }),
{
    let message = messages::restore_timed_out(name, secs, output);
    let none = Seq::<char>::empty();
    let one = "msb restore for sandbox "@;
    let two = " did not exit within "@;
    let three = "s — a successful detached restore activates and exits within seconds, so msb itself may be overloaded or unresponsive; last output:\n"@;
    reveal_strlit("s — a successful detached restore activates and exits within seconds, so msb itself may be overloaded or unresponsive; last output:\n");
    reveal_strlit("s — a successful");
    reveal_strlit("or unresponsive; last output:\n");
    lemma_said_around(
        none,
        one,
        0,
        name,
        two,
        two.len() as int,
        text::decimal(secs) + three + output,
    );
    assert(one.skip(0) =~= one);
    assert(two.take(two.len() as int) =~= two);
    assert(message =~= none + one + name + two + (text::decimal(secs) + three + output));
    lemma_said_around(one + name, two, 0, text::decimal(secs), three, 16, output);
    assert(two.skip(0) =~= two);
    assert(three.take(16) =~= "s — a successful"@);
    assert(message =~= (one + name) + two + text::decimal(secs) + three + output);
    lemma_said_around(
        one + name + two + text::decimal(secs),
        three,
        102,
        output,
        none,
        none.len() as int,
        none,
    );
    assert(three.skip(102) =~= "or unresponsive; last output:\n"@);
    assert(none.take(none.len() as int) =~= none);
    assert(message =~= (one + name + two + text::decimal(secs)) + three + output + none + none);
    assert("or unresponsive; last output:\n"@ + output + none =~= "or unresponsive; last output:\n"@ + output);
}

/// [`messages::restore_exited`] tells `name`, `code` and `output`, each where it belongs.
pub proof fn law_restore_exited_tells_all(name: Seq<char>, code: int, output: Seq<char>)
    ensures
        ({
            let message = messages::restore_exited(name, code, output);
            &&& text::contains_text(message, name)
            &&& text::contains_text(message, text::decimal_int(code))
            &&& text::contains_text(message, output)
            &&& text::contains_text(message, "msb restore for sandbox "@ + name + " exited (code "@)
            &&& text::contains_text(
                message,
                " exited (code "@ + text::decimal_int(code) + ") — the restore itself"@,
            )
            &&& text::contains_text(message, "and `msb restore` output below:\n"@ + output)
        }),
{
    let message = messages::restore_exited(name, code, output);
    let none = Seq::<char>::empty();
    let one = "msb restore for sandbox "@;
    let two = " exited (code "@;
    let three = ") — the restore itself failed, so the sandbox never activated; check the snapshot and `msb restore` output below:\n"@;
    reveal_strlit(") — the restore itself failed, so the sandbox never activated; check the snapshot and `msb restore` output below:\n");
    reveal_strlit(") — the restore itself");
    reveal_strlit("and `msb restore` output below:\n");
    lemma_said_around(
        none,
        one,
        0,
        name,
        two,
        two.len() as int,
        text::decimal_int(code) + three + output,
    );
    assert(one.skip(0) =~= one);
    assert(two.take(two.len() as int) =~= two);
    assert(message =~= none + one + name + two + (text::decimal_int(code) + three + output));
    lemma_said_around(one + name, two, 0, text::decimal_int(code), three, 22, output);
    assert(two.skip(0) =~= two);
    assert(three.take(22) =~= ") — the restore itself"@);
    assert(message =~= (one + name) + two + text::decimal_int(code) + three + output);
    lemma_said_around(
        one + name + two + text::decimal_int(code),
        three,
        82,
        output,
        none,
        none.len() as int,
        none,
    );
    assert(three.skip(82) =~= "and `msb restore` output below:\n"@);
    assert(none.take(none.len() as int) =~= none);
    assert(message =~= (one + name + two + text::decimal_int(code)) + three + output + none + none);
    assert("and `msb restore` output below:\n"@ + output + none =~= "and `msb restore` output below:\n"@ + output);
}

/// [`messages::restore_not_running`] tells `name`, `reason` and `diagnostics`, each where it belongs.
pub proof fn law_restore_not_running_tells_all(
    name: Seq<char>,
    reason: Seq<char>,
    diagnostics: Seq<char>,
)
    ensures
        ({
            let message = messages::restore_not_running(name, reason, diagnostics);
            &&& text::contains_text(message, name)
            &&& text::contains_text(message, reason)
            &&& text::contains_text(message, diagnostics)
            &&& text::contains_text(message, "sandbox "@ + name + " never reached Running"@)
            &&& text::contains_text(
                message,
                "a successful `msb restore` — it "@ + reason + " while this backend"@,
            )
            &&& text::contains_text(message, "this backend polled `msb ls`. "@ + diagnostics)
        }),
{
    let message = messages::restore_not_running(name, reason, diagnostics);
    let none = Seq::<char>::empty();
    let one = "sandbox "@;
    let two = " never reached Running after a successful `msb restore` — it "@;
    let three = " while this backend polled `msb ls`. "@;
    reveal_strlit(" never reached Running after a successful `msb restore` — it ");
    reveal_strlit(" never reached Running");
    reveal_strlit("a successful `msb restore` — it ");
    reveal_strlit(" while this backend polled `msb ls`. ");
    reveal_strlit(" while this backend");
    reveal_strlit("this backend polled `msb ls`. ");
    lemma_said_around(none, one, 0, name, two, 22, reason + three + diagnostics);
    assert(one.skip(0) =~= one);
    assert(two.take(22) =~= " never reached Running"@);
    assert(message =~= none + one + name + two + (reason + three + diagnostics));
    lemma_said_around(one + name, two, 29, reason, three, 19, diagnostics);
    assert(two.skip(29) =~= "a successful `msb restore` — it "@);
    assert(three.take(19) =~= " while this backend"@);
    assert(message =~= (one + name) + two + reason + three + diagnostics);
    lemma_said_around(
        one + name + two + reason,
        three,
        7,
        diagnostics,
        none,
        none.len() as int,
        none,
    );
    assert(three.skip(7) =~= "this backend polled `msb ls`. "@);
    assert(none.take(none.len() as int) =~= none);
    assert(message =~= (one + name + two + reason) + three + diagnostics + none + none);
    assert("this backend polled `msb ls`. "@ + diagnostics + none =~= "this backend polled `msb ls`. "@ + diagnostics);
}

/// [`messages::restore_poll_timed_out`] tells `name`, `secs` and `diagnostics`, each where it belongs.
pub proof fn law_restore_poll_timed_out_tells_all(
    name: Seq<char>,
    secs: nat,
    diagnostics: Seq<char>,
)
    ensures
        ({
            let message = messages::restore_poll_timed_out(name, secs, diagnostics);
            &&& text::contains_text(message, name)
            &&& text::contains_text(message, text::decimal(secs))
            &&& text::contains_text(message, diagnostics)
            &&& text::contains_text(message, "sandbox "@ + name + " did not reach Running"@)
            &&& text::contains_text(
                message,
                " did not reach Running within "@ + text::decimal(secs) + "s after a successful"@,
            )
            &&& text::contains_text(message, "or msb itself being unresponsive. "@ + diagnostics)
        }),
{
    let message = messages::restore_poll_timed_out(name, secs, diagnostics);
    let none = Seq::<char>::empty();
    let one = "sandbox "@;
    let two = " did not reach Running within "@;
    let three = "s after a successful `msb restore` — this can mean a slow disk restore or msb itself being unresponsive. "@;
    reveal_strlit(" did not reach Running within ");
    reveal_strlit(" did not reach Running");
    reveal_strlit("s after a successful `msb restore` — this can mean a slow disk restore or msb itself being unresponsive. ");
    reveal_strlit("s after a successful");
    reveal_strlit("or msb itself being unresponsive. ");
    lemma_said_around(none, one, 0, name, two, 22, text::decimal(secs) + three + diagnostics);
    assert(one.skip(0) =~= one);
    assert(two.take(22) =~= " did not reach Running"@);
    assert(message =~= none + one + name + two + (text::decimal(secs) + three + diagnostics));
    lemma_said_around(one + name, two, 0, text::decimal(secs), three, 20, diagnostics);
    assert(two.skip(0) =~= two);
    assert(three.take(20) =~= "s after a successful"@);
    assert(message =~= (one + name) + two + text::decimal(secs) + three + diagnostics);
    lemma_said_around(
        one + name + two + text::decimal(secs),
        three,
        71,
        diagnostics,
        none,
        none.len() as int,
        none,
    );
    assert(three.skip(71) =~= "or msb itself being unresponsive. "@);
    assert(none.take(none.len() as int) =~= none);
    assert(message =~= (one + name + two + text::decimal(secs)) + three + diagnostics + none + none);
    assert("or msb itself being unresponsive. "@ + diagnostics + none =~= "or msb itself being unresponsive. "@ + diagnostics);
}

/// [`messages::system_log`] tells `name`, `stdout` and `stderr`, each where it belongs.
pub proof fn law_system_log_tells_all(name: Seq<char>, stdout: Seq<char>, stderr: Seq<char>)
    ensures
        ({
            let message = messages::system_log(name, stdout, stderr);
            &&& text::contains_text(message, name)
            &&& text::contains_text(message, stdout)
            &&& text::contains_text(message, stderr)
            &&& text::contains_text(message, "`msb logs "@ + name + " --source system`"@)
            &&& text::contains_text(message, " --source system` output:\n"@ + stdout)
        }),
{
    let message = messages::system_log(name, stdout, stderr);
    let none = Seq::<char>::empty();
    let one = "`msb logs "@;
    let two = " --source system` output:\n"@;
    reveal_strlit(" --source system` output:\n");
    reveal_strlit(" --source system`");
    lemma_said_around(none, one, 0, name, two, 17, stdout + stderr);
    assert(one.skip(0) =~= one);
    assert(two.take(17) =~= " --source system`"@);
    assert(message =~= none + one + name + two + (stdout + stderr));
    lemma_said_around(one + name, two, 0, stdout, none, none.len() as int, stderr);
    assert(two.skip(0) =~= two);
    assert(none.take(none.len() as int) =~= none);
    assert(message =~= (one + name) + two + stdout + none + stderr);
    assert(" --source system` output:\n"@ + stdout + none =~= " --source system` output:\n"@ + stdout);
    lemma_said_around(one + name + two + stdout, none, 0, stderr, none, none.len() as int, none);
    assert(none.skip(0) =~= none);
    assert(message =~= (one + name + two + stdout) + none + stderr + none + none);
    assert(none + stderr + none =~= stderr);
}

/// [`messages::system_log_empty`] tells `name`, where it belongs.
pub proof fn law_system_log_empty_tells_all(name: Seq<char>)
    ensures
        ({
            let message = messages::system_log_empty(name);
            &&& text::contains_text(message, name)
            &&& text::contains_text(message, "`msb logs "@ + name + " --source system`"@)
        }),
{
    let message = messages::system_log_empty(name);
    let none = Seq::<char>::empty();
    let one = "`msb logs "@;
    let two = " --source system` returned no output"@;
    reveal_strlit(" --source system` returned no output");
    reveal_strlit(" --source system`");
    lemma_said_around(none, one, 0, name, two, 17, none);
    assert(one.skip(0) =~= one);
    assert(two.take(17) =~= " --source system`"@);
    assert(message =~= none + one + name + two + none);
}

/// [`messages::system_log_unreadable`] tells `name` and `error`, each where it belongs.
pub proof fn law_system_log_unreadable_tells_all(name: Seq<char>, error: Seq<char>)
    ensures
        ({
            let message = messages::system_log_unreadable(name, error);
            &&& text::contains_text(message, name)
            &&& text::contains_text(message, error)
            &&& text::contains_text(message, "`msb logs "@ + name + " --source system` could"@)
            &&& text::contains_text(message, "system` could not be read: "@ + error)
        }),
{
    let message = messages::system_log_unreadable(name, error);
    let none = Seq::<char>::empty();
    let one = "`msb logs "@;
    let two = " --source system` could not be read: "@;
    reveal_strlit(" --source system` could not be read: ");
    reveal_strlit(" --source system` could");
    reveal_strlit("system` could not be read: ");
    lemma_said_around(none, one, 0, name, two, 23, error);
    assert(one.skip(0) =~= one);
    assert(two.take(23) =~= " --source system` could"@);
    assert(message =~= none + one + name + two + error);
    lemma_said_around(one + name, two, 10, error, none, none.len() as int, none);
    assert(two.skip(10) =~= "system` could not be read: "@);
    assert(none.take(none.len() as int) =~= none);
    assert(message =~= (one + name) + two + error + none + none);
    assert("system` could not be read: "@ + error + none =~= "system` could not be read: "@ + error);
}

/// [`messages::nothing_to_run`] tells `name`, where it belongs.
pub proof fn law_nothing_to_run_tells_all(name: Seq<char>)
    ensures
        ({
            let message = messages::nothing_to_run(name);
            &&& text::contains_text(message, name)
            &&& text::contains_text(message, "sandbox "@ + name + " was restored from a"@)
        }),
{
    let message = messages::nothing_to_run(name);
    let none = Seq::<char>::empty();
    let one = "sandbox "@;
    let two = " was restored from a checkpoint that predates workload capture — it has neither an explicit command nor a captured guest cmdline, so there is nothing to run; re-checkpoint the source container with this version of rightsize to record its command, or restore under a backend whose checkpoint mechanism doesn't restart the workload (docker) instead"@;
    reveal_strlit(" was restored from a checkpoint that predates workload capture — it has neither an explicit command nor a captured guest cmdline, so there is nothing to run; re-checkpoint the source container with this version of rightsize to record its command, or restore under a backend whose checkpoint mechanism doesn't restart the workload (docker) instead");
    reveal_strlit(" was restored from a");
    lemma_said_around(none, one, 0, name, two, 20, none);
    assert(one.skip(0) =~= one);
    assert(two.take(20) =~= " was restored from a"@);
    assert(message =~= none + one + name + two + none);
}

/// [`messages::workload_exited`] tells `name`, `code` and `output`, each where it belongs.
pub proof fn law_workload_exited_tells_all(name: Seq<char>, code: int, output: Seq<char>)
    ensures
        ({
            let message = messages::workload_exited(name, code, output);
            &&& text::contains_text(message, name)
            &&& text::contains_text(message, text::decimal_int(code))
            &&& text::contains_text(message, output)
            &&& text::contains_text(
                message,
                "the workload exec for sandbox "@ + name + " exited (code "@,
            )
            &&& text::contains_text(
                message,
                " exited (code "@ + text::decimal_int(code) + ") right after its"@,
            )
            &&& text::contains_text(message, "the command and its output below:\n"@ + output)
        }),
{
    let message = messages::workload_exited(name, code, output);
    let none = Seq::<char>::empty();
    let one = "the workload exec for sandbox "@;
    let two = " exited (code "@;
    let three = ") right after its checkpoint restore reached Running — check the command and its output below:\n"@;
    reveal_strlit(") right after its checkpoint restore reached Running — check the command and its output below:\n");
    reveal_strlit(") right after its");
    reveal_strlit("the command and its output below:\n");
    lemma_said_around(
        none,
        one,
        0,
        name,
        two,
        two.len() as int,
        text::decimal_int(code) + three + output,
    );
    assert(one.skip(0) =~= one);
    assert(two.take(two.len() as int) =~= two);
    assert(message =~= none + one + name + two + (text::decimal_int(code) + three + output));
    lemma_said_around(one + name, two, 0, text::decimal_int(code), three, 17, output);
    assert(two.skip(0) =~= two);
    assert(three.take(17) =~= ") right after its"@);
    assert(message =~= (one + name) + two + text::decimal_int(code) + three + output);
    lemma_said_around(
        one + name + two + text::decimal_int(code),
        three,
        61,
        output,
        none,
        none.len() as int,
        none,
    );
    assert(three.skip(61) =~= "the command and its output below:\n"@);
    assert(none.take(none.len() as int) =~= none);
    assert(message =~= (one + name + two + text::decimal_int(code)) + three + output + none + none);
    assert("the command and its output below:\n"@ + output + none =~= "the command and its output below:\n"@ + output);
}

/// [`messages::heal_exited`] tells `code` and `stderr`, each where it belongs.
pub proof fn law_heal_exited_tells_all(code: int, stderr: Seq<char>)
    ensures
        ({
            let message = messages::heal_exited(code, stderr);
            &&& text::contains_text(message, text::decimal_int(code))
            &&& text::contains_text(message, stderr)
            &&& text::contains_text(
                message,
                "`msb image remove` exited "@ + text::decimal_int(code) + ": "@,
            )
            &&& text::contains_text(message, ": "@ + stderr)
        }),
{
    let message = messages::heal_exited(code, stderr);
    let none = Seq::<char>::empty();
    let one = "`msb image remove` exited "@;
    let two = ": "@;
    lemma_said_around(none, one, 0, text::decimal_int(code), two, two.len() as int, stderr);
    assert(one.skip(0) =~= one);
    assert(two.take(two.len() as int) =~= two);
    assert(message =~= none + one + text::decimal_int(code) + two + stderr);
    lemma_said_around(one + text::decimal_int(code), two, 0, stderr, none, none.len() as int, none);
    assert(two.skip(0) =~= two);
    assert(none.take(none.len() as int) =~= none);
    assert(message =~= (one + text::decimal_int(code)) + two + stderr + none + none);
    assert(": "@ + stderr + none =~= ": "@ + stderr);
}

/// [`messages::heal_not_run`] tells `error`, where it belongs.
pub proof fn law_heal_not_run_tells_all(error: Seq<char>)
    ensures
        ({
            let message = messages::heal_not_run(error);
            &&& text::contains_text(message, error)
            &&& text::contains_text(message, "remove` itself failed to run: "@ + error)
        }),
{
    let message = messages::heal_not_run(error);
    let none = Seq::<char>::empty();
    let one = "`msb image remove` itself failed to run: "@;
    reveal_strlit("`msb image remove` itself failed to run: ");
    reveal_strlit("remove` itself failed to run: ");
    lemma_said_around(none, one, 11, error, none, none.len() as int, none);
    assert(one.skip(11) =~= "remove` itself failed to run: "@);
    assert(none.take(none.len() as int) =~= none);
    assert(message =~= none + one + error + none + none);
    assert("remove` itself failed to run: "@ + error + none =~= "remove` itself failed to run: "@ + error);
}

/// [`messages::restore_names_exhausted`] tells `count`, where it belongs.
pub proof fn law_restore_names_exhausted_tells_all(count: nat)
    ensures
        ({
            let message = messages::restore_names_exhausted(count);
            &&& text::contains_text(message, text::decimal(count))
            &&& text::contains_text(
                message,
                "candidate was tried and refused ("@ + text::decimal(count) + " candidates) — by msb's"@,
            )
        }),
{
    let message = messages::restore_names_exhausted(count);
    let none = Seq::<char>::empty();
    let one = "every restore name candidate was tried and refused ("@;
    let two = " candidates) — by msb's own \"already exists\" check, the Windows job-object access-denied transient, or both"@;
    reveal_strlit("every restore name candidate was tried and refused (");
    reveal_strlit("candidate was tried and refused (");
    reveal_strlit(" candidates) — by msb's own \"already exists\" check, the Windows job-object access-denied transient, or both");
    reveal_strlit(" candidates) — by msb's");
    lemma_said_around(none, one, 19, text::decimal(count), two, 23, none);
    assert(one.skip(19) =~= "candidate was tried and refused ("@);
    assert(two.take(23) =~= " candidates) — by msb's"@);
    assert(message =~= none + one + text::decimal(count) + two + none);
}

/// [`messages::reboot_names_exhausted`] tells `count`, where it belongs.
pub proof fn law_reboot_names_exhausted_tells_all(count: nat)
    ensures
        ({
            let message = messages::reboot_names_exhausted(count);
            &&& text::contains_text(message, text::decimal(count))
            &&& text::contains_text(
                message,
                "name was tried and refused ("@ + text::decimal(count) + " candidates) — by msb's"@,
            )
        }),
{
    let message = messages::reboot_names_exhausted(count);
    let none = Seq::<char>::empty();
    let one = "every candidate sandbox name was tried and refused ("@;
    let two = " candidates) — by msb's own \"already exists\" check, the Windows job-object access-denied transient, or both"@;
    reveal_strlit("every candidate sandbox name was tried and refused (");
    reveal_strlit("name was tried and refused (");
    reveal_strlit(" candidates) — by msb's own \"already exists\" check, the Windows job-object access-denied transient, or both");
    reveal_strlit(" candidates) — by msb's");
    lemma_said_around(none, one, 24, text::decimal(count), two, 23, none);
    assert(one.skip(24) =~= "name was tried and refused ("@);
    assert(two.take(23) =~= " candidates) — by msb's"@);
    assert(message =~= none + one + text::decimal(count) + two + none);
}

/// [`messages::reboot_failed`] tells `name`, `reference` and `error`, each where it belongs.
pub proof fn law_reboot_failed_tells_all(name: Seq<char>, reference: Seq<char>, error: Seq<char>)
    ensures
        ({
            let message = messages::reboot_failed(name, reference, error);
            &&& text::contains_text(message, name)
            &&& text::contains_text(message, reference)
            &&& text::contains_text(message, error)
            &&& text::contains_text(message, "re-booting sandbox "@ + name + " from checkpoint "@)
            &&& text::contains_text(message, " from checkpoint "@ + reference + " failed ("@)
            &&& text::contains_text(message, " failed ("@ + error + ") — the sandbox was"@)
            &&& text::contains_text(
                message,
                "state is preserved in checkpoint "@ + reference + ", restorable via"@,
            )
        }),
{
    let message = messages::reboot_failed(name, reference, error);
    let none = Seq::<char>::empty();
    let one = "re-booting sandbox "@;
    let two = " from checkpoint "@;
    let three = " failed ("@;
    let four = ") — the sandbox was removed but its state is preserved in checkpoint "@;
    let five = ", restorable via Container::from_checkpoint(...)"@;
    reveal_strlit(") — the sandbox was removed but its state is preserved in checkpoint ");
    reveal_strlit(") — the sandbox was");
    reveal_strlit("state is preserved in checkpoint ");
    reveal_strlit(", restorable via Container::from_checkpoint(...)");
    reveal_strlit(", restorable via");
    lemma_said_around(
        none,
        one,
        0,
        name,
        two,
        two.len() as int,
        reference + three + error + four + reference + five,
    );
    assert(one.skip(0) =~= one);
    assert(two.take(two.len() as int) =~= two);
    assert(message =~= none + one + name + two + (reference + three + error + four + reference + five));
    lemma_said_around(
        one + name,
        two,
        0,
        reference,
        three,
        three.len() as int,
        error + four + reference + five,
    );
    assert(two.skip(0) =~= two);
    assert(three.take(three.len() as int) =~= three);
    assert(message =~= (one + name) + two + reference + three + (error + four + reference + five));
    lemma_said_around(one + name + two + reference, three, 0, error, four, 19, reference + five);
    assert(three.skip(0) =~= three);
    assert(four.take(19) =~= ") — the sandbox was"@);
    assert(message =~= (one + name + two + reference) + three + error + four + (reference + five));
    lemma_said_around(
        one + name + two + reference + three + error,
        four,
        36,
        reference,
        five,
        16,
        none,
    );
    assert(four.skip(36) =~= "state is preserved in checkpoint "@);
    assert(five.take(16) =~= ", restorable via"@);
    assert(message =~= (one + name + two + reference + three + error) + four + reference + five + none);
}

/// [`messages::reboot_failed_after_refusal`] tells `name`, `reference`, `error` and `last`, each where it belongs.
pub proof fn law_reboot_failed_after_refusal_tells_all(
    name: Seq<char>,
    reference: Seq<char>,
    error: Seq<char>,
    last: Seq<char>,
)
    ensures
        ({
            let message = messages::reboot_failed_after_refusal(name, reference, error, last);
            &&& text::contains_text(message, name)
            &&& text::contains_text(message, reference)
            &&& text::contains_text(message, error)
            &&& text::contains_text(message, last)
            &&& text::contains_text(message, "re-booting sandbox "@ + name + " from checkpoint "@)
            &&& text::contains_text(message, " from checkpoint "@ + reference + " failed ("@)
            &&& text::contains_text(message, " failed ("@ + error + ") after previously"@)
            &&& text::contains_text(
                message,
                "previously hitting a refusal ("@ + last + ") — the sandbox was"@,
            )
            &&& text::contains_text(
                message,
                "state is preserved in checkpoint "@ + reference + ", restorable via"@,
            )
        }),
{
    let message = messages::reboot_failed_after_refusal(name, reference, error, last);
    let none = Seq::<char>::empty();
    let one = "re-booting sandbox "@;
    let two = " from checkpoint "@;
    let three = " failed ("@;
    let four = ") after previously hitting a refusal ("@;
    let five = ") — the sandbox was removed but its state is preserved in checkpoint "@;
    let six = ", restorable via Container::from_checkpoint(...)"@;
    reveal_strlit(") after previously hitting a refusal (");
    reveal_strlit(") after previously");
    reveal_strlit("previously hitting a refusal (");
    reveal_strlit(") — the sandbox was removed but its state is preserved in checkpoint ");
    reveal_strlit(") — the sandbox was");
    reveal_strlit("state is preserved in checkpoint ");
    reveal_strlit(", restorable via Container::from_checkpoint(...)");
    reveal_strlit(", restorable via");
    lemma_said_around(
        none,
        one,
        0,
        name,
        two,
        two.len() as int,
        reference + three + error + four + last + five + reference + six,
    );
    assert(one.skip(0) =~= one);
    assert(two.take(two.len() as int) =~= two);
    assert(message =~= none + one + name + two + (reference + three + error + four + last + five + reference + six));
    lemma_said_around(
        one + name,
        two,
        0,
        reference,
        three,
        three.len() as int,
        error + four + last + five + reference + six,
    );
    assert(two.skip(0) =~= two);
    assert(three.take(three.len() as int) =~= three);
    assert(message =~= (one + name) + two + reference + three + (error + four + last + five + reference + six));
    lemma_said_around(
        one + name + two + reference,
        three,
        0,
        error,
        four,
        18,
        last + five + reference + six,
    );
    assert(three.skip(0) =~= three);
    assert(four.take(18) =~= ") after previously"@);
    assert(message =~= (one + name + two + reference) + three + error + four + (last + five + reference + six));
    lemma_said_around(
        one + name + two + reference + three + error,
        four,
        8,
        last,
        five,
        19,
        reference + six,
    );
    assert(four.skip(8) =~= "previously hitting a refusal ("@);
    assert(five.take(19) =~= ") — the sandbox was"@);
    assert(message =~= (one + name + two + reference + three + error) + four + last + five + (reference + six));
    lemma_said_around(
        one + name + two + reference + three + error + four + last,
        five,
        36,
        reference,
        six,
        16,
        none,
    );
    assert(five.skip(36) =~= "state is preserved in checkpoint "@);
    assert(six.take(16) =~= ", restorable via"@);
    assert(message =~= (one + name + two + reference + three + error + four + last) + five + reference + six + none);
}

/// [`messages::reboot_kept_refused`] tells `name`, `reference`, `refusal`, `secs` and `last`, each where it belongs.
pub proof fn law_reboot_kept_refused_tells_all(
    name: Seq<char>,
    reference: Seq<char>,
    refusal: Seq<char>,
    secs: nat,
    last: Seq<char>,
)
    ensures
        ({
            let message = messages::reboot_kept_refused(name, reference, refusal, secs, last);
            &&& text::contains_text(message, name)
            &&& text::contains_text(message, reference)
            &&& text::contains_text(message, refusal)
            &&& text::contains_text(message, text::decimal(secs))
            &&& text::contains_text(message, last)
            &&& text::contains_text(message, "re-booting sandbox "@ + name + " from checkpoint "@)
            &&& text::contains_text(message, " from checkpoint "@ + reference + " kept hitting "@)
            &&& text::contains_text(message, " kept hitting "@ + refusal + " for "@)
            &&& text::contains_text(
                message,
                " for "@ + text::decimal(secs) + "s after `msb ls` had"@,
            )
            &&& text::contains_text(
                message,
                "already confirmed the name clear ("@ + last + ") — msb's own on-disk"@,
            )
            &&& text::contains_text(
                message,
                "state is preserved in checkpoint "@ + reference + ", restorable via"@,
            )
        }),
{
    let message = messages::reboot_kept_refused(name, reference, refusal, secs, last);
    let none = Seq::<char>::empty();
    let one = "re-booting sandbox "@;
    let two = " from checkpoint "@;
    let three = " kept hitting "@;
    let four = " for "@;
    let five = "s after `msb ls` had already confirmed the name clear ("@;
    let six = ") — msb's own on-disk directory release can lag its DB record's own release on a loaded Windows host well past a short wait, but a refusal that never clears this long looks like a genuinely stuck sandbox rather than a release race; the sandbox was removed but its state is preserved in checkpoint "@;
    let seven = ", restorable via Container::from_checkpoint(...)"@;
    reveal_strlit("s after `msb ls` had already confirmed the name clear (");
    reveal_strlit("s after `msb ls` had");
    reveal_strlit("already confirmed the name clear (");
    reveal_strlit(") — msb's own on-disk directory release can lag its DB record's own release on a loaded Windows host well past a short wait, but a refusal that never clears this long looks like a genuinely stuck sandbox rather than a release race; the sandbox was removed but its state is preserved in checkpoint ");
    reveal_strlit(") — msb's own on-disk");
    reveal_strlit("state is preserved in checkpoint ");
    reveal_strlit(", restorable via Container::from_checkpoint(...)");
    reveal_strlit(", restorable via");
    lemma_said_around(
        none,
        one,
        0,
        name,
        two,
        two.len() as int,
        reference + three + refusal + four + text::decimal(secs) + five + last + six + reference + seven,
    );
    assert(one.skip(0) =~= one);
    assert(two.take(two.len() as int) =~= two);
    assert(message =~= none + one + name + two + (reference + three + refusal + four + text::decimal(secs) + five + last + six + reference + seven));
    lemma_said_around(
        one + name,
        two,
        0,
        reference,
        three,
        three.len() as int,
        refusal + four + text::decimal(secs) + five + last + six + reference + seven,
    );
    assert(two.skip(0) =~= two);
    assert(three.take(three.len() as int) =~= three);
    assert(message =~= (one + name) + two + reference + three + (refusal + four + text::decimal(secs) + five + last + six + reference + seven));
    lemma_said_around(
        one + name + two + reference,
        three,
        0,
        refusal,
        four,
        four.len() as int,
        text::decimal(secs) + five + last + six + reference + seven,
    );
    assert(three.skip(0) =~= three);
    assert(four.take(four.len() as int) =~= four);
    assert(message =~= (one + name + two + reference) + three + refusal + four + (text::decimal(secs) + five + last + six + reference + seven));
    lemma_said_around(
        one + name + two + reference + three + refusal,
        four,
        0,
        text::decimal(secs),
        five,
        20,
        last + six + reference + seven,
    );
    assert(four.skip(0) =~= four);
    assert(five.take(20) =~= "s after `msb ls` had"@);
    assert(message =~= (one + name + two + reference + three + refusal) + four + text::decimal(secs) + five + (last + six + reference + seven));
    lemma_said_around(
        one + name + two + reference + three + refusal + four + text::decimal(secs),
        five,
        21,
        last,
        six,
        21,
        reference + seven,
    );
    assert(five.skip(21) =~= "already confirmed the name clear ("@);
    assert(six.take(21) =~= ") — msb's own on-disk"@);
    assert(message =~= (one + name + two + reference + three + refusal + four + text::decimal(secs)) + five + last + six + (reference + seven));
    lemma_said_around(
        one + name + two + reference + three + refusal + four + text::decimal(secs) + five + last,
        six,
        264,
        reference,
        seven,
        16,
        none,
    );
    assert(six.skip(264) =~= "state is preserved in checkpoint "@);
    assert(seven.take(16) =~= ", restorable via"@);
    assert(message =~= (one + name + two + reference + three + refusal + four + text::decimal(secs) + five + last) + six + reference + seven + none);
}

/// [`messages::stop_failed`] tells `name`, `code` and `stderr`, each where it belongs.
pub proof fn law_stop_failed_tells_all(name: Seq<char>, code: int, stderr: Seq<char>)
    ensures
        ({
            let message = messages::stop_failed(name, code, stderr);
            &&& text::contains_text(message, name)
            &&& text::contains_text(message, text::decimal_int(code))
            &&& text::contains_text(message, stderr)
            &&& text::contains_text(message, "msb stop "@ + name + " failed before taking a"@)
            &&& text::contains_text(
                message,
                "before taking a checkpoint (exit "@ + text::decimal_int(code) + "): "@,
            )
            &&& text::contains_text(message, "): "@ + stderr)
        }),
{
    let message = messages::stop_failed(name, code, stderr);
    let none = Seq::<char>::empty();
    let one = "msb stop "@;
    let two = " failed before taking a checkpoint (exit "@;
    let three = "): "@;
    reveal_strlit(" failed before taking a checkpoint (exit ");
    reveal_strlit(" failed before taking a");
    reveal_strlit("before taking a checkpoint (exit ");
    lemma_said_around(none, one, 0, name, two, 23, text::decimal_int(code) + three + stderr);
    assert(one.skip(0) =~= one);
    assert(two.take(23) =~= " failed before taking a"@);
    assert(message =~= none + one + name + two + (text::decimal_int(code) + three + stderr));
    lemma_said_around(
        one + name,
        two,
        8,
        text::decimal_int(code),
        three,
        three.len() as int,
        stderr,
    );
    assert(two.skip(8) =~= "before taking a checkpoint (exit "@);
    assert(three.take(three.len() as int) =~= three);
    assert(message =~= (one + name) + two + text::decimal_int(code) + three + stderr);
    lemma_said_around(
        one + name + two + text::decimal_int(code),
        three,
        0,
        stderr,
        none,
        none.len() as int,
        none,
    );
    assert(three.skip(0) =~= three);
    assert(none.take(none.len() as int) =~= none);
    assert(message =~= (one + name + two + text::decimal_int(code)) + three + stderr + none + none);
    assert("): "@ + stderr + none =~= "): "@ + stderr);
}

/// [`messages::snapshot_exited`] tells `name`, `basename`, `dest_dir`, `code` and `stderr`, each where it belongs.
pub proof fn law_snapshot_exited_tells_all(
    name: Seq<char>,
    basename: Seq<char>,
    dest_dir: Seq<char>,
    code: int,
    stderr: Seq<char>,
)
    ensures
        ({
            let message = messages::snapshot_exited(name, basename, dest_dir, code, stderr);
            &&& text::contains_text(message, name)
            &&& text::contains_text(message, basename)
            &&& text::contains_text(message, dest_dir)
            &&& text::contains_text(message, text::decimal_int(code))
            &&& text::contains_text(message, stderr)
            &&& text::contains_text(message, "snapshot create --from-sandbox "@ + name + " "@)
            &&& text::contains_text(message, " "@ + basename + " --dest-dir "@)
            &&& text::contains_text(message, " --dest-dir "@ + dest_dir + " failed (exit "@)
            &&& text::contains_text(message, " failed (exit "@ + text::decimal_int(code) + "): "@)
            &&& text::contains_text(message, "): "@ + stderr + " — the sandbox is left"@)
            &&& text::contains_text(
                message,
                "is left stopped; run `msb start "@ + name + "` by hand to bring it"@,
            )
        }),
{
    let message = messages::snapshot_exited(name, basename, dest_dir, code, stderr);
    let none = Seq::<char>::empty();
    let one = "msb snapshot create --from-sandbox "@;
    let two = " "@;
    let three = " --dest-dir "@;
    let four = " failed (exit "@;
    let five = "): "@;
    let six = " — the sandbox is left stopped; run `msb start "@;
    let seven = "` by hand to bring it back up"@;
    reveal_strlit("msb snapshot create --from-sandbox ");
    reveal_strlit("snapshot create --from-sandbox ");
    reveal_strlit(" — the sandbox is left stopped; run `msb start ");
    reveal_strlit(" — the sandbox is left");
    reveal_strlit("is left stopped; run `msb start ");
    reveal_strlit("` by hand to bring it back up");
    reveal_strlit("` by hand to bring it");
    lemma_said_around(
        none,
        one,
        4,
        name,
        two,
        two.len() as int,
        basename + three + dest_dir + four + text::decimal_int(code) + five + stderr + six + name + seven,
    );
    assert(one.skip(4) =~= "snapshot create --from-sandbox "@);
    assert(two.take(two.len() as int) =~= two);
    assert(message =~= none + one + name + two + (basename + three + dest_dir + four + text::decimal_int(code) + five + stderr + six + name + seven));
    lemma_said_around(
        one + name,
        two,
        0,
        basename,
        three,
        three.len() as int,
        dest_dir + four + text::decimal_int(code) + five + stderr + six + name + seven,
    );
    assert(two.skip(0) =~= two);
    assert(three.take(three.len() as int) =~= three);
    assert(message =~= (one + name) + two + basename + three + (dest_dir + four + text::decimal_int(code) + five + stderr + six + name + seven));
    lemma_said_around(
        one + name + two + basename,
        three,
        0,
        dest_dir,
        four,
        four.len() as int,
        text::decimal_int(code) + five + stderr + six + name + seven,
    );
    assert(three.skip(0) =~= three);
    assert(four.take(four.len() as int) =~= four);
    assert(message =~= (one + name + two + basename) + three + dest_dir + four + (text::decimal_int(code) + five + stderr + six + name + seven));
    lemma_said_around(
        one + name + two + basename + three + dest_dir,
        four,
        0,
        text::decimal_int(code),
        five,
        five.len() as int,
        stderr + six + name + seven,
    );
    assert(four.skip(0) =~= four);
    assert(five.take(five.len() as int) =~= five);
    assert(message =~= (one + name + two + basename + three + dest_dir) + four + text::decimal_int(code) + five + (stderr + six + name + seven));
    lemma_said_around(
        one + name + two + basename + three + dest_dir + four + text::decimal_int(code),
        five,
        0,
        stderr,
        six,
        22,
        name + seven,
    );
    assert(five.skip(0) =~= five);
    assert(six.take(22) =~= " — the sandbox is left"@);
    assert(message =~= (one + name + two + basename + three + dest_dir + four + text::decimal_int(code)) + five + stderr + six + (name + seven));
    lemma_said_around(
        one + name + two + basename + three + dest_dir + four + text::decimal_int(code) + five + stderr,
        six,
        15,
        name,
        seven,
        21,
        none,
    );
    assert(six.skip(15) =~= "is left stopped; run `msb start "@);
    assert(seven.take(21) =~= "` by hand to bring it"@);
    assert(message =~= (one + name + two + basename + three + dest_dir + four + text::decimal_int(code) + five + stderr) + six + name + seven + none);
}

/// [`messages::snapshot_not_run`] tells `name`, `basename`, `dest_dir` and `error`, each where it belongs.
pub proof fn law_snapshot_not_run_tells_all(
    name: Seq<char>,
    basename: Seq<char>,
    dest_dir: Seq<char>,
    error: Seq<char>,
)
    ensures
        ({
            let message = messages::snapshot_not_run(name, basename, dest_dir, error);
            &&& text::contains_text(message, name)
            &&& text::contains_text(message, basename)
            &&& text::contains_text(message, dest_dir)
            &&& text::contains_text(message, error)
            &&& text::contains_text(message, "snapshot create --from-sandbox "@ + name + " "@)
            &&& text::contains_text(message, " "@ + basename + " --dest-dir "@)
            &&& text::contains_text(message, " --dest-dir "@ + dest_dir + " failed: "@)
            &&& text::contains_text(message, " failed: "@ + error + " — the sandbox is left"@)
            &&& text::contains_text(
                message,
                "is left stopped; run `msb start "@ + name + "` by hand to bring it"@,
            )
        }),
{
    let message = messages::snapshot_not_run(name, basename, dest_dir, error);
    let none = Seq::<char>::empty();
    let one = "msb snapshot create --from-sandbox "@;
    let two = " "@;
    let three = " --dest-dir "@;
    let four = " failed: "@;
    let five = " — the sandbox is left stopped; run `msb start "@;
    let six = "` by hand to bring it back up"@;
    reveal_strlit("msb snapshot create --from-sandbox ");
    reveal_strlit("snapshot create --from-sandbox ");
    reveal_strlit(" — the sandbox is left stopped; run `msb start ");
    reveal_strlit(" — the sandbox is left");
    reveal_strlit("is left stopped; run `msb start ");
    reveal_strlit("` by hand to bring it back up");
    reveal_strlit("` by hand to bring it");
    lemma_said_around(
        none,
        one,
        4,
        name,
        two,
        two.len() as int,
        basename + three + dest_dir + four + error + five + name + six,
    );
    assert(one.skip(4) =~= "snapshot create --from-sandbox "@);
    assert(two.take(two.len() as int) =~= two);
    assert(message =~= none + one + name + two + (basename + three + dest_dir + four + error + five + name + six));
    lemma_said_around(
        one + name,
        two,
        0,
        basename,
        three,
        three.len() as int,
        dest_dir + four + error + five + name + six,
    );
    assert(two.skip(0) =~= two);
    assert(three.take(three.len() as int) =~= three);
    assert(message =~= (one + name) + two + basename + three + (dest_dir + four + error + five + name + six));
    lemma_said_around(
        one + name + two + basename,
        three,
        0,
        dest_dir,
        four,
        four.len() as int,
        error + five + name + six,
    );
    assert(three.skip(0) =~= three);
    assert(four.take(four.len() as int) =~= four);
    assert(message =~= (one + name + two + basename) + three + dest_dir + four + (error + five + name + six));
    lemma_said_around(
        one + name + two + basename + three + dest_dir,
        four,
        0,
        error,
        five,
        22,
        name + six,
    );
    assert(four.skip(0) =~= four);
    assert(five.take(22) =~= " — the sandbox is left"@);
    assert(message =~= (one + name + two + basename + three + dest_dir) + four + error + five + (name + six));
    lemma_said_around(
        one + name + two + basename + three + dest_dir + four + error,
        five,
        15,
        name,
        six,
        21,
        none,
    );
    assert(five.skip(15) =~= "is left stopped; run `msb start "@);
    assert(six.take(21) =~= "` by hand to bring it"@);
    assert(message =~= (one + name + two + basename + three + dest_dir + four + error) + five + name + six + none);
}

/// [`messages::snapshot_unreadable`] tells `name`, `basename`, `dest_dir` and `stdout`, each where it belongs.
pub proof fn law_snapshot_unreadable_tells_all(
    name: Seq<char>,
    basename: Seq<char>,
    dest_dir: Seq<char>,
    stdout: Seq<char>,
)
    ensures
        ({
            let message = messages::snapshot_unreadable(name, basename, dest_dir, stdout);
            &&& text::contains_text(message, name)
            &&& text::contains_text(message, basename)
            &&& text::contains_text(message, dest_dir)
            &&& text::contains_text(message, stdout)
            &&& text::contains_text(message, "snapshot create --from-sandbox "@ + name + " "@)
            &&& text::contains_text(message, " "@ + basename + " --dest-dir "@)
            &&& text::contains_text(message, " --dest-dir "@ + dest_dir + " succeeded but its"@)
            &&& text::contains_text(
                message,
                "is left stopped; run `msb start "@ + name + "` by hand to bring it"@,
            )
            &&& text::contains_text(message, "to bring it back up\nraw stdout:\n"@ + stdout)
        }),
{
    let message = messages::snapshot_unreadable(name, basename, dest_dir, stdout);
    let none = Seq::<char>::empty();
    let one = "msb snapshot create --from-sandbox "@;
    let two = " "@;
    let three = " --dest-dir "@;
    let four = " succeeded but its stdout did not end with a recognizable absolute artifact path — the sandbox is left stopped; run `msb start "@;
    let five = "` by hand to bring it back up\nraw stdout:\n"@;
    reveal_strlit("msb snapshot create --from-sandbox ");
    reveal_strlit("snapshot create --from-sandbox ");
    reveal_strlit(" succeeded but its stdout did not end with a recognizable absolute artifact path — the sandbox is left stopped; run `msb start ");
    reveal_strlit(" succeeded but its");
    reveal_strlit("is left stopped; run `msb start ");
    reveal_strlit("` by hand to bring it back up\nraw stdout:\n");
    reveal_strlit("` by hand to bring it");
    reveal_strlit("to bring it back up\nraw stdout:\n");
    lemma_said_around(
        none,
        one,
        4,
        name,
        two,
        two.len() as int,
        basename + three + dest_dir + four + name + five + stdout,
    );
    assert(one.skip(4) =~= "snapshot create --from-sandbox "@);
    assert(two.take(two.len() as int) =~= two);
    assert(message =~= none + one + name + two + (basename + three + dest_dir + four + name + five + stdout));
    lemma_said_around(
        one + name,
        two,
        0,
        basename,
        three,
        three.len() as int,
        dest_dir + four + name + five + stdout,
    );
    assert(two.skip(0) =~= two);
    assert(three.take(three.len() as int) =~= three);
    assert(message =~= (one + name) + two + basename + three + (dest_dir + four + name + five + stdout));
    lemma_said_around(
        one + name + two + basename,
        three,
        0,
        dest_dir,
        four,
        18,
        name + five + stdout,
    );
    assert(three.skip(0) =~= three);
    assert(four.take(18) =~= " succeeded but its"@);
    assert(message =~= (one + name + two + basename) + three + dest_dir + four + (name + five + stdout));
    lemma_said_around(
        one + name + two + basename + three + dest_dir,
        four,
        95,
        name,
        five,
        21,
        stdout,
    );
    assert(four.skip(95) =~= "is left stopped; run `msb start "@);
    assert(five.take(21) =~= "` by hand to bring it"@);
    assert(message =~= (one + name + two + basename + three + dest_dir) + four + name + five + stdout);
    lemma_said_around(
        one + name + two + basename + three + dest_dir + four + name,
        five,
        10,
        stdout,
        none,
        none.len() as int,
        none,
    );
    assert(five.skip(10) =~= "to bring it back up\nraw stdout:\n"@);
    assert(none.take(none.len() as int) =~= none);
    assert(message =~= (one + name + two + basename + three + dest_dir + four + name) + five + stdout + none + none);
    assert("to bring it back up\nraw stdout:\n"@ + stdout + none =~= "to bring it back up\nraw stdout:\n"@ + stdout);
}

/// [`messages::name_not_released`] tells `name` and `secs`, each where it belongs.
pub proof fn law_name_not_released_tells_all(name: Seq<char>, secs: nat)
    ensures
        ({
            let message = messages::name_not_released(name, secs);
            &&& text::contains_text(message, name)
            &&& text::contains_text(message, text::decimal(secs))
            &&& text::contains_text(message, "sandbox "@ + name + " still shows up in `msb"@)
            &&& text::contains_text(
                message,
                "itself never confirmed it absent) "@ + text::decimal(secs) + "s after `msb rm "@,
            )
            &&& text::contains_text(message, "s after `msb rm "@ + name + "` — msb's own teardown"@)
            &&& text::contains_text(
                message,
                "slow; check `msb ls` and `msb rm "@ + name + "` by hand"@,
            )
        }),
{
    let message = messages::name_not_released(name, secs);
    let none = Seq::<char>::empty();
    let one = "sandbox "@;
    let two = " still shows up in `msb ls` (or `msb ls` itself never confirmed it absent) "@;
    let three = "s after `msb rm "@;
    let four = "` — msb's own teardown normally frees a removed sandbox's name well within that, so this looks stuck rather than merely slow; check `msb ls` and `msb rm "@;
    let five = "` by hand"@;
    reveal_strlit(" still shows up in `msb ls` (or `msb ls` itself never confirmed it absent) ");
    reveal_strlit(" still shows up in `msb");
    reveal_strlit("itself never confirmed it absent) ");
    reveal_strlit("` — msb's own teardown normally frees a removed sandbox's name well within that, so this looks stuck rather than merely slow; check `msb ls` and `msb rm ");
    reveal_strlit("` — msb's own teardown");
    reveal_strlit("slow; check `msb ls` and `msb rm ");
    lemma_said_around(
        none,
        one,
        0,
        name,
        two,
        23,
        text::decimal(secs) + three + name + four + name + five,
    );
    assert(one.skip(0) =~= one);
    assert(two.take(23) =~= " still shows up in `msb"@);
    assert(message =~= none + one + name + two + (text::decimal(secs) + three + name + four + name + five));
    lemma_said_around(
        one + name,
        two,
        41,
        text::decimal(secs),
        three,
        three.len() as int,
        name + four + name + five,
    );
    assert(two.skip(41) =~= "itself never confirmed it absent) "@);
    assert(three.take(three.len() as int) =~= three);
    assert(message =~= (one + name) + two + text::decimal(secs) + three + (name + four + name + five));
    lemma_said_around(
        one + name + two + text::decimal(secs),
        three,
        0,
        name,
        four,
        22,
        name + five,
    );
    assert(three.skip(0) =~= three);
    assert(four.take(22) =~= "` — msb's own teardown"@);
    assert(message =~= (one + name + two + text::decimal(secs)) + three + name + four + (name + five));
    lemma_said_around(
        one + name + two + text::decimal(secs) + three + name,
        four,
        120,
        name,
        five,
        five.len() as int,
        none,
    );
    assert(four.skip(120) =~= "slow; check `msb ls` and `msb rm "@);
    assert(five.take(five.len() as int) =~= five);
    assert(message =~= (one + name + two + text::decimal(secs) + three + name) + four + name + five + none);
}

/// [`messages::state_preserved`] tells `error` and `reference`, each where it belongs.
pub proof fn law_state_preserved_tells_all(error: Seq<char>, reference: Seq<char>)
    ensures
        ({
            let message = messages::state_preserved(error, reference);
            &&& text::contains_text(message, error)
            &&& text::contains_text(message, reference)
            &&& text::contains_text(message, error + " — the sandbox's disk"@)
            &&& text::contains_text(
                message,
                "state is preserved in checkpoint "@ + reference + ", restorable via"@,
            )
        }),
{
    let message = messages::state_preserved(error, reference);
    let none = Seq::<char>::empty();
    let one = " — the sandbox's disk state is preserved in checkpoint "@;
    let two = ", restorable via Container::from_checkpoint(...)"@;
    reveal_strlit(" — the sandbox's disk state is preserved in checkpoint ");
    reveal_strlit(" — the sandbox's disk");
    reveal_strlit("state is preserved in checkpoint ");
    reveal_strlit(", restorable via Container::from_checkpoint(...)");
    reveal_strlit(", restorable via");
    lemma_said_around(none, none, 0, error, one, 21, reference + two);
    assert(none.skip(0) =~= none);
    assert(one.take(21) =~= " — the sandbox's disk"@);
    assert(message =~= none + none + error + one + (reference + two));
    assert(none + error + " — the sandbox's disk"@ =~= error + " — the sandbox's disk"@);
    lemma_said_around(error, one, 22, reference, two, 16, none);
    assert(one.skip(22) =~= "state is preserved in checkpoint "@);
    assert(two.take(16) =~= ", restorable via"@);
    assert(message =~= error + one + reference + two + none);
}

/// [`messages::export_failed`] tells `reference`, `dest`, `code` and `stderr`, each where it belongs.
pub proof fn law_export_failed_tells_all(
    reference: Seq<char>,
    dest: Seq<char>,
    code: int,
    stderr: Seq<char>,
)
    ensures
        ({
            let message = messages::export_failed(reference, dest, code, stderr);
            &&& text::contains_text(message, reference)
            &&& text::contains_text(message, dest)
            &&& text::contains_text(message, text::decimal_int(code))
            &&& text::contains_text(message, stderr)
            &&& text::contains_text(message, "msb snapshot save "@ + reference + " "@)
            &&& text::contains_text(message, " "@ + dest + " failed (exit "@)
            &&& text::contains_text(message, " failed (exit "@ + text::decimal_int(code) + "): "@)
            &&& text::contains_text(message, "): "@ + stderr)
        }),
{
    let message = messages::export_failed(reference, dest, code, stderr);
    let none = Seq::<char>::empty();
    let one = "msb snapshot save "@;
    let two = " "@;
    let three = " failed (exit "@;
    let four = "): "@;
    lemma_said_around(
        none,
        one,
        0,
        reference,
        two,
        two.len() as int,
        dest + three + text::decimal_int(code) + four + stderr,
    );
    assert(one.skip(0) =~= one);
    assert(two.take(two.len() as int) =~= two);
    assert(message =~= none + one + reference + two + (dest + three + text::decimal_int(code) + four + stderr));
    lemma_said_around(
        one + reference,
        two,
        0,
        dest,
        three,
        three.len() as int,
        text::decimal_int(code) + four + stderr,
    );
    assert(two.skip(0) =~= two);
    assert(three.take(three.len() as int) =~= three);
    assert(message =~= (one + reference) + two + dest + three + (text::decimal_int(code) + four + stderr));
    lemma_said_around(
        one + reference + two + dest,
        three,
        0,
        text::decimal_int(code),
        four,
        four.len() as int,
        stderr,
    );
    assert(three.skip(0) =~= three);
    assert(four.take(four.len() as int) =~= four);
    assert(message =~= (one + reference + two + dest) + three + text::decimal_int(code) + four + stderr);
    lemma_said_around(
        one + reference + two + dest + three + text::decimal_int(code),
        four,
        0,
        stderr,
        none,
        none.len() as int,
        none,
    );
    assert(four.skip(0) =~= four);
    assert(none.take(none.len() as int) =~= none);
    assert(message =~= (one + reference + two + dest + three + text::decimal_int(code)) + four + stderr + none + none);
    assert("): "@ + stderr + none =~= "): "@ + stderr);
}

/// [`messages::import_failed`] tells `code` and `stderr`, each where it belongs.
pub proof fn law_import_failed_tells_all(code: int, stderr: Seq<char>)
    ensures
        ({
            let message = messages::import_failed(code, stderr);
            &&& text::contains_text(message, text::decimal_int(code))
            &&& text::contains_text(message, stderr)
            &&& text::contains_text(
                message,
                "msb snapshot load failed (exit "@ + text::decimal_int(code) + "): "@,
            )
            &&& text::contains_text(message, "): "@ + stderr)
        }),
{
    let message = messages::import_failed(code, stderr);
    let none = Seq::<char>::empty();
    let one = "msb snapshot load failed (exit "@;
    let two = "): "@;
    lemma_said_around(none, one, 0, text::decimal_int(code), two, two.len() as int, stderr);
    assert(one.skip(0) =~= one);
    assert(two.take(two.len() as int) =~= two);
    assert(message =~= none + one + text::decimal_int(code) + two + stderr);
    lemma_said_around(one + text::decimal_int(code), two, 0, stderr, none, none.len() as int, none);
    assert(two.skip(0) =~= two);
    assert(none.take(none.len() as int) =~= none);
    assert(message =~= (one + text::decimal_int(code)) + two + stderr + none + none);
    assert("): "@ + stderr + none =~= "): "@ + stderr);
}

/// [`messages::import_unreadable`] tells `stdout` and `stderr`, each where it belongs.
pub proof fn law_import_unreadable_tells_all(stdout: Seq<char>, stderr: Seq<char>)
    ensures
        ({
            let message = messages::import_unreadable(stdout, stderr);
            &&& text::contains_text(message, stdout)
            &&& text::contains_text(message, stderr)
            &&& text::contains_text(
                message,
                "in stderr either\nraw stdout:\n"@ + stdout + "\nraw stderr:\n"@,
            )
            &&& text::contains_text(message, "\nraw stderr:\n"@ + stderr)
        }),
{
    let message = messages::import_unreadable(stdout, stderr);
    let none = Seq::<char>::empty();
    let one = "msb snapshot load succeeded but its stdout did not end with a recognizable absolute artifact path, and no fallback path was found in stderr either\nraw stdout:\n"@;
    let two = "\nraw stderr:\n"@;
    reveal_strlit("msb snapshot load succeeded but its stdout did not end with a recognizable absolute artifact path, and no fallback path was found in stderr either\nraw stdout:\n");
    reveal_strlit("in stderr either\nraw stdout:\n");
    lemma_said_around(none, one, 130, stdout, two, two.len() as int, stderr);
    assert(one.skip(130) =~= "in stderr either\nraw stdout:\n"@);
    assert(two.take(two.len() as int) =~= two);
    assert(message =~= none + one + stdout + two + stderr);
    lemma_said_around(one + stdout, two, 0, stderr, none, none.len() as int, none);
    assert(two.skip(0) =~= two);
    assert(none.take(none.len() as int) =~= none);
    assert(message =~= (one + stdout) + two + stderr + none + none);
    assert("\nraw stderr:\n"@ + stderr + none =~= "\nraw stderr:\n"@ + stderr);
}

/// [`messages::checkpoint_not_removed`] tells `reference`, `code` and `stderr`, each where it belongs.
pub proof fn law_checkpoint_not_removed_tells_all(
    reference: Seq<char>,
    code: int,
    stderr: Seq<char>,
)
    ensures
        ({
            let message = messages::checkpoint_not_removed(reference, code, stderr);
            &&& text::contains_text(message, reference)
            &&& text::contains_text(message, text::decimal_int(code))
            &&& text::contains_text(message, stderr)
            &&& text::contains_text(
                message,
                "msb could not remove checkpoint '"@ + reference + "' (exit "@,
            )
            &&& text::contains_text(message, "' (exit "@ + text::decimal_int(code) + "): "@)
            &&& text::contains_text(message, "): "@ + stderr)
        }),
{
    let message = messages::checkpoint_not_removed(reference, code, stderr);
    let none = Seq::<char>::empty();
    let one = "msb could not remove checkpoint '"@;
    let two = "' (exit "@;
    let three = "): "@;
    lemma_said_around(
        none,
        one,
        0,
        reference,
        two,
        two.len() as int,
        text::decimal_int(code) + three + stderr,
    );
    assert(one.skip(0) =~= one);
    assert(two.take(two.len() as int) =~= two);
    assert(message =~= none + one + reference + two + (text::decimal_int(code) + three + stderr));
    lemma_said_around(
        one + reference,
        two,
        0,
        text::decimal_int(code),
        three,
        three.len() as int,
        stderr,
    );
    assert(two.skip(0) =~= two);
    assert(three.take(three.len() as int) =~= three);
    assert(message =~= (one + reference) + two + text::decimal_int(code) + three + stderr);
    lemma_said_around(
        one + reference + two + text::decimal_int(code),
        three,
        0,
        stderr,
        none,
        none.len() as int,
        none,
    );
    assert(three.skip(0) =~= three);
    assert(none.take(none.len() as int) =~= none);
    assert(message =~= (one + reference + two + text::decimal_int(code)) + three + stderr + none + none);
    assert("): "@ + stderr + none =~= "): "@ + stderr);
}

/// [`messages::checkpoint_not_inspected`] tells `reference`, `code` and `stderr`, each where it belongs.
pub proof fn law_checkpoint_not_inspected_tells_all(
    reference: Seq<char>,
    code: int,
    stderr: Seq<char>,
)
    ensures
        ({
            let message = messages::checkpoint_not_inspected(reference, code, stderr);
            &&& text::contains_text(message, reference)
            &&& text::contains_text(message, text::decimal_int(code))
            &&& text::contains_text(message, stderr)
            &&& text::contains_text(
                message,
                "msb could not inspect checkpoint '"@ + reference + "' (exit "@,
            )
            &&& text::contains_text(message, "' (exit "@ + text::decimal_int(code) + "): "@)
            &&& text::contains_text(message, "): "@ + stderr)
        }),
{
    let message = messages::checkpoint_not_inspected(reference, code, stderr);
    let none = Seq::<char>::empty();
    let one = "msb could not inspect checkpoint '"@;
    let two = "' (exit "@;
    let three = "): "@;
    lemma_said_around(
        none,
        one,
        0,
        reference,
        two,
        two.len() as int,
        text::decimal_int(code) + three + stderr,
    );
    assert(one.skip(0) =~= one);
    assert(two.take(two.len() as int) =~= two);
    assert(message =~= none + one + reference + two + (text::decimal_int(code) + three + stderr));
    lemma_said_around(
        one + reference,
        two,
        0,
        text::decimal_int(code),
        three,
        three.len() as int,
        stderr,
    );
    assert(two.skip(0) =~= two);
    assert(three.take(three.len() as int) =~= three);
    assert(message =~= (one + reference) + two + text::decimal_int(code) + three + stderr);
    lemma_said_around(
        one + reference + two + text::decimal_int(code),
        three,
        0,
        stderr,
        none,
        none.len() as int,
        none,
    );
    assert(three.skip(0) =~= three);
    assert(none.take(none.len() as int) =~= none);
    assert(message =~= (one + reference + two + text::decimal_int(code)) + three + stderr + none + none);
    assert("): "@ + stderr + none =~= "): "@ + stderr);
}

/// [`messages::copy_in_failed`] tells `name`, `code` and `stderr`, each where it belongs.
pub proof fn law_copy_in_failed_tells_all(name: Seq<char>, code: int, stderr: Seq<char>)
    ensures
        ({
            let message = messages::copy_in_failed(name, code, stderr);
            &&& text::contains_text(message, name)
            &&& text::contains_text(message, text::decimal_int(code))
            &&& text::contains_text(message, stderr)
            &&& text::contains_text(message, "msb copy into sandbox "@ + name + " failed (exit "@)
            &&& text::contains_text(message, " failed (exit "@ + text::decimal_int(code) + "): "@)
            &&& text::contains_text(message, "): "@ + stderr)
        }),
{
    let message = messages::copy_in_failed(name, code, stderr);
    let none = Seq::<char>::empty();
    let one = "msb copy into sandbox "@;
    let two = " failed (exit "@;
    let three = "): "@;
    lemma_said_around(
        none,
        one,
        0,
        name,
        two,
        two.len() as int,
        text::decimal_int(code) + three + stderr,
    );
    assert(one.skip(0) =~= one);
    assert(two.take(two.len() as int) =~= two);
    assert(message =~= none + one + name + two + (text::decimal_int(code) + three + stderr));
    lemma_said_around(
        one + name,
        two,
        0,
        text::decimal_int(code),
        three,
        three.len() as int,
        stderr,
    );
    assert(two.skip(0) =~= two);
    assert(three.take(three.len() as int) =~= three);
    assert(message =~= (one + name) + two + text::decimal_int(code) + three + stderr);
    lemma_said_around(
        one + name + two + text::decimal_int(code),
        three,
        0,
        stderr,
        none,
        none.len() as int,
        none,
    );
    assert(three.skip(0) =~= three);
    assert(none.take(none.len() as int) =~= none);
    assert(message =~= (one + name + two + text::decimal_int(code)) + three + stderr + none + none);
    assert("): "@ + stderr + none =~= "): "@ + stderr);
}

/// [`messages::copy_out_failed`] tells `name`, `code` and `stderr`, each where it belongs.
pub proof fn law_copy_out_failed_tells_all(name: Seq<char>, code: int, stderr: Seq<char>)
    ensures
        ({
            let message = messages::copy_out_failed(name, code, stderr);
            &&& text::contains_text(message, name)
            &&& text::contains_text(message, text::decimal_int(code))
            &&& text::contains_text(message, stderr)
            &&& text::contains_text(message, "msb copy out of sandbox "@ + name + " failed (exit "@)
            &&& text::contains_text(message, " failed (exit "@ + text::decimal_int(code) + "): "@)
            &&& text::contains_text(message, "): "@ + stderr)
        }),
{
    let message = messages::copy_out_failed(name, code, stderr);
    let none = Seq::<char>::empty();
    let one = "msb copy out of sandbox "@;
    let two = " failed (exit "@;
    let three = "): "@;
    lemma_said_around(
        none,
        one,
        0,
        name,
        two,
        two.len() as int,
        text::decimal_int(code) + three + stderr,
    );
    assert(one.skip(0) =~= one);
    assert(two.take(two.len() as int) =~= two);
    assert(message =~= none + one + name + two + (text::decimal_int(code) + three + stderr));
    lemma_said_around(
        one + name,
        two,
        0,
        text::decimal_int(code),
        three,
        three.len() as int,
        stderr,
    );
    assert(two.skip(0) =~= two);
    assert(three.take(three.len() as int) =~= three);
    assert(message =~= (one + name) + two + text::decimal_int(code) + three + stderr);
    lemma_said_around(
        one + name + two + text::decimal_int(code),
        three,
        0,
        stderr,
        none,
        none.len() as int,
        none,
    );
    assert(three.skip(0) =~= three);
    assert(none.take(none.len() as int) =~= none);
    assert(message =~= (one + name + two + text::decimal_int(code)) + three + stderr + none + none);
    assert("): "@ + stderr + none =~= "): "@ + stderr);
}

/// [`messages::command_timed_out`] tells `args` and `secs`, each where it belongs.
pub proof fn law_command_timed_out_tells_all(args: Seq<char>, secs: nat)
    ensures
        ({
            let message = messages::command_timed_out(args, secs);
            &&& text::contains_text(message, args)
            &&& text::contains_text(message, text::decimal(secs))
            &&& text::contains_text(message, "msb "@ + args + " timed out after "@)
            &&& text::contains_text(
                message,
                " timed out after "@ + text::decimal(secs) + "s and was force-killed"@,
            )
        }),
{
    let message = messages::command_timed_out(args, secs);
    let none = Seq::<char>::empty();
    let one = "msb "@;
    let two = " timed out after "@;
    let three = "s and was force-killed"@;
    lemma_said_around(none, one, 0, args, two, two.len() as int, text::decimal(secs) + three);
    assert(one.skip(0) =~= one);
    assert(two.take(two.len() as int) =~= two);
    assert(message =~= none + one + args + two + (text::decimal(secs) + three));
    lemma_said_around(one + args, two, 0, text::decimal(secs), three, three.len() as int, none);
    assert(two.skip(0) =~= two);
    assert(three.take(three.len() as int) =~= three);
    assert(message =~= (one + args) + two + text::decimal(secs) + three + none);
}

/// [`messages::daemon_timed_out`] tells `args` and `secs`, each where it belongs.
pub proof fn law_daemon_timed_out_tells_all(args: Seq<char>, secs: nat)
    ensures
        ({
            let message = messages::daemon_timed_out(args, secs);
            &&& text::contains_text(message, args)
            &&& text::contains_text(message, text::decimal(secs))
            &&& text::contains_text(message, "msb "@ + args + " timed out after "@)
            &&& text::contains_text(
                message,
                " timed out after "@ + text::decimal(secs) + "s and was force-killed —"@,
            )
        }),
{
    let message = messages::daemon_timed_out(args, secs);
    let none = Seq::<char>::empty();
    let one = "msb "@;
    let two = " timed out after "@;
    let three = "s and was force-killed — the msb daemon may be overloaded or unresponsive; retry, or check `msb` directly"@;
    reveal_strlit("s and was force-killed — the msb daemon may be overloaded or unresponsive; retry, or check `msb` directly");
    reveal_strlit("s and was force-killed —");
    lemma_said_around(none, one, 0, args, two, two.len() as int, text::decimal(secs) + three);
    assert(one.skip(0) =~= one);
    assert(two.take(two.len() as int) =~= two);
    assert(message =~= none + one + args + two + (text::decimal(secs) + three));
    lemma_said_around(one + args, two, 0, text::decimal(secs), three, 24, none);
    assert(two.skip(0) =~= two);
    assert(three.take(24) =~= "s and was force-killed —"@);
    assert(message =~= (one + args) + two + text::decimal(secs) + three + none);
}

/// [`messages::logs_failed`] tells `name`, `code` and `stderr`, each where it belongs.
pub proof fn law_logs_failed_tells_all(name: Seq<char>, code: int, stderr: Seq<char>)
    ensures
        ({
            let message = messages::logs_failed(name, code, stderr);
            &&& text::contains_text(message, name)
            &&& text::contains_text(message, text::decimal_int(code))
            &&& text::contains_text(message, stderr)
            &&& text::contains_text(message, "msb logs "@ + name + " --tail 1000 exited "@)
            &&& text::contains_text(
                message,
                " --tail 1000 exited "@ + text::decimal_int(code) + ": "@,
            )
            &&& text::contains_text(message, ": "@ + stderr)
        }),
{
    let message = messages::logs_failed(name, code, stderr);
    let none = Seq::<char>::empty();
    let one = "msb logs "@;
    let two = " --tail 1000 exited "@;
    let three = ": "@;
    lemma_said_around(
        none,
        one,
        0,
        name,
        two,
        two.len() as int,
        text::decimal_int(code) + three + stderr,
    );
    assert(one.skip(0) =~= one);
    assert(two.take(two.len() as int) =~= two);
    assert(message =~= none + one + name + two + (text::decimal_int(code) + three + stderr));
    lemma_said_around(
        one + name,
        two,
        0,
        text::decimal_int(code),
        three,
        three.len() as int,
        stderr,
    );
    assert(two.skip(0) =~= two);
    assert(three.take(three.len() as int) =~= three);
    assert(message =~= (one + name) + two + text::decimal_int(code) + three + stderr);
    lemma_said_around(
        one + name + two + text::decimal_int(code),
        three,
        0,
        stderr,
        none,
        none.len() as int,
        none,
    );
    assert(three.skip(0) =~= three);
    assert(none.take(none.len() as int) =~= none);
    assert(message =~= (one + name + two + text::decimal_int(code)) + three + stderr + none + none);
    assert(": "@ + stderr + none =~= ": "@ + stderr);
}

/// [`messages::ls_failed`] tells `code` and `stderr`, each where it belongs.
pub proof fn law_ls_failed_tells_all(code: int, stderr: Seq<char>)
    ensures
        ({
            let message = messages::ls_failed(code, stderr);
            &&& text::contains_text(message, text::decimal_int(code))
            &&& text::contains_text(message, stderr)
            &&& text::contains_text(
                message,
                "msb ls --format json exited "@ + text::decimal_int(code) + ": "@,
            )
            &&& text::contains_text(message, ": "@ + stderr)
        }),
{
    let message = messages::ls_failed(code, stderr);
    let none = Seq::<char>::empty();
    let one = "msb ls --format json exited "@;
    let two = ": "@;
    lemma_said_around(none, one, 0, text::decimal_int(code), two, two.len() as int, stderr);
    assert(one.skip(0) =~= one);
    assert(two.take(two.len() as int) =~= two);
    assert(message =~= none + one + text::decimal_int(code) + two + stderr);
    lemma_said_around(one + text::decimal_int(code), two, 0, stderr, none, none.len() as int, none);
    assert(two.skip(0) =~= two);
    assert(none.take(none.len() as int) =~= none);
    assert(message =~= (one + text::decimal_int(code)) + two + stderr + none + none);
    assert(": "@ + stderr + none =~= ": "@ + stderr);
}

/// [`messages::duplicate_port`] tells `port`, where it belongs.
pub proof fn law_duplicate_port_tells_all(port: nat)
    ensures
        ({
            let message = messages::duplicate_port(port);
            &&& text::contains_text(message, text::decimal(port))
            &&& text::contains_text(
                message,
                "exposing the same guest port "@ + text::decimal(port) + " on one network"@,
            )
        }),
{
    let message = messages::duplicate_port(port);
    let none = Seq::<char>::empty();
    let one = "two siblings exposing the same guest port "@;
    let two = " on one network"@;
    reveal_strlit("two siblings exposing the same guest port ");
    reveal_strlit("exposing the same guest port ");
    lemma_said_around(none, one, 13, text::decimal(port), two, two.len() as int, none);
    assert(one.skip(13) =~= "exposing the same guest port "@);
    assert(two.take(two.len() as int) =~= two);
    assert(message =~= none + one + text::decimal(port) + two + none);
}

/// [`messages::bad_alias`] tells `alias`, where it belongs.
pub proof fn law_bad_alias_tells_all(alias: Seq<char>)
    ensures
        ({
            let message = messages::bad_alias(alias);
            &&& text::contains_text(message, alias)
            &&& text::contains_text(message, "network alias '"@ + alias + "'"@)
        }),
{
    let message = messages::bad_alias(alias);
    let none = Seq::<char>::empty();
    let one = "network alias '"@;
    let two = "'"@;
    lemma_said_around(none, one, 0, alias, two, two.len() as int, none);
    assert(one.skip(0) =~= one);
    assert(two.take(two.len() as int) =~= two);
    assert(message =~= none + one + alias + two + none);
}

/// [`messages::links_need_nc`] tells `image`, where it belongs.
pub proof fn law_links_need_nc_tells_all(image: Seq<char>)
    ensures
        ({
            let message = messages::links_need_nc(image);
            &&& text::contains_text(message, image)
            &&& text::contains_text(message, "(no nc/busybox in consumer image '"@ + image + "')"@)
        }),
{
    let message = messages::links_need_nc(image);
    let none = Seq::<char>::empty();
    let one = "network links (no nc/busybox in consumer image '"@;
    let two = "')"@;
    reveal_strlit("network links (no nc/busybox in consumer image '");
    reveal_strlit("(no nc/busybox in consumer image '");
    lemma_said_around(none, one, 14, image, two, two.len() as int, none);
    assert(one.skip(14) =~= "(no nc/busybox in consumer image '"@);
    assert(two.take(two.len() as int) =~= two);
    assert(message =~= none + one + image + two + none);
}

/// [`messages::udp_links_need_nc`] tells `image`, where it belongs.
pub proof fn law_udp_links_need_nc_tells_all(image: Seq<char>)
    ensures
        ({
            let message = messages::udp_links_need_nc(image);
            &&& text::contains_text(message, image)
            &&& text::contains_text(
                message,
                "network links (consumer image '"@ + image + "' has no busybox-style"@,
            )
        }),
{
    let message = messages::udp_links_need_nc(image);
    let none = Seq::<char>::empty();
    let one = "UDP network links (consumer image '"@;
    let two = "' has no busybox-style nc with -u/-e, or no timeout)"@;
    reveal_strlit("UDP network links (consumer image '");
    reveal_strlit("network links (consumer image '");
    reveal_strlit("' has no busybox-style nc with -u/-e, or no timeout)");
    reveal_strlit("' has no busybox-style");
    lemma_said_around(none, one, 4, image, two, 22, none);
    assert(one.skip(4) =~= "network links (consumer image '"@);
    assert(two.take(22) =~= "' has no busybox-style"@);
    assert(message =~= none + one + image + two + none);
}

/// [`messages::aliases_not_installed`] tells `name` and `stderr`, each where it belongs.
pub proof fn law_aliases_not_installed_tells_all(name: Seq<char>, stderr: Seq<char>)
    ensures
        ({
            let message = messages::aliases_not_installed(name, stderr);
            &&& text::contains_text(message, name)
            &&& text::contains_text(message, stderr)
            &&& text::contains_text(message, "to install /etc/hosts aliases in "@ + name + ": "@)
            &&& text::contains_text(message, ": "@ + stderr)
        }),
{
    let message = messages::aliases_not_installed(name, stderr);
    let none = Seq::<char>::empty();
    let one = "failed to install /etc/hosts aliases in "@;
    let two = ": "@;
    reveal_strlit("failed to install /etc/hosts aliases in ");
    reveal_strlit("to install /etc/hosts aliases in ");
    lemma_said_around(none, one, 7, name, two, two.len() as int, stderr);
    assert(one.skip(7) =~= "to install /etc/hosts aliases in "@);
    assert(two.take(two.len() as int) =~= two);
    assert(message =~= none + one + name + two + stderr);
    lemma_said_around(one + name, two, 0, stderr, none, none.len() as int, none);
    assert(two.skip(0) =~= two);
    assert(none.take(none.len() as int) =~= none);
    assert(message =~= (one + name) + two + stderr + none + none);
    assert(": "@ + stderr + none =~= ": "@ + stderr);
}

/// [`messages::forwarder_not_installed`] tells `port`, `name` and `stderr`, each where it belongs.
pub proof fn law_forwarder_not_installed_tells_all(port: nat, name: Seq<char>, stderr: Seq<char>)
    ensures
        ({
            let message = messages::forwarder_not_installed(port, name, stderr);
            &&& text::contains_text(message, text::decimal(port))
            &&& text::contains_text(message, name)
            &&& text::contains_text(message, stderr)
            &&& text::contains_text(
                message,
                "UDP link forwarder for guest port "@ + text::decimal(port) + " in "@,
            )
            &&& text::contains_text(message, " in "@ + name + ": "@)
            &&& text::contains_text(message, ": "@ + stderr)
        }),
{
    let message = messages::forwarder_not_installed(port, name, stderr);
    let none = Seq::<char>::empty();
    let one = "failed to install the UDP link forwarder for guest port "@;
    let two = " in "@;
    let three = ": "@;
    reveal_strlit("failed to install the UDP link forwarder for guest port ");
    reveal_strlit("UDP link forwarder for guest port ");
    lemma_said_around(
        none,
        one,
        22,
        text::decimal(port),
        two,
        two.len() as int,
        name + three + stderr,
    );
    assert(one.skip(22) =~= "UDP link forwarder for guest port "@);
    assert(two.take(two.len() as int) =~= two);
    assert(message =~= none + one + text::decimal(port) + two + (name + three + stderr));
    lemma_said_around(one + text::decimal(port), two, 0, name, three, three.len() as int, stderr);
    assert(two.skip(0) =~= two);
    assert(three.take(three.len() as int) =~= three);
    assert(message =~= (one + text::decimal(port)) + two + name + three + stderr);
    lemma_said_around(
        one + text::decimal(port) + two + name,
        three,
        0,
        stderr,
        none,
        none.len() as int,
        none,
    );
    assert(three.skip(0) =~= three);
    assert(none.take(none.len() as int) =~= none);
    assert(message =~= (one + text::decimal(port) + two + name) + three + stderr + none + none);
    assert(": "@ + stderr + none =~= ": "@ + stderr);
}

/// [`messages::forwarder_not_bound`] tells `port`, `name`, `timeout` and `tail`, each where it belongs.
pub proof fn law_forwarder_not_bound_tells_all(
    port: nat,
    name: Seq<char>,
    timeout: Seq<char>,
    tail: Seq<char>,
)
    ensures
        ({
            let message = messages::forwarder_not_bound(port, name, timeout, tail);
            &&& text::contains_text(message, text::decimal(port))
            &&& text::contains_text(message, name)
            &&& text::contains_text(message, timeout)
            &&& text::contains_text(message, tail)
            &&& text::contains_text(
                message,
                "UDP link forwarder for guest port "@ + text::decimal(port) + " in "@,
            )
            &&& text::contains_text(message, " in "@ + name + " never bound within "@)
            &&& text::contains_text(
                message,
                " never bound within "@ + timeout + " — forwarder log tail: "@,
            )
            &&& text::contains_text(message, " — forwarder log tail: "@ + tail)
        }),
{
    let message = messages::forwarder_not_bound(port, name, timeout, tail);
    let none = Seq::<char>::empty();
    let one = "UDP link forwarder for guest port "@;
    let two = " in "@;
    let three = " never bound within "@;
    let four = " — forwarder log tail: "@;
    lemma_said_around(
        none,
        one,
        0,
        text::decimal(port),
        two,
        two.len() as int,
        name + three + timeout + four + tail,
    );
    assert(one.skip(0) =~= one);
    assert(two.take(two.len() as int) =~= two);
    assert(message =~= none + one + text::decimal(port) + two + (name + three + timeout + four + tail));
    lemma_said_around(
        one + text::decimal(port),
        two,
        0,
        name,
        three,
        three.len() as int,
        timeout + four + tail,
    );
    assert(two.skip(0) =~= two);
    assert(three.take(three.len() as int) =~= three);
    assert(message =~= (one + text::decimal(port)) + two + name + three + (timeout + four + tail));
    lemma_said_around(
        one + text::decimal(port) + two + name,
        three,
        0,
        timeout,
        four,
        four.len() as int,
        tail,
    );
    assert(three.skip(0) =~= three);
    assert(four.take(four.len() as int) =~= four);
    assert(message =~= (one + text::decimal(port) + two + name) + three + timeout + four + tail);
    lemma_said_around(
        one + text::decimal(port) + two + name + three + timeout,
        four,
        0,
        tail,
        none,
        none.len() as int,
        none,
    );
    assert(four.skip(0) =~= four);
    assert(none.take(none.len() as int) =~= none);
    assert(message =~= (one + text::decimal(port) + two + name + three + timeout) + four + tail + none + none);
    assert(" — forwarder log tail: "@ + tail + none =~= " — forwarder log tail: "@ + tail);
}

/// [`messages::msb_path_not_executable`] tells `path`, where it belongs.
pub proof fn law_msb_path_not_executable_tells_all(path: Seq<char>)
    ensures
        ({
            let message = messages::msb_path_not_executable(path);
            &&& text::contains_text(message, path)
            &&& text::contains_text(message, "MSB_PATH='"@ + path + "' is not an executable"@)
        }),
{
    let message = messages::msb_path_not_executable(path);
    let none = Seq::<char>::empty();
    let one = "MSB_PATH='"@;
    let two = "' is not an executable file — point it at a real msb binary, or unset it to use the provisioned toolchain instead"@;
    reveal_strlit("' is not an executable file — point it at a real msb binary, or unset it to use the provisioned toolchain instead");
    reveal_strlit("' is not an executable");
    lemma_said_around(none, one, 0, path, two, 22, none);
    assert(one.skip(0) =~= one);
    assert(two.take(22) =~= "' is not an executable"@);
    assert(message =~= none + one + path + two + none);
}

/// [`messages::no_build`] tells `os` and `arch`, each where it belongs.
pub proof fn law_no_build_tells_all(os: Seq<char>, arch: Seq<char>)
    ensures
        ({
            let message = messages::no_build(os, arch);
            &&& text::contains_text(message, os)
            &&& text::contains_text(message, arch)
            &&& text::contains_text(message, "microsandbox has no build for "@ + os + "/"@)
            &&& text::contains_text(message, "/"@ + arch + " — use the docker"@)
        }),
{
    let message = messages::no_build(os, arch);
    let none = Seq::<char>::empty();
    let one = "microsandbox has no build for "@;
    let two = "/"@;
    let three = " — use the docker backend (RIGHTSIZE_BACKEND=docker) or set MSB_PATH to a binary you provide"@;
    reveal_strlit(" — use the docker backend (RIGHTSIZE_BACKEND=docker) or set MSB_PATH to a binary you provide");
    reveal_strlit(" — use the docker");
    lemma_said_around(none, one, 0, os, two, two.len() as int, arch + three);
    assert(one.skip(0) =~= one);
    assert(two.take(two.len() as int) =~= two);
    assert(message =~= none + one + os + two + (arch + three));
    lemma_said_around(one + os, two, 0, arch, three, 17, none);
    assert(two.skip(0) =~= two);
    assert(three.take(17) =~= " — use the docker"@);
    assert(message =~= (one + os) + two + arch + three + none);
}

/// [`messages::download_skipped`] tells `version` and `path`, each where it belongs.
pub proof fn law_download_skipped_tells_all(version: Seq<char>, path: Seq<char>)
    ensures
        ({
            let message = messages::download_skipped(version, path);
            &&& text::contains_text(message, version)
            &&& text::contains_text(message, path)
            &&& text::contains_text(message, "msb "@ + version + " not found at "@)
            &&& text::contains_text(message, " not found at "@ + path + " and"@)
        }),
{
    let message = messages::download_skipped(version, path);
    let none = Seq::<char>::empty();
    let one = "msb "@;
    let two = " not found at "@;
    let three = " and RIGHTSIZE_MSB_SKIP_DOWNLOAD=true — pre-install it there or point MSB_PATH at an msb binary"@;
    reveal_strlit(" and RIGHTSIZE_MSB_SKIP_DOWNLOAD=true — pre-install it there or point MSB_PATH at an msb binary");
    reveal_strlit(" and");
    lemma_said_around(none, one, 0, version, two, two.len() as int, path + three);
    assert(one.skip(0) =~= one);
    assert(two.take(two.len() as int) =~= two);
    assert(message =~= none + one + version + two + (path + three));
    lemma_said_around(one + version, two, 0, path, three, 4, none);
    assert(two.skip(0) =~= two);
    assert(three.take(4) =~= " and"@);
    assert(message =~= (one + version) + two + path + three + none);
}

/// [`messages::lock_timed_out`] tells `path`, where it belongs.
pub proof fn law_lock_timed_out_tells_all(path: Seq<char>)
    ensures
        ({
            let message = messages::lock_timed_out(path);
            &&& text::contains_text(message, path)
            &&& text::contains_text(
                message,
                "for the provisioner lock at "@ + path + " — another process may"@,
            )
        }),
{
    let message = messages::lock_timed_out(path);
    let none = Seq::<char>::empty();
    let one = "timed out waiting for the provisioner lock at "@;
    let two = " — another process may have crashed while holding it; delete that directory and retry"@;
    reveal_strlit("timed out waiting for the provisioner lock at ");
    reveal_strlit("for the provisioner lock at ");
    reveal_strlit(" — another process may have crashed while holding it; delete that directory and retry");
    reveal_strlit(" — another process may");
    lemma_said_around(none, one, 18, path, two, 22, none);
    assert(one.skip(18) =~= "for the provisioner lock at "@);
    assert(two.take(22) =~= " — another process may"@);
    assert(message =~= none + one + path + two + none);
}

/// [`messages::malformed_line`] tells `line`, where it belongs.
pub proof fn law_malformed_line_tells_all(line: Seq<char>)
    ensures
        ({
            let message = messages::malformed_line(line);
            &&& text::contains_text(message, line)
            &&& text::contains_text(message, "line in checksums.sha256: '"@ + line + "'"@)
        }),
{
    let message = messages::malformed_line(line);
    let none = Seq::<char>::empty();
    let one = "malformed line in checksums.sha256: '"@;
    let two = "'"@;
    reveal_strlit("malformed line in checksums.sha256: '");
    reveal_strlit("line in checksums.sha256: '");
    lemma_said_around(none, one, 10, line, two, two.len() as int, none);
    assert(one.skip(10) =~= "line in checksums.sha256: '"@);
    assert(two.take(two.len() as int) =~= two);
    assert(message =~= none + one + line + two + none);
}

/// [`messages::no_checksum`] tells `asset` and `base_url`, each where it belongs.
pub proof fn law_no_checksum_tells_all(asset: Seq<char>, base_url: Seq<char>)
    ensures
        ({
            let message = messages::no_checksum(asset, base_url);
            &&& text::contains_text(message, asset)
            &&& text::contains_text(message, base_url)
            &&& text::contains_text(message, "No SHA-256 for '"@ + asset + "' in "@)
            &&& text::contains_text(message, "' in "@ + base_url + "/checksums.sha256"@)
        }),
{
    let message = messages::no_checksum(asset, base_url);
    let none = Seq::<char>::empty();
    let one = "No SHA-256 for '"@;
    let two = "' in "@;
    let three = "/checksums.sha256"@;
    lemma_said_around(none, one, 0, asset, two, two.len() as int, base_url + three);
    assert(one.skip(0) =~= one);
    assert(two.take(two.len() as int) =~= two);
    assert(message =~= none + one + asset + two + (base_url + three));
    lemma_said_around(one + asset, two, 0, base_url, three, three.len() as int, none);
    assert(two.skip(0) =~= two);
    assert(three.take(three.len() as int) =~= three);
    assert(message =~= (one + asset) + two + base_url + three + none);
}

/// [`messages::checksum_mismatch`] tells `asset`, `base_url`, `expected`, `actual` and `dir`, each where it belongs.
pub proof fn law_checksum_mismatch_tells_all(
    asset: Seq<char>,
    base_url: Seq<char>,
    expected: Seq<char>,
    actual: Seq<char>,
    dir: Seq<char>,
)
    ensures
        ({
            let message = messages::checksum_mismatch(asset, base_url, expected, actual, dir);
            &&& text::contains_text(message, asset)
            &&& text::contains_text(message, base_url)
            &&& text::contains_text(message, expected)
            &&& text::contains_text(message, actual)
            &&& text::contains_text(message, dir)
            &&& text::contains_text(message, "SHA-256 mismatch for "@ + asset + " from "@)
            &&& text::contains_text(message, " from "@ + base_url + " (expected "@)
            &&& text::contains_text(message, " (expected "@ + expected + ", got "@)
            &&& text::contains_text(message, ", got "@ + actual + ") — delete "@)
            &&& text::contains_text(message, ") — delete "@ + dir + " and retry, or set"@)
        }),
{
    let message = messages::checksum_mismatch(asset, base_url, expected, actual, dir);
    let none = Seq::<char>::empty();
    let one = "SHA-256 mismatch for "@;
    let two = " from "@;
    let three = " (expected "@;
    let four = ", got "@;
    let five = ") — delete "@;
    let six = " and retry, or set MSB_PATH to a trusted msb binary"@;
    reveal_strlit(" and retry, or set MSB_PATH to a trusted msb binary");
    reveal_strlit(" and retry, or set");
    lemma_said_around(
        none,
        one,
        0,
        asset,
        two,
        two.len() as int,
        base_url + three + expected + four + actual + five + dir + six,
    );
    assert(one.skip(0) =~= one);
    assert(two.take(two.len() as int) =~= two);
    assert(message =~= none + one + asset + two + (base_url + three + expected + four + actual + five + dir + six));
    lemma_said_around(
        one + asset,
        two,
        0,
        base_url,
        three,
        three.len() as int,
        expected + four + actual + five + dir + six,
    );
    assert(two.skip(0) =~= two);
    assert(three.take(three.len() as int) =~= three);
    assert(message =~= (one + asset) + two + base_url + three + (expected + four + actual + five + dir + six));
    lemma_said_around(
        one + asset + two + base_url,
        three,
        0,
        expected,
        four,
        four.len() as int,
        actual + five + dir + six,
    );
    assert(three.skip(0) =~= three);
    assert(four.take(four.len() as int) =~= four);
    assert(message =~= (one + asset + two + base_url) + three + expected + four + (actual + five + dir + six));
    lemma_said_around(
        one + asset + two + base_url + three + expected,
        four,
        0,
        actual,
        five,
        five.len() as int,
        dir + six,
    );
    assert(four.skip(0) =~= four);
    assert(five.take(five.len() as int) =~= five);
    assert(message =~= (one + asset + two + base_url + three + expected) + four + actual + five + (dir + six));
    lemma_said_around(
        one + asset + two + base_url + three + expected + four + actual,
        five,
        0,
        dir,
        six,
        18,
        none,
    );
    assert(five.skip(0) =~= five);
    assert(six.take(18) =~= " and retry, or set"@);
    assert(message =~= (one + asset + two + base_url + three + expected + four + actual) + five + dir + six + none);
}

/// [`messages::http_failed`] tells `url` and `error`, each where it belongs.
pub proof fn law_http_failed_tells_all(url: Seq<char>, error: Seq<char>)
    ensures
        ({
            let message = messages::http_failed(url, error);
            &&& text::contains_text(message, url)
            &&& text::contains_text(message, error)
            &&& text::contains_text(message, "fetching "@ + url + ": "@)
            &&& text::contains_text(message, ": "@ + error)
        }),
{
    let message = messages::http_failed(url, error);
    let none = Seq::<char>::empty();
    let one = "fetching "@;
    let two = ": "@;
    lemma_said_around(none, one, 0, url, two, two.len() as int, error);
    assert(one.skip(0) =~= one);
    assert(two.take(two.len() as int) =~= two);
    assert(message =~= none + one + url + two + error);
    lemma_said_around(one + url, two, 0, error, none, none.len() as int, none);
    assert(two.skip(0) =~= two);
    assert(none.take(none.len() as int) =~= none);
    assert(message =~= (one + url) + two + error + none + none);
    assert(": "@ + error + none =~= ": "@ + error);
}

/// [`messages::http_status`] tells `status` and `url`, each where it belongs.
pub proof fn law_http_status_tells_all(status: Seq<char>, url: Seq<char>)
    ensures
        ({
            let message = messages::http_status(status, url);
            &&& text::contains_text(message, status)
            &&& text::contains_text(message, url)
            &&& text::contains_text(message, "HTTP "@ + status + " fetching "@)
            &&& text::contains_text(message, " fetching "@ + url)
        }),
{
    let message = messages::http_status(status, url);
    let none = Seq::<char>::empty();
    let one = "HTTP "@;
    let two = " fetching "@;
    lemma_said_around(none, one, 0, status, two, two.len() as int, url);
    assert(one.skip(0) =~= one);
    assert(two.take(two.len() as int) =~= two);
    assert(message =~= none + one + status + two + url);
    lemma_said_around(one + status, two, 0, url, none, none.len() as int, none);
    assert(two.skip(0) =~= two);
    assert(none.take(none.len() as int) =~= none);
    assert(message =~= (one + status) + two + url + none + none);
    assert(" fetching "@ + url + none =~= " fetching "@ + url);
}

/// [`messages::body_unreadable`] tells `url` and `error`, each where it belongs.
pub proof fn law_body_unreadable_tells_all(url: Seq<char>, error: Seq<char>)
    ensures
        ({
            let message = messages::body_unreadable(url, error);
            &&& text::contains_text(message, url)
            &&& text::contains_text(message, error)
            &&& text::contains_text(message, "reading response body from "@ + url + ": "@)
            &&& text::contains_text(message, ": "@ + error)
        }),
{
    let message = messages::body_unreadable(url, error);
    let none = Seq::<char>::empty();
    let one = "reading response body from "@;
    let two = ": "@;
    lemma_said_around(none, one, 0, url, two, two.len() as int, error);
    assert(one.skip(0) =~= one);
    assert(two.take(two.len() as int) =~= two);
    assert(message =~= none + one + url + two + error);
    lemma_said_around(one + url, two, 0, error, none, none.len() as int, none);
    assert(two.skip(0) =~= two);
    assert(none.take(none.len() as int) =~= none);
    assert(message =~= (one + url) + two + error + none + none);
    assert(": "@ + error + none =~= ": "@ + error);
}

/// [`messages::not_utf8`] tells `url` and `error`, each where it belongs.
pub proof fn law_not_utf8_tells_all(url: Seq<char>, error: Seq<char>)
    ensures
        ({
            let message = messages::not_utf8(url, error);
            &&& text::contains_text(message, url)
            &&& text::contains_text(message, error)
            &&& text::contains_text(message, url + " did not return valid"@)
            &&& text::contains_text(message, " did not return valid UTF-8 text: "@ + error)
        }),
{
    let message = messages::not_utf8(url, error);
    let none = Seq::<char>::empty();
    let one = " did not return valid UTF-8 text: "@;
    reveal_strlit(" did not return valid UTF-8 text: ");
    reveal_strlit(" did not return valid");
    lemma_said_around(none, none, 0, url, one, 21, error);
    assert(none.skip(0) =~= none);
    assert(one.take(21) =~= " did not return valid"@);
    assert(message =~= none + none + url + one + error);
    assert(none + url + " did not return valid"@ =~= url + " did not return valid"@);
    lemma_said_around(url, one, 0, error, none, none.len() as int, none);
    assert(one.skip(0) =~= one);
    assert(none.take(none.len() as int) =~= none);
    assert(message =~= url + one + error + none + none);
    assert(" did not return valid UTF-8 text: "@ + error + none =~= " did not return valid UTF-8 text: "@ + error);
}

/// [`messages::broker_not_run`] tells `status` and `stdout`, each where it belongs.
pub proof fn law_broker_not_run_tells_all(status: Seq<char>, stdout: Seq<char>)
    ensures
        ({
            let message = messages::broker_not_run(status, stdout);
            &&& text::contains_text(message, status)
            &&& text::contains_text(message, stdout)
            &&& text::contains_text(
                message,
                "outer powershell process exited "@ + status + " without completing (its"@,
            )
            &&& text::contains_text(
                message,
                "never appeared in stdout/stderr: "@ + stdout + ") — treating this as a"@,
            )
        }),
{
    let message = messages::broker_not_run(status, stdout);
    let none = Seq::<char>::empty();
    let one = "broker script's outer powershell process exited "@;
    let two = " without completing (its own CIM diagnostics never appeared in stdout/stderr: "@;
    let three = ") — treating this as a broker infrastructure failure so the caller falls back to a direct restore attempt, per POLICY v2 item 5"@;
    reveal_strlit("broker script's outer powershell process exited ");
    reveal_strlit("outer powershell process exited ");
    reveal_strlit(" without completing (its own CIM diagnostics never appeared in stdout/stderr: ");
    reveal_strlit(" without completing (its");
    reveal_strlit("never appeared in stdout/stderr: ");
    reveal_strlit(") — treating this as a broker infrastructure failure so the caller falls back to a direct restore attempt, per POLICY v2 item 5");
    reveal_strlit(") — treating this as a");
    lemma_said_around(none, one, 16, status, two, 24, stdout + three);
    assert(one.skip(16) =~= "outer powershell process exited "@);
    assert(two.take(24) =~= " without completing (its"@);
    assert(message =~= none + one + status + two + (stdout + three));
    lemma_said_around(one + status, two, 45, stdout, three, 22, none);
    assert(two.skip(45) =~= "never appeared in stdout/stderr: "@);
    assert(three.take(22) =~= ") — treating this as a"@);
    assert(message =~= (one + status) + two + stdout + three + none);
}

/// [`messages::system_log`] tells both streams, one behind the other.
pub proof fn law_both_streams_of_a_log_are_told(
    name: Seq<char>,
    stdout: Seq<char>,
    stderr: Seq<char>,
)
    ensures
        text::contains_text(
            messages::system_log(name, stdout, stderr),
            " output:\n"@ + (stdout + stderr),
        ),
{
    let message = messages::system_log(name, stdout, stderr);
    let none = Seq::<char>::empty();
    let one = "`msb logs "@;
    let two = " --source system` output:\n"@;
    reveal_strlit(" --source system` output:\n");
    reveal_strlit(" output:\n");
    let both = stdout + stderr;
    let said = " output:\n"@ + both;
    assert(message =~= (one + name) + two + both);
    lemma_said_around(one + name, two, 17, both, none, 0, none);
    assert((one + name) + two + both + none + none =~= (one + name) + two + both);
    assert(two.skip(17) =~= " output:\n"@);
    assert(two.skip(17) + both + none.take(0) =~= said);
}

} // verus!

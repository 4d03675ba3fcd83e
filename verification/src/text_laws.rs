//! What holds of trimming, of lines and of searching.

use vstd::prelude::*;
use vstd::utf8::*;

#[allow(unused_imports)]
use crate::text::{after_last, ascii_lowercase, before_first, find, first_index, is_white_space, lines, option_text, texts, trim, trim_end, trim_start, without_final_return};

verus! {

/// Trimming the start drops characters from the front only, and what is left
/// does not begin with white space.
pub proof fn trim_start_cuts_the_front(s: Seq<char>)
    ensures
        trim_start(s).len() <= s.len(),
        trim_start(s) == s.skip(s.len() - trim_start(s).len()),
        trim_start(s).len() > 0 ==> !is_white_space(trim_start(s).first()),
        forall|i: int|
            0 <= i < s.len() - trim_start(s).len() ==> is_white_space(#[trigger] s[i]),
    decreases s.len(),
{
    if s.len() > 0 && is_white_space(s.first()) {
        let rest = s.drop_first();
        trim_start_cuts_the_front(rest);
        let cut = s.len() - trim_start(s).len();
        assert(rest.skip(cut - 1) =~= s.skip(cut));
        assert forall|i: int| 0 <= i < cut implies is_white_space(#[trigger] s[i]) by {
            if i > 0 {
                assert(s[i] == rest[i - 1]);
            }
        }
    } else {
        assert(s.skip(0) =~= s);
    }
}

/// Trimming the end drops characters from the back only, and what is left does
/// not end in white space.
pub proof fn trim_end_cuts_the_back(s: Seq<char>)
    ensures
        trim_end(s).len() <= s.len(),
        trim_end(s) == s.take(trim_end(s).len() as int),
        trim_end(s).len() > 0 ==> !is_white_space(trim_end(s).last()),
        forall|i: int| trim_end(s).len() <= i < s.len() ==> is_white_space(#[trigger] s[i]),
    decreases s.len(),
{
    if s.len() > 0 && is_white_space(s.last()) {
        let rest = s.drop_last();
        trim_end_cuts_the_back(rest);
        let kept = trim_end(s).len() as int;
        assert(rest.take(kept) =~= s.take(kept));
        assert forall|i: int| kept <= i < s.len() implies is_white_space(#[trigger] s[i]) by {
            if i < s.len() - 1 {
                assert(s[i] == rest[i]);
            }
        }
    } else {
        assert(s.take(s.len() as int) =~= s);
    }
}

/// A trimmed text is part of the text, has no white space at either end, and
/// does not change when it is trimmed again.
pub proof fn trim_is_final(s: Seq<char>)
    ensures
        trim(s).len() <= s.len(),
        trim(s).len() > 0 ==> !is_white_space(trim(s).first()) && !is_white_space(trim(s).last()),
        trim(trim(s)) == trim(s),
        forall|c: char| trim(s).contains(c) ==> s.contains(c),
{
    let a = trim_start(s);
    let b = trim(s);
    trim_start_cuts_the_front(s);
    trim_end_cuts_the_back(a);
    if b.len() > 0 {
        assert(b.first() == a.first());
    }
    assert forall|c: char| b.contains(c) implies s.contains(c) by {
        let i = choose|i: int| 0 <= i < b.len() && b[i] == c;
        assert(b[i] == a[i]);
        assert(a[i] == s[s.len() - a.len() + i]);
    }
}

/// Text without white space at either end is left alone by trimming.
pub proof fn trim_keeps_tight_text(s: Seq<char>)
    requires
        s.len() > 0 ==> !is_white_space(s.first()) && !is_white_space(s.last()),
    ensures
        trim(s) == s,
{
}

/// White space put before a text is gone after trimming.
pub proof fn trim_drops_a_leading_space(s: Seq<char>, c: char)
    requires
        is_white_space(c),
    ensures
        trim(seq![c] + s) == trim(s),
{
    let t = seq![c] + s;
    assert(t.first() == c);
    assert(t.drop_first() =~= s);
}

/// `first_index` is the first place of the character.
pub proof fn first_index_is_first(s: Seq<char>, c: char)
    ensures
        first_index(s, c) <= s.len(),
        forall|i: int| 0 <= i < first_index(s, c) ==> #[trigger] s[i] != c,
        first_index(s, c) < s.len() ==> s[first_index(s, c) as int] == c,
    decreases s.len(),
{
    if s.len() > 0 && s.first() != c {
        let rest = s.drop_first();
        first_index_is_first(rest, c);
        assert forall|i: int| 0 <= i < first_index(s, c) implies #[trigger] s[i] != c by {
            if i > 0 {
                assert(s[i] == rest[i - 1]);
            }
        }
        if first_index(s, c) < s.len() {
            assert(s[first_index(s, c) as int] == rest[first_index(rest, c) as int]);
        }
    }
}

/// A place that holds the character while no place before it does is the first.
pub proof fn first_index_at(s: Seq<char>, c: char, at: int)
    requires
        0 <= at <= s.len(),
        forall|i: int| 0 <= i < at ==> #[trigger] s[i] != c,
        at < s.len() ==> s[at] == c,
    ensures
        first_index(s, c) == at,
{
    first_index_is_first(s, c);
    let f = first_index(s, c) as int;
    if f < at {
        assert(s[f] != c);
    } else if at < f {
        assert(s[at] != c);
    }
}

/// Where a text ends in a line feed, the lines of what follows it come after
/// its own lines.
pub proof fn lines_of_joined_text(a: Seq<char>, b: Seq<char>)
    requires
        a.len() > 0 ==> a.last() == '\n',
    ensures
        lines(a + b) == lines(a) + lines(b),
    decreases a.len(),
{
    if a.len() == 0 {
        assert(a + b =~= b);
        assert(lines(a) + lines(b) =~= lines(b));
    } else {
        let end = first_index(a, '\n') as int;
        first_index_is_first(a, '\n');
        if end == a.len() {
            assert(a[a.len() - 1] != '\n');
        }
        let t = a + b;
        assert forall|i: int| 0 <= i < end implies #[trigger] t[i] != '\n' by {
            assert(t[i] == a[i]);
        }
        first_index_at(t, '\n', end);
        let rest = a.skip(end + 1);
        assert(t.take(end) =~= a.take(end));
        assert(t.skip(end + 1) =~= rest + b);
        if rest.len() > 0 {
            assert(rest.last() == a.last());
        }
        lines_of_joined_text(rest, b);
        assert(lines(a) + lines(b) =~= seq![without_final_return(a.take(end))] + (lines(rest)
            + lines(b)));
    }
}

/// A line without a line feed in it, set before a line feed or at the end of a
/// text, is the first line of what begins with it.
pub proof fn first_line_of(line: Seq<char>, rest: Seq<char>)
    requires
        line.len() > 0,
        !line.contains('\n'),
        line.last() != '\r',
        rest.len() > 0 ==> rest.first() == '\n',
    ensures
        lines(line + rest).len() > 0,
        lines(line + rest).first() == line,
{
    let t = line + rest;
    let n = line.len() as int;
    assert forall|i: int| 0 <= i < n implies #[trigger] t[i] != '\n' by {
        assert(t[i] == line[i]);
    }
    if rest.len() > 0 {
        assert(t[n] == rest[0]);
        first_index_at(t, '\n', n);
        assert(t.take(n) =~= line);
        assert(without_final_return(line) == line);
    } else {
        first_index_at(t, '\n', n);
        assert(t =~= line);
    }
}

/// No line has a line feed in it.
pub proof fn lines_have_no_line_feed(s: Seq<char>)
    ensures
        forall|i: int| 0 <= i < lines(s).len() ==> !(#[trigger] lines(s)[i]).contains('\n'),
    decreases s.len(),
{
    if s.len() > 0 {
        let end = first_index(s, '\n') as int;
        first_index_is_first(s, '\n');
        if end < s.len() {
            let rest = s.skip(end + 1);
            lines_have_no_line_feed(rest);
            let whole = s.take(end);
            let line = without_final_return(whole);
            assert forall|j: int| 0 <= j < line.len() implies #[trigger] line[j] != '\n' by {
                assert(line[j] == s[j]);
            }
            assert forall|i: int| 0 <= i < lines(s).len() implies !(#[trigger] lines(
                s,
            )[i]).contains('\n') by {
                if i > 0 {
                    assert(lines(s)[i] == lines(rest)[i - 1]);
                }
            }
        }
    }
}

/// A text that is found occurs where it is found and nowhere before; one that
/// is not found occurs nowhere.
pub proof fn find_is_first(s: Seq<char>, pattern: Seq<char>)
    ensures
        match find(s, pattern) {
            Some(at) => at <= s.len() && pattern.is_prefix_of(s.skip(at as int)) && forall|i: int|
                0 <= i < at ==> !pattern.is_prefix_of(#[trigger] s.skip(i)),
            None => forall|i: int|
                0 <= i <= s.len() ==> !pattern.is_prefix_of(#[trigger] s.skip(i)),
        },
    decreases s.len(),
{
    assert(s.skip(0) =~= s);
    if !pattern.is_prefix_of(s) && s.len() > 0 {
        let rest = s.drop_first();
        find_is_first(rest, pattern);
        assert forall|i: int| 0 < i <= s.len() implies #[trigger] s.skip(i) == rest.skip(i - 1) by {
            assert(s.skip(i) =~= rest.skip(i - 1));
        }
    }
}

/// The part before the first stop is free of stops, and a stop follows it
/// unless the text ends there.
pub proof fn before_first_is_clear(s: Seq<char>, stop: spec_fn(char) -> bool)
    ensures
        before_first(s, stop).len() <= s.len(),
        before_first(s, stop) == s.take(before_first(s, stop).len() as int),
        forall|i: int| 0 <= i < before_first(s, stop).len() ==> !stop(#[trigger] s[i]),
        before_first(s, stop).len() < s.len() ==> stop(s[before_first(s, stop).len() as int]),
    decreases s.len(),
{
    if s.len() > 0 && !stop(s.first()) {
        let rest = s.drop_first();
        before_first_is_clear(rest, stop);
        let n = before_first(s, stop).len() as int;
        assert(before_first(s, stop) =~= s.take(n));
        assert forall|i: int| 0 <= i < n implies !stop(#[trigger] s[i]) by {
            if i > 0 {
                assert(s[i] == rest[i - 1]);
            }
        }
        if n < s.len() {
            assert(s[n] == rest[n - 1]);
        }
    } else {
        assert(s.take(0) =~= Seq::<char>::empty());
    }
}

/// The bytes of a joined text are those of its parts, in order.
pub proof fn encoding_of_joined_text(a: Seq<char>, b: Seq<char>)
    ensures
        encode_utf8(a + b) == encode_utf8(a) + encode_utf8(b),
    decreases a.len(),
{
    if a.len() == 0 {
        assert(a + b =~= b);
        assert(encode_utf8(a) + encode_utf8(b) =~= encode_utf8(b));
    } else {
        encoding_of_joined_text(a.drop_first(), b);
        assert((a + b).drop_first() =~= a.drop_first() + b);
        assert(encode_utf8(a + b) =~= encode_utf8(a) + encode_utf8(b));
    }
}

/// A text is what trimming cuts off its front, the trimmed text, and what
/// trimming cuts off its back; what is cut off is white space and nothing else.
pub proof fn trim_cuts_white_space_alone(s: Seq<char>) -> (cut: (Seq<char>, Seq<char>))
    ensures
        s == cut.0 + trim(s) + cut.1,
        forall|i: int| 0 <= i < cut.0.len() ==> is_white_space(#[trigger] cut.0[i]),
        forall|i: int| 0 <= i < cut.1.len() ==> is_white_space(#[trigger] cut.1[i]),
        trim(s).len() > 0 ==> !is_white_space(trim(s).first()) && !is_white_space(trim(s).last()),
{
    let a = trim_start(s);
    let b = trim(s);
    trim_start_cuts_the_front(s);
    trim_end_cuts_the_back(a);
    trim_is_final(s);
    let front = s.take(s.len() - a.len());
    let back = a.skip(b.len() as int);
    assert(s =~= front + b + back);
    assert forall|i: int| 0 <= i < front.len() implies is_white_space(#[trigger] front[i]) by {
        assert(front[i] == s[i]);
    }
    assert forall|i: int| 0 <= i < back.len() implies is_white_space(#[trigger] back[i]) by {
        assert(back[i] == a[b.len() + i]);
    }
    (front, back)
}

/// White space round a text makes no difference to what is left of it.
pub proof fn trim_drops_what_is_round_a_text(front: Seq<char>, s: Seq<char>, back: Seq<char>)
    requires
        forall|i: int| 0 <= i < front.len() ==> is_white_space(#[trigger] front[i]),
        forall|i: int| 0 <= i < back.len() ==> is_white_space(#[trigger] back[i]),
        s.len() > 0 ==> !is_white_space(s.first()) && !is_white_space(s.last()),
    ensures
        trim(front + s + back) == s,
    decreases front.len() + back.len(),
{
    let t = front + s + back;
    if front.len() > 0 {
        let rest = front.drop_first();
        assert(is_white_space(front[0]));
        assert forall|i: int| 0 <= i < rest.len() implies is_white_space(#[trigger] rest[i]) by {
            assert(rest[i] == front[i + 1]);
        }
        trim_drops_what_is_round_a_text(rest, s, back);
        assert(t =~= seq![front[0]] + (rest + s + back));
        trim_drops_a_leading_space(rest + s + back, front[0]);
    } else if back.len() > 0 && s.len() == 0 {
        let rest = back.drop_first();
        assert(is_white_space(back[0]));
        assert forall|i: int| 0 <= i < rest.len() implies is_white_space(#[trigger] rest[i]) by {
            assert(rest[i] == back[i + 1]);
        }
        trim_drops_what_is_round_a_text(front, s, rest);
        assert(t =~= seq![back[0]] + (front + s + rest));
        trim_drops_a_leading_space(front + s + rest, back[0]);
    } else if back.len() > 0 {
        let rest = back.drop_last();
        assert(is_white_space(back[back.len() - 1]));
        assert forall|i: int| 0 <= i < rest.len() implies is_white_space(#[trigger] rest[i]) by {
            assert(rest[i] == back[i]);
        }
        trim_drops_what_is_round_a_text(front, s, rest);
        assert(t.first() == s.first());
        assert(trim_start(t) == t);
        assert((front + s + rest).first() == s.first());
        assert(t.drop_last() =~= front + s + rest);
        assert(t.last() == back.last());
    } else {
        assert(t =~= s);
        trim_keeps_tight_text(s);
    }
}

/// Text is cut into lines at its line feeds: what stands before the first one
/// is the first line, but for a carriage return at its end, and the others are
/// the lines of what follows. Text without a line feed is one line.
pub proof fn lines_are_cut_at_line_feeds(line: Seq<char>, rest: Seq<char>)
    requires
        !line.contains('\n'),
    ensures
        lines(line + seq!['\n'] + rest).len() == 1 + lines(rest).len(),
        lines(line + seq!['\n'] + rest).first() == if line.len() > 0 && line.last() == '\r' {
            line.drop_last()
        } else {
            line
        },
        lines(line + seq!['\n'] + rest).drop_first() == lines(rest),
        line.len() > 0 ==> lines(line) == seq![line],
        line.len() == 0 ==> lines(line).len() == 0,
{
    let t = line + seq!['\n'] + rest;
    let n = line.len() as int;
    assert forall|i: int| 0 <= i < n implies #[trigger] line[i] != '\n' by {
        assert(line.contains(line[i]));
    }
    assert forall|i: int| 0 <= i < n implies #[trigger] t[i] != '\n' by {
        assert(t[i] == line[i]);
    }
    assert(t[n] == '\n');
    first_index_at(t, '\n', n);
    assert(t.take(n) =~= line);
    assert(t.skip(n + 1) =~= rest);
    assert(lines(t).drop_first() =~= lines(rest));
    first_index_at(line, '\n', n);
}

/// What stands behind the last stop is free of stops, and a stop stands before
/// it unless the text begins there.
pub proof fn after_last_is_clear(s: Seq<char>, stop: spec_fn(char) -> bool)
    ensures
        after_last(s, stop).len() <= s.len(),
        after_last(s, stop) == s.skip(s.len() - after_last(s, stop).len()),
        forall|i: int|
            s.len() - after_last(s, stop).len() <= i < s.len() ==> !stop(#[trigger] s[i]),
        after_last(s, stop).len() < s.len() ==> stop(s[s.len() - after_last(s, stop).len() - 1]),
    decreases s.len(),
{
    if s.len() > 0 && !stop(s.last()) {
        let rest = s.drop_last();
        after_last_is_clear(rest, stop);
        let n = after_last(rest, stop).len() as int;
        assert(rest.skip(rest.len() - n).push(s.last()) =~= s.skip(s.len() - n - 1));
        assert forall|i: int| s.len() - n - 1 <= i < s.len() implies !stop(#[trigger] s[i]) by {
            if i < rest.len() {
                assert(rest[i] == s[i]);
            }
        }
        if n < rest.len() {
            assert(rest[rest.len() - n - 1] == s[rest.len() - n - 1]);
        }
    } else {
        assert(s.skip(s.len() as int) =~= Seq::<char>::empty());
    }
}

/// Two texts that differ in the case of ASCII letters alone are the same in
/// lower case, and no others: place by place they hold the same character, or
/// the two cases of one letter.
pub proof fn lower_case_forgets_the_case_alone(a: Seq<char>, b: Seq<char>)
    ensures
        ascii_lowercase(a) == ascii_lowercase(b) <==> a.len() == b.len() && forall|i: int|
            0 <= i < a.len() ==> {
                ||| #[trigger] a[i] == b[i]
                ||| 'A' <= a[i] <= 'Z' && b[i] as int == a[i] as int + 32
                ||| 'A' <= b[i] <= 'Z' && a[i] as int == b[i] as int + 32
            },
        ascii_lowercase(ascii_lowercase(a)) == ascii_lowercase(a),
        forall|i: int|
            0 <= i < a.len() ==> !('A' <= #[trigger] ascii_lowercase(a)[i] <= 'Z'),
{
    let x = ascii_lowercase(a);
    let y = ascii_lowercase(b);
    if x == y {
        assert(x.len() == y.len());
        assert forall|i: int| 0 <= i < a.len() implies {
            ||| #[trigger] a[i] == b[i]
            ||| 'A' <= a[i] <= 'Z' && b[i] as int == a[i] as int + 32
            ||| 'A' <= b[i] <= 'Z' && a[i] as int == b[i] as int + 32
        } by {
            assert(x[i] == y[i]);
        }
    }
    if a.len() == b.len() && forall|i: int|
        0 <= i < a.len() ==> {
            ||| #[trigger] a[i] == b[i]
            ||| 'A' <= a[i] <= 'Z' && b[i] as int == a[i] as int + 32
            ||| 'A' <= b[i] <= 'Z' && a[i] as int == b[i] as int + 32
        } {
        assert forall|i: int| 0 <= i < a.len() implies x[i] == y[i] by {
            assert(a[i] == b[i] || 'A' <= a[i] <= 'Z' || 'A' <= b[i] <= 'Z');
        }
        assert(x =~= y);
    }
    assert(ascii_lowercase(x) =~= x);
}

/// Strings are taken as texts one by one, each whole.
pub proof fn texts_are_whole(strings: Seq<String>, one: String)
    ensures
        texts(strings).len() == strings.len(),
        forall|i: int| 0 <= i < strings.len() ==> #[trigger] texts(strings)[i] == strings[i]@,
        option_text(Some(one)) == Some(one@),
        option_text(None) is None,
{
}

} // verus!

//! Reading tool requests out of what the model answers.

use vstd::prelude::*;
use vstd::string::*;

use crate::text::{chars_of, ends_in, lines_of, occurs_at, trimmed};
#[allow(unused_imports)]
use crate::text::{is_white_space, lines, option_text, texts, trim};
#[allow(unused_imports)]
use crate::text_laws::{first_line_of, lines_of_joined_text, trim_is_final, trim_keeps_tight_text};

verus! {

/// A request stands in `line` between `prefix` and `suffix`: at least one
/// character.
pub open spec fn is_request(line: Seq<char>, prefix: Seq<char>, suffix: Seq<char>) -> bool {
    &&& prefix.is_prefix_of(line)
    &&& suffix.is_suffix_of(line)
    &&& prefix.len() + suffix.len() < line.len()
}

/// What the first line that holds a request asks for. Lines and requests are
/// taken without the white space round them.
pub open spec fn first_request(
    lines: Seq<Seq<char>>,
    prefix: Seq<char>,
    suffix: Seq<char>,
) -> Option<Seq<char>>
    decreases lines.len(),
{
    if lines.len() == 0 {
        None
    } else {
        let line = trim(lines.first());
        if is_request(line, prefix, suffix) {
            Some(trim(line.subrange(prefix.len() as int, line.len() - suffix.len())))
        } else {
            first_request(lines.drop_first(), prefix, suffix)
        }
    }
}

/// What `text` asks for between `prefix` and `suffix`, if anything.
pub open spec fn requested(text: Seq<char>, prefix: Seq<char>, suffix: Seq<char>) -> Option<
    Seq<char>,
> {
    first_request(lines(text), prefix, suffix)
}

/// Finds the first line of `text` that starts with `prefix`, ends in `suffix`
/// and has something between them, and returns what stands there.
pub fn extract_tool_call(text: &str, prefix: &str, suffix: &str) -> (r: Option<String>)
    ensures
        option_text(r) == requested(text@, prefix@, suffix@),
{
    let all: Vec<String> = lines_of(text);
    let open: Vec<char> = chars_of(prefix);
    let close: Vec<char> = chars_of(suffix);
    let mut i: usize = 0;
    proof {
        assert(texts(all@).skip(0) == texts(all@));
    }
    while i < all.len()
        invariant
            i <= all.len(),
            open@ == prefix@,
            close@ == suffix@,
            texts(all@) == lines(text@),
            requested(text@, prefix@, suffix@) == first_request(
                texts(all@).skip(i as int),
                prefix@,
                suffix@,
            ),
        decreases all.len() - i,
    {
        let line: &str = trimmed(all[i].as_str());
        let chars: Vec<char> = chars_of(line);
        proof {
            assert(texts(all@).skip(i as int).first() == all@[i as int]@);
            assert(texts(all@).skip(i as int).drop_first() == texts(all@).skip(i + 1));
            assert(chars@.skip(0) == chars@);
        }
        if occurs_at(&chars, 0, &open) && ends_in(&chars, &close) {
            let start: usize = open.len();
            let end: usize = chars.len() - close.len();
            if end > start {
                return Some(trimmed(line.substring_char(start, end)).to_owned());
            }
        }
        i = i + 1;
    }
    None
}

/// A request on a line of its own is read, whatever follows it, as long as no
/// line before it holds a request: the text between prefix and suffix comes
/// back without the white space round it.
pub proof fn request_on_its_own_line_is_read(
    before: Seq<char>,
    request: Seq<char>,
    after: Seq<char>,
    prefix: Seq<char>,
    suffix: Seq<char>,
)
    requires
        before.len() > 0 ==> before.last() == '\n',
        requested(before, prefix, suffix) is None,
        after.len() > 0 ==> after.first() == '\n',
        request.len() > 0,
        prefix.len() > 0 && !is_white_space(prefix.first()),
        suffix.len() > 0 && !is_white_space(suffix.last()),
        !(prefix + request + suffix).contains('\n'),
    ensures
        requested(before + (prefix + request + suffix) + after, prefix, suffix) == Some(
            trim(request),
        ),
{
    let line = prefix + request + suffix;
    let tail = line + after;
    assert(before + line + after =~= before + tail);
    lines_of_joined_text(before, tail);
    assert(line.last() == suffix.last());
    assert(line.first() == prefix.first());
    assert(is_white_space('\r'));
    first_line_of(line, after);
    trim_keeps_tight_text(line);
    assert(line.subrange(0, prefix.len() as int) =~= prefix);
    assert(line.subrange(line.len() - suffix.len(), line.len() as int) =~= suffix);
    assert(is_request(line, prefix, suffix));
    assert(line.subrange(prefix.len() as int, line.len() - suffix.len()) =~= request);
    first_request_of_joined_lines(lines(before), lines(tail), prefix, suffix);
}

/// Lines are searched from the first on.
proof fn first_request_of_joined_lines(
    a: Seq<Seq<char>>,
    b: Seq<Seq<char>>,
    prefix: Seq<char>,
    suffix: Seq<char>,
)
    ensures
        first_request(a + b, prefix, suffix) == match first_request(a, prefix, suffix) {
            Some(found) => Some(found),
            None => first_request(b, prefix, suffix),
        },
    decreases a.len(),
{
    if a.len() == 0 {
        assert(a + b =~= b);
    } else {
        assert((a + b).drop_first() =~= a.drop_first() + b);
        first_request_of_joined_lines(a.drop_first(), b, prefix, suffix);
    }
}

/// What is read out of a text never begins or ends with white space.
pub proof fn requests_are_tight(text: Seq<char>, prefix: Seq<char>, suffix: Seq<char>)
    ensures
        requested(text, prefix, suffix) matches Some(request) ==> trim(request) == request,
{
    first_requests_are_tight(lines(text), prefix, suffix);
}

proof fn first_requests_are_tight(lines: Seq<Seq<char>>, prefix: Seq<char>, suffix: Seq<char>)
    ensures
        first_request(lines, prefix, suffix) matches Some(request) ==> trim(request) == request,
    decreases lines.len(),
{
    if lines.len() > 0 {
        let line = trim(lines.first());
        if is_request(line, prefix, suffix) {
            trim_is_final(line.subrange(prefix.len() as int, line.len() - suffix.len()));
        } else {
            first_requests_are_tight(lines.drop_first(), prefix, suffix);
        }
    }
}

/// What is read out of a text stands on its first line that holds, without the
/// white space round it, the prefix, something, and the suffix; where nothing
/// is read, no line holds that.
pub proof fn the_first_request_is_read(text: Seq<char>, prefix: Seq<char>, suffix: Seq<char>)
    ensures
        match requested(text, prefix, suffix) {
            Some(request) => exists|i: int, inner: Seq<char>|
                {
                    &&& 0 <= i < lines(text).len()
                    &&& inner.len() > 0
                    &&& trim(#[trigger] lines(text)[i]) == #[trigger] (prefix + inner + suffix)
                    &&& request == trim(inner)
                    &&& forall|j: int, other: Seq<char>|
                        0 <= j < i && other.len() > 0 ==> trim(#[trigger] lines(text)[j])
                            != #[trigger] (prefix + other + suffix)
                },
            None => forall|j: int, other: Seq<char>|
                0 <= j < lines(text).len() && other.len() > 0 ==> trim(#[trigger] lines(text)[j])
                    != #[trigger] (prefix + other + suffix),
        },
{
    first_request_of_lines(lines(text), prefix, suffix);
}

proof fn requests_have_three_parts(line: Seq<char>, prefix: Seq<char>, suffix: Seq<char>)
    ensures
        is_request(line, prefix, suffix) ==> line == prefix + line.subrange(
            prefix.len() as int,
            line.len() - suffix.len(),
        ) + suffix,
        forall|inner: Seq<char>|
            inner.len() > 0 && line == #[trigger] (prefix + inner + suffix) ==> is_request(
                line,
                prefix,
                suffix,
            ),
{
    if is_request(line, prefix, suffix) {
        let inner = line.subrange(prefix.len() as int, line.len() - suffix.len());
        let whole = prefix + inner + suffix;
        assert forall|i: int| 0 <= i < line.len() implies line[i] == whole[i] by {
            if i < prefix.len() {
                assert(line.subrange(0, prefix.len() as int)[i] == line[i]);
            } else if i >= line.len() - suffix.len() {
                let k = i - (line.len() - suffix.len());
                assert(line.subrange(line.len() - suffix.len(), line.len() as int)[k] == line[i]);
            }
        }
        assert(line =~= whole);
    }
    assert forall|inner: Seq<char>|
        inner.len() > 0 && line == #[trigger] (prefix + inner + suffix) implies is_request(
        line,
        prefix,
        suffix,
    ) by {
        assert(line.subrange(0, prefix.len() as int) =~= prefix);
        assert(line.subrange(line.len() - suffix.len(), line.len() as int) =~= suffix);
    }
}

proof fn first_request_of_lines(all: Seq<Seq<char>>, prefix: Seq<char>, suffix: Seq<char>)
    ensures
        match first_request(all, prefix, suffix) {
            Some(request) => exists|i: int, inner: Seq<char>|
                {
                    &&& 0 <= i < all.len()
                    &&& inner.len() > 0
                    &&& trim(#[trigger] all[i]) == #[trigger] (prefix + inner + suffix)
                    &&& request == trim(inner)
                    &&& forall|j: int, other: Seq<char>|
                        0 <= j < i && other.len() > 0 ==> trim(#[trigger] all[j]) != #[trigger] (
                        prefix + other + suffix)
                },
            None => forall|j: int, other: Seq<char>|
                0 <= j < all.len() && other.len() > 0 ==> trim(#[trigger] all[j]) != #[trigger] (
                prefix + other + suffix),
        },
    decreases all.len(),
{
    if all.len() > 0 {
        let line = trim(all.first());
        requests_have_three_parts(line, prefix, suffix);
        if is_request(line, prefix, suffix) {
            let inner = line.subrange(prefix.len() as int, line.len() - suffix.len());
            assert(trim(all[0]) == prefix + inner + suffix);
        } else {
            let rest = all.drop_first();
            first_request_of_lines(rest, prefix, suffix);
            match first_request(rest, prefix, suffix) {
                Some(request) => {
                    let (i, inner) = choose|i: int, inner: Seq<char>|
                        {
                            &&& 0 <= i < rest.len()
                            &&& inner.len() > 0
                            &&& trim(#[trigger] rest[i]) == #[trigger] (prefix + inner + suffix)
                            &&& request == trim(inner)
                            &&& forall|j: int, other: Seq<char>|
                                0 <= j < i && other.len() > 0 ==> trim(#[trigger] rest[j])
                                    != #[trigger] (prefix + other + suffix)
                        };
                    assert(all[i + 1] == rest[i]);
                    assert forall|j: int, other: Seq<char>|
                        0 <= j < i + 1 && other.len() > 0 implies trim(#[trigger] all[j])
                        != #[trigger] (prefix + other + suffix) by {
                        if j > 0 {
                            assert(all[j] == rest[j - 1]);
                        }
                    }
                    assert(trim(all[i + 1]) == prefix + inner + suffix);
                },
                None => {
                    assert forall|j: int, other: Seq<char>|
                        0 <= j < all.len() && other.len() > 0 implies trim(#[trigger] all[j])
                        != #[trigger] (prefix + other + suffix) by {
                        if j > 0 {
                            assert(all[j] == rest[j - 1]);
                        }
                    }
                },
            }
        }
    }
}

} // verus!

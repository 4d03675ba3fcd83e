//! Text as sequences of characters: white space, trimming, lines, searching.
//!
//! Every function works on whole characters and has its meaning stated over
//! the character sequence that a string denotes.

use vstd::prelude::*;
use vstd::string::*;
use vstd::utf8::*;

verus! {

/// The characters with the Unicode property `White_Space`.
pub open spec fn is_white_space(c: char) -> bool {
    let u = c as u32;
    ||| 0x9 <= u <= 0xd
    ||| u == 0x20
    ||| u == 0x85
    ||| u == 0xa0
    ||| u == 0x1680
    ||| 0x2000 <= u <= 0x200a
    ||| u == 0x2028
    ||| u == 0x2029
    ||| u == 0x202f
    ||| u == 0x205f
    ||| u == 0x3000
}

/// `s` without the white space at its start.
pub open spec fn trim_start(s: Seq<char>) -> Seq<char>
    decreases s.len(),
{
    if s.len() > 0 && is_white_space(s.first()) {
        trim_start(s.drop_first())
    } else {
        s
    }
}

/// `s` without the white space at its end.
pub open spec fn trim_end(s: Seq<char>) -> Seq<char>
    decreases s.len(),
{
    if s.len() > 0 && is_white_space(s.last()) {
        trim_end(s.drop_last())
    } else {
        s
    }
}

/// `s` without the white space at either end.
pub open spec fn trim(s: Seq<char>) -> Seq<char> {
    trim_end(trim_start(s))
}

/// Where `c` first occurs in `s`; the length of `s` where it does not occur.
pub open spec fn first_index(s: Seq<char>, c: char) -> nat
    decreases s.len(),
{
    if s.len() == 0 || s.first() == c {
        0
    } else {
        1 + first_index(s.drop_first(), c)
    }
}

/// A line without the carriage return that belongs to its line break.
pub open spec fn without_final_return(line: Seq<char>) -> Seq<char> {
    if line.len() > 0 && line.last() == '\r' {
        line.drop_last()
    } else {
        line
    }
}

/// The lines of `s`. A line ends at a line feed, or at a carriage return and
/// a line feed; the last line needs no line break, and text that ends in a line
/// break has no further, empty line.
pub open spec fn lines(s: Seq<char>) -> Seq<Seq<char>>
    decreases s.len(),
{
    let end = first_index(s, '\n');
    if s.len() == 0 {
        Seq::empty()
    } else if end < s.len() {
        seq![without_final_return(s.take(end as int))] + lines(s.skip(end as int + 1))
    } else {
        seq![s]
    }
}

/// The smallest position in `s` at which `pattern` occurs.
pub open spec fn find(s: Seq<char>, pattern: Seq<char>) -> Option<nat>
    decreases s.len(),
{
    if pattern.is_prefix_of(s) {
        Some(0)
    } else if s.len() == 0 {
        None
    } else {
        match find(s.drop_first(), pattern) {
            Some(at) => Some(at + 1),
            None => None,
        }
    }
}

/// The ASCII letter in lower case; every other character as it is.
pub open spec fn ascii_lower(c: char) -> char {
    if 'A' <= c <= 'Z' {
        ((c as u32) + 32) as char
    } else {
        c
    }
}

/// `s` with its ASCII letters in lower case.
pub open spec fn ascii_lowercase(s: Seq<char>) -> Seq<char> {
    s.map_values(|c: char| ascii_lower(c))
}

/// The part of `s` behind the last character that satisfies `stop`.
pub open spec fn after_last(s: Seq<char>, stop: spec_fn(char) -> bool) -> Seq<char>
    decreases s.len(),
{
    if s.len() == 0 || stop(s.last()) {
        Seq::empty()
    } else {
        after_last(s.drop_last(), stop).push(s.last())
    }
}

/// The part of `s` before the first character that satisfies `stop`.
pub open spec fn before_first(s: Seq<char>, stop: spec_fn(char) -> bool) -> Seq<char>
    decreases s.len(),
{
    if s.len() == 0 || stop(s.first()) {
        Seq::empty()
    } else {
        seq![s.first()] + before_first(s.drop_first(), stop)
    }
}

/// The characters of each string.
pub open spec fn texts(strings: Seq<String>) -> Seq<Seq<char>> {
    strings.map_values(|s: String| s@)
}

/// The characters of a string, where there is one.
pub open spec fn option_text(s: Option<String>) -> Option<Seq<char>> {
    match s {
        Some(t) => Some(t@),
        None => None,
    }
}

/// How many bytes `s` takes in UTF-8.
pub open spec fn byte_len(s: Seq<char>) -> nat {
    encode_utf8(s).len()
}

/// Tells whether `c` has the Unicode property `White_Space`.
pub fn white_space(c: char) -> (r: bool)
    ensures
        r == is_white_space(c),
{
    let u: u32 = c as u32;
    (0x9 <= u && u <= 0xd) || u == 0x20 || u == 0x85 || u == 0xa0 || u == 0x1680 || (0x2000 <= u
        && u <= 0x200a) || u == 0x2028 || u == 0x2029 || u == 0x202f || u == 0x205f || u == 0x3000
}

/// The characters of `s`, one by one.
pub fn chars_of(s: &str) -> (v: Vec<char>)
    ensures
        v@ == s@,
{
    let mut v: Vec<char> = Vec::new();
    for c in it: s.chars()
        invariant
            v@ == it.seq().take(it.index() as int),
    {
        v.push(c);
    }
    v
}

/// `s` without the white space at either end.
pub fn trimmed(s: &str) -> (r: &str)
    ensures
        r@ == trim(s@),
{
    let chars: Vec<char> = chars_of(s);
    let n: usize = chars.len();
    let mut lo: usize = 0;
    proof {
        assert(s@.skip(0) == s@);
    }
    while lo < n && white_space(chars[lo])
        invariant
            lo <= n,
            n == s@.len(),
            chars@ == s@,
            trim_start(s@) == trim_start(s@.skip(lo as int)),
        decreases n - lo,
    {
        proof {
            assert(s@.skip(lo as int).drop_first() == s@.skip(lo + 1));
        }
        lo = lo + 1;
    }
    proof {
        assert(trim_start(s@) == s@.skip(lo as int));
        assert(s@.skip(lo as int) == s@.subrange(lo as int, n as int));
    }
    let mut hi: usize = n;
    while hi > lo && white_space(chars[hi - 1])
        invariant
            lo <= hi <= n,
            n == s@.len(),
            chars@ == s@,
            trim_end(s@.skip(lo as int)) == trim_end(s@.subrange(lo as int, hi as int)),
        decreases hi,
    {
        proof {
            assert(s@.subrange(lo as int, hi as int).drop_last() == s@.subrange(
                lo as int,
                hi - 1,
            ));
        }
        hi = hi - 1;
    }
    s.substring_char(lo, hi)
}

/// The position of the first `c` in `chars` from `from` on, or their number.
pub fn position_of(chars: &Vec<char>, from: usize, c: char) -> (at: usize)
    requires
        from <= chars.len(),
    ensures
        at == from + first_index(chars@.skip(from as int), c),
        from <= at <= chars.len(),
        at < chars.len() ==> chars@[at as int] == c,
{
    let mut at: usize = from;
    while at < chars.len() && chars[at] != c
        invariant
            from <= at <= chars.len(),
            from + first_index(chars@.skip(from as int), c) == at + first_index(
                chars@.skip(at as int),
                c,
            ),
        decreases chars.len() - at,
    {
        proof {
            assert(chars@.skip(at as int).drop_first() == chars@.skip(at + 1));
        }
        at = at + 1;
    }
    at
}

/// The lines of `s`, without their line breaks.
pub fn lines_of(s: &str) -> (r: Vec<String>)
    ensures
        texts(r@) == lines(s@),
{
    let chars: Vec<char> = chars_of(s);
    let n: usize = chars.len();
    let mut out: Vec<String> = Vec::new();
    let mut start: usize = 0;
    proof {
        assert(s@.skip(0) == s@);
        assert(texts(out@) + lines(s@) == lines(s@));
    }
    while start < n
        invariant
            start <= n,
            n == s@.len(),
            chars@ == s@,
            texts(out@) + lines(s@.skip(start as int)) == lines(s@),
        decreases n - start,
    {
        let end: usize = position_of(&chars, start, '\n');
        let ghost rest = s@.skip(start as int);
        let ghost done = texts(out@);
        let mut stop: usize = end;
        if end < n && end > start && chars[end - 1] == '\r' {
            stop = end - 1;
        }
        out.push(s.substring_char(start, stop).to_owned());
        proof {
            let line = s@.subrange(start as int, stop as int);
            assert(texts(out@) == done.push(line));
            let whole = rest.take(end - start);
            if end < n {
                if stop < end {
                    assert(whole.last() == '\r');
                    assert(whole.drop_last() == line);
                } else {
                    assert(whole == line);
                    assert(whole.len() > 0 ==> whole.last() == chars@[end - 1]);
                }
                assert(line == without_final_return(whole));
                assert(rest.skip(end - start + 1) == s@.skip(end + 1));
                assert(lines(rest) == seq![line] + lines(s@.skip(end + 1)));
                assert(done.push(line) + lines(s@.skip(end + 1)) == done + lines(rest));
            } else {
                assert(rest == line);
                assert(lines(rest) == seq![line]);
                assert(lines(s@.skip(n as int)) == Seq::<Seq<char>>::empty());
                assert(done.push(line) + lines(s@.skip(n as int)) == done + lines(rest));
            }
        }
        if end < n {
            start = end + 1;
        } else {
            start = n;
        }
    }
    proof {
        assert(lines(s@.skip(n as int)) == Seq::<Seq<char>>::empty());
        assert(texts(out@) + Seq::<Seq<char>>::empty() == texts(out@));
    }
    out
}

/// Tells whether `pattern` occurs in `chars` at position `at`.
pub fn occurs_at(chars: &Vec<char>, at: usize, pattern: &Vec<char>) -> (r: bool)
    requires
        at <= chars.len(),
    ensures
        r == pattern@.is_prefix_of(chars@.skip(at as int)),
{
    if chars.len() - at < pattern.len() {
        return false;
    }
    let mut i: usize = 0;
    while i < pattern.len()
        invariant
            i <= pattern.len(),
            at + pattern.len() <= chars.len(),
            forall|j: int| 0 <= j < i ==> pattern@[j] == chars@[at + j],
        decreases pattern.len() - i,
    {
        if pattern[i] != chars[at + i] {
            proof {
                assert(chars@.skip(at as int)[i as int] == chars@[at + i]);
                assert(chars@.skip(at as int).subrange(0, pattern@.len() as int)[i as int]
                    == chars@[at + i]);
            }
            return false;
        }
        i = i + 1;
    }
    proof {
        assert(pattern@ == chars@.skip(at as int).subrange(0, pattern@.len() as int));
    }
    true
}

/// Tells whether `chars` ends in `pattern`.
pub fn ends_in(chars: &Vec<char>, pattern: &Vec<char>) -> (r: bool)
    ensures
        r == pattern@.is_suffix_of(chars@),
{
    if chars.len() < pattern.len() {
        return false;
    }
    let at: usize = chars.len() - pattern.len();
    let r: bool = occurs_at(chars, at, pattern);
    proof {
        let tail = chars@.skip(at as int);
        assert(tail.subrange(0, pattern@.len() as int) == tail);
        assert(tail == chars@.subrange((chars@.len() - pattern@.len()) as int, chars@.len() as int));
    }
    r
}

/// The smallest position at which `pattern` occurs in `chars`.
pub fn find_in(chars: &Vec<char>, pattern: &Vec<char>) -> (r: Option<usize>)
    ensures
        match r {
            Some(at) => find(chars@, pattern@) == Some(at as nat) && at <= chars.len()
                && pattern@.is_prefix_of(chars@.skip(at as int)),
            None => find(chars@, pattern@) is None,
        },
{
    let mut at: usize = 0;
    proof {
        assert(chars@.skip(0) == chars@);
    }
    while at < chars.len()
        invariant
            at <= chars.len(),
            find(chars@, pattern@) == match find(chars@.skip(at as int), pattern@) {
                Some(k) => Some(k + at as nat),
                None => None::<nat>,
            },
        decreases chars.len() - at,
    {
        if occurs_at(chars, at, pattern) {
            return Some(at);
        }
        proof {
            assert(chars@.skip(at as int).drop_first() == chars@.skip(at + 1));
        }
        at = at + 1;
    }
    if occurs_at(chars, at, pattern) {
        Some(at)
    } else {
        None
    }
}

/// The ASCII letter in lower case; every other character as it is.
pub fn to_ascii_lower(c: char) -> (r: char)
    ensures
        r == ascii_lower(c),
{
    if 'A' <= c && c <= 'Z' {
        let lower: u8 = (c as u8) + 32;
        lower as char
    } else {
        c
    }
}

/// Tells whether two texts are the same but for the case of ASCII letters.
pub fn eq_ignore_ascii_case(a: &str, b: &str) -> (r: bool)
    ensures
        r == (ascii_lowercase(a@) == ascii_lowercase(b@)),
{
    let x: Vec<char> = chars_of(a);
    let y: Vec<char> = chars_of(b);
    if x.len() != y.len() {
        proof {
            assert(ascii_lowercase(a@).len() != ascii_lowercase(b@).len());
        }
        return false;
    }
    let mut i: usize = 0;
    while i < x.len()
        invariant
            i <= x.len(),
            x.len() == y.len(),
            x@ == a@,
            y@ == b@,
            forall|j: int| 0 <= j < i ==> ascii_lower(#[trigger] x@[j]) == ascii_lower(y@[j]),
        decreases x.len() - i,
    {
        if to_ascii_lower(x[i]) != to_ascii_lower(y[i]) {
            proof {
                assert(ascii_lowercase(a@)[i as int] != ascii_lowercase(b@)[i as int]);
            }
            return false;
        }
        i = i + 1;
    }
    proof {
        assert(ascii_lowercase(a@) =~= ascii_lowercase(b@));
    }
    true
}

} // verus!

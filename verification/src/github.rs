//! GitHub profiles that a query mentions.

use vstd::prelude::*;
use vstd::string::*;
#[allow(unused_imports)]
use vstd::utf8::*;

use crate::http::HttpStatus;
#[allow(unused_imports)]
use crate::http::is_success_code;
use crate::listing::{numbered_text, ListItem, MAX_ENTRIES};
#[allow(unused_imports)]
use crate::listing::{items, numbered, ItemView};
use crate::number::decimal_text;
#[allow(unused_imports)]
use crate::number::decimal;
use crate::outside::{is_alphanumeric, parse_json_array, string_member, to_lowercase};
#[allow(unused_imports)]
use crate::outside::{alphanumeric, is_ascii_alphanumeric, json_array, lowercase, string_members};
use crate::text::{chars_of, find_in, white_space};
#[allow(unused_imports)]
use crate::text::{ascii_lowercase, before_first, byte_len, find, is_white_space, option_text};
#[allow(unused_imports)]
use crate::listing::lists_grow_by_entries;
#[allow(unused_imports)]
use crate::text_laws::{before_first_is_clear, encoding_of_joined_text, find_is_first};

verus! {

/// What stands before a user's name in the address of a profile.
pub const HOST: &'static str = "github.com/";

/// A query in lower case.
pub open spec fn lowered(query: Seq<char>) -> Seq<char> {
    if is_ascii_chars(query) {
        ascii_lowercase(query)
    } else {
        lowercase(query)
    }
}

/// How many bytes of the query stand before the name, counted in the query in
/// lower case.
pub open spec fn name_offset(lower: Seq<char>) -> Option<nat> {
    match find(lower, HOST@) {
        Some(at) => Some(byte_len(lower.take(at as int)) + byte_len(HOST@)),
        None => None,
    }
}

/// The query can be cut where the name begins: there is no name, or no
/// character of the query is cut in two. Lower case can take more or fewer
/// bytes than the query itself, so this is not always so.
pub open spec fn can_be_cut(query: Seq<char>, lower: Seq<char>) -> bool {
    name_offset(lower) matches Some(offset) ==> is_char_boundary(
        encode_utf8(query),
        offset as int,
    )
}

/// The text from a byte offset on.
pub open spec fn text_from(s: Seq<char>, offset: nat) -> Seq<char> {
    decode_utf8(encode_utf8(s).subrange(offset as int, encode_utf8(s).len() as int))
}

/// `s` without the slashes at its start.
pub open spec fn without_slashes(s: Seq<char>) -> Seq<char>
    decreases s.len(),
{
    if s.len() > 0 && s.first() == '/' {
        without_slashes(s.drop_first())
    } else {
        s
    }
}

/// A character that ends a name.
pub open spec fn ends_name(c: char) -> bool {
    c == '/' || is_white_space(c)
}

/// A character that a name can hold: a letter, a number, a hyphen or an
/// underscore.
pub open spec fn is_name_char(c: char) -> bool {
    ||| c == '-'
    ||| c == '_'
    ||| if c <= '\u{7f}' {
        is_ascii_alphanumeric(c)
    } else {
        alphanumeric(c)
    }
}

pub open spec fn is_name(s: Seq<char>) -> bool {
    s.len() > 0 && forall|i: int| 0 <= i < s.len() ==> is_name_char(#[trigger] s[i])
}

/// The name at the start of what follows the host.
pub open spec fn name_in(rest: Seq<char>) -> Option<Seq<char>> {
    let name = before_first(without_slashes(rest), |c: char| ends_name(c));
    if is_name(name) {
        Some(name)
    } else {
        None
    }
}

/// The name of the user whose profile a query mentions. `lower` is the query
/// in lower case.
pub open spec fn mentioned_user(query: Seq<char>, lower: Seq<char>) -> Option<Seq<char>> {
    match name_offset(lower) {
        Some(offset) => name_in(text_from(query, offset)),
        None => None,
    }
}

/// The query would have to be cut inside a character.
#[derive(Debug)]
pub struct CutInsideCharacter {}

/// Tells whether a name can hold `c`.
fn name_char(c: char) -> (r: bool)
    ensures
        r == is_name_char(c),
{
    c == '-' || c == '_' || is_alphanumeric(c)
}

/// Reads the name at the start of what follows the host.
pub fn read_name(rest: &str) -> (r: Option<String>)
    ensures
        option_text(r) == name_in(rest@),
{
    let chars: Vec<char> = chars_of(rest);
    let n: usize = chars.len();
    let mut lo: usize = 0;
    proof {
        assert(rest@.skip(0) =~= rest@);
    }
    while lo < n && chars[lo] == '/'
        invariant
            lo <= n,
            n == rest@.len(),
            chars@ == rest@,
            without_slashes(rest@) == without_slashes(rest@.skip(lo as int)),
        decreases n - lo,
    {
        proof {
            assert(rest@.skip(lo as int).drop_first() =~= rest@.skip(lo + 1));
        }
        lo = lo + 1;
    }
    let ghost tail = rest@.skip(lo as int);
    let ghost stop = |c: char| ends_name(c);
    proof {
        assert(without_slashes(rest@) == tail);
        before_first_is_clear(tail, stop);
    }
    let ghost name = before_first(tail, stop);
    let mut hi: usize = lo;
    let mut valid: bool = true;
    while hi < n && chars[hi] != '/' && !white_space(chars[hi])
        invariant
            lo <= hi <= n,
            n == rest@.len(),
            chars@ == rest@,
            tail == rest@.skip(lo as int),
            stop == (|c: char| ends_name(c)),
            forall|i: int| 0 <= i < hi - lo ==> !ends_name(#[trigger] tail[i]),
            valid == forall|i: int| 0 <= i < hi - lo ==> is_name_char(#[trigger] tail[i]),
        decreases n - hi,
    {
        let fits: bool = name_char(chars[hi]);
        proof {
            assert(tail[hi - lo] == chars@[hi as int]);
            if valid && fits {
                assert forall|i: int| 0 <= i < hi + 1 - lo implies is_name_char(
                    #[trigger] tail[i],
                ) by {
                    if i == hi - lo {
                        assert(tail[i] == chars@[hi as int]);
                    }
                }
            }
        }
        valid = valid && fits;
        hi = hi + 1;
    }
    proof {
        let k = hi - lo;
        if k < name.len() {
            assert(tail[k] == chars@[hi as int]);
            assert(!stop(tail[k]));
        } else if name.len() < k {
            assert(!ends_name(tail[name.len() as int]));
            assert(stop(tail[name.len() as int]));
        }
        assert(name.len() == k);
        assert(name =~= rest@.subrange(lo as int, hi as int));
        assert forall|i: int| 0 <= i < k implies #[trigger] name[i] == tail[i] by {
        }
        if valid {
            assert(forall|i: int| 0 <= i < name.len() ==> is_name_char(#[trigger] name[i]));
        } else {
            let bad = choose|i: int| 0 <= i < k && !is_name_char(#[trigger] tail[i]);
            assert(name[bad] == tail[bad]);
        }
    }
    if hi == lo || !valid {
        None
    } else {
        Some(rest.substring_char(lo, hi).to_owned())
    }
}

/// Finds the user that `query` mentions, given the query in lower case.
pub fn user_in(query: &str, lower: &str) -> (r: Option<String>)
    requires
        can_be_cut(query@, lower@),
    ensures
        option_text(r) == mentioned_user(query@, lower@),
{
    match offset_in(lower) {
        Some(offset) => {
            let rest: &str = query.split_at(offset).1;
            proof {
                encode_utf8_decode_utf8(rest@);
            }
            read_name(rest)
        },
        None => None,
    }
}

/// How many bytes stand before the name in a query in lower case.
fn offset_in(lower: &str) -> (r: Option<usize>)
    ensures
        match r {
            Some(offset) => name_offset(lower@) == Some(offset as nat),
            None => name_offset(lower@) is None,
        },
{
    let chars: Vec<char> = chars_of(lower);
    let host: Vec<char> = chars_of(HOST);
    match find_in(&chars, &host) {
        Some(at) => {
            let before: &[u8] = lower.substring_char(0, at).as_bytes();
            let pattern: &[u8] = HOST.as_bytes();
            let total: &[u8] = lower.as_bytes();
            let all: usize = total.len();
            proof {
                let head = lower@.take(at as int);
                let tail = lower@.skip(at as int);
                let rest = tail.skip(HOST@.len() as int);
                assert(lower@.subrange(0, at as int) =~= head);
                assert(lower@ =~= head + tail);
                assert(tail =~= HOST@ + rest);
                encoding_of_joined_text(head, tail);
                encoding_of_joined_text(HOST@, rest);
            }
            Some(before.len() + pattern.len())
        },
        None => None,
    }
}

/// Finds the user whose profile `query` mentions.
pub fn find_user(query: &str) -> (r: Result<Option<String>, CutInsideCharacter>)
    ensures
        match r {
            Ok(user) => can_be_cut(query@, lowered(query@)) && option_text(user) == mentioned_user(
                query@,
                lowered(query@),
            ),
            Err(_) => !can_be_cut(query@, lowered(query@)),
        },
{
    let lower: String = to_lowercase(query);
    match offset_in(lower.as_str()) {
        Some(offset) => {
            if !query.is_char_boundary(offset) {
                return Err(CutInsideCharacter {  });
            }
        },
        None => {},
    }
    Ok(user_in(query, lower.as_str()))
}

/// The address that lists a user's repositories.
pub open spec fn repos_address(user: Seq<char>) -> Seq<char> {
    "https://api.github.com/users/"@ + user + "/repos"@
}

/// Writes the address that lists a user's repositories.
pub fn repos_url(user: &str) -> (r: String)
    ensures
        r@ == repos_address(user@),
{
    let mut out: String = "https://api.github.com/users/".to_owned();
    out.append(user);
    out.append("/repos");
    out
}

/// What is told of a repository.
#[derive(Debug)]
pub struct RepoInfo {
    pub name: Option<String>,
    pub html_url: Option<String>,
    pub description: Option<String>,
}

/// What is told of a repository, as a mathematical value.
pub struct RepoView {
    pub name: Option<Seq<char>>,
    pub html_url: Option<Seq<char>>,
    pub description: Option<Seq<char>>,
}

impl View for RepoInfo {
    type V = RepoView;

    open spec fn view(&self) -> RepoView {
        RepoView {
            name: option_text(self.name),
            html_url: option_text(self.html_url),
            description: option_text(self.description),
        }
    }
}

pub open spec fn repos(list: Seq<RepoInfo>) -> Seq<RepoView> {
    list.map_values(|r: RepoInfo| r@)
}

/// The value under a key, where there is one.
pub open spec fn member(members: Map<Seq<char>, Seq<char>>, key: Seq<char>) -> Option<Seq<char>> {
    if members.contains_key(key) {
        Some(members[key])
    } else {
        None
    }
}

/// The repository that a JSON object with these string members tells of.
pub open spec fn repo_of(members: Map<Seq<char>, Seq<char>>) -> RepoView {
    RepoView {
        name: member(members, "name"@),
        html_url: member(members, "html_url"@),
        description: member(members, "description"@),
    }
}

/// The repositories that a reply lists; nothing where it is no list.
pub open spec fn listed_repos(body: Seq<u8>) -> Option<Seq<RepoView>> {
    match json_array(body) {
        Some(rows) => Some(rows.map_values(|m: Map<Seq<char>, Seq<char>>| repo_of(m))),
        None => None,
    }
}

/// Reads the repositories that a reply lists.
pub fn read_repos(body: &[u8]) -> (r: Option<Vec<RepoInfo>>)
    ensures
        match r {
            Some(list) => listed_repos(body@) == Some(repos(list@)),
            None => listed_repos(body@) is None,
        },
{
    match parse_json_array(body) {
        Some(values) => {
            let mut list: Vec<RepoInfo> = Vec::new();
            let ghost rows = values@.map_values(|v: serde_json::Value| string_members(v));
            let ghost goal = rows.map_values(|m: Map<Seq<char>, Seq<char>>| repo_of(m));
            let mut i: usize = 0;
            while i < values.len()
                invariant
                    i <= values.len(),
                    rows == values@.map_values(|v: serde_json::Value| string_members(v)),
                    goal == rows.map_values(|m: Map<Seq<char>, Seq<char>>| repo_of(m)),
                    repos(list@) == goal.take(i as int),
                decreases values.len() - i,
            {
                let ghost before = repos(list@);
                let repo: RepoInfo = RepoInfo {
                    name: string_member(&values[i], "name"),
                    html_url: string_member(&values[i], "html_url"),
                    description: string_member(&values[i], "description"),
                };
                proof {
                    assert(repo@ == repo_of(string_members(values@[i as int])));
                }
                list.push(repo);
                proof {
                    assert(repos(list@) =~= before.push(repo@));
                    assert(before.push(repo@) =~= goal.take(i + 1));
                }
                i = i + 1;
            }
            proof {
                assert(goal.take(i as int) =~= goal);
            }
            Some(list)
        },
        None => None,
    }
}

/// A repository as an entry of a list, with words for what is not told.
pub open spec fn repo_entry(repo: RepoView) -> ItemView {
    ItemView {
        title: match repo.name {
            Some(name) => name,
            None => "Без имени"@,
        },
        url: match repo.html_url {
            Some(url) => url,
            None => Seq::empty(),
        },
        text: match repo.description {
            Some(text) => if text.len() > 0 {
                text
            } else {
                "Без описания"@
            },
            None => "Без описания"@,
        },
    }
}

pub open spec fn first_entries(list: Seq<RepoView>) -> Seq<ItemView> {
    let shown = if list.len() < MAX_ENTRIES {
        list.len() as int
    } else {
        MAX_ENTRIES as int
    };
    list.take(shown).map_values(|r: RepoView| repo_entry(r))
}

/// The report that a profile exists.
pub open spec fn found(user: Seq<char>) -> Seq<char> {
    "Профиль "@ + user + " найден на GitHub!"@
}

/// The report on a profile and its repositories: the first few of them, and
/// how many more there are.
pub open spec fn profile(user: Seq<char>, list: Seq<RepoView>) -> Seq<char> {
    if list.len() == 0 {
        found(user) + " Публичные репозитории не найдены."@
    } else {
        let shown = found(user) + " Публичные репозитории:\n"@ + numbered(first_entries(list));
        if list.len() > MAX_ENTRIES {
            shown + "... и ещё "@ + decimal((list.len() - MAX_ENTRIES) as nat) + " репозиториев."@
        } else {
            shown
        }
    }
}

/// Turns a repository into an entry of a list.
fn entry_for(repo: &RepoInfo) -> (r: ListItem)
    ensures
        r@ == repo_entry(repo@),
{
    let title: String = match &repo.name {
        Some(name) => name.clone(),
        None => "Без имени".to_owned(),
    };
    let url: String = match &repo.html_url {
        Some(url) => url.clone(),
        None => String::new(),
    };
    let text: String = match &repo.description {
        Some(text) => if text.as_str().is_empty() {
            "Без описания".to_owned()
        } else {
            text.clone()
        },
        None => "Без описания".to_owned(),
    };
    ListItem { title, url, text }
}

/// Writes the report that a profile exists.
fn found_text(user: &str) -> (r: String)
    ensures
        r@ == found(user@),
{
    let mut out: String = "Профиль ".to_owned();
    out.append(user);
    out.append(" найден на GitHub!");
    out
}

/// Writes the report on a profile and its repositories.
pub fn profile_text(user: &str, list: &Vec<RepoInfo>) -> (r: String)
    ensures
        r@ == profile(user@, repos(list@)),
{
    let mut out: String = found_text(user);
    let total: usize = list.len();
    if total == 0 {
        out.append(" Публичные репозитории не найдены.");
        return out;
    }
    out.append(" Публичные репозитории:\n");
    let shown: usize = if total < MAX_ENTRIES {
        total
    } else {
        MAX_ENTRIES
    };
    let mut entries: Vec<ListItem> = Vec::new();
    let ghost goal = first_entries(repos(list@));
    let mut i: usize = 0;
    while i < shown
        invariant
            i <= shown <= total,
            total == list.len(),
            goal == repos(list@).take(shown as int).map_values(|r: RepoView| repo_entry(r)),
            items(entries@) == goal.take(i as int),
        decreases shown - i,
    {
        let ghost before = items(entries@);
        let next: ListItem = entry_for(&list[i]);
        proof {
            assert(repos(list@).take(shown as int)[i as int] == list@[i as int]@);
            assert(goal[i as int] == next@);
        }
        entries.push(next);
        proof {
            assert(items(entries@) =~= before.push(next@));
            assert(before.push(next@) =~= goal.take(i + 1));
        }
        i = i + 1;
    }
    proof {
        assert(goal.take(i as int) =~= goal);
    }
    out.append(numbered_text(&entries).as_str());
    if total > MAX_ENTRIES {
        out.append("... и ещё ");
        out.append(decimal_text((total - MAX_ENTRIES) as u64).as_str());
        out.append(" репозиториев.");
    }
    out
}

/// What is reported of a profile that exists, from the body of the reply:
/// nothing more than that where the body could not be read or holds no list.
pub open spec fn existing_profile(user: Seq<char>, body: Option<Seq<u8>>) -> Seq<char> {
    match body {
        Some(bytes) => match listed_repos(bytes) {
            Some(list) => profile(user, list),
            None => found(user),
        },
        None => found(user),
    }
}

/// What GitHub's reply says of a user: nothing where it is neither a success
/// nor a refusal to know the user.
pub open spec fn user_report(user: Seq<char>, code: u16, body: Option<Seq<u8>>) -> Option<
    Seq<char>,
> {
    if is_success_code(code) {
        Some(existing_profile(user, body))
    } else if code == 404 {
        Some("Профиль или репозиторий не найден (HTTP 404)."@)
    } else {
        None
    }
}

pub open spec fn body_bytes(body: Option<Vec<u8>>) -> Option<Seq<u8>> {
    match body {
        Some(bytes) => Some(bytes@),
        None => None,
    }
}

/// Reads GitHub's reply about a user. The body counts only where the request
/// has succeeded.
pub fn read_user_reply(user: &str, status: &HttpStatus, body: Option<Vec<u8>>) -> (r: Option<
    String,
>)
    ensures
        option_text(r) == user_report(user@, status.number(), body_bytes(body)),
{
    if status.is_success() {
        match body {
            Some(bytes) => match read_repos(bytes.as_slice()) {
                Some(list) => Some(profile_text(user, &list)),
                None => Some(found_text(user)),
            },
            None => Some(found_text(user)),
        }
    } else if status.code() == 404 {
        Some("Профиль или репозиторий не найден (HTTP 404).".to_owned())
    } else {
        None
    }
}

/// A report lists the first repositories in their order, and as many as the
/// limit allows.
pub proof fn the_first_repositories_are_listed(list: Seq<RepoView>)
    ensures
        first_entries(list).len() == if list.len() < MAX_ENTRIES {
            list.len()
        } else {
            MAX_ENTRIES as nat
        },
        forall|i: int|
            0 <= i < first_entries(list).len() ==> #[trigger] first_entries(list)[i] == repo_entry(
                list[i],
            ),
{
}

/// A name that is read holds characters of names alone: no slash and no white
/// space.
pub proof fn names_are_clean(query: Seq<char>, lower: Seq<char>)
    ensures
        mentioned_user(query, lower) matches Some(name) ==> is_name(name) && forall|i: int|
            0 <= i < name.len() ==> !ends_name(#[trigger] name[i]),
{
    if let Some(offset) = name_offset(lower) {
        let stop = |c: char| ends_name(c);
        let rest = without_slashes(text_from(query, offset));
        before_first_is_clear(rest, stop);
        let name = before_first(rest, stop);
        assert forall|i: int| 0 <= i < name.len() implies !ends_name(#[trigger] name[i]) by {
            assert(name[i] == rest[i]);
            assert(!stop(rest[i]));
        }
    }
}

proof fn ascii_lowercase_is_ascii(s: Seq<char>)
    requires
        is_ascii_chars(s),
    ensures
        is_ascii_chars(ascii_lowercase(s)),
{
    let lower = ascii_lowercase(s);
    assert forall|i: int| 0 <= i < lower.len() implies '\0' <= #[trigger] lower[i] <= '\u{7f}' by {
        assert('\0' <= s[i] <= '\u{7f}');
    }
}

proof fn ascii_parts(s: Seq<char>, at: int)
    requires
        is_ascii_chars(s),
        0 <= at <= s.len(),
    ensures
        is_ascii_chars(s.take(at)),
        is_ascii_chars(s.skip(at)),
        byte_len(s.take(at)) == at,
        is_char_boundary(encode_utf8(s), at),
        decode_utf8(encode_utf8(s).subrange(at, encode_utf8(s).len() as int)) == s.skip(at),
{
    let head = s.take(at);
    let tail = s.skip(at);
    assert forall|i: int| 0 <= i < head.len() implies '\0' <= #[trigger] head[i] <= '\u{7f}' by {
        assert(head[i] == s[i]);
    }
    assert forall|i: int| 0 <= i < tail.len() implies '\0' <= #[trigger] tail[i] <= '\u{7f}' by {
        assert(tail[i] == s[at + i]);
    }
    is_ascii_chars_encode_utf8(s);
    is_ascii_chars_encode_utf8(head);
    let bytes = encode_utf8(s);
    encode_utf8_valid_utf8(s);
    if at == s.len() {
        is_char_boundary_start_end_of_seq(bytes);
    } else {
        is_char_boundary_iff_not_is_continuation_byte(bytes, at);
        assert('\0' <= s[at] <= '\u{7f}');
        assert(bytes[at] == s[at] as u8);
    }
    assert(s =~= head + tail);
    encoding_of_joined_text(head, tail);
    assert(bytes.subrange(at, bytes.len() as int) =~= encode_utf8(tail));
    encode_utf8_decode_utf8(tail);
}

/// Every ASCII query can be cut where a name begins, and what is cut off is
/// what follows the host.
pub proof fn ascii_queries_can_be_cut(query: Seq<char>)
    requires
        is_ascii_chars(query),
    ensures
        can_be_cut(query, lowered(query)),
        find(ascii_lowercase(query), HOST@) matches Some(at) ==> mentioned_user(
            query,
            lowered(query),
        ) == name_in(query.skip(at as int + HOST@.len())),
{
    let lower = ascii_lowercase(query);
    find_is_first(lower, HOST@);
    if let Some(at) = find(lower, HOST@) {
        reveal_strlit("github.com/");
        ascii_lowercase_is_ascii(query);
        ascii_parts(lower, at as int);
        is_ascii_chars_encode_utf8(HOST@);
        ascii_parts(query, at as int + HOST@.len());
    }
}

/// Where a text before the host does not mention it, the first mention is the
/// one behind that text.
proof fn the_host_is_found_behind(before: Seq<char>, rest: Seq<char>)
    requires
        find(before, HOST@) is None,
        HOST@.is_prefix_of(rest),
    ensures
        find(before + rest, HOST@) == Some(before.len()),
{
    let s = before + rest;
    let b = before.len() as int;
    let h = HOST@.len() as int;
    find_is_first(before, HOST@);
    find_is_first(s, HOST@);
    assert(s.skip(b) =~= rest);
    assert forall|i: int| 0 <= i < b implies !HOST@.is_prefix_of(#[trigger] s.skip(i)) by {
        if HOST@.is_prefix_of(s.skip(i)) {
            if i + h <= b {
                assert(s.skip(i).subrange(0, h) =~= before.skip(i).subrange(0, h));
                assert(HOST@.is_prefix_of(before.skip(i)));
            } else {
                occurrences_do_not_overlap(s, i, b);
            }
        }
    }
    if let Some(at) = find(s, HOST@) {
        if at < b {
            assert(HOST@.is_prefix_of(s.skip(at as int)));
        } else if at > b {
            assert(!HOST@.is_prefix_of(s.skip(b)));
        }
    }
}

/// Two mentions of the host do not overlap: it ends in the only slash in it.
proof fn occurrences_do_not_overlap(s: Seq<char>, i: int, j: int)
    requires
        0 <= i < j <= s.len(),
        HOST@.is_prefix_of(s.skip(i)),
        HOST@.is_prefix_of(s.skip(j)),
    ensures
        i + HOST@.len() <= j,
{
    reveal_strlit("github.com/");
    let h = HOST@.len() as int;
    if i + h > j {
        let k = i + h - 1 - j;
        assert(s.skip(i).subrange(0, h)[h - 1] == s[i + h - 1]);
        assert(s.skip(j).subrange(0, h)[k] == s[i + h - 1]);
        assert(HOST@[h - 1] == HOST@[k]);
    }
}

/// A name is read up to the end of the text or to what ends it.
proof fn a_name_is_read(name: Seq<char>, after: Seq<char>)
    requires
        is_ascii_chars(name),
        is_name(name),
        after.len() > 0 ==> ends_name(after.first()),
    ensures
        name_in(name + after) == Some(name),
{
    let rest = name + after;
    let stop = |c: char| ends_name(c);
    let n = name.len() as int;
    assert(rest.first() == name[0]);
    name_chars_end_no_name(name, 0);
    assert(without_slashes(rest) == rest);
    before_first_is_clear(rest, stop);
    let read = before_first(rest, stop);
    let k = read.len() as int;
    if k < n {
        assert(rest[k] == name[k]);
        name_chars_end_no_name(name, k);
        assert(stop(rest[k]));
    } else if k > n {
        assert(rest[n] == after.first());
        assert(!stop(rest[n]));
    }
    assert(read =~= name);
}

/// A profile that an ASCII query mentions is found, whatever the case of the
/// host and whatever follows the name behind a slash or white space.
pub proof fn a_mentioned_user_is_found(
    before: Seq<char>,
    host: Seq<char>,
    name: Seq<char>,
    after: Seq<char>,
)
    requires
        is_ascii_chars(before + host + name + after),
        find(ascii_lowercase(before), HOST@) is None,
        ascii_lowercase(host) == HOST@,
        is_name(name),
        after.len() > 0 ==> ends_name(after.first()),
    ensures
        ({
            let query = before + host + name + after;
            mentioned_user(query, lowered(query)) == Some(name)
        }),
{
    let query = before + host + name + after;
    let lower = ascii_lowercase(query);
    let rest = host + name + after;
    let low = ascii_lowercase(rest);
    assert(ascii_lowercase(host).len() == host.len());
    assert(low.subrange(0, HOST@.len() as int) =~= ascii_lowercase(host));
    assert(lower =~= ascii_lowercase(before) + low);
    the_host_is_found_behind(ascii_lowercase(before), low);
    ascii_queries_can_be_cut(query);
    assert(query.skip(before.len() as int + HOST@.len()) =~= name + after);
    assert forall|i: int| 0 <= i < name.len() implies '\0' <= #[trigger] name[i] <= '\u{7f}' by {
        assert(name[i] == query[before.len() + host.len() + i]);
    }
    a_name_is_read(name, after);
}

/// In ASCII no character both belongs to a name and ends it.
proof fn name_chars_end_no_name(s: Seq<char>, at: int)
    requires
        is_ascii_chars(s),
        0 <= at < s.len(),
    ensures
        is_name_char(s[at]) ==> !ends_name(s[at]),
{
    assert('\0' <= s[at] <= '\u{7f}');
}

/// The address that lists a user's repositories holds the whole name, between
/// what every such address begins with and what it ends in; so no two users
/// have the same address.
pub proof fn the_address_holds_the_whole_name(user: Seq<char>, other: Seq<char>)
    ensures
        ({
            let address = repos_address(user);
            let front = "https://api.github.com/users/"@;
            let back = "/repos"@;
            &&& address.len() == front.len() + user.len() + back.len()
            &&& address.take(front.len() as int) == front
            &&& address.subrange(front.len() as int, (front.len() + user.len()) as int) == user
            &&& address.skip((front.len() + user.len()) as int) == back
        }),
        repos_address(user) == repos_address(other) ==> user == other,
{
    let front = "https://api.github.com/users/"@;
    let back = "/repos"@;
    let a = repos_address(user);
    let b = repos_address(other);
    assert(a.take(front.len() as int) =~= front);
    assert(a.subrange(front.len() as int, (front.len() + user.len()) as int) =~= user);
    assert(a.skip((front.len() + user.len()) as int) =~= back);
    assert(b.subrange(front.len() as int, (front.len() + other.len()) as int) =~= other);
}

/// A name is what stands between slashes and whatever ends it, all of it, where
/// it holds nothing but letters, numbers, hyphens and underscores; a name with
/// anything else in it is no name, and neither is an empty one.
pub proof fn names_are_read_whole(slashes: Seq<char>, name: Seq<char>, after: Seq<char>)
    requires
        forall|i: int| 0 <= i < slashes.len() ==> #[trigger] slashes[i] == '/',
        forall|i: int|
            0 <= i < name.len() ==> #[trigger] name[i] != '/' && !is_white_space(name[i]),
        after.len() > 0 ==> after.first() == '/' || is_white_space(after.first()),
        name.len() == 0 && after.len() > 0 ==> after.first() != '/',
    ensures
        name_in(slashes + name + after) == if name.len() > 0 && forall|i: int|
            0 <= i < name.len() ==> {
                ||| #[trigger] name[i] == '-'
                ||| name[i] == '_'
                ||| 'a' <= name[i] <= 'z'
                ||| 'A' <= name[i] <= 'Z'
                ||| '0' <= name[i] <= '9'
                ||| name[i] > '\u{7f}' && alphanumeric(name[i])
            } {
            Some(name)
        } else {
            None
        },
    decreases slashes.len(),
{
    let rest = slashes + name + after;
    if slashes.len() > 0 {
        let fewer = slashes.drop_first();
        assert(slashes[0] == '/');
        assert forall|i: int| 0 <= i < fewer.len() implies #[trigger] fewer[i] == '/' by {
            assert(fewer[i] == slashes[i + 1]);
        }
        assert(rest.first() == '/');
        assert(rest.drop_first() =~= fewer + name + after);
        names_are_read_whole(fewer, name, after);
        assert(without_slashes(rest) == without_slashes(fewer + name + after));
    } else {
        let stop = |c: char| ends_name(c);
        let n = name.len() as int;
        assert(rest =~= name + after);
        if n > 0 {
            assert(rest.first() == name[0]);
        } else if after.len() > 0 {
            assert(rest.first() == after.first());
        }
        assert(without_slashes(rest) == rest);
        before_first_is_clear(rest, stop);
        let read = before_first(rest, stop);
        let k = read.len() as int;
        if k < n {
            assert(rest[k] == name[k]);
            assert(stop(rest[k]));
        } else if k > n {
            assert(rest[n] == after.first());
            assert(!stop(rest[n]));
        }
        assert(read =~= name);
        if is_name(name) {
            assert forall|i: int| 0 <= i < name.len() implies {
                ||| #[trigger] name[i] == '-'
                ||| name[i] == '_'
                ||| 'a' <= name[i] <= 'z'
                ||| 'A' <= name[i] <= 'Z'
                ||| '0' <= name[i] <= '9'
                ||| name[i] > '\u{7f}' && alphanumeric(name[i])
            } by {
                assert(is_name_char(name[i]));
            }
        } else if n > 0 {
            let bad = choose|i: int| 0 <= i < name.len() && !is_name_char(#[trigger] name[i]);
            assert(!is_name_char(name[bad]));
        }
    }
}

/// The name of a user begins where the host ends: as many bytes into the query
/// as the host ends into the query in lower case. Where the query has an end of
/// a character there, it can be cut.
pub proof fn names_begin_behind_the_host(
    query: Seq<char>,
    lower: Seq<char>,
    at: nat,
    head: Seq<char>,
    tail: Seq<char>,
)
    requires
        find(lower, "github.com/"@) == Some(at),
        query == head + tail,
        encode_utf8(head).len() == encode_utf8(lower.take(at as int)).len() + 11,
    ensures
        can_be_cut(query, lower),
        mentioned_user(query, lower) == name_in(tail),
{
    reveal_strlit("github.com/");
    is_ascii_chars_encode_utf8(HOST@);
    encoding_of_joined_text(head, tail);
    let bytes = encode_utf8(query);
    let offset = encode_utf8(head).len() as int;
    let rest = encode_utf8(tail);
    encode_utf8_valid_utf8(query);
    encode_utf8_valid_utf8(tail);
    encode_utf8_decode_utf8(tail);
    assert(bytes.subrange(offset, bytes.len() as int) =~= rest);
    if offset == bytes.len() {
        is_char_boundary_start_end_of_seq(bytes);
    } else {
        is_char_boundary_start_end_of_seq(rest);
        is_char_boundary_iff_not_is_continuation_byte(rest, 0);
        assert(bytes[offset] == rest[0]);
        is_char_boundary_iff_not_is_continuation_byte(bytes, offset);
    }
}

/// A query that does not hold the host mentions nobody, and need not be cut.
pub proof fn without_the_host_nobody_is_mentioned(query: Seq<char>, lower: Seq<char>)
    requires
        find(lower, "github.com/"@) is None,
    ensures
        mentioned_user(query, lower) is None,
        can_be_cut(query, lower),
{
}

/// A query is put in lower case as Unicode has it, and in ASCII letter by
/// letter.
pub proof fn queries_are_lowered(query: Seq<char>)
    ensures
        is_ascii_chars(query) ==> lowered(query) == ascii_lowercase(query),
        !is_ascii_chars(query) ==> lowered(query) == lowercase(query),
{
}

/// The repositories that a reply lists are told one by one, in order, each by
/// its name, its address and its description, where it has them.
pub proof fn repositories_are_told_one_by_one(body: Seq<u8>)
    ensures
        match json_array(body) {
            Some(rows) => listed_repos(body) matches Some(list) && list.len() == rows.len()
                && forall|i: int|
                0 <= i < rows.len() ==> {
                    &&& (#[trigger] list[i]).name == if rows[i].contains_key("name"@) {
                        Some(rows[i]["name"@])
                    } else {
                        None
                    }
                    &&& list[i].html_url == if rows[i].contains_key("html_url"@) {
                        Some(rows[i]["html_url"@])
                    } else {
                        None
                    }
                    &&& list[i].description == if rows[i].contains_key("description"@) {
                        Some(rows[i]["description"@])
                    } else {
                        None
                    }
                },
            None => listed_repos(body) is None,
        },
{
}

/// A repository is shown by what is told of it, whole, with words for a name
/// that is missing and for a description that is missing or empty.
pub proof fn repositories_are_shown_whole(repo: RepoView)
    ensures
        repo.name matches Some(name) ==> repo_entry(repo).title == name,
        repo.name is None ==> repo_entry(repo).title == "Без имени"@,
        repo.html_url matches Some(url) ==> repo_entry(repo).url == url,
        repo.html_url is None ==> repo_entry(repo).url.len() == 0,
        repo.description matches Some(text) ==> text.len() > 0 ==> repo_entry(repo).text == text,
        repo.description is None || repo.description->0.len() == 0 ==> repo_entry(repo).text
            == "Без описания"@,
{
}

/// The report on a profile names the user; it grows by an entry for each
/// repository up to the fifth; and of the others it tells how many there are.
pub proof fn profiles_grow_by_repositories(user: Seq<char>, list: Seq<RepoView>, repo: RepoView)
    ensures
        ({
            let named = "Профиль "@ + user + " найден на GitHub!"@;
            let shown = repo_entry(repo);
            let entry = decimal(list.len() + 1) + ". "@ + shown.title + " — "@ + shown.url
                + "\n   "@ + shown.text + "\n\n"@;
            &&& profile(user, Seq::empty()) == named + " Публичные репозитории не найдены."@
            &&& list.len() == 0 ==> profile(user, list.push(repo)) == named
                + " Публичные репозитории:\n"@ + entry
            &&& 0 < list.len() < 5 ==> profile(user, list.push(repo)) == profile(user, list) + entry
            &&& list.len() > 5 ==> profile(user, list) == profile(user, list.take(5))
                + "... и ещё "@ + decimal((list.len() - 5) as nat) + " репозиториев."@
        }),
{
    let named = "Профиль "@ + user + " найден на GitHub!"@;
    let shown = repo_entry(repo);
    let entry = decimal(list.len() + 1) + ". "@ + shown.title + " — "@ + shown.url + "\n   "@
        + shown.text + "\n\n"@;
    let more = list.push(repo);
    let heading = named + " Публичные репозитории:\n"@;
    if list.len() < 5 {
        assert(first_entries(more) =~= first_entries(list).push(shown));
        lists_grow_by_entries(first_entries(list), shown);
        assert(numbered(first_entries(more)) =~= numbered(first_entries(list)) + entry);
        assert(heading + (numbered(first_entries(list)) + entry) =~= (heading + numbered(
            first_entries(list),
        )) + entry);
        if list.len() == 0 {
            assert(first_entries(list) =~= Seq::<ItemView>::empty());
            assert(heading + Seq::<char>::empty() =~= heading);
        }
    } else if list.len() > 5 {
        assert(first_entries(list.take(5)) =~= first_entries(list));
    }
}

/// GitHub's reply tells of a user where it is a success, and where it is a
/// refusal to know the user; every other reply tells nothing. A success without
/// a list tells that the profile exists.
pub proof fn replies_about_users(user: Seq<char>, code: u16, body: Option<Seq<u8>>)
    ensures
        200 <= code <= 299 ==> user_report(user, code, body) == Some(
            match body {
                Some(bytes) => match listed_repos(bytes) {
                    Some(list) => profile(user, list),
                    None => "Профиль "@ + user + " найден на GitHub!"@,
                },
                None => "Профиль "@ + user + " найден на GitHub!"@,
            },
        ),
        code == 404 ==> user_report(user, code, body) == Some(
            "Профиль или репозиторий не найден (HTTP 404)."@,
        ),
        !(200 <= code <= 299) && code != 404 ==> user_report(user, code, body) is None,
{
}

/// Every repository stands in its list, in order, with what is told of it.
pub proof fn repos_are_whole(list: Seq<RepoInfo>, body: Option<Vec<u8>>)
    ensures
        repos(list).len() == list.len(),
        forall|i: int|
            0 <= i < list.len() ==> (#[trigger] repos(list)[i]).name == option_text(list[i].name)
                && repos(list)[i].html_url == option_text(list[i].html_url)
                && repos(list)[i].description == option_text(list[i].description),
        body matches Some(bytes) ==> body_bytes(body) == Some(bytes@),
        body is None ==> body_bytes(body) is None,
{
}

} // verus!

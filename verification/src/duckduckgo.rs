//! Result pages of DuckDuckGo Lite.

use vstd::prelude::*;
use vstd::string::*;

use crate::http::HttpStatus;
#[allow(unused_imports)]
use crate::http::{is_success_code, status_line};
use crate::listing::{numbered_text, ListItem, MAX_ENTRIES};
#[allow(unused_imports)]
use crate::listing::{items, lists_grow_by_entries, numbered, ItemView};
#[allow(unused_imports)]
use crate::number::decimal;
#[allow(unused_imports)]
use crate::outside::status_phrase;
use crate::outside::{selected_attributes, selected_texts, MAX_PAGE_BYTES};
#[allow(unused_imports)]
use crate::outside::{element_attributes, element_texts, is_class_selector, is_plain_name};
use crate::text::trimmed;
#[allow(unused_imports)]
use crate::text::{byte_len, option_text, texts, trim};

verus! {

/// Where the search form is sent.
pub const DDG_LITE_URL: &'static str = "https://lite.duckduckgo.com/lite/";

/// What selects the links of a result page.
pub const LINK_SELECTOR: &'static str = "a.result-link";

/// What selects the snippets of a result page.
pub const SNIPPET_SELECTOR: &'static str = "td.result-snippet";

/// The attribute of a link that holds its address.
pub const LINK_ATTRIBUTE: &'static str = "href";

/// The element at `i`, or nothing where there is none.
pub open spec fn at_or_empty(list: Seq<Seq<char>>, i: int) -> Seq<char> {
    if 0 <= i < list.len() {
        list[i]
    } else {
        Seq::empty()
    }
}

/// The first few results as entries of a list. An address or a snippet that
/// is missing is left empty.
pub open spec fn result_entries(
    titles: Seq<Seq<char>>,
    urls: Seq<Seq<char>>,
    snippets: Seq<Seq<char>>,
) -> Seq<ItemView> {
    let shown = if titles.len() < MAX_ENTRIES {
        titles.len()
    } else {
        MAX_ENTRIES as nat
    };
    Seq::new(
        shown,
        |i: int|
            ItemView {
                title: titles[i],
                url: at_or_empty(urls, i),
                text: at_or_empty(snippets, i),
            },
    )
}

/// The report on the results of a search.
pub open spec fn results(
    titles: Seq<Seq<char>>,
    urls: Seq<Seq<char>>,
    snippets: Seq<Seq<char>>,
) -> Seq<char> {
    if titles.len() == 0 {
        "По вашему запросу ничего не найдено."@
    } else {
        "Результаты поиска DuckDuckGo:\n"@ + numbered(result_entries(titles, urls, snippets))
    }
}

/// A copy of the element at `i`, or an empty text where there is none.
fn get_or_empty(list: &Vec<String>, i: usize) -> (r: String)
    ensures
        r@ == at_or_empty(texts(list@), i as int),
{
    if i < list.len() {
        list[i].clone()
    } else {
        String::new()
    }
}

/// Writes the report on the results of a search.
pub fn results_text(titles: &Vec<String>, urls: &Vec<String>, snippets: &Vec<String>) -> (r: String)
    ensures
        r@ == results(texts(titles@), texts(urls@), texts(snippets@)),
{
    let total: usize = titles.len();
    if total == 0 {
        return "По вашему запросу ничего не найдено.".to_owned();
    }
    let shown: usize = if total < MAX_ENTRIES {
        total
    } else {
        MAX_ENTRIES
    };
    let mut entries: Vec<ListItem> = Vec::new();
    let ghost goal = result_entries(texts(titles@), texts(urls@), texts(snippets@));
    let mut i: usize = 0;
    while i < shown
        invariant
            i <= shown <= total,
            total == titles.len(),
            shown == goal.len(),
            goal == result_entries(texts(titles@), texts(urls@), texts(snippets@)),
            items(entries@) == goal.take(i as int),
        decreases shown - i,
    {
        let ghost before = items(entries@);
        let next: ListItem = ListItem {
            title: titles[i].clone(),
            url: get_or_empty(urls, i),
            text: get_or_empty(snippets, i),
        };
        proof {
            assert(texts(titles@)[i as int] == titles@[i as int]@);
            assert(next@ == goal[i as int]);
        }
        entries.push(next);
        proof {
            assert(items(entries@) =~= before.push(next@));
            assert(before.push(next@) =~= goal.take(i + 1));
        }
        i = i + 1;
    }
    proof {
        assert(goal.take(i as int) =~= goal);
    }
    let mut out: String = "Результаты поиска DuckDuckGo:\n".to_owned();
    out.append(numbered_text(&entries).as_str());
    out
}

/// A report lists the first results in their order, and as many as the limit
/// allows.
pub proof fn the_first_results_are_listed(
    titles: Seq<Seq<char>>,
    urls: Seq<Seq<char>>,
    snippets: Seq<Seq<char>>,
)
    ensures
        ({
            let entries = result_entries(titles, urls, snippets);
            &&& entries.len() == if titles.len() < MAX_ENTRIES {
                titles.len()
            } else {
                MAX_ENTRIES as nat
            }
            &&& forall|i: int|
                0 <= i < entries.len() ==> (#[trigger] entries[i]).title == titles[i]
        }),
{
}

/// The texts without the white space round them.
pub open spec fn trim_all(list: Seq<Seq<char>>) -> Seq<Seq<char>> {
    list.map_values(|s: Seq<char>| trim(s))
}

/// The texts, with an empty one for each that is missing.
pub open spec fn or_empty_all(list: Seq<Option<Seq<char>>>) -> Seq<Seq<char>> {
    list.map_values(
        |s: Option<Seq<char>>|
            match s {
                Some(t) => t,
                None => Seq::empty(),
            },
    )
}

/// The report on what is selected from a result page: the texts of the links,
/// their addresses, and the texts of the snippets.
pub open spec fn selection_results(
    titles: Seq<Seq<char>>,
    addresses: Seq<Option<Seq<char>>>,
    snippets: Seq<Seq<char>>,
) -> Seq<char> {
    results(trim_all(titles), or_empty_all(addresses), trim_all(snippets))
}

/// The report on a result page.
pub open spec fn page_results(html: Seq<char>) -> Seq<char> {
    selection_results(
        element_texts(html, LINK_SELECTOR@),
        element_attributes(html, LINK_SELECTOR@, LINK_ATTRIBUTE@),
        element_texts(html, SNIPPET_SELECTOR@),
    )
}

/// The texts, where there are any.
pub open spec fn option_texts(list: Seq<Option<String>>) -> Seq<Option<Seq<char>>> {
    list.map_values(|a: Option<String>| option_text(a))
}

fn trim_each(list: &Vec<String>) -> (r: Vec<String>)
    ensures
        texts(r@) == trim_all(texts(list@)),
{
    let mut out: Vec<String> = Vec::new();
    let ghost goal = trim_all(texts(list@));
    let mut i: usize = 0;
    while i < list.len()
        invariant
            i <= list.len(),
            goal == trim_all(texts(list@)),
            texts(out@) == goal.take(i as int),
        decreases list.len() - i,
    {
        let ghost before = texts(out@);
        let next: String = trimmed(list[i].as_str()).to_owned();
        proof {
            assert(texts(list@)[i as int] == list@[i as int]@);
            assert(goal[i as int] == next@);
        }
        out.push(next);
        proof {
            assert(texts(out@) =~= before.push(next@));
            assert(before.push(next@) =~= goal.take(i + 1));
        }
        i = i + 1;
    }
    proof {
        assert(goal.take(i as int) =~= goal);
    }
    out
}

fn or_empty_each(list: &Vec<Option<String>>) -> (r: Vec<String>)
    ensures
        texts(r@) == or_empty_all(option_texts(list@)),
{
    let mut out: Vec<String> = Vec::new();
    let ghost views = option_texts(list@);
    let ghost goal = or_empty_all(views);
    let mut i: usize = 0;
    while i < list.len()
        invariant
            i <= list.len(),
            views == option_texts(list@),
            goal == or_empty_all(views),
            texts(out@) == goal.take(i as int),
        decreases list.len() - i,
    {
        let ghost before = texts(out@);
        let next: String = match &list[i] {
            Some(s) => s.clone(),
            None => String::new(),
        };
        proof {
            assert(views[i as int] == option_text(list@[i as int]));
            assert(goal[i as int] == next@);
        }
        out.push(next);
        proof {
            assert(texts(out@) =~= before.push(next@));
            assert(before.push(next@) =~= goal.take(i + 1));
        }
        i = i + 1;
    }
    proof {
        assert(goal.take(i as int) =~= goal);
    }
    out
}

proof fn selectors_are_simple()
    ensures
        is_class_selector(LINK_SELECTOR@),
        is_class_selector(SNIPPET_SELECTOR@),
{
    reveal_strlit("a.result-link");
    reveal_strlit("td.result-snippet");
    let link = LINK_SELECTOR@;
    let snippet = SNIPPET_SELECTOR@;
    assert(link[1] == '.');
    assert(is_plain_name(link.take(1)));
    assert(is_plain_name(link.skip(2)));
    assert(snippet[2] == '.');
    assert(is_plain_name(snippet.take(2)));
    assert(is_plain_name(snippet.skip(3)));
}

/// Writes the report on what is selected from a result page.
pub fn selection_text(
    titles: &Vec<String>,
    addresses: &Vec<Option<String>>,
    snippets: &Vec<String>,
) -> (r: String)
    ensures
        r@ == selection_results(texts(titles@), option_texts(addresses@), texts(snippets@)),
{
    let titles: Vec<String> = trim_each(titles);
    let urls: Vec<String> = or_empty_each(addresses);
    let snippets: Vec<String> = trim_each(snippets);
    results_text(&titles, &urls, &snippets)
}

/// The page is so long that it may not fit the parser's buffers.
#[derive(Debug)]
pub struct PageTooLong {}

/// Reads a result page and writes the report on it.
pub fn read_page(html: &str) -> (r: Result<String, PageTooLong>)
    ensures
        match r {
            Ok(text) => byte_len(html@) <= MAX_PAGE_BYTES && text@ == page_results(html@),
            Err(_) => byte_len(html@) > MAX_PAGE_BYTES,
        },
{
    if html.as_bytes().len() > MAX_PAGE_BYTES {
        return Err(PageTooLong {  });
    }
    proof {
        selectors_are_simple();
    }
    let titles: Vec<String> = selected_texts(html, LINK_SELECTOR);
    let snippets: Vec<String> = selected_texts(html, SNIPPET_SELECTOR);
    let addresses: Vec<Option<String>> = selected_attributes(html, LINK_SELECTOR, LINK_ATTRIBUTE);
    Ok(selection_text(&titles, &addresses, &snippets))
}

/// The texts of a reply, or the reason why they could not be read.
pub open spec fn result_texts(r: Result<String, String>) -> Result<Seq<char>, Seq<char>> {
    match r {
        Ok(text) => Ok(text@),
        Err(error) => Err(error@),
    }
}

/// What DuckDuckGo's reply comes to: a report on the page, or the reason why
/// there is none.
pub open spec fn page_report(code: u16, body: Result<Seq<char>, Seq<char>>) -> Result<
    Seq<char>,
    Seq<char>,
> {
    if !is_success_code(code) {
        Err("HTTP "@ + status_line(code))
    } else {
        match body {
            Ok(html) => Ok(page_results(html)),
            Err(error) => Err(error),
        }
    }
}

/// A reply is too long where it holds a page that has to be parsed and may not
/// fit the parser's buffers.
pub open spec fn is_too_long(code: u16, body: Result<Seq<char>, Seq<char>>) -> bool {
    match body {
        Ok(html) => is_success_code(code) && byte_len(html) > MAX_PAGE_BYTES,
        Err(error) => false,
    }
}

/// A page that is too long, for others to select from.
#[derive(Debug)]
pub struct LongPage {
    pub html: String,
}

/// Reads DuckDuckGo's reply. The body counts only where the request has
/// succeeded. A page that is too long is handed back.
pub fn read_search_reply(status: &HttpStatus, body: Result<String, String>) -> (r: Result<
    Result<String, String>,
    LongPage,
>)
    ensures
        match r {
            Ok(report) => !is_too_long(status.number(), result_texts(body)) && result_texts(report)
                == page_report(status.number(), result_texts(body)),
            Err(page) => is_too_long(status.number(), result_texts(body)) && result_texts(body)
                == Ok::<Seq<char>, Seq<char>>(page.html@),
        },
{
    if !status.is_success() {
        return Ok(Err("HTTP ".to_owned().concat(status.text().as_str())));
    }
    match body {
        Ok(html) => match read_page(html.as_str()) {
            Ok(text) => Ok(Ok(text)),
            Err(_) => Err(LongPage { html }),
        },
        Err(error) => Ok(Err(error)),
    }
}

/// Each result is listed with its own title, its own address and its own
/// snippet, whole; what is missing is left empty.
pub proof fn results_keep_their_parts(
    titles: Seq<Seq<char>>,
    urls: Seq<Seq<char>>,
    snippets: Seq<Seq<char>>,
    i: int,
)
    requires
        0 <= i < titles.len(),
        i < 5,
    ensures
        ({
            let entries = result_entries(titles, urls, snippets);
            &&& i < entries.len()
            &&& entries[i].title == titles[i]
            &&& i < urls.len() ==> entries[i].url == urls[i]
            &&& i >= urls.len() ==> entries[i].url.len() == 0
            &&& i < snippets.len() ==> entries[i].text == snippets[i]
            &&& i >= snippets.len() ==> entries[i].text.len() == 0
        }),
{
}

/// A report grows by an entry for each result up to the fifth, with the number,
/// title, address and snippet of that result, and by nothing for any further
/// one; without results it says so.
pub proof fn reports_grow_by_results(
    titles: Seq<Seq<char>>,
    title: Seq<char>,
    urls: Seq<Seq<char>>,
    snippets: Seq<Seq<char>>,
)
    ensures
        ({
            let n = titles.len() as int;
            let url = if n < urls.len() {
                urls[n]
            } else {
                Seq::empty()
            };
            let snippet = if n < snippets.len() {
                snippets[n]
            } else {
                Seq::empty()
            };
            let entry = decimal(titles.len() + 1) + ". "@ + title + " — "@ + url + "\n   "@ + snippet
                + "\n\n"@;
            let more = titles.push(title);
            &&& results(Seq::empty(), urls, snippets) == "По вашему запросу ничего не найдено."@
            &&& n == 0 ==> results(more, urls, snippets) == "Результаты поиска DuckDuckGo:\n"@
                + entry
            &&& 0 < n < 5 ==> results(more, urls, snippets) == results(titles, urls, snippets)
                + entry
            &&& n >= 5 ==> results(more, urls, snippets) == results(titles, urls, snippets)
        }),
{
    let n = titles.len() as int;
    let more = titles.push(title);
    let before = result_entries(titles, urls, snippets);
    let after = result_entries(more, urls, snippets);
    let heading = "Результаты поиска DuckDuckGo:\n"@;
    if n < 5 {
        let item = ItemView {
            title,
            url: at_or_empty(urls, n),
            text: at_or_empty(snippets, n),
        };
        let entry = decimal(titles.len() + 1) + ". "@ + title + " — "@ + item.url + "\n   "@
            + item.text + "\n\n"@;
        assert(after =~= before.push(item));
        lists_grow_by_entries(before, item);
        assert(numbered(after) =~= numbered(before) + entry);
        assert(heading + (numbered(before) + entry) =~= (heading + numbered(before)) + entry);
        if n == 0 {
            assert(before =~= Seq::<ItemView>::empty());
            assert(heading + Seq::<char>::empty() =~= heading);
        }
    } else {
        assert(after =~= before);
    }
}

/// What is selected from a page is reported in the order of the selection, the
/// texts without the white space round them, and an address that a link lacks
/// left empty.
pub proof fn selections_are_reported_in_order(
    titles: Seq<Seq<char>>,
    addresses: Seq<Option<Seq<char>>>,
    snippets: Seq<Seq<char>>,
    tight: Seq<Seq<char>>,
    urls: Seq<Seq<char>>,
    notes: Seq<Seq<char>>,
)
    requires
        tight.len() == titles.len(),
        urls.len() == addresses.len(),
        notes.len() == snippets.len(),
        forall|i: int| 0 <= i < titles.len() ==> #[trigger] tight[i] == trim(titles[i]),
        forall|i: int|
            0 <= i < addresses.len() ==> #[trigger] urls[i] == match addresses[i] {
                Some(url) => url,
                None => Seq::empty(),
            },
        forall|i: int| 0 <= i < snippets.len() ==> #[trigger] notes[i] == trim(snippets[i]),
    ensures
        selection_results(titles, addresses, snippets) == results(tight, urls, notes),
{
    assert(trim_all(titles) =~= tight);
    assert(or_empty_all(addresses) =~= urls);
    assert(trim_all(snippets) =~= notes);
}

/// A page is reported by its links, with their addresses, and by its snippets.
pub proof fn pages_are_reported_by_links_and_snippets(html: Seq<char>)
    ensures
        page_results(html) == selection_results(
            element_texts(html, "a.result-link"@),
            element_attributes(html, "a.result-link"@, "href"@),
            element_texts(html, "td.result-snippet"@),
        ),
{
}

/// A reply that is no success is told by its status; of a success the page is
/// reported, or the reason why it could not be read. Only the page of a success
/// can be too long.
pub proof fn replies_to_searches(code: u16, body: Result<Seq<char>, Seq<char>>)
    ensures
        !(200 <= code <= 299) ==> page_report(code, body) == Err::<Seq<char>, Seq<char>>(
            "HTTP "@ + (decimal(code as nat) + seq![' '] + status_phrase(code)),
        ),
        200 <= code <= 299 ==> page_report(code, body) == match body {
            Ok(html) => Ok::<Seq<char>, Seq<char>>(page_results(html)),
            Err(error) => Err(error),
        },
        is_too_long(code, body) <==> 200 <= code <= 299 && (body matches Ok(html) && byte_len(html)
            > MAX_PAGE_BYTES),
{
}

/// Addresses and replies are taken whole.
pub proof fn replies_are_whole(list: Seq<Option<String>>, reply: Result<String, String>)
    ensures
        option_texts(list).len() == list.len(),
        forall|i: int|
            0 <= i < list.len() ==> #[trigger] option_texts(list)[i] == option_text(list[i]),
        reply matches Ok(text) ==> result_texts(reply) == Ok::<Seq<char>, Seq<char>>(text@),
        reply matches Err(error) ==> result_texts(reply) == Err::<Seq<char>, Seq<char>>(error@),
{
}

} // verus!

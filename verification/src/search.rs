//! One search on the web: a GitHub profile that the query mentions is looked
//! up first; where that gives nothing, DuckDuckGo is asked.

use vstd::prelude::*;
use vstd::string::*;

use crate::duckduckgo::{read_search_reply, selection_text, LongPage};
#[allow(unused_imports)]
use crate::duckduckgo::{is_too_long, option_texts, page_report, page_results, result_texts, selection_results, LINK_ATTRIBUTE, LINK_SELECTOR, SNIPPET_SELECTOR};
use crate::github::{find_user, read_user_reply, repos_url, CutInsideCharacter};
#[allow(unused_imports)]
use crate::github::{body_bytes, can_be_cut, lowered, mentioned_user, repos_address, user_report};
use crate::http::HttpStatus;
#[allow(unused_imports)]
use crate::http::is_success_code;
#[allow(unused_imports)]
use crate::outside::{element_attributes, element_texts};
#[allow(unused_imports)]
use crate::text::{option_text, texts};

verus! {

/// The name under which the agent makes its requests.
pub const USER_AGENT: &'static str = "Mozilla/5.0 (Windows NT 10.0; Win64; x64; rv:109.0) Gecko/20100101 Firefox/119.0";

/// The report that DuckDuckGo gave no results, up to the reason.
pub const SEARCH_FAILURE: &'static str = "[WEB SEARCH ERROR]: DuckDuckGo недоступен: ";

/// What a search waits for, as a mathematical value.
pub enum LookupView {
    /// GitHub's reply about a user, in a search for `query`.
    Github { query: Seq<char>, user: Seq<char> },
    /// DuckDuckGo's reply to `query`.
    DuckDuckGo { query: Seq<char> },
    /// What is selected from a long page.
    Selection { html: Seq<char> },
    /// Nothing: the search is answered.
    Answer { text: Seq<char> },
}

/// A search begins with the profile that the query mentions, if it does; else
/// DuckDuckGo is asked for the query.
pub open spec fn first_lookup(query: Seq<char>, user: Option<Seq<char>>) -> LookupView {
    match user {
        Some(user) => LookupView::Github { query, user },
        None => LookupView::DuckDuckGo { query },
    }
}

/// After GitHub: its report, or else DuckDuckGo, which is asked for the same
/// query.
pub open spec fn after_github(query: Seq<char>, report: Option<Seq<char>>) -> LookupView {
    match report {
        Some(text) => LookupView::Answer { text },
        None => LookupView::DuckDuckGo { query },
    }
}

/// After DuckDuckGo: its report, or the reason why there is none.
pub open spec fn after_duckduckgo(report: Result<Seq<char>, Seq<char>>) -> LookupView {
    match report {
        Ok(text) => LookupView::Answer { text },
        Err(error) => LookupView::Answer { text: SEARCH_FAILURE@ + error },
    }
}

/// After DuckDuckGo's reply: a page that is too long is to be selected from.
pub open spec fn after_reply(code: u16, body: Result<Seq<char>, Seq<char>>) -> LookupView {
    if is_too_long(code, body) {
        LookupView::Selection { html: body->Ok_0 }
    } else {
        after_duckduckgo(page_report(code, body))
    }
}

/// What a search waits for.
#[derive(Debug)]
pub enum Lookup {
    /// Ask GitHub about a user.
    Github(GithubLookup),
    /// Ask DuckDuckGo.
    DuckDuckGo(PageLookup),
    /// Parse a long page and select its links and snippets.
    Selection(SelectionLookup),
    /// The search is answered.
    Answer(String),
}

/// A search that waits for GitHub.
#[derive(Debug)]
pub struct GithubLookup {
    query: String,
    user: String,
}

/// A search that waits for DuckDuckGo.
#[derive(Debug)]
pub struct PageLookup {
    query: String,
}

/// A search that waits for what is selected from a long page.
#[derive(Debug)]
pub struct SelectionLookup {
    page: LongPage,
}

impl GithubLookup {
    pub closed spec fn asked(&self) -> Seq<char> {
        self.user@
    }

    pub closed spec fn searched(&self) -> Seq<char> {
        self.query@
    }

    /// The address to ask.
    pub fn url(&self) -> (r: String)
        ensures
            r@ == repos_address(self.asked()),
    {
        repos_url(self.user.as_str())
    }

    /// Goes on with GitHub's reply; `body` is what could be read of a
    /// successful one.
    pub fn answered(self, status: &HttpStatus, body: Option<Vec<u8>>) -> (r: Lookup)
        ensures
            r@ == after_github(
                self.searched(),
                user_report(self.asked(), status.number(), body_bytes(body)),
            ),
    {
        match read_user_reply(self.user.as_str(), status, body) {
            Some(text) => Lookup::Answer(text),
            None => self.unanswered(),
        }
    }

    /// Goes on without a reply of GitHub: DuckDuckGo is asked for the query.
    pub fn unanswered(self) -> (r: Lookup)
        ensures
            r@ == after_github(self.searched(), None),
    {
        Lookup::DuckDuckGo(PageLookup { query: self.query })
    }
}

impl PageLookup {
    pub closed spec fn searched(&self) -> Seq<char> {
        self.query@
    }

    /// The query to ask for.
    pub fn query(&self) -> (r: &str)
        ensures
            r@ == self.searched(),
    {
        self.query.as_str()
    }

    /// Goes on with DuckDuckGo's reply; `body` is the text of a successful one,
    /// or the reason why it could not be read. All but a long page ends the
    /// search.
    pub fn answered(self, status: &HttpStatus, body: Result<String, String>) -> (r: Lookup)
        ensures
            r@ == after_reply(status.number(), result_texts(body)),
    {
        match read_search_reply(status, body) {
            Ok(report) => match report {
                Ok(text) => Lookup::Answer(text),
                Err(error) => self.unanswered(error.as_str()),
            },
            Err(page) => Lookup::Selection(SelectionLookup { page }),
        }
    }

    /// Ends the search without a reply of DuckDuckGo.
    pub fn unanswered(self, error: &str) -> (r: Lookup)
        ensures
            r@ == after_duckduckgo(Err(error@)),
    {
        Lookup::Answer(SEARCH_FAILURE.to_owned().concat(error))
    }
}

impl SelectionLookup {
    pub closed spec fn shown(&self) -> Seq<char> {
        self.page.html@
    }

    /// The page to select from.
    pub fn html(&self) -> (r: &str)
        ensures
            r@ == self.shown(),
    {
        self.page.html.as_str()
    }

    /// Ends the search with what is selected from the page: the texts of the
    /// links, their addresses, and the texts of the snippets.
    pub fn selected(
        self,
        titles: &Vec<String>,
        addresses: &Vec<Option<String>>,
        snippets: &Vec<String>,
    ) -> (r: Lookup)
        ensures
            r@ == after_duckduckgo(
                Ok(selection_results(texts(titles@), option_texts(addresses@), texts(snippets@))),
            ),
    {
        Lookup::Answer(selection_text(titles, addresses, snippets))
    }
}

impl View for Lookup {
    type V = LookupView;

    open spec fn view(&self) -> LookupView {
        match *self {
            Lookup::Github(lookup) => LookupView::Github {
                query: lookup.searched(),
                user: lookup.asked(),
            },
            Lookup::DuckDuckGo(lookup) => LookupView::DuckDuckGo { query: lookup.searched() },
            Lookup::Selection(lookup) => LookupView::Selection { html: lookup.shown() },
            Lookup::Answer(text) => LookupView::Answer { text: text@ },
        }
    }
}

/// Begins a search for `query`: with the user that it mentions, if there is
/// one, else on the web at large.
pub fn lookup_for(query: &str, user: Option<String>) -> (r: Lookup)
    ensures
        r@ == first_lookup(query@, option_text(user)),
{
    match user {
        Some(user) => Lookup::Github(GithubLookup { query: query.to_owned(), user }),
        None => Lookup::DuckDuckGo(PageLookup { query: query.to_owned() }),
    }
}

/// Begins a search for what `query` asks.
pub fn search_web(query: &str) -> (r: Result<Lookup, CutInsideCharacter>)
    ensures
        match r {
            Ok(lookup) => can_be_cut(query@, lowered(query@)) && lookup@ == first_lookup(
                query@,
                mentioned_user(query@, lowered(query@)),
            ),
            Err(_) => !can_be_cut(query@, lowered(query@)),
        },
{
    match find_user(query) {
        Ok(user) => Ok(lookup_for(query, user)),
        Err(error) => Err(error),
    }
}

/// The answer to a search, given what the lookups come to.
pub open spec fn answer(
    query: Seq<char>,
    user: Option<Seq<char>>,
    github: Option<Seq<char>>,
    duckduckgo: Result<Seq<char>, Seq<char>>,
) -> Seq<char> {
    let second = match first_lookup(query, user) {
        LookupView::Github { query, user } => after_github(query, github),
        other => other,
    };
    let third = match second {
        LookupView::DuckDuckGo { query } => after_duckduckgo(duckduckgo),
        other => other,
    };
    third->text
}

/// Two requests at most answer every search. What GitHub says of a user whom the
/// query mentions is the answer; where nobody is mentioned or GitHub says
/// nothing, the answer is DuckDuckGo's, or the reason why there is none.
/// DuckDuckGo is asked for nothing but the query itself.
pub proof fn github_goes_first(
    query: Seq<char>,
    user: Option<Seq<char>>,
    github: Option<Seq<char>>,
    duckduckgo: Result<Seq<char>, Seq<char>>,
)
    ensures
        !(first_lookup(query, user) is Answer),
        !(after_github(query, github) is Github),
        first_lookup(query, user) matches LookupView::Github { query: kept, user: name } ==> kept
            == query,
        first_lookup(query, user) matches LookupView::DuckDuckGo { query: asked } ==> asked
            == query,
        after_github(query, github) matches LookupView::DuckDuckGo { query: asked } ==> asked
            == query,
        after_duckduckgo(duckduckgo) is Answer,
        answer(query, user, github, duckduckgo) == if user is Some && github is Some {
            github->0
        } else {
            match duckduckgo {
                Ok(text) => text,
                Err(error) => SEARCH_FAILURE@ + error,
            }
        },
{
}

/// A long page is answered as any other page is: where the links and snippets
/// that the selectors select are handed back, the answer is the report on the
/// page.
pub proof fn long_pages_are_answered_alike(code: u16, html: Seq<char>)
    requires
        is_success_code(code),
    ensures
        after_duckduckgo(
            Ok(
                selection_results(
                    element_texts(html, LINK_SELECTOR@),
                    element_attributes(html, LINK_SELECTOR@, LINK_ATTRIBUTE@),
                    element_texts(html, SNIPPET_SELECTOR@),
                ),
            ),
        ) == after_duckduckgo(page_report(code, Ok(html))),
        after_reply(code, Ok(html)) == (LookupView::Selection { html }) || after_reply(
            code,
            Ok(html),
        ) == (LookupView::Answer { text: page_results(html) }),
{
}

/// Each lookup is for what the search is for: GitHub is asked about the user
/// whom the query mentions, and the query is kept for DuckDuckGo.
pub proof fn lookups_keep_what_is_searched(
    query: Seq<char>,
    user: Option<Seq<char>>,
    report: Option<Seq<char>>,
    reply: Result<Seq<char>, Seq<char>>,
)
    ensures
        user matches Some(name) ==> first_lookup(query, user) == (LookupView::Github {
            query,
            user: name,
        }),
        user is None ==> first_lookup(query, user) == (LookupView::DuckDuckGo { query }),
        report matches Some(text) ==> after_github(query, report) == (LookupView::Answer { text }),
        report is None ==> after_github(query, report) == (LookupView::DuckDuckGo { query }),
        reply matches Ok(text) ==> after_duckduckgo(reply) == (LookupView::Answer { text }),
        reply matches Err(error) ==> after_duckduckgo(reply) == (LookupView::Answer {
            text: "[WEB SEARCH ERROR]: DuckDuckGo недоступен: "@ + error,
        }),
{
}

/// DuckDuckGo's reply answers the search unless its page is too long; then that
/// page, whole, is to be selected from.
pub proof fn replies_answer_unless_too_long(code: u16, body: Result<Seq<char>, Seq<char>>)
    ensures
        !is_too_long(code, body) ==> after_reply(code, body) == after_duckduckgo(
            page_report(code, body),
        ),
        is_too_long(code, body) ==> (body matches Ok(html) && after_reply(code, body) == (
        LookupView::Selection { html })),
{
}

} // verus!

use cli_agent::duckduckgo::{read_page, read_search_reply, results_text};
use cli_agent::github::{find_user, profile_text, read_name, read_repos, read_user_reply, user_in, RepoInfo};
use cli_agent::http::{api_error, HttpStatus};
use cli_agent::outside::MAX_PAGE_BYTES;
use cli_agent::search::{search_web, Lookup};

fn status(code: u16) -> HttpStatus {
    HttpStatus::new(code).unwrap()
}

fn user(query: &str) -> Option<String> {
    find_user(query).unwrap()
}

fn repo(name: &str, url: &str, description: Option<&str>) -> RepoInfo {
    RepoInfo {
        name: Some(name.to_string()),
        html_url: Some(url.to_string()),
        description: description.map(String::from),
    }
}

#[test]
fn a_mentioned_user_is_found() {
    assert_eq!(user("github.com/torvalds"), Some("torvalds".to_string()));
    assert_eq!(
        user("see https://GitHub.COM/Rust-Lang/rust please"),
        Some("Rust-Lang".to_string())
    );
    assert_eq!(user("профиль github.com/a_b расскажи"), Some("a_b".to_string()));
    assert_eq!(user("github.com///x"), Some("x".to_string()));
    assert_eq!(user("github.com/имя"), Some("имя".to_string()));
}

#[test]
fn what_is_no_name_is_no_user() {
    assert_eq!(user("rust borrow checker"), None);
    assert_eq!(user("github.com"), None);
    assert_eq!(user("github.com/"), None);
    assert_eq!(user("github.com/ user"), None);
    assert_eq!(user("github.com/a.b"), None);
    assert_eq!(user("github.com/user?tab=stars"), None);
}

#[test]
fn letters_that_change_size_in_lower_case_shift_the_cut() {
    assert_eq!(user("\u{130} github.com/foo"), Some("oo".to_string()));
    assert_eq!(user("\u{212a} github.com/foo"), Some("m".to_string()));
    assert!(find_user("\u{130} github.com/éa").is_err());
    assert!(find_user("\u{130} github.com/").is_err());
    assert!(search_web("\u{130} github.com/éa").is_err());
}

#[test]
fn a_user_is_cut_out_by_the_offset_in_lower_case() {
    assert_eq!(user_in("GITHUB.com/Ab c", "github.com/ab c"), Some("Ab".to_string()));
    assert_eq!(user_in("anything", "nothing"), None);
}

#[test]
fn names_hold_letters_numbers_hyphens_and_underscores() {
    for u in 0..=0x10ffffu32 {
        if let Some(c) = char::from_u32(u) {
            if c != '/' && !c.is_whitespace() {
                let fits = c.is_alphanumeric() || c == '-' || c == '_';
                assert_eq!(read_name(&c.to_string()).is_some(), fits, "{u:x}");
            }
        }
    }
}

#[test]
fn repositories_are_read() {
    let body = br#"[{"name":"a","html_url":"u","description":"d"},{"name":7,"description":null},"x"]"#;
    let list = read_repos(body).unwrap();
    assert_eq!(list.len(), 3);
    assert_eq!(list[0].name.as_deref(), Some("a"));
    assert_eq!(list[0].html_url.as_deref(), Some("u"));
    assert_eq!(list[0].description.as_deref(), Some("d"));
    assert!(list[1].name.is_none() && list[1].html_url.is_none() && list[1].description.is_none());
    assert!(list[2].name.is_none());
    assert!(read_repos(b"{}").is_none());
    assert!(read_repos(b"[1").is_none());
    assert_eq!(read_repos(b"[]").unwrap().len(), 0);
}

#[test]
fn a_profile_is_reported() {
    assert_eq!(
        profile_text("x", &vec![]),
        "Профиль x найден на GitHub! Публичные репозитории не найдены."
    );
    assert_eq!(
        profile_text("x", &vec![repo("a", "u", Some("d")), repo("b", "v", Some(""))]),
        "Профиль x найден на GitHub! Публичные репозитории:\n1. a — u\n   d\n\n2. b — v\n   Без описания\n\n"
    );
    let nameless = RepoInfo {
        name: None,
        html_url: None,
        description: None,
    };
    assert_eq!(
        profile_text("x", &vec![nameless]),
        "Профиль x найден на GitHub! Публичные репозитории:\n1. Без имени — \n   Без описания\n\n"
    );
}

#[test]
fn five_repositories_are_listed_and_the_rest_counted() {
    let list: Vec<RepoInfo> = (0..17).map(|i| repo(&format!("r{i}"), "u", None)).collect();
    let text = profile_text("x", &list);
    assert!(text.contains("5. r4 — u\n"));
    assert!(!text.contains("r5"));
    assert!(text.ends_with("... и ещё 12 репозиториев."));
    let five: Vec<RepoInfo> = (0..5).map(|i| repo(&format!("r{i}"), "u", None)).collect();
    assert!(profile_text("x", &five).ends_with("5. r4 — u\n   Без описания\n\n"));
}

#[test]
fn replies_of_github() {
    let body = Some(br#"[{"name":"a","html_url":"u","description":"d"}]"#.to_vec());
    assert_eq!(
        read_user_reply("x", &status(200), body),
        Some("Профиль x найден на GitHub! Публичные репозитории:\n1. a — u\n   d\n\n".to_string())
    );
    assert_eq!(
        read_user_reply("x", &status(299), Some(b"no json".to_vec())),
        Some("Профиль x найден на GitHub!".to_string())
    );
    assert_eq!(
        read_user_reply("x", &status(200), None),
        Some("Профиль x найден на GitHub!".to_string())
    );
    assert_eq!(
        read_user_reply("x", &status(404), None),
        Some("Профиль или репозиторий не найден (HTTP 404).".to_string())
    );
    assert_eq!(read_user_reply("x", &status(403), None), None);
    assert_eq!(read_user_reply("x", &status(500), Some(b"[]".to_vec())), None);
}

#[test]
fn result_pages_are_read() {
    let html = r#"<html><body><table>
        <tr><td><a class="result-link" href="https://a.example/">  First <b>hit</b> </a></td></tr>
        <tr><td class="result-snippet"> about the first </td></tr>
        <tr><td><a class="other" href="https://no.example/">no</a></td></tr>
        <tr><td><a class="x result-link">Second</a></td></tr>
        </table></body></html>"#;
    assert_eq!(
        read_page(html).unwrap(),
        "Результаты поиска DuckDuckGo:\n1. First hit — https://a.example/\n   about the first\n\n2. Second — \n   \n\n"
    );
    assert_eq!(read_page("<p>nothing</p>").unwrap(), "По вашему запросу ничего не найдено.");
    assert_eq!(read_page("").unwrap(), "По вашему запросу ничего не найдено.");
}

#[test]
fn a_long_page_is_selected_from_outside() {
    let page = || String::from_utf8(vec![0; MAX_PAGE_BYTES + 1]).unwrap();
    assert!(read_page(&page()).is_err());
    assert_eq!(
        read_search_reply(&status(200), Ok(page())).unwrap_err().html.len(),
        MAX_PAGE_BYTES + 1
    );
    assert_eq!(
        read_search_reply(&status(404), Ok(page())).unwrap(),
        Err("HTTP 404 Not Found".to_string())
    );
    let lookup = match search_web("погода").unwrap() {
        Lookup::DuckDuckGo(lookup) => lookup,
        _ => panic!("no profile is mentioned"),
    };
    let selection = match lookup.answered(&status(200), Ok(page())) {
        Lookup::Selection(selection) => selection,
        _ => panic!("the page is too long"),
    };
    assert_eq!(selection.html().len(), MAX_PAGE_BYTES + 1);
    let answer = selection.selected(
        &vec![" one ".to_string(), "two".to_string()],
        &vec![Some("u".to_string()), None],
        &vec!["\nfirst".to_string()],
    );
    assert!(
        matches!(answer, Lookup::Answer(text) if text == "Результаты поиска DuckDuckGo:\n1. one — u\n   first\n\n2. two — \n   \n\n")
    );
}

#[test]
fn results_are_listed_up_to_five() {
    let texts = |p: &str, n: usize| -> Vec<String> { (0..n).map(|i| format!("{p}{i}")).collect() };
    let text = results_text(&texts("t", 7), &texts("u", 7), &texts("s", 2));
    assert!(text.starts_with("Результаты поиска DuckDuckGo:\n1. t0 — u0\n   s0\n\n2. t1 — u1\n   s1\n\n3. t2 — u2\n   \n\n"));
    assert!(text.ends_with("5. t4 — u4\n   \n\n"));
    assert_eq!(
        results_text(&vec![], &texts("u", 1), &texts("s", 1)),
        "По вашему запросу ничего не найдено."
    );
}

#[test]
fn status_codes() {
    assert!(HttpStatus::new(99).is_none());
    assert!(HttpStatus::new(1000).is_none());
    assert_eq!(status(200).text(), "200 OK");
    assert_eq!(status(999).text(), "999 <unknown status code>");
    assert_eq!(status(404).code(), 404);
    assert!(status(200).is_success() && status(299).is_success());
    assert!(!status(199).is_success() && !status(300).is_success());
    assert_eq!(
        api_error(&status(401), "no token"),
        "API error 401 Unauthorized: no token"
    );
}

#[test]
fn replies_of_duckduckgo() {
    assert_eq!(
        read_search_reply(&status(503), Ok("<a class=result-link>x</a>".to_string())).unwrap(),
        Err("HTTP 503 Service Unavailable".to_string())
    );
    assert_eq!(
        read_search_reply(&status(200), Err("decode".to_string())).unwrap(),
        Err("decode".to_string())
    );
    assert_eq!(
        read_search_reply(&status(200), Ok("<a class=result-link href=u>x</a>".to_string())).unwrap(),
        Ok("Результаты поиска DuckDuckGo:\n1. x — u\n   \n\n".to_string())
    );
}

#[test]
fn github_goes_first() {
    let lookup = match search_web("https://github.com/octocat").unwrap() {
        Lookup::Github(lookup) => lookup,
        _ => panic!("a profile is mentioned"),
    };
    assert_eq!(lookup.url(), "https://api.github.com/users/octocat/repos");
    assert!(
        matches!(lookup.answered(&status(200), Some(b"[]".to_vec())), Lookup::Answer(text) if text == "Профиль octocat найден на GitHub! Публичные репозитории не найдены.")
    );
}

#[test]
fn duckduckgo_comes_second() {
    let again = match search_web("github.com/octocat").unwrap() {
        Lookup::Github(lookup) => lookup.answered(&status(500), None),
        _ => panic!("a profile is mentioned"),
    };
    let page = match again {
        Lookup::DuckDuckGo(page) => page,
        _ => panic!("GitHub said nothing"),
    };
    assert_eq!(page.query(), "github.com/octocat");
    assert!(
        matches!(page.answered(&status(500), Ok(String::new())), Lookup::Answer(text) if text == "[WEB SEARCH ERROR]: DuckDuckGo недоступен: HTTP 500 Internal Server Error")
    );
    assert!(matches!(
        match search_web("see GitHub.com/octocat now").unwrap() {
            Lookup::Github(lookup) => lookup.unanswered(),
            other => other,
        },
        Lookup::DuckDuckGo(page) if page.query() == "see GitHub.com/octocat now"
    ));
}

#[test]
fn a_search_without_a_profile_goes_to_duckduckgo() {
    let page = match search_web("погода").unwrap() {
        Lookup::DuckDuckGo(page) => page,
        _ => panic!("no profile is mentioned"),
    };
    assert_eq!(page.query(), "погода");
    assert!(
        matches!(page.unanswered("no route"), Lookup::Answer(text) if text == "[WEB SEARCH ERROR]: DuckDuckGo недоступен: no route")
    );
}

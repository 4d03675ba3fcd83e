use cli_agent::tool_call::extract_tool_call;
use cli_agent::trimmer::ToolOutputTrimmer;

const MARK: &str = "\n\n[... Вывод урезан для экономии контекста ...]\n\n";

#[test]
fn a_request_is_read() {
    assert_eq!(
        extract_tool_call("[RUN: ls -la]", "[RUN:", "]"),
        Some("ls -la".to_string())
    );
    assert_eq!(
        extract_tool_call("[WEB_SEARCH: погода в Москве]", "[WEB_SEARCH:", "]"),
        Some("погода в Москве".to_string())
    );
}

#[test]
fn a_request_is_read_among_other_lines() {
    let text = "Сначала посмотрю.\r\n   [RUN:  cat Cargo.toml ]  \r\nПотом отвечу.";
    assert_eq!(
        extract_tool_call(text, "[RUN:", "]"),
        Some("cat Cargo.toml".to_string())
    );
}

#[test]
fn the_first_request_counts() {
    let text = "[RUN: first]\n[RUN: second]";
    assert_eq!(
        extract_tool_call(text, "[RUN:", "]"),
        Some("first".to_string())
    );
}

#[test]
fn a_request_with_nothing_in_it_is_passed_over() {
    assert_eq!(extract_tool_call("[RUN:]", "[RUN:", "]"), None);
    assert_eq!(
        extract_tool_call("[RUN:]\n[RUN: x]", "[RUN:", "]"),
        Some("x".to_string())
    );
}

#[test]
fn a_request_for_white_space_is_an_empty_one() {
    assert_eq!(
        extract_tool_call("[RUN: ]", "[RUN:", "]"),
        Some(String::new())
    );
}

#[test]
fn text_round_a_request_spoils_it() {
    assert_eq!(extract_tool_call("run [RUN: ls]", "[RUN:", "]"), None);
    assert_eq!(extract_tool_call("[RUN: ls] please", "[RUN:", "]"), None);
    assert_eq!(extract_tool_call("[run: ls]", "[RUN:", "]"), None);
    assert_eq!(extract_tool_call("", "[RUN:", "]"), None);
}

#[test]
fn brackets_inside_a_request_stay() {
    assert_eq!(
        extract_tool_call("[RUN: test [ -f a ]]", "[RUN:", "]"),
        Some("test [ -f a ]".to_string())
    );
}

#[test]
fn overlapping_prefix_and_suffix_are_no_request() {
    assert_eq!(extract_tool_call("aba", "ab", "ba"), None);
    assert_eq!(extract_tool_call("abba", "ab", "ba"), None);
    assert_eq!(extract_tool_call("abxba", "ab", "ba"), Some("x".to_string()));
}

#[test]
fn empty_prefix_and_suffix_take_the_first_line_with_text() {
    assert_eq!(extract_tool_call("\n  \n слово \nx", "", ""), Some("слово".to_string()));
}

#[test]
fn short_output_is_kept() {
    assert_eq!(ToolOutputTrimmer::trim_output("abc", 3), "abc");
    assert_eq!(ToolOutputTrimmer::trim_output("", 0), "");
    assert_eq!(ToolOutputTrimmer::trim_output("ёж", 2), "ёж");
}

#[test]
fn long_output_loses_its_middle() {
    assert_eq!(
        ToolOutputTrimmer::trim_output("abcdefgh", 4),
        format!("ab{MARK}gh")
    );
    assert_eq!(
        ToolOutputTrimmer::trim_output("абвгдеёж", 5),
        format!("аб{MARK}ёж")
    );
    assert_eq!(ToolOutputTrimmer::trim_output("abc", 1), MARK);
    assert_eq!(ToolOutputTrimmer::trim_output("a", 0), MARK);
}

#[test]
fn shortened_output_has_a_bounded_length() {
    let long = "я".repeat(10_000);
    let out = ToolOutputTrimmer::trim_output(&long, 3000);
    assert_eq!(out.chars().count(), 3000 + MARK.chars().count());
}

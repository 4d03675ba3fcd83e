use cli_agent::conversation::{
    bearer, chat_request, new_history, Message, StreamChunk, API_URL, MODEL, SYSTEM_PROMPT,
};
use cli_agent::effect::{takes_place, Effect};
use cli_agent::frontend::FrontendEvent;
use cli_agent::stream::{packet_lines, StreamCollector};

fn chunk(content: &str) -> Option<StreamChunk> {
    Some(StreamChunk {
        message: Some(Message::new("assistant", content.to_string())),
        done: Some(false),
    })
}

fn parts(effects: &[Effect]) -> Vec<String> {
    effects
        .iter()
        .filter_map(|e| match e {
            Effect::Broadcast {
                event: FrontendEvent::AgentMessage { content },
            } => Some(content.clone()),
            _ => None,
        })
        .collect()
}

fn printed(effects: &[Effect]) -> String {
    effects
        .iter()
        .filter_map(|e| match e {
            Effect::Print { text } => Some(text.clone()),
            _ => None,
        })
        .collect()
}

#[test]
fn a_conversation_opens_with_the_instructions() {
    let history = new_history();
    assert_eq!(history.len(), 1);
    assert_eq!(history[0].role, "system");
    assert_eq!(history[0].content, SYSTEM_PROMPT);
    assert!(SYSTEM_PROMPT.contains("output EXACTLY: [RUN: command_to_execute]."));
    assert!(SYSTEM_PROMPT.contains("\"*.rs\""));
    assert_eq!(SYSTEM_PROMPT.lines().count(), 8);
}

#[test]
fn a_request_holds_the_whole_conversation() {
    let mut history = new_history();
    history.push(Message::new("user", "привет".to_string()));
    let request = chat_request(&history);
    assert_eq!(request.model, "nemotron-3-super:cloud");
    assert_eq!(request.model, MODEL);
    assert!(request.stream);
    assert_eq!(request.messages.len(), 2);
    assert_eq!(request.messages[1].role, "user");
    assert_eq!(request.messages[1].content, "привет");
    assert_eq!(API_URL, "https://ollama.com/api/chat");
    assert_eq!(bearer("SECRET-REDACTED"), "Bearer SECRET-REDACTED");
}

#[test]
fn packets_are_split_into_records() {
    let packet = b" {\"a\":1}\r\n\n\t{\"b\":2} \n   \n{}".to_vec();
    assert_eq!(packet_lines(packet), vec!["{\"a\":1}", "{\"b\":2}", "{}"]);
    assert_eq!(packet_lines("«да»\n".as_bytes().to_vec()), vec!["«да»"]);
    assert!(packet_lines(Vec::new()).is_empty());
}

#[test]
fn a_packet_that_is_not_utf8_is_passed_over() {
    assert!(packet_lines(vec![b'a', b'\n', 0xff, b'b']).is_empty());
    assert!(packet_lines(vec![0xd0]).is_empty());
    assert!(packet_lines(vec![0xed, 0xa0, 0x80]).is_empty());
}

#[test]
fn text_waits_until_a_sentence_ends() {
    let mut collector = StreamCollector::new(true);
    let first = collector.take_packet(&vec![chunk("Hello"), chunk(", wor")]);
    assert!(parts(&first).is_empty());
    assert_eq!(printed(&first), "Hello, wor");
    let second = collector.take_packet(&vec![chunk("ld!"), chunk(" And")]);
    assert_eq!(parts(&second), vec!["Hello, world!"]);
    let (last, full) = collector.finish();
    assert_eq!(parts(&last), vec![" And"]);
    assert!(matches!(&last[1], Effect::Render { text } if text == "Hello, world! And"));
    assert_eq!(full, "Hello, world! And");
}

#[test]
fn a_line_feed_passes_text_on() {
    let mut collector = StreamCollector::new(true);
    let effects = collector.take_packet(&vec![chunk("a\nb"), chunk("c")]);
    assert_eq!(parts(&effects), vec!["a\nb"]);
    let (last, full) = collector.finish();
    assert_eq!(parts(&last), vec!["c"]);
    assert_eq!(full, "a\nbc");
}

#[test]
fn long_text_is_passed_on_by_its_bytes() {
    let mut collector = StreamCollector::new(true);
    let half = "ж".repeat(30);
    let effects = collector.take_packet(&vec![chunk(&half), chunk(&half)]);
    assert_eq!(parts(&effects), vec!["ж".repeat(60)]);
    let mut other = StreamCollector::new(true);
    let effects = other.take_packet(&vec![chunk(&"x".repeat(119))]);
    assert!(parts(&effects).is_empty());
    let effects = other.take_packet(&vec![chunk("x")]);
    assert_eq!(parts(&effects), vec!["x".repeat(120)]);
}

#[test]
fn each_effect_comes_in_its_place() {
    let mut collector = StreamCollector::new(true);
    let effects = collector.take_packet(&vec![chunk("Да."), chunk("Нет?")]);
    assert_eq!(effects.len(), 4);
    assert!(matches!(&effects[0], Effect::Print { text } if text == "Да."));
    assert!(matches!(&effects[1], Effect::Broadcast { event: FrontendEvent::AgentMessage { content } } if content == "Да."));
    assert!(matches!(&effects[2], Effect::Print { text } if text == "Нет?"));
    assert!(matches!(&effects[3], Effect::Broadcast { event: FrontendEvent::AgentMessage { content } } if content == "Нет?"));
}

#[test]
fn the_rest_of_a_packet_after_the_last_record_is_passed_over() {
    let mut collector = StreamCollector::new(true);
    let last = Some(StreamChunk {
        message: Some(Message::new("assistant", "b".to_string())),
        done: Some(true),
    });
    collector.take_packet(&vec![chunk("a"), None, last, chunk("c")]);
    collector.take_packet(&vec![chunk("d")]);
    assert_eq!(collector.finish().1, "abd");
}

#[test]
fn records_without_a_message_add_nothing() {
    let mut collector = StreamCollector::new(true);
    let empty = Some(StreamChunk {
        message: None,
        done: None,
    });
    let effects = collector.take_packet(&vec![empty, None, chunk("")]);
    assert_eq!(effects.len(), 1);
    assert!(parts(&effects).is_empty());
    let (last, full) = collector.finish();
    assert_eq!(last.len(), 1);
    assert_eq!(full, "");
}

#[test]
fn the_front_end_gets_the_whole_reply() {
    let words = [
        "Вот ", "ответ", ". Дальше", "\n1. ", "раз", "\n2. два", "! и ещё немного текста", " конец",
    ];
    for size in 1..=words.len() {
        let mut collector = StreamCollector::new(true);
        let mut sent = String::new();
        let mut shown = String::new();
        for group in words.chunks(size) {
            let packet: Vec<Option<StreamChunk>> = group.iter().map(|w| chunk(w)).collect();
            let effects = collector.take_packet(&packet);
            for part in parts(&effects) {
                assert!(!part.is_empty());
                sent.push_str(&part);
            }
            shown.push_str(&printed(&effects));
        }
        let (last, full) = collector.finish();
        sent.push_str(&parts(&last).concat());
        assert_eq!(full, words.concat());
        assert_eq!(sent, full);
        assert_eq!(shown, full);
    }
}

#[test]
fn without_a_front_end_nothing_is_broadcast() {
    let mut collector = StreamCollector::new(false);
    let effects = collector.take_packet(&vec![chunk("a.\n"), chunk("b")]);
    assert!(parts(&effects).is_empty());
    let (last, full) = collector.finish();
    assert!(parts(&last).is_empty());
    assert_eq!(last.len(), 1);
    assert_eq!(full, "a.\nb");
}

#[test]
fn only_events_need_a_front_end() {
    let event = Effect::Broadcast { event: FrontendEvent::Ping };
    let print = Effect::Print { text: "x".to_string() };
    let failure = Effect::Failure { text: "x".to_string() };
    assert!(takes_place(&event, true) && !takes_place(&event, false));
    assert!(takes_place(&print, true) && takes_place(&print, false));
    assert!(takes_place(&failure, true) && takes_place(&failure, false));
}

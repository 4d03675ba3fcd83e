use cli_agent::conversation::{new_history, Message, StreamChunk, SYSTEM_PROMPT};
use cli_agent::effect::{takes_place, Effect, NoticeKind};
use cli_agent::frontend::{ClientCommand, FrontendEvent};
use cli_agent::session::{on_input, startup_event, SessionAction, SessionInput};
use cli_agent::stream::StreamCollector;
use cli_agent::task::{begin_task, Next};
use cli_agent::terminal::{asks_to_exit, on_reading, ReadAction, Reading, BANNER};

fn begun(history: &mut Vec<Message>, prompt: &str) -> cli_agent::task::Asking {
    match begin_task(history, prompt.to_string()) {
        Next::Ask(asking) => asking,
        _ => panic!("a task begins by asking"),
    }
}

fn last(history: &[Message]) -> (&str, &str) {
    let m = &history[history.len() - 1];
    (m.role.as_str(), m.content.as_str())
}

#[test]
fn a_plain_reply_ends_the_task() {
    let mut history = new_history();
    let asking = begun(&mut history, "Сколько будет 2+2?");
    assert_eq!(last(&history), ("user", "Сколько будет 2+2?"));
    let (effects, next) = asking.answered(&mut history, "Четыре.".to_string());
    assert!(effects.is_empty());
    assert!(matches!(next, Next::Stop));
    assert_eq!(history.len(), 3);
    assert_eq!(last(&history), ("assistant", "Четыре."));
}

#[test]
fn a_command_is_run_and_its_output_told() {
    let mut history = new_history();
    let asking = begun(&mut history, "что тут?");
    let (effects, next) = asking.answered(&mut history, "[RUN: ls]".to_string());
    assert_eq!(effects.len(), 2);
    assert!(
        matches!(&effects[0], Effect::Notice { kind: NoticeKind::Command, text } if text == "⚙️ Запуск команды: ls")
    );
    assert!(
        matches!(&effects[1], Effect::Broadcast { event: FrontendEvent::ToolExecuting { tool_name, arguments } } if tool_name == "run" && arguments == "ls")
    );
    let running = match next {
        Next::Run(running) => running,
        _ => panic!("a command was asked for"),
    };
    assert_eq!(running.command(), "ls");
    let (effects, next) = running.finished(&mut history, "a\nb\n");
    assert!(
        matches!(&effects[0], Effect::Broadcast { event: FrontendEvent::ToolResult { tool_name, result } } if tool_name == "run" && result == "a\nb\n")
    );
    assert!(
        matches!(&effects[1], Effect::Notice { kind: NoticeKind::Finished, text } if text == "--- Результат выполнен ---")
    );
    assert!(matches!(next, Next::Ask(_)));
    assert_eq!(last(&history), ("tool", "[TOOL OUTPUT]:\na\nb\n"));
    let roles: Vec<&str> = history.iter().map(|m| m.role.as_str()).collect();
    assert_eq!(roles, vec!["system", "user", "assistant", "tool"]);
}

#[test]
fn a_search_is_made_and_its_result_told() {
    let mut history = new_history();
    let asking = begun(&mut history, "найди");
    let reply = "Ищу.\n[WEB_SEARCH: rust verus]";
    let (effects, next) = asking.answered(&mut history, reply.to_string());
    assert!(
        matches!(&effects[0], Effect::Notice { kind: NoticeKind::Search, text } if text == "🔍 Ищу в интернете: rust verus")
    );
    assert!(
        matches!(&effects[1], Effect::Broadcast { event: FrontendEvent::ToolExecuting { tool_name, arguments } } if tool_name == "web_search" && arguments == "rust verus")
    );
    let searching = match next {
        Next::Search(searching) => searching,
        _ => panic!("a search was asked for"),
    };
    assert_eq!(searching.query(), "rust verus");
    let (effects, next) = searching.finished(&mut history, "найдено");
    assert!(
        matches!(&effects[0], Effect::Broadcast { event: FrontendEvent::ToolResult { tool_name, result } } if tool_name == "web_search" && result == "найдено")
    );
    assert!(
        matches!(&effects[1], Effect::Notice { kind: NoticeKind::Finished, text } if text == "--- Результаты поиска получены ---")
    );
    assert!(matches!(next, Next::Ask(_)));
    let roles: Vec<&str> = history.iter().map(|m| m.role.as_str()).collect();
    assert_eq!(
        roles,
        vec!["system", "user", "assistant", "assistant", "user"]
    );
    assert_eq!(history[3].content, reply);
    assert_eq!(last(&history), ("user", "[TOOL OUTPUT]:\nнайдено"));
}

#[test]
fn a_command_goes_before_a_search() {
    let mut history = new_history();
    let asking = begun(&mut history, "x");
    let reply = "[WEB_SEARCH: q]\n[RUN: ls]".to_string();
    let (_, next) = asking.answered(&mut history, reply);
    assert!(matches!(next, Next::Run(running) if running.command() == "ls"));
}

#[test]
fn a_failure_ends_the_task_and_keeps_the_conversation() {
    let mut history = new_history();
    let asking = begun(&mut history, "x");
    let (effects, next) = asking.failed(&history, "timeout");
    assert_eq!(effects.len(), 1);
    assert!(
        matches!(&effects[0], Effect::Failure { text } if text == "Ошибка при запросе к API: timeout")
    );
    assert!(matches!(next, Next::Stop));
    assert_eq!(last(&history), ("user", "x"));
}

#[test]
fn tool_output_enters_shortened() {
    let mut history = new_history();
    let asking = begun(&mut history, "x");
    let (_, next) = asking.answered(&mut history, "[RUN: yes]".to_string());
    if let Next::Run(running) = next {
        running.finished(&mut history, &"y\n".repeat(5000));
    }
    let expected = format!(
        "[TOOL OUTPUT]:\n{}\n\n[... Вывод урезан для экономии контекста ...]\n\n{}",
        "y\n".repeat(750),
        "y\n".repeat(750)
    );
    assert_eq!(last(&history), ("tool", expected.as_str()));
}

#[test]
fn a_task_needs_no_front_end() {
    let work = |listening: bool| {
        let mut history = new_history();
        let mut seen: Vec<String> = Vec::new();
        let mut next = begin_task(&mut history, "x".to_string());
        let mut replies = vec!["Сейчас.\n[RUN: a]", "[WEB_SEARCH: b]", "готово"].into_iter();
        loop {
            let (mut effects, after) = match next {
                Next::Ask(asking) => {
                    let mut collector = StreamCollector::new(listening);
                    let message = Message::new("assistant", replies.next().unwrap().to_string());
                    let chunk = StreamChunk { message: Some(message), done: Some(true) };
                    let mut effects = collector.take_packet(&vec![Some(chunk)]);
                    let (end, reply) = collector.finish();
                    effects.extend(end);
                    let (more, after) = asking.answered(&mut history, reply);
                    effects.extend(more);
                    (effects, after)
                }
                Next::Run(running) => running.finished(&mut history, "out"),
                Next::Search(searching) => searching.finished(&mut history, "found"),
                Next::Stop => break,
            };
            effects.retain(|e| takes_place(e, listening));
            seen.extend(effects.iter().map(|e| format!("{e:?}")));
            next = after;
        }
        (history.iter().map(|m| format!("{m:?}")).collect::<Vec<String>>(), seen)
    };
    let (with, all) = work(true);
    let (without, some) = work(false);
    assert_eq!(with, without);
    assert!(all.iter().any(|e| e.starts_with("Broadcast")));
    let rest: Vec<String> = all.into_iter().filter(|e| !e.starts_with("Broadcast")).collect();
    assert_eq!(rest, some);
}

#[test]
fn the_instructions_stay_first() {
    let mut history = new_history();
    let asking = begun(&mut history, "раз");
    asking.failed(&history, "timeout");
    let asking = begun(&mut history, "два");
    asking.answered(&mut history, "готово".to_string());
    assert_eq!(history.len(), 4);
    assert_eq!(history[0].role, "system");
    assert_eq!(history[0].content, SYSTEM_PROMPT);
}

#[test]
fn the_conversation_only_grows() {
    let mut history = new_history();
    let mut next = begin_task(&mut history, "x".to_string());
    let mut replies = vec!["[RUN: a]", "[WEB_SEARCH: b]", "готово"].into_iter();
    let mut told: Vec<String> = Vec::new();
    loop {
        let before: Vec<String> = history.iter().map(|m| m.content.clone()).collect();
        let (effects, after) = match next {
            Next::Ask(asking) => {
                asking.answered(&mut history, replies.next().unwrap().to_string())
            }
            Next::Run(running) => running.finished(&mut history, "out"),
            Next::Search(searching) => searching.finished(&mut history, "found"),
            Next::Stop => break,
        };
        for e in &effects {
            match e {
                Effect::Broadcast {
                    event: FrontendEvent::ToolExecuting { tool_name, arguments },
                } => told.push(format!("{tool_name}({arguments})")),
                Effect::Broadcast {
                    event: FrontendEvent::ToolResult { tool_name, result },
                } => {
                    told.push(format!("{tool_name} = {result}"));
                    assert_eq!(last(&history).1, format!("[TOOL OUTPUT]:\n{result}"));
                }
                _ => {}
            }
        }
        next = after;
        assert!(history.len() > before.len());
        for (i, content) in before.iter().enumerate() {
            assert_eq!(&history[i].content, content);
        }
    }
    assert_eq!(told, vec!["run(a)", "run = out", "web_search(b)", "web_search = found"]);
    assert_eq!(history.len(), 8);
}

#[test]
fn lines_from_the_terminal() {
    let line = |s: &str| Reading::Line {
        text: s.to_string(),
    };
    assert!(matches!(on_reading(line("  привет \n")), ReadAction::Submit { line } if line == "привет"));
    assert!(matches!(on_reading(line(" \t ")), ReadAction::Skip { line } if line.is_empty()));
    assert!(matches!(on_reading(line(" EXIT ")), ReadAction::Leave { line } if line == "EXIT"));
    assert!(matches!(on_reading(line("exit now")), ReadAction::Submit { .. }));
    assert!(matches!(on_reading(Reading::Ended), ReadAction::Stop));
    assert!(
        matches!(on_reading(Reading::Failed { error: "io".to_string() }), ReadAction::Fail { report } if report == "Ошибка ввода: io")
    );
    assert!(asks_to_exit("eXiT"));
    assert!(!asks_to_exit("exi"));
    assert_eq!(
        BANNER,
        "CLI Agent (Web + CLI) — Web UI на http://127.0.0.1:8080\n\
         Введите 'exit' для выхода\n"
    );
}

#[test]
fn what_comes_in_is_acted_on() {
    let line = |s: &str| SessionInput::Line {
        text: s.to_string(),
    };
    assert!(
        matches!(on_input(line("сделай")), SessionAction::Task { prompt, from_terminal: true } if prompt == "сделай")
    );
    let is_goodbye = |event: &FrontendEvent| {
        matches!(event, FrontendEvent::AgentMessage { content } if content == "[System] Сервер завершает работу...")
    };
    assert!(matches!(on_input(line("Exit")), SessionAction::Shutdown { event } if is_goodbye(&event)));
    assert!(
        matches!(on_input(SessionInput::Interrupt), SessionAction::Shutdown { event } if is_goodbye(&event))
    );
    let start = SessionInput::Command {
        command: ClientCommand::StartTask {
            prompt: "exit".to_string(),
        },
    };
    assert!(
        matches!(on_input(start), SessionAction::Task { prompt, from_terminal: false } if prompt == "exit")
    );
    let switch = SessionInput::Command {
        command: ClientCommand::SwitchBranch {
            name: "dev".to_string(),
        },
    };
    assert!(
        matches!(on_input(switch), SessionAction::Announce { event: FrontendEvent::AgentMessage { content } } if content == "[System] Переключение веток пока не реализовано. Ветка: dev")
    );
    assert!(
        matches!(startup_event(), FrontendEvent::ModelInfo { model_name } if model_name == "nemotron-3-super:cloud")
    );
}

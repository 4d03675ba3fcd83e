//! One task of the agent: ask the model, run the tool that the reply asks for,
//! tell the model what the tool returned, and so on until a reply asks for
//! nothing.
//!
//! A task is driven from outside: each step says what to wait for next, and is
//! handed what came back.

use vstd::prelude::*;
use vstd::string::*;

use crate::conversation::{Message, ROLE_ASSISTANT, ROLE_TOOL, ROLE_USER};
#[allow(unused_imports)]
use crate::conversation::{message, messages, MessageView};
use crate::effect::{Effect, NoticeKind};
#[allow(unused_imports)]
use crate::effect::{effects, EffectView};
use crate::frontend::FrontendEvent;
#[allow(unused_imports)]
use crate::frontend::EventView;
use crate::tool_call::extract_tool_call;
#[allow(unused_imports)]
use crate::tool_call::requested;
use crate::trimmer::ToolOutputTrimmer;
#[allow(unused_imports)]
use crate::trimmer::shortened;

verus! {

/// The most characters of a tool's output that the model is shown in full.
pub const MAX_SEARCH_CHARS: usize = 3000;

/// What a request to run a command begins with.
pub const RUN_PREFIX: &'static str = "[RUN:";

/// What a request to search the web begins with.
pub const SEARCH_PREFIX: &'static str = "[WEB_SEARCH:";

/// What every request ends in.
pub const REQUEST_SUFFIX: &'static str = "]";

/// The name of the tool that runs commands.
pub const RUN_TOOL: &'static str = "run";

/// The name of the tool that searches the web.
pub const SEARCH_TOOL: &'static str = "web_search";

/// What goes before tool output in the conversation.
pub const OUTPUT_HEADING: &'static str = "[TOOL OUTPUT]:\n";

/// The notice that a command is about to run, up to the command.
pub const RUN_NOTICE: &'static str = "⚙️ Запуск команды: ";

/// The notice that a search is about to begin, up to the query.
pub const SEARCH_NOTICE: &'static str = "🔍 Ищу в интернете: ";

/// The notice that a command has finished.
pub const RUN_DONE_NOTICE: &'static str = "--- Результат выполнен ---";

/// The notice that a search has finished.
pub const SEARCH_DONE_NOTICE: &'static str = "--- Результаты поиска получены ---";

/// The report that the model could not be asked, up to the reason.
pub const API_FAILURE: &'static str = "Ошибка при запросе к API: ";

/// What a task waits for, as a mathematical value.
pub enum NextView {
    /// A reply of the model.
    Ask,
    /// The output of a command.
    Run { command: Seq<char> },
    /// The result of a search that `reply` has asked for.
    Search { query: Seq<char>, reply: Seq<char> },
    /// Nothing: the task is over.
    Stop,
}

/// What a task is handed, as a mathematical value.
pub enum InputView {
    /// The model's reply.
    Reply { text: Seq<char> },
    /// The reason why the model could not be asked.
    Failure { error: Seq<char> },
    /// What a tool has returned.
    Output { text: Seq<char> },
}

/// The state of a task with the conversation that it works on.
pub struct TaskView {
    pub history: Seq<MessageView>,
    pub next: NextView,
}

/// What the model is shown of a tool's output.
pub open spec fn shown(output: Seq<char>) -> Seq<char> {
    shortened(output, MAX_SEARCH_CHARS as nat)
}

pub open spec fn tool_executing(tool: Seq<char>, arguments: Seq<char>) -> EffectView {
    EffectView::Broadcast { event: EventView::ToolExecuting { tool_name: tool, arguments } }
}

pub open spec fn tool_result(tool: Seq<char>, result: Seq<char>) -> EffectView {
    EffectView::Broadcast { event: EventView::ToolResult { tool_name: tool, result } }
}

/// A task begins with the user's words.
pub open spec fn begun(history: Seq<MessageView>, prompt: Seq<char>) -> TaskView {
    TaskView { history: history.push(message(ROLE_USER@, prompt)), next: NextView::Ask }
}

/// A reply joins the conversation. A command that it asks for is run; else a
/// search that it asks for is made; else the task is over.
pub open spec fn after_reply(history: Seq<MessageView>, reply: Seq<char>) -> (
    TaskView,
    Seq<EffectView>,
) {
    let history = history.push(message(ROLE_ASSISTANT@, reply));
    match requested(reply, RUN_PREFIX@, REQUEST_SUFFIX@) {
        Some(command) => (
            TaskView { history, next: NextView::Run { command } },
            seq![
                EffectView::Notice { kind: NoticeKind::Command, text: RUN_NOTICE@ + command },
                tool_executing(RUN_TOOL@, command),
            ],
        ),
        None => match requested(reply, SEARCH_PREFIX@, REQUEST_SUFFIX@) {
            Some(query) => (
                TaskView { history, next: NextView::Search { query, reply } },
                seq![
                    EffectView::Notice { kind: NoticeKind::Search, text: SEARCH_NOTICE@ + query },
                    tool_executing(SEARCH_TOOL@, query),
                ],
            ),
            None => (TaskView { history, next: NextView::Stop }, Seq::empty()),
        },
    }
}

/// Where the model could not be asked, the task is over.
pub open spec fn after_failure(history: Seq<MessageView>, error: Seq<char>) -> (
    TaskView,
    Seq<EffectView>,
) {
    (
        TaskView { history, next: NextView::Stop },
        seq![EffectView::Failure { text: API_FAILURE@ + error }],
    )
}

/// The output of a command joins the conversation under the tool's role, and
/// the model is asked again.
pub open spec fn after_command(history: Seq<MessageView>, output: Seq<char>) -> (
    TaskView,
    Seq<EffectView>,
) {
    (
        TaskView {
            history: history.push(message(ROLE_TOOL@, OUTPUT_HEADING@ + shown(output))),
            next: NextView::Ask,
        },
        seq![
            tool_result(RUN_TOOL@, shown(output)),
            EffectView::Notice { kind: NoticeKind::Finished, text: RUN_DONE_NOTICE@ },
        ],
    )
}

/// The reply that asked for a search joins the conversation once more, then
/// the result under the user's role, and the model is asked again.
pub open spec fn after_search(
    history: Seq<MessageView>,
    reply: Seq<char>,
    result: Seq<char>,
) -> (TaskView, Seq<EffectView>) {
    (
        TaskView {
            history: history.push(message(ROLE_ASSISTANT@, reply)).push(
                message(ROLE_USER@, OUTPUT_HEADING@ + shown(result)),
            ),
            next: NextView::Ask,
        },
        seq![
            tool_result(SEARCH_TOOL@, shown(result)),
            EffectView::Notice { kind: NoticeKind::Finished, text: SEARCH_DONE_NOTICE@ },
        ],
    )
}

/// One step of a task. What does not fit what the task waits for changes
/// nothing.
pub open spec fn step(task: TaskView, input: InputView) -> (TaskView, Seq<EffectView>) {
    match (task.next, input) {
        (NextView::Ask, InputView::Reply { text }) => after_reply(task.history, text),
        (NextView::Ask, InputView::Failure { error }) => after_failure(task.history, error),
        (NextView::Run { command }, InputView::Output { text }) => after_command(
            task.history,
            text,
        ),
        (NextView::Search { query, reply }, InputView::Output { text }) => after_search(
            task.history,
            reply,
            text,
        ),
        _ => (task, Seq::empty()),
    }
}

/// What a task waits for.
#[derive(Debug)]
pub enum Next {
    /// Ask the model with the conversation as it stands.
    Ask(Asking),
    /// Run a command.
    Run(Running),
    /// Search the web.
    Search(Searching),
    /// The task is over.
    Stop,
}

/// A task that waits for the model.
#[derive(Debug)]
pub struct Asking {}

/// A task that waits for a command.
#[derive(Debug)]
pub struct Running {
    command: String,
}

/// A task that waits for a search.
#[derive(Debug)]
pub struct Searching {
    query: String,
    reply: String,
}

impl Running {
    pub closed spec fn asked(&self) -> Seq<char> {
        self.command@
    }

    /// The command to run.
    pub fn command(&self) -> (r: &str)
        ensures
            r@ == self.asked(),
    {
        self.command.as_str()
    }

    /// Takes the output of the command into the conversation.
    pub fn finished(self, history: &mut Vec<Message>, output: &str) -> (r: (Vec<Effect>, Next))
        ensures
            task_view(final(history)@, r.1) == after_command(messages(old(history)@), output@).0,
            effects(r.0@) == after_command(messages(old(history)@), output@).1,
    {
        let ghost before = messages(history@);
        let result: String = ToolOutputTrimmer::trim_output(output, MAX_SEARCH_CHARS);
        let content: String = OUTPUT_HEADING.to_owned().concat(result.as_str());
        history.push(Message::new(ROLE_TOOL, content));
        let mut out: Vec<Effect> = Vec::new();
        out.push(
            Effect::Broadcast {
                event: FrontendEvent::ToolResult { tool_name: RUN_TOOL.to_owned(), result },
            },
        );
        out.push(
            Effect::Notice { kind: NoticeKind::Finished, text: RUN_DONE_NOTICE.to_owned() },
        );
        proof {
            let (goal, list) = after_command(before, output@);
            assert(messages(history@) =~= goal.history);
            assert(effects(out@) =~= list);
        }
        (out, Next::Ask(Asking {  }))
    }
}

impl Searching {
    pub closed spec fn asked(&self) -> Seq<char> {
        self.query@
    }

    pub closed spec fn asked_in(&self) -> Seq<char> {
        self.reply@
    }

    /// The query to search for.
    pub fn query(&self) -> (r: &str)
        ensures
            r@ == self.asked(),
    {
        self.query.as_str()
    }

    /// Takes the result of the search into the conversation.
    pub fn finished(self, history: &mut Vec<Message>, result: &str) -> (r: (Vec<Effect>, Next))
        ensures
            task_view(final(history)@, r.1) == after_search(
                messages(old(history)@),
                self.asked_in(),
                result@,
            ).0,
            effects(r.0@) == after_search(
                messages(old(history)@),
                self.asked_in(),
                result@,
            ).1,
    {
        let ghost before = messages(history@);
        let ghost reply = self.reply@;
        let ghost full = result@;
        let result: String = ToolOutputTrimmer::trim_output(result, MAX_SEARCH_CHARS);
        let content: String = OUTPUT_HEADING.to_owned().concat(result.as_str());
        history.push(Message::new(ROLE_ASSISTANT, self.reply));
        history.push(Message::new(ROLE_USER, content));
        let mut out: Vec<Effect> = Vec::new();
        out.push(
            Effect::Broadcast {
                event: FrontendEvent::ToolResult { tool_name: SEARCH_TOOL.to_owned(), result },
            },
        );
        out.push(
            Effect::Notice { kind: NoticeKind::Finished, text: SEARCH_DONE_NOTICE.to_owned() },
        );
        proof {
            let (goal, list) = after_search(before, reply, full);
            assert(messages(history@) =~= goal.history);
            assert(effects(out@) =~= list);
        }
        (out, Next::Ask(Asking {  }))
    }
}

impl Asking {
    /// Takes the model's reply into the conversation and decides what to do.
    pub fn answered(self, history: &mut Vec<Message>, reply: String) -> (r: (Vec<Effect>, Next))
        ensures
            task_view(final(history)@, r.1) == after_reply(messages(old(history)@), reply@).0,
            effects(r.0@) == after_reply(messages(old(history)@), reply@).1,
    {
        let ghost before = messages(history@);
        let ghost (goal, list) = after_reply(before, reply@);
        let mut out: Vec<Effect> = Vec::new();
        history.push(Message::new(ROLE_ASSISTANT, reply.clone()));
        proof {
            assert(messages(history@) =~= goal.history);
        }
        match extract_tool_call(reply.as_str(), RUN_PREFIX, REQUEST_SUFFIX) {
            Some(command) => {
                out.push(
                    Effect::Notice {
                        kind: NoticeKind::Command,
                        text: RUN_NOTICE.to_owned().concat(command.as_str()),
                    },
                );
                out.push(
                    Effect::Broadcast {
                        event: FrontendEvent::ToolExecuting {
                            tool_name: RUN_TOOL.to_owned(),
                            arguments: command.clone(),
                        },
                    },
                );
                proof {
                    assert(effects(out@) =~= list);
                }
                (out, Next::Run(Running { command }))
            },
            None => match extract_tool_call(reply.as_str(), SEARCH_PREFIX, REQUEST_SUFFIX) {
                Some(query) => {
                    out.push(
                        Effect::Notice {
                            kind: NoticeKind::Search,
                            text: SEARCH_NOTICE.to_owned().concat(query.as_str()),
                        },
                    );
                    out.push(
                        Effect::Broadcast {
                            event: FrontendEvent::ToolExecuting {
                                tool_name: SEARCH_TOOL.to_owned(),
                                arguments: query.clone(),
                            },
                        },
                    );
                    proof {
                        assert(effects(out@) =~= list);
                    }
                    (out, Next::Search(Searching { query, reply }))
                },
                None => {
                    proof {
                        assert(effects(out@) =~= list);
                    }
                    (out, Next::Stop)
                },
            },
        }
    }

    /// Ends the task because the model could not be asked.
    pub fn failed(self, history: &Vec<Message>, error: &str) -> (r: (Vec<Effect>, Next))
        ensures
            task_view(history@, r.1) == after_failure(messages(history@), error@).0,
            effects(r.0@) == after_failure(messages(history@), error@).1,
    {
        let mut out: Vec<Effect> = Vec::new();
        out.push(Effect::Failure { text: API_FAILURE.to_owned().concat(error) });
        proof {
            assert(effects(out@) =~= after_failure(messages(history@), error@).1);
        }
        (out, Next::Stop)
    }
}

impl View for Next {
    type V = NextView;

    open spec fn view(&self) -> NextView {
        match *self {
            Next::Ask(asking) => NextView::Ask,
            Next::Run(running) => NextView::Run { command: running.asked() },
            Next::Search(searching) => NextView::Search {
                query: searching.asked(),
                reply: searching.asked_in(),
            },
            Next::Stop => NextView::Stop,
        }
    }
}

/// The state of a task as a mathematical value.
pub open spec fn task_view(history: Seq<Message>, next: Next) -> TaskView {
    TaskView { history: messages(history), next: next@ }
}

/// Begins a task with the user's words.
pub fn begin_task(history: &mut Vec<Message>, prompt: String) -> (next: Next)
    ensures
        task_view(final(history)@, next) == begun(messages(old(history)@), prompt@),
{
    let ghost before = messages(history@);
    history.push(Message::new(ROLE_USER, prompt));
    proof {
        assert(messages(history@) =~= begun(before, prompt@).history);
    }
    Next::Ask(Asking {  })
}

} // verus!

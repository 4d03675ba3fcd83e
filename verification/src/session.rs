//! The agent's session: what is done with what comes in from the terminal, from
//! the front end and from the system.

use vstd::prelude::*;
use vstd::string::*;

use crate::conversation::MODEL;
use crate::frontend::{ClientCommand, FrontendEvent};
#[allow(unused_imports)]
use crate::frontend::{CommandView, EventView};
use crate::terminal::asks_to_exit;
#[allow(unused_imports)]
use crate::terminal::is_exit;

verus! {

/// What the front end is told when the agent ends.
pub const SHUTDOWN_MESSAGE: &'static str = "[System] Сервер завершает работу...";

/// What the front end is told when it asks for another branch, up to the
/// name of the branch.
pub const BRANCH_MESSAGE: &'static str = "[System] Переключение веток пока не реализовано. Ветка: ";

/// How long the front end is given to close, in milliseconds.
pub const SHUTDOWN_WAIT_MILLIS: u64 = 200;

/// What comes in.
#[derive(Debug)]
pub enum SessionInput {
    /// A line from the terminal.
    Line { text: String },
    /// A command from the front end.
    Command { command: ClientCommand },
    /// An interrupt.
    Interrupt,
}

/// What is done with it.
#[derive(Debug)]
pub enum SessionAction {
    /// Work on a task; `from_terminal` asks for an empty line after it.
    Task { prompt: String, from_terminal: bool },
    /// Tell the front end something.
    Announce { event: FrontendEvent },
    /// Close the front end, telling it so, and end.
    Shutdown { event: FrontendEvent },
}

/// What comes in, as a mathematical value.
pub enum SessionInputView {
    Line { text: Seq<char> },
    Command { command: CommandView },
    Interrupt,
}

impl View for SessionInput {
    type V = SessionInputView;

    open spec fn view(&self) -> SessionInputView {
        match *self {
            SessionInput::Line { text } => SessionInputView::Line { text: text@ },
            SessionInput::Command { command } => SessionInputView::Command { command: command@ },
            SessionInput::Interrupt => SessionInputView::Interrupt,
        }
    }
}

/// What is done, as a mathematical value.
pub enum SessionActionView {
    Task { prompt: Seq<char>, from_terminal: bool },
    Announce { event: EventView },
    Shutdown { event: EventView },
}

impl View for SessionAction {
    type V = SessionActionView;

    open spec fn view(&self) -> SessionActionView {
        match *self {
            SessionAction::Task { prompt, from_terminal } => SessionActionView::Task {
                prompt: prompt@,
                from_terminal,
            },
            SessionAction::Announce { event } => SessionActionView::Announce { event: event@ },
            SessionAction::Shutdown { event } => SessionActionView::Shutdown { event: event@ },
        }
    }
}

pub open spec fn shutdown() -> SessionActionView {
    SessionActionView::Shutdown { event: EventView::AgentMessage { content: SHUTDOWN_MESSAGE@ } }
}

/// What follows from what comes in: tasks are worked on, from the terminal as
/// from the front end; the exit word and an interrupt end the agent.
pub open spec fn after_input(input: SessionInputView) -> SessionActionView {
    match input {
        SessionInputView::Line { text } => if is_exit(text) {
            shutdown()
        } else {
            SessionActionView::Task { prompt: text, from_terminal: true }
        },
        SessionInputView::Command { command } => match command {
            CommandView::StartTask { prompt } => SessionActionView::Task { prompt, from_terminal: false },
            CommandView::SwitchBranch { name } => SessionActionView::Announce {
                event: EventView::AgentMessage { content: BRANCH_MESSAGE@ + name },
            },
        },
        SessionInputView::Interrupt => shutdown(),
    }
}

fn shutdown_action() -> (r: SessionAction)
    ensures
        r@ == shutdown(),
{
    SessionAction::Shutdown {
        event: FrontendEvent::AgentMessage { content: SHUTDOWN_MESSAGE.to_owned() },
    }
}

/// Decides what is done with what comes in.
pub fn on_input(input: SessionInput) -> (r: SessionAction)
    ensures
        r@ == after_input(input@),
{
    match input {
        SessionInput::Line { text } => if asks_to_exit(text.as_str()) {
            shutdown_action()
        } else {
            SessionAction::Task { prompt: text, from_terminal: true }
        },
        SessionInput::Command { command } => match command {
            ClientCommand::StartTask { prompt } => SessionAction::Task {
                prompt,
                from_terminal: false,
            },
            ClientCommand::SwitchBranch { name } => SessionAction::Announce {
                event: FrontendEvent::AgentMessage {
                    content: BRANCH_MESSAGE.to_owned().concat(name.as_str()),
                },
            },
        },
        SessionInput::Interrupt => shutdown_action(),
    }
}

/// What the front end is told at the start.
pub fn startup_event() -> (r: FrontendEvent)
    ensures
        r@ == (EventView::ModelInfo { model_name: MODEL@ }),
{
    FrontendEvent::ModelInfo { model_name: MODEL.to_owned() }
}

/// Every line but the exit word is worked on as it stands, and so is every task
/// of the front end; the exit word and an interrupt end the agent, which tells
/// the front end so; a change of branch is answered with the name of the branch.
pub proof fn what_comes_in_is_acted_on(text: Seq<char>, prompt: Seq<char>, name: Seq<char>)
    ensures
        ({
            let over = SessionActionView::Shutdown {
                event: EventView::AgentMessage { content: "[System] Сервер завершает работу..."@ },
            };
            &&& is_exit(text) ==> after_input(SessionInputView::Line { text }) == over
            &&& !is_exit(text) ==> after_input(SessionInputView::Line { text }) == (
            SessionActionView::Task { prompt: text, from_terminal: true })
            &&& after_input(SessionInputView::Interrupt) == over
        }),
        after_input(
            SessionInputView::Command { command: CommandView::StartTask { prompt } },
        ) == (SessionActionView::Task { prompt, from_terminal: false }),
        after_input(
            SessionInputView::Command { command: CommandView::SwitchBranch { name } },
        ) == (SessionActionView::Announce {
            event: EventView::AgentMessage {
                content: "[System] Переключение веток пока не реализовано. Ветка: "@ + name,
            },
        }),
{
}

} // verus!

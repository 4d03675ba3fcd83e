//! What the mathematical values say of the values that they stand for: each
//! holds every part of it, whole.

use vstd::prelude::*;
#[allow(unused_imports)]
use vstd::string::*;

#[allow(unused_imports)]
use crate::conversation::{ChunkView, Message, MessageView, StreamChunk};
#[allow(unused_imports)]
use crate::effect::{Effect, EffectView, NoticeKind};
#[allow(unused_imports)]
use crate::frontend::{ClientCommand, CommandView, EventView, FrontendEvent, SocketAction, SocketActionView, SocketInput, SocketInputView};
#[allow(unused_imports)]
use crate::port::{CallView, PortAction, PortActionView, ProcessCall};
#[allow(unused_imports)]
use crate::search::{GithubLookup, Lookup, LookupView, PageLookup, SelectionLookup};
#[allow(unused_imports)]
use crate::session::{SessionAction, SessionActionView, SessionInput, SessionInputView};
#[allow(unused_imports)]
use crate::task::{task_view, Asking, Next, NextView, Running, Searching};
#[allow(unused_imports)]
use crate::terminal::{ReadAction, ReadActionView, Reading, ReadingView};
#[allow(unused_imports)]
use crate::text::texts;

verus! {

/// An event is known by its kind and all its texts.
pub proof fn events_are_seen_whole(a: String, b: String)
    ensures
        (FrontendEvent::AgentMessage { content: a })@ == (EventView::AgentMessage { content: a@ }),
        FrontendEvent::Ping@ == EventView::Ping,
        (FrontendEvent::ToolExecuting { tool_name: a, arguments: b })@ == (
        EventView::ToolExecuting { tool_name: a@, arguments: b@ }),
        (FrontendEvent::ToolResult { tool_name: a, result: b })@ == (EventView::ToolResult {
            tool_name: a@,
            result: b@,
        }),
        (FrontendEvent::ModelInfo { model_name: a })@ == (EventView::ModelInfo { model_name: a@ }),
        (ClientCommand::StartTask { prompt: a })@ == (CommandView::StartTask { prompt: a@ }),
        (ClientCommand::SwitchBranch { name: a })@ == (CommandView::SwitchBranch { name: a@ }),
{
}

/// An effect is known by its kind and all that it shows or sends.
pub proof fn effects_are_seen_whole(a: String, kind: NoticeKind, event: FrontendEvent)
    ensures
        (Effect::Print { text: a })@ == (EffectView::Print { text: a@ }),
        (Effect::Render { text: a })@ == (EffectView::Render { text: a@ }),
        (Effect::Notice { kind, text: a })@ == (EffectView::Notice { kind, text: a@ }),
        (Effect::Failure { text: a })@ == (EffectView::Failure { text: a@ }),
        (Effect::Broadcast { event })@ == (EffectView::Broadcast { event: event@ }),
{
}

/// A record is known by its message and by whether it says it is the last.
pub proof fn records_are_seen_whole(message: Message, done: Option<bool>)
    ensures
        message@ == (MessageView { role: message.role@, content: message.content@ }),
        (StreamChunk { message: Some(message), done })@ == (ChunkView {
            message: Some(message@),
            done,
        }),
        (StreamChunk { message: None, done })@ == (ChunkView { message: None, done }),
{
}

/// What happens and what is done on a connection is known by its kind and all
/// that belongs to it.
pub proof fn connections_are_seen_whole(
    event: FrontendEvent,
    command: ClientCommand,
    text: String,
    missed: u64,
)
    ensures
        (SocketInput::Event { event })@ == (SocketInputView::Event { event: event@ }),
        (SocketInput::Lagged { missed })@ == (SocketInputView::Lagged { missed }),
        SocketInput::Closed@ == SocketInputView::Closed,
        (SocketInput::ClientText { text })@ == (SocketInputView::ClientText { text: text@ }),
        SocketInput::ClientOther@ == SocketInputView::ClientOther,
        SocketInput::ClientGone@ == SocketInputView::ClientGone,
        (SocketInput::ClientFailed { error: text })@ == (SocketInputView::ClientFailed {
            error: text@,
        }),
        (SocketAction::Send { event })@ == (SocketActionView::Send { event: event@ }),
        (SocketAction::Forward { text })@ == (SocketActionView::Forward { text: text@ }),
        (SocketAction::Deliver { command })@ == (SocketActionView::Deliver { command: command@ }),
        (SocketAction::Warn { report: text })@ == (SocketActionView::Warn { report: text@ }),
        SocketAction::Ignore@ == SocketActionView::Ignore,
        SocketAction::Close@ == SocketActionView::Close,
        (SocketAction::CloseWarning { report: text })@ == (SocketActionView::CloseWarning {
            report: text@,
        }),
{
}

/// What is done to free a port is known by the call, whole, or by the time.
pub proof fn port_actions_are_seen_whole(call: ProcessCall, millis: u64, free: bool)
    ensures
        call@ == (CallView { program: call.program@, args: texts(call.args@) }),
        (PortAction::Capture { call })@ == (PortActionView::Capture { call: call@ }),
        (PortAction::Run { call })@ == (PortActionView::Run { call: call@ }),
        (PortAction::Sleep { millis })@ == (PortActionView::Sleep { millis }),
        (PortAction::Finish { free })@ == (PortActionView::Finish { free }),
{
}

/// What comes from the terminal, and what is done with it, is known whole.
pub proof fn readings_are_seen_whole(text: String)
    ensures
        (Reading::Line { text })@ == (ReadingView::Line { text: text@ }),
        Reading::Ended@ == ReadingView::Ended,
        (Reading::Failed { error: text })@ == (ReadingView::Failed { error: text@ }),
        (ReadAction::Submit { line: text })@ == (ReadActionView::Submit { line: text@ }),
        (ReadAction::Skip { line: text })@ == (ReadActionView::Skip { line: text@ }),
        (ReadAction::Leave { line: text })@ == (ReadActionView::Leave { line: text@ }),
        ReadAction::Stop@ == ReadActionView::Stop,
        (ReadAction::Fail { report: text })@ == (ReadActionView::Fail { report: text@ }),
{
}

/// What comes into a session, and what is done with it, is known whole.
pub proof fn sessions_are_seen_whole(
    text: String,
    command: ClientCommand,
    event: FrontendEvent,
    from_terminal: bool,
)
    ensures
        (SessionInput::Line { text })@ == (SessionInputView::Line { text: text@ }),
        (SessionInput::Command { command })@ == (SessionInputView::Command { command: command@ }),
        SessionInput::Interrupt@ == SessionInputView::Interrupt,
        (SessionAction::Task { prompt: text, from_terminal })@ == (SessionActionView::Task {
            prompt: text@,
            from_terminal,
        }),
        (SessionAction::Announce { event })@ == (SessionActionView::Announce { event: event@ }),
        (SessionAction::Shutdown { event })@ == (SessionActionView::Shutdown { event: event@ }),
{
}

/// What a task or a search waits for is known whole.
pub proof fn waiting_is_seen_whole(
    history: Seq<Message>,
    next: Next,
    asking: Asking,
    running: Running,
    searching: Searching,
    github: GithubLookup,
    page: PageLookup,
    selection: SelectionLookup,
    text: String,
)
    ensures
        task_view(history, next).history.len() == history.len(),
        forall|i: int|
            0 <= i < history.len() ==> #[trigger] task_view(history, next).history[i]
                == history[i]@,
        task_view(history, next).next == next@,
        Next::Ask(asking)@ == NextView::Ask,
        Next::Run(running)@ == (NextView::Run { command: running.asked() }),
        Next::Search(searching)@ == (NextView::Search {
            query: searching.asked(),
            reply: searching.asked_in(),
        }),
        Next::Stop@ == NextView::Stop,
        Lookup::Github(github)@ == (LookupView::Github {
            query: github.searched(),
            user: github.asked(),
        }),
        Lookup::DuckDuckGo(page)@ == (LookupView::DuckDuckGo { query: page.searched() }),
        Lookup::Selection(selection)@ == (LookupView::Selection { html: selection.shown() }),
        Lookup::Answer(text)@ == (LookupView::Answer { text: text@ }),
{
}

} // verus!

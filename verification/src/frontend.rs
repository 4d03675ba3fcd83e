//! What the agent and its web front end tell each other, and how one
//! connection to the front end is served.

use vstd::prelude::*;
use vstd::string::*;

use crate::number::decimal_text;
#[allow(unused_imports)]
use crate::number::decimal;

verus! {

/// Events that are broadcast to the front end.
#[derive(Debug)]
pub enum FrontendEvent {
    /// Text of the agent: a streamed part or a whole message.
    AgentMessage { content: String },
    /// Keeps the connection alive.
    Ping,
    /// The agent has begun to run a tool.
    ToolExecuting { tool_name: String, arguments: String },
    /// What a tool has returned.
    ToolResult { tool_name: String, result: String },
    /// The model in use, told at the start.
    ModelInfo { model_name: String },
}

/// A front-end event as a mathematical value.
pub enum EventView {
    AgentMessage { content: Seq<char> },
    Ping,
    ToolExecuting { tool_name: Seq<char>, arguments: Seq<char> },
    ToolResult { tool_name: Seq<char>, result: Seq<char> },
    ModelInfo { model_name: Seq<char> },
}

impl View for FrontendEvent {
    type V = EventView;

    open spec fn view(&self) -> EventView {
        match *self {
            FrontendEvent::AgentMessage { content } => EventView::AgentMessage { content: content@ },
            FrontendEvent::Ping => EventView::Ping,
            FrontendEvent::ToolExecuting { tool_name, arguments } => EventView::ToolExecuting {
                tool_name: tool_name@,
                arguments: arguments@,
            },
            FrontendEvent::ToolResult { tool_name, result } => EventView::ToolResult {
                tool_name: tool_name@,
                result: result@,
            },
            FrontendEvent::ModelInfo { model_name } => EventView::ModelInfo {
                model_name: model_name@,
            },
        }
    }
}

impl Clone for FrontendEvent {
    fn clone(&self) -> (r: Self)
        ensures
            r@ == self@,
    {
        match self {
            FrontendEvent::AgentMessage { content } => FrontendEvent::AgentMessage {
                content: content.clone(),
            },
            FrontendEvent::Ping => FrontendEvent::Ping,
            FrontendEvent::ToolExecuting { tool_name, arguments } => FrontendEvent::ToolExecuting {
                tool_name: tool_name.clone(),
                arguments: arguments.clone(),
            },
            FrontendEvent::ToolResult { tool_name, result } => FrontendEvent::ToolResult {
                tool_name: tool_name.clone(),
                result: result.clone(),
            },
            FrontendEvent::ModelInfo { model_name } => FrontendEvent::ModelInfo {
                model_name: model_name.clone(),
            },
        }
    }
}

/// Commands from the front end to the agent.
#[derive(Debug)]
pub enum ClientCommand {
    /// Begin a new task.
    StartTask { prompt: String },
    /// Move to another branch of the context.
    SwitchBranch { name: String },
}

/// A command of the front end as a mathematical value.
pub enum CommandView {
    StartTask { prompt: Seq<char> },
    SwitchBranch { name: Seq<char> },
}

impl View for ClientCommand {
    type V = CommandView;

    open spec fn view(&self) -> CommandView {
        match *self {
            ClientCommand::StartTask { prompt } => CommandView::StartTask { prompt: prompt@ },
            ClientCommand::SwitchBranch { name } => CommandView::SwitchBranch { name: name@ },
        }
    }
}

impl Clone for ClientCommand {
    fn clone(&self) -> (r: Self)
        ensures
            r@ == self@,
    {
        match self {
            ClientCommand::StartTask { prompt } => ClientCommand::StartTask {
                prompt: prompt.clone(),
            },
            ClientCommand::SwitchBranch { name } => ClientCommand::SwitchBranch {
                name: name.clone(),
            },
        }
    }
}

/// The port of the front end's server.
pub const PORT: u16 = 8080;

/// Where the front end's server listens.
pub const BIND_ADDRESS: &'static str = "0.0.0.0:8080";

/// The path of the event stream.
pub const EVENTS_PATH: &'static str = "/ws";

/// How many events can wait for a slow connection.
pub const EVENT_CAPACITY: usize = 256;

/// How many commands can wait for the agent.
pub const COMMAND_CAPACITY: usize = 32;

/// Time between two signs of life, in seconds.
pub const HEARTBEAT_SECONDS: u64 = 30;

/// The variable that names the directory of the front end's files.
pub const STATIC_DIR_VARIABLE: &'static str = "CLI_AGENT_STATIC_DIR";

/// The directory of the front end's files beside the program's manifest.
pub const STATIC_DIR_NAME: &'static str = "static";

/// What happens on one connection to the front end.
#[derive(Debug)]
pub enum SocketInput {
    /// An event is broadcast.
    Event { event: FrontendEvent },
    /// The connection has missed events, being too slow.
    Lagged { missed: u64 },
    /// There will be no more events.
    Closed,
    /// The client has sent text.
    ClientText { text: String },
    /// The client has sent something else.
    ClientOther,
    /// The client has closed the connection or has gone.
    ClientGone,
    /// Reading from the client has failed.
    ClientFailed { error: String },
}

/// What is done on the connection.
#[derive(Debug)]
pub enum SocketAction {
    /// Send an event to the client; where it cannot be put into words, go on.
    Send { event: FrontendEvent },
    /// Read a command from the client's text.
    Forward { text: String },
    /// Hand a command to the agent.
    Deliver { command: ClientCommand },
    /// Note something and go on.
    Warn { report: String },
    /// Go on.
    Ignore,
    /// Close the connection.
    Close,
    /// Note something and close the connection.
    CloseWarning { report: String },
}

/// What happens on a connection, as a mathematical value.
pub enum SocketInputView {
    Event { event: EventView },
    Lagged { missed: u64 },
    Closed,
    ClientText { text: Seq<char> },
    ClientOther,
    ClientGone,
    ClientFailed { error: Seq<char> },
}

impl View for SocketInput {
    type V = SocketInputView;

    open spec fn view(&self) -> SocketInputView {
        match *self {
            SocketInput::Event { event } => SocketInputView::Event { event: event@ },
            SocketInput::Lagged { missed } => SocketInputView::Lagged { missed },
            SocketInput::Closed => SocketInputView::Closed,
            SocketInput::ClientText { text } => SocketInputView::ClientText { text: text@ },
            SocketInput::ClientOther => SocketInputView::ClientOther,
            SocketInput::ClientGone => SocketInputView::ClientGone,
            SocketInput::ClientFailed { error } => SocketInputView::ClientFailed { error: error@ },
        }
    }
}

/// What is done on a connection, as a mathematical value.
pub enum SocketActionView {
    Send { event: EventView },
    Forward { text: Seq<char> },
    Deliver { command: CommandView },
    Warn { report: Seq<char> },
    Ignore,
    Close,
    CloseWarning { report: Seq<char> },
}

impl View for SocketAction {
    type V = SocketActionView;

    open spec fn view(&self) -> SocketActionView {
        match *self {
            SocketAction::Send { event } => SocketActionView::Send { event: event@ },
            SocketAction::Forward { text } => SocketActionView::Forward { text: text@ },
            SocketAction::Deliver { command } => SocketActionView::Deliver { command: command@ },
            SocketAction::Warn { report } => SocketActionView::Warn { report: report@ },
            SocketAction::Ignore => SocketActionView::Ignore,
            SocketAction::Close => SocketActionView::Close,
            SocketAction::CloseWarning { report } => SocketActionView::CloseWarning {
                report: report@,
            },
        }
    }
}

/// What follows from what happens on a connection. Events go to the client and
/// its words to the agent; a slow connection loses events but stays open; it
/// is closed where either side is gone.
pub open spec fn after_socket_input(input: SocketInputView) -> SocketActionView {
    match input {
        SocketInputView::Event { event } => SocketActionView::Send { event },
        SocketInputView::Lagged { missed } => SocketActionView::Warn {
            report: "Frontend WS lagged by "@ + decimal(missed as nat) + " events"@,
        },
        SocketInputView::Closed => SocketActionView::Close,
        SocketInputView::ClientText { text } => SocketActionView::Forward { text },
        SocketInputView::ClientOther => SocketActionView::Ignore,
        SocketInputView::ClientGone => SocketActionView::Close,
        SocketInputView::ClientFailed { error } => SocketActionView::CloseWarning {
            report: "Frontend WS receive error: "@ + error,
        },
    }
}

/// Decides what is done on a connection.
pub fn on_socket_input(input: SocketInput) -> (r: SocketAction)
    ensures
        r@ == after_socket_input(input@),
{
    match input {
        SocketInput::Event { event } => SocketAction::Send { event },
        SocketInput::Lagged { missed } => {
            let mut report: String = "Frontend WS lagged by ".to_owned();
            report.append(decimal_text(missed).as_str());
            report.append(" events");
            SocketAction::Warn { report }
        },
        SocketInput::Closed => SocketAction::Close,
        SocketInput::ClientText { text } => SocketAction::Forward { text },
        SocketInput::ClientOther => SocketAction::Ignore,
        SocketInput::ClientGone => SocketAction::Close,
        SocketInput::ClientFailed { error } => SocketAction::CloseWarning {
            report: "Frontend WS receive error: ".to_owned().concat(error.as_str()),
        },
    }
}

/// What is done once an event was to be sent: `sent` is nothing where it could
/// not be put into words, else whether it went out.
pub open spec fn after_sending(sent: Option<bool>) -> SocketActionView {
    if sent == Some(false) {
        SocketActionView::Close
    } else {
        SocketActionView::Ignore
    }
}

/// Decides what is done once an event was to be sent.
pub fn on_sent(sent: Option<bool>) -> (r: SocketAction)
    ensures
        r@ == after_sending(sent),
{
    match sent {
        Some(went_out) => if went_out {
            SocketAction::Ignore
        } else {
            SocketAction::Close
        },
        None => SocketAction::Ignore,
    }
}

/// The command that was read, if the client's text was one.
pub open spec fn command_read(command: Option<ClientCommand>) -> Option<CommandView> {
    match command {
        Some(command) => Some(command@),
        None => None,
    }
}

/// What is done once the client's text was read: a command goes to the agent,
/// and text that is no command is passed over.
pub open spec fn after_command_read(command: Option<CommandView>) -> SocketActionView {
    match command {
        Some(command) => SocketActionView::Deliver { command },
        None => SocketActionView::Ignore,
    }
}

/// Decides what is done once the client's text was read.
pub fn on_command_read(command: Option<ClientCommand>) -> (r: SocketAction)
    ensures
        r@ == after_command_read(command_read(command)),
{
    match command {
        Some(command) => SocketAction::Deliver { command },
        None => SocketAction::Ignore,
    }
}

/// The signs of life on a connection. The clock ticks once at the start, and
/// that tick does not count. They end where nobody receives them.
#[derive(Debug)]
pub struct Heartbeat {
    ticked: bool,
    over: bool,
}

impl Heartbeat {
    pub closed spec fn has_ticked(&self) -> bool {
        self.ticked
    }

    pub closed spec fn has_ended(&self) -> bool {
        self.over
    }

    /// A heartbeat before the first tick.
    pub fn new() -> (r: Self)
        ensures
            !r.has_ticked(),
            !r.has_ended(),
    {
        Heartbeat { ticked: false, over: false }
    }

    /// What is sent on a tick.
    pub fn tick(&mut self) -> (r: Option<FrontendEvent>)
        ensures
            final(self).has_ticked(),
            final(self).has_ended() == old(self).has_ended(),
            match r {
                Some(event) => old(self).has_ticked() && !old(self).has_ended() && event@
                    == EventView::Ping,
                None => !old(self).has_ticked() || old(self).has_ended(),
            },
    {
        if self.ticked && !self.over {
            Some(FrontendEvent::Ping)
        } else {
            self.ticked = true;
            None
        }
    }

    /// Takes in whether somebody received what was sent: the heartbeat goes on
    /// if and only if it has not ended and somebody did.
    pub fn sent(&mut self, received: bool)
        ensures
            final(self).has_ticked() == old(self).has_ticked(),
            !final(self).has_ended() <==> !old(self).has_ended() && received,
    {
        if !received {
            self.over = true;
        }
    }

    /// Tells whether the heartbeat goes on.
    pub fn goes_on(&self) -> (r: bool)
        ensures
            r == !self.has_ended(),
    {
        !self.over
    }
}

/// A connection is closed only where one of its two sides is gone.
pub proof fn open_while_both_sides_are_there(input: SocketInputView)
    ensures
        after_socket_input(input) is Close || after_socket_input(input) is CloseWarning <==> input
            is Closed || input is ClientGone || input is ClientFailed,
{
}

/// One connection: whether it is open, the events that its client was sent, and
/// the commands that the agent was handed, in order.
pub struct ConnectionView {
    pub open: bool,
    pub sent: Seq<EventView>,
    pub delivered: Seq<CommandView>,
}

/// Something that happens on a connection. `sent` is what comes of sending an
/// event, and `command` what is read from the client's text; each counts only
/// where it is asked for.
pub struct SocketStep {
    pub input: SocketInputView,
    pub sent: Option<bool>,
    pub command: Option<CommandView>,
}

/// A connection before anything has happened on it.
pub open spec fn connected() -> ConnectionView {
    ConnectionView { open: true, sent: Seq::empty(), delivered: Seq::empty() }
}

/// What one step makes of a connection. A closed one stays as it is.
pub open spec fn after_step(connection: ConnectionView, step: SocketStep) -> ConnectionView {
    if !connection.open {
        connection
    } else {
        match after_socket_input(step.input) {
            SocketActionView::Send { event } => ConnectionView {
                open: !(after_sending(step.sent) is Close),
                sent: if step.sent == Some(true) {
                    connection.sent.push(event)
                } else {
                    connection.sent
                },
                delivered: connection.delivered,
            },
            SocketActionView::Forward { text } => match after_command_read(step.command) {
                SocketActionView::Deliver { command } => ConnectionView {
                    open: true,
                    sent: connection.sent,
                    delivered: connection.delivered.push(command),
                },
                _ => connection,
            },
            SocketActionView::Close => ConnectionView { open: false, ..connection },
            SocketActionView::CloseWarning { report } => ConnectionView {
                open: false,
                ..connection
            },
            _ => connection,
        }
    }
}

/// A connection after a number of steps.
pub open spec fn served(steps: Seq<SocketStep>) -> ConnectionView
    decreases steps.len(),
{
    if steps.len() == 0 {
        connected()
    } else {
        after_step(served(steps.drop_last()), steps.last())
    }
}

/// The events that are broadcast in the course of the steps, in order.
pub open spec fn events_in(steps: Seq<SocketStep>) -> Seq<EventView>
    decreases steps.len(),
{
    if steps.len() == 0 {
        Seq::empty()
    } else {
        match steps.last().input {
            SocketInputView::Event { event } => events_in(steps.drop_last()).push(event),
            _ => events_in(steps.drop_last()),
        }
    }
}

/// The commands that are read in the course of the steps, in order.
pub open spec fn commands_in(steps: Seq<SocketStep>) -> Seq<CommandView>
    decreases steps.len(),
{
    if steps.len() == 0 {
        Seq::empty()
    } else {
        match (steps.last().input, steps.last().command) {
            (SocketInputView::ClientText { text }, Some(command)) => commands_in(
                steps.drop_last(),
            ).push(command),
            _ => commands_in(steps.drop_last()),
        }
    }
}

/// Neither side is gone, and where an event comes it goes out.
pub open spec fn goes_well(step: SocketStep) -> bool {
    match step.input {
        SocketInputView::Event { event } => step.sent == Some(true),
        SocketInputView::Closed => false,
        SocketInputView::ClientGone => false,
        SocketInputView::ClientFailed { error } => false,
        _ => true,
    }
}

/// While all goes well the connection stays open, its client is sent every
/// event once and in the order of the broadcast, and the agent is handed every
/// command once and in the order of the client.
pub proof fn all_events_are_sent_in_order(steps: Seq<SocketStep>)
    requires
        forall|i: int| 0 <= i < steps.len() ==> goes_well(#[trigger] steps[i]),
    ensures
        served(steps).open,
        served(steps).sent == events_in(steps),
        served(steps).delivered == commands_in(steps),
    decreases steps.len(),
{
    if steps.len() > 0 {
        let earlier = steps.drop_last();
        assert forall|i: int| 0 <= i < earlier.len() implies goes_well(#[trigger] earlier[i]) by {
            assert(earlier[i] == steps[i]);
        }
        all_events_are_sent_in_order(earlier);
        assert(goes_well(steps[steps.len() - 1]));
    }
}

/// Whatever happens, a connection that is closed sends and delivers nothing
/// more.
pub proof fn closed_is_closed(connection: ConnectionView, step: SocketStep)
    requires
        !connection.open,
    ensures
        after_step(connection, step) == connection,
{
}

/// What passes through a connection passes unchanged: events to the client, its
/// text to be read, and its commands to the agent. What is noted says how many
/// events were missed, or why reading failed.
pub proof fn what_passes_is_unchanged(
    event: EventView,
    text: Seq<char>,
    command: CommandView,
    missed: u64,
    error: Seq<char>,
)
    ensures
        after_socket_input(SocketInputView::Event { event }) == (SocketActionView::Send { event }),
        after_socket_input(SocketInputView::ClientText { text }) == (SocketActionView::Forward {
            text,
        }),
        after_command_read(Some(command)) == (SocketActionView::Deliver { command }),
        after_command_read(None) is Ignore,
        after_socket_input(SocketInputView::ClientOther) is Ignore,
        after_socket_input(SocketInputView::Lagged { missed }) == (SocketActionView::Warn {
            report: "Frontend WS lagged by "@ + decimal(missed as nat) + " events"@,
        }),
        after_socket_input(SocketInputView::ClientFailed { error }) == (
        SocketActionView::CloseWarning { report: "Frontend WS receive error: "@ + error }),
        after_socket_input(SocketInputView::Closed) is Close,
        after_socket_input(SocketInputView::ClientGone) is Close,
        after_sending(Some(false)) is Close,
        after_sending(Some(true)) is Ignore,
        after_sending(None) is Ignore,
{
}

/// A command that was read is taken whole.
pub proof fn commands_are_whole(command: Option<ClientCommand>)
    ensures
        command matches Some(one) ==> command_read(command) == Some(one@),
        command is None ==> command_read(command) is None,
{
}

} // verus!

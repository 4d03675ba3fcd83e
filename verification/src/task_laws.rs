//! What holds of every course that a task can take.

use vstd::prelude::*;

#[allow(unused_imports)]
use crate::conversation::{message, ChunkView, MessageView, ROLE_ASSISTANT, ROLE_SYSTEM, ROLE_TOOL, ROLE_USER, SYSTEM_PROMPT};
#[allow(unused_imports)]
use crate::effect::{all_is_carried_out, carried_out, carried_out_in_turn, nothing_is_broadcast_to_nobody, EffectView, NoticeKind};
#[allow(unused_imports)]
use crate::frontend::EventView;
#[allow(unused_imports)]
use crate::stream::{after_packets, at_end, nothing_collected, the_front_end_does_not_change_the_reply};
#[allow(unused_imports)]
use crate::task::{after_command, after_failure, after_reply, after_search, begun, shown, step, InputView, NextView, TaskView, MAX_SEARCH_CHARS, OUTPUT_HEADING, REQUEST_SUFFIX, RUN_PREFIX, RUN_TOOL, SEARCH_PREFIX, SEARCH_TOOL};
#[allow(unused_imports)]
use crate::text::{lines, trim};
#[allow(unused_imports)]
use crate::text_laws::{first_index_at, trim_drops_a_leading_space, trim_keeps_tight_text};
#[allow(unused_imports)]
use crate::tool_call::{first_request, request_on_its_own_line_is_read, requested};
#[allow(unused_imports)]
use crate::trimmer::{shortened_keeps_both_ends, OMISSION_MARK};

verus! {

/// A task after a number of inputs, with the effects of all its steps.
pub open spec fn run(task: TaskView, inputs: Seq<InputView>) -> (TaskView, Seq<EffectView>)
    decreases inputs.len(),
{
    if inputs.len() == 0 {
        (task, Seq::empty())
    } else {
        let (before, done) = run(task, inputs.drop_last());
        let (after, last) = step(before, inputs.last());
        (after, done + last)
    }
}

/// No step takes anything out of the conversation or changes what stands in
/// it: the conversation only grows.
pub proof fn the_conversation_only_grows(task: TaskView, inputs: Seq<InputView>)
    ensures
        task.history.is_prefix_of(run(task, inputs).0.history),
    decreases inputs.len(),
{
    if inputs.len() == 0 {
        assert(task.history =~= task.history.subrange(0, task.history.len() as int));
    } else {
        the_conversation_only_grows(task, inputs.drop_last());
        let before = run(task, inputs.drop_last()).0;
        let after = step(before, inputs.last()).0;
        assert(before.history =~= after.history.subrange(0, before.history.len() as int));
        assert(task.history =~= after.history.subrange(0, task.history.len() as int));
    }
}

/// A conversation that opens with the instructions to the model.
pub open spec fn opens_with_instructions(history: Seq<MessageView>) -> bool {
    history.len() > 0 && history.first() == message(ROLE_SYSTEM@, SYSTEM_PROMPT@)
}

/// However many tasks are worked on, and whatever comes of them, the model is
/// told its instructions before anything else.
pub proof fn the_instructions_stay_first(
    history: Seq<MessageView>,
    prompt: Seq<char>,
    inputs: Seq<InputView>,
)
    requires
        opens_with_instructions(history),
    ensures
        opens_with_instructions(run(begun(history, prompt), inputs).0.history),
{
    let start = begun(history, prompt);
    let end = run(start, inputs).0.history;
    the_conversation_only_grows(start, inputs);
    assert(start.history[0] == history[0]);
    assert(end.subrange(0, start.history.len() as int)[0] == end[0]);
}

/// A task that is over stays over, and nothing more happens.
pub proof fn a_finished_task_stays_finished(task: TaskView, inputs: Seq<InputView>)
    requires
        task.next is Stop,
    ensures
        run(task, inputs) == (task, Seq::<EffectView>::empty()),
    decreases inputs.len(),
{
    if inputs.len() > 0 {
        a_finished_task_stays_finished(task, inputs.drop_last());
        assert(Seq::<EffectView>::empty() + Seq::<EffectView>::empty() =~= Seq::empty());
    }
}

/// The events about tools among the effects, in order.
pub open spec fn tool_events(list: Seq<EffectView>) -> Seq<EventView>
    decreases list.len(),
{
    if list.len() == 0 {
        Seq::empty()
    } else {
        let earlier = tool_events(list.drop_last());
        match list.last() {
            EffectView::Broadcast { event } => if event is ToolExecuting || event is ToolResult {
                earlier.push(event)
            } else {
                earlier
            },
            _ => earlier,
        }
    }
}

/// One use of a tool: what it was given, and what the model is shown of what it
/// returned.
pub struct ToolUse {
    pub tool: Seq<char>,
    pub arguments: Seq<char>,
    pub result: Seq<char>,
}

/// The use of a tool that a step completes, if it does.
pub open spec fn use_completed(task: TaskView, input: InputView) -> Seq<ToolUse> {
    match (task.next, input) {
        (NextView::Run { command }, InputView::Output { text }) => seq![
            ToolUse { tool: RUN_TOOL@, arguments: command, result: shown(text) },
        ],
        (NextView::Search { query, reply }, InputView::Output { text }) => seq![
            ToolUse { tool: SEARCH_TOOL@, arguments: query, result: shown(text) },
        ],
        _ => Seq::empty(),
    }
}

/// The uses of tools that are completed in the course of a task, in order.
pub open spec fn uses_completed(task: TaskView, inputs: Seq<InputView>) -> Seq<ToolUse>
    decreases inputs.len(),
{
    if inputs.len() == 0 {
        Seq::empty()
    } else {
        uses_completed(task, inputs.drop_last()) + use_completed(
            run(task, inputs.drop_last()).0,
            inputs.last(),
        )
    }
}

/// For each use of a tool the announcement and then the result, both under the
/// name of the tool.
pub open spec fn events_of_uses(uses: Seq<ToolUse>) -> Seq<EventView>
    decreases uses.len(),
{
    if uses.len() == 0 {
        Seq::empty()
    } else {
        let last = uses.last();
        events_of_uses(uses.drop_last()).push(
            EventView::ToolExecuting { tool_name: last.tool, arguments: last.arguments },
        ).push(EventView::ToolResult { tool_name: last.tool, result: last.result })
    }
}

/// The announcement of the tool that a task waits for, if it waits for one.
pub open spec fn announcement(next: NextView) -> Seq<EventView> {
    match next {
        NextView::Run { command } => seq![
            EventView::ToolExecuting { tool_name: RUN_TOOL@, arguments: command },
        ],
        NextView::Search { query, reply } => seq![
            EventView::ToolExecuting { tool_name: SEARCH_TOOL@, arguments: query },
        ],
        _ => Seq::empty(),
    }
}

/// The message that a use of a tool becomes.
pub open spec fn result_message(tool_use: ToolUse) -> MessageView {
    message(
        if tool_use.tool == RUN_TOOL@ {
            ROLE_TOOL@
        } else {
            ROLE_USER@
        },
        OUTPUT_HEADING@ + tool_use.result,
    )
}

proof fn tool_events_of_joined_lists(a: Seq<EffectView>, b: Seq<EffectView>)
    ensures
        tool_events(a + b) == tool_events(a) + tool_events(b),
    decreases b.len(),
{
    if b.len() == 0 {
        assert(a + b =~= a);
    } else {
        assert((a + b).drop_last() =~= a + b.drop_last());
        assert((a + b).last() == b.last());
        tool_events_of_joined_lists(a, b.drop_last());
    }
}

/// What a step tells the front end about tools: the result of the tool that the
/// task has waited for, or the announcement of the one that it waits for next.
proof fn tool_events_of_a_step(task: TaskView, input: InputView)
    ensures
        ({
            let (after, list) = step(task, input);
            let done = use_completed(task, input);
            &&& done.len() == 1 ==> tool_events(list) == seq![
                EventView::ToolResult { tool_name: done[0].tool, result: done[0].result },
            ] && announcement(after.next).len() == 0 && announcement(task.next) == seq![
                EventView::ToolExecuting {
                    tool_name: done[0].tool,
                    arguments: done[0].arguments,
                },
            ]
            &&& done.len() != 1 ==> done.len() == 0 && announcement(task.next) + tool_events(list)
                == announcement(after.next)
        }),
{
    reveal_with_fuel(tool_events, 3);
    let (after, list) = step(task, input);
    if list.len() == 2 {
        assert(list.drop_last().drop_last() =~= Seq::<EffectView>::empty());
        assert(list.drop_last().last() == list[0]);
    } else if list.len() == 1 {
        assert(list.drop_last() =~= Seq::<EffectView>::empty());
    }
}

/// Where a step completes the use of a tool, the result that the front end is
/// told is the text of the message that the step appends, under its heading.
pub proof fn a_result_is_the_message_appended(task: TaskView, input: InputView)
    ensures
        ({
            let (after, list) = step(task, input);
            let done = use_completed(task, input);
            done.len() > 0 ==> {
                &&& done.len() == 1
                &&& tool_events(list) == seq![
                    EventView::ToolResult { tool_name: done[0].tool, result: done[0].result },
                ]
                &&& after.history.len() > task.history.len()
                &&& after.history.last() == result_message(done[0])
            }
        }),
{
    tool_events_of_a_step(task, input);
    reveal_strlit("run");
    reveal_strlit("web_search");
    assert(RUN_TOOL@.len() != SEARCH_TOOL@.len());
}

/// The front end is told of tools in pairs, one after the other: that a tool
/// begins, with what it is given, and then what the same tool has returned. A
/// task that waits for a tool has announced it, last of all. Nothing else is
/// told of tools.
pub proof fn announced_tools_give_their_results(
    history: Seq<MessageView>,
    inputs: Seq<InputView>,
)
    ensures
        ({
            let task = TaskView { history, next: NextView::Ask };
            let (after, list) = run(task, inputs);
            tool_events(list) == events_of_uses(uses_completed(task, inputs)) + announcement(
                after.next,
            )
        }),
    decreases inputs.len(),
{
    let task = TaskView { history, next: NextView::Ask };
    if inputs.len() > 0 {
        let earlier = inputs.drop_last();
        let input = inputs.last();
        announced_tools_give_their_results(history, earlier);
        let (before, done) = run(task, earlier);
        let (after, last) = step(before, input);
        let uses = uses_completed(task, earlier);
        let completed = use_completed(before, input);
        tool_events_of_joined_lists(done, last);
        tool_events_of_a_step(before, input);
        if completed.len() == 1 {
            assert(uses + completed =~= uses.push(completed[0]));
            assert((uses + completed).drop_last() =~= uses);
            assert(tool_events(done + last) =~= events_of_uses(uses + completed) + announcement(
                after.next,
            ));
        } else {
            assert(uses + completed =~= uses);
            assert((events_of_uses(uses) + announcement(before.next)) + tool_events(last)
                =~= events_of_uses(uses) + (announcement(before.next) + tool_events(last)));
        }
    }
}

/// Every result that the front end is told stands in the conversation: among
/// the messages that the task has added is the one that the use of the tool has
/// become.
pub proof fn results_enter_the_conversation(task: TaskView, inputs: Seq<InputView>, k: int)
    requires
        0 <= k < uses_completed(task, inputs).len(),
    ensures
        exists|j: int|
            task.history.len() <= j < run(task, inputs).0.history.len() && #[trigger] run(
                task,
                inputs,
            ).0.history[j] == result_message(uses_completed(task, inputs)[k]),
    decreases inputs.len(),
{
    let earlier = inputs.drop_last();
    let before = run(task, earlier).0;
    let after = run(task, inputs).0;
    let uses = uses_completed(task, earlier);
    the_conversation_only_grows(task, earlier);
    if k < uses.len() {
        results_enter_the_conversation(task, earlier, k);
        let j = choose|j: int|
            task.history.len() <= j < before.history.len() && #[trigger] before.history[j]
                == result_message(uses[k]);
        the_conversation_only_grows(before, seq![inputs.last()]);
        assert(seq![inputs.last()].drop_last() =~= Seq::<InputView>::empty());
        assert(run(before, seq![inputs.last()].drop_last()).0 == before);
        assert(run(before, seq![inputs.last()]).0 == after);
        assert(after.history.subrange(0, before.history.len() as int)[j] == after.history[j]);
    } else {
        a_result_is_the_message_appended(before, inputs.last());
        let j = after.history.len() - 1;
        assert(after.history[j] == result_message(uses_completed(task, inputs)[k]));
    }
}

/// What happens to a task from outside.
pub enum Happening {
    /// The model streams a whole reply.
    Streamed { packets: Seq<Seq<Option<ChunkView>>> },
    /// The model cannot be asked, or its reply breaks off after some packets.
    BrokenOff { packets: Seq<Seq<Option<ChunkView>>>, error: Seq<char> },
    /// A tool returns.
    Returned { text: Seq<char> },
}

/// What a happening makes of a task, with the effects of the reply as it
/// streams in and of the step that follows. What does not fit what the task
/// waits for changes nothing.
pub open spec fn after_happening(task: TaskView, happening: Happening, listening: bool) -> (
    TaskView,
    Seq<EffectView>,
) {
    match (task.next, happening) {
        (NextView::Ask, Happening::Streamed { packets }) => {
            let (end, list) = after_packets(nothing_collected(listening), packets);
            let (after, last) = step(task, InputView::Reply { text: end.full });
            (after, list + at_end(end) + last)
        },
        (NextView::Ask, Happening::BrokenOff { packets, error }) => {
            let list = after_packets(nothing_collected(listening), packets).1;
            let (after, last) = step(task, InputView::Failure { error });
            (after, list + last)
        },
        (_, Happening::Returned { text }) => step(task, InputView::Output { text }),
        _ => (task, Seq::empty()),
    }
}

/// A task after a number of happenings, with all that takes place outside;
/// `listening` says whether there is a front end.
pub open spec fn worked(task: TaskView, happenings: Seq<Happening>, listening: bool) -> (
    TaskView,
    Seq<EffectView>,
)
    decreases happenings.len(),
{
    if happenings.len() == 0 {
        (task, Seq::empty())
    } else {
        let (before, done) = worked(task, happenings.drop_last(), listening);
        let (after, last) = after_happening(before, happenings.last(), listening);
        (after, done + carried_out(last, listening))
    }
}

proof fn a_happening_looks_alike(task: TaskView, happening: Happening)
    ensures
        after_happening(task, happening, true).0 == after_happening(task, happening, false).0,
        carried_out(after_happening(task, happening, true).1, false) == carried_out(
            after_happening(task, happening, false).1,
            false,
        ),
{
    match (task.next, happening) {
        (NextView::Ask, Happening::Streamed { packets }) => {
            the_front_end_does_not_change_the_reply(packets);
            let (a, x) = after_packets(nothing_collected(true), packets);
            let (b, y) = after_packets(nothing_collected(false), packets);
            let last = step(task, InputView::Reply { text: a.full }).1;
            carried_out_in_turn(x + at_end(a), last, false);
            carried_out_in_turn(y + at_end(b), last, false);
        },
        (NextView::Ask, Happening::BrokenOff { packets, error }) => {
            the_front_end_does_not_change_the_reply(packets);
            let x = after_packets(nothing_collected(true), packets).1;
            let y = after_packets(nothing_collected(false), packets).1;
            let last = step(task, InputView::Failure { error }).1;
            carried_out_in_turn(x, last, false);
            carried_out_in_turn(y, last, false);
        },
        _ => {},
    }
}

/// A task that is worked on without a front end leaves the same conversation
/// and waits for the same as one with a front end, where the same happens to
/// both. It sends no event, and the terminal shows the same.
pub proof fn a_task_needs_no_front_end(task: TaskView, happenings: Seq<Happening>)
    ensures
        ({
            let (with, all) = worked(task, happenings, true);
            let (without, some) = worked(task, happenings, false);
            &&& without == with
            &&& some == carried_out(all, false)
            &&& forall|i: int| 0 <= i < some.len() ==> !(#[trigger] some[i] is Broadcast)
        }),
    decreases happenings.len(),
{
    let (with, all) = worked(task, happenings, true);
    if happenings.len() == 0 {
        reveal(Seq::filter);
        assert(carried_out(all, false) =~= all);
    } else {
        a_task_needs_no_front_end(task, happenings.drop_last());
        let (before, done) = worked(task, happenings.drop_last(), true);
        let last = after_happening(before, happenings.last(), true).1;
        a_happening_looks_alike(before, happenings.last());
        all_is_carried_out(last);
        carried_out_in_turn(done, last, false);
    }
    nothing_is_broadcast_to_nobody(all);
}

/// However much a tool returns, the message that it becomes has a bounded
/// length.
pub proof fn tool_output_enters_shortened(task: TaskView, output: Seq<char>)
    requires
        task.next is Run || task.next is Search,
    ensures
        ({
            let after = step(task, InputView::Output { text: output }).0.history;
            &&& after.len() > task.history.len()
            &&& after.last().content.len() <= OUTPUT_HEADING@.len() + MAX_SEARCH_CHARS
                + OMISSION_MARK@.len()
        }),
{
    shortened_keeps_both_ends(output, MAX_SEARCH_CHARS as nat);
}

/// A request as the model is told to write it: the prefix, a space, the
/// argument and the suffix.
pub open spec fn as_instructed(prefix: Seq<char>, argument: Seq<char>) -> Seq<char> {
    prefix + (seq![' '] + argument) + REQUEST_SUFFIX@
}

proof fn an_instructed_request_is_one_line(prefix: Seq<char>, argument: Seq<char>)
    requires
        prefix == RUN_PREFIX@ || prefix == SEARCH_PREFIX@,
        !argument.contains('\n'),
    ensures
        forall|i: int|
            0 <= i < as_instructed(prefix, argument).len() ==> #[trigger] as_instructed(
                prefix,
                argument,
            )[i] != '\n',
{
    reveal_strlit("[RUN:");
    reveal_strlit("[WEB_SEARCH:");
    reveal_strlit("]");
    let line = as_instructed(prefix, argument);
    assert forall|i: int| 0 <= i < line.len() implies #[trigger] line[i] != '\n' by {
        if i < prefix.len() {
            assert(line[i] == prefix[i]);
        } else if i == prefix.len() {
            assert(line[i] == ' ');
        } else if i < prefix.len() + 1 + argument.len() {
            assert(line[i] == argument[i - prefix.len() - 1]);
            assert(argument.contains(line[i]));
        }
    }
}

proof fn instructed_request_is_read(prefix: Seq<char>, argument: Seq<char>)
    requires
        prefix == RUN_PREFIX@ || prefix == SEARCH_PREFIX@,
        trim(argument) == argument,
        !argument.contains('\n'),
    ensures
        requested(as_instructed(prefix, argument), prefix, REQUEST_SUFFIX@) == Some(argument),
{
    reveal_strlit("[RUN:");
    reveal_strlit("[WEB_SEARCH:");
    reveal_strlit("]");
    let empty = Seq::<char>::empty();
    let request = seq![' '] + argument;
    let line = as_instructed(prefix, argument);
    assert(lines(empty) =~= Seq::<Seq<char>>::empty());
    an_instructed_request_is_one_line(prefix, argument);
    request_on_its_own_line_is_read(empty, request, empty, prefix, REQUEST_SUFFIX@);
    assert(empty + line + empty =~= line);
    trim_drops_a_leading_space(argument, ' ');
}

/// A reply that is a request to run a command, written as the model is told to
/// write it, runs that command.
pub proof fn an_instructed_command_is_run(history: Seq<MessageView>, command: Seq<char>)
    requires
        trim(command) == command,
        !command.contains('\n'),
    ensures
        after_reply(history, as_instructed(RUN_PREFIX@, command)).0.next == (NextView::Run {
            command,
        }),
{
    instructed_request_is_read(RUN_PREFIX@, command);
}

/// A reply that is a request to search the web, written as the model is told to
/// write it, makes that search.
pub proof fn an_instructed_search_is_made(history: Seq<MessageView>, query: Seq<char>)
    requires
        trim(query) == query,
        !query.contains('\n'),
    ensures
        after_reply(history, as_instructed(SEARCH_PREFIX@, query)).0.next == (NextView::Search {
            query,
            reply: as_instructed(SEARCH_PREFIX@, query),
        }),
{
    instructed_request_is_read(SEARCH_PREFIX@, query);
    reveal_strlit("[RUN:");
    reveal_strlit("[WEB_SEARCH:");
    reveal_strlit("]");
    let line = as_instructed(SEARCH_PREFIX@, query);
    an_instructed_request_is_one_line(SEARCH_PREFIX@, query);
    first_index_at(line, '\n', line.len() as int);
    assert(lines(line) == seq![line]);
    assert(line.first() == '[');
    assert(line.last() == ']');
    trim_keeps_tight_text(line);
    assert(line[1] == 'W');
    assert(!RUN_PREFIX@.is_prefix_of(line)) by {
        assert(RUN_PREFIX@[1] == 'R');
        assert(line.subrange(0, RUN_PREFIX@.len() as int)[1] == 'W');
    }
    let one = seq![line];
    assert(one.drop_first() =~= Seq::<Seq<char>>::empty());
    assert(first_request(one.drop_first(), RUN_PREFIX@, REQUEST_SUFFIX@) is None);
    assert(requested(line, RUN_PREFIX@, REQUEST_SUFFIX@) is None);
}

/// A reply that asks for no tool ends the task; it is the last message.
pub proof fn a_plain_reply_ends_the_task(history: Seq<MessageView>, reply: Seq<char>)
    requires
        requested(reply, RUN_PREFIX@, REQUEST_SUFFIX@) is None,
        requested(reply, SEARCH_PREFIX@, REQUEST_SUFFIX@) is None,
    ensures
        after_reply(history, reply).0.next is Stop,
        after_reply(history, reply).0.history.last().content == reply,
        after_reply(history, reply).0.history.last().role == ROLE_ASSISTANT@,
        after_reply(history, reply).1.len() == 0,
{
}

/// Every reply is acted on: a command that any line of it asks for is run;
/// where none is asked for, a search that any line of it asks for is made; and
/// where nothing is asked for, the task is over. The reply joins the
/// conversation each time, and the tool is announced.
pub proof fn every_reply_is_acted_on(history: Seq<MessageView>, reply: Seq<char>)
    ensures
        ({
            let (task, list) = after_reply(history, reply);
            &&& task.history == history.push(MessageView { role: "assistant"@, content: reply })
            &&& match (requested(reply, "[RUN:"@, "]"@), requested(reply, "[WEB_SEARCH:"@, "]"@)) {
                (Some(command), _) => task.next == (NextView::Run { command }) && list == seq![
                    EffectView::Notice {
                        kind: NoticeKind::Command,
                        text: "⚙️ Запуск команды: "@ + command,
                    },
                    EffectView::Broadcast {
                        event: EventView::ToolExecuting { tool_name: "run"@, arguments: command },
                    },
                ],
                (None, Some(query)) => task.next == (NextView::Search { query, reply }) && list
                    == seq![
                    EffectView::Notice {
                        kind: NoticeKind::Search,
                        text: "🔍 Ищу в интернете: "@ + query,
                    },
                    EffectView::Broadcast {
                        event: EventView::ToolExecuting {
                            tool_name: "web_search"@,
                            arguments: query,
                        },
                    },
                ],
                (None, None) => task.next is Stop && list.len() == 0,
            }
        }),
{
}

/// A request on a line of its own is read, whatever follows it and whatever
/// stands before it but another such request.
proof fn a_request_among_lines_is_read(
    before: Seq<char>,
    prefix: Seq<char>,
    argument: Seq<char>,
    after: Seq<char>,
)
    requires
        prefix == RUN_PREFIX@ || prefix == SEARCH_PREFIX@,
        before.len() > 0 ==> before.last() == '\n',
        requested(before, prefix, REQUEST_SUFFIX@) is None,
        after.len() > 0 ==> after.first() == '\n',
        trim(argument) == argument,
        !argument.contains('\n'),
    ensures
        requested(before + as_instructed(prefix, argument) + after, prefix, REQUEST_SUFFIX@)
            == Some(argument),
{
    reveal_strlit("[RUN:");
    reveal_strlit("[WEB_SEARCH:");
    reveal_strlit("]");
    an_instructed_request_is_one_line(prefix, argument);
    request_on_its_own_line_is_read(
        before,
        seq![' '] + argument,
        after,
        prefix,
        REQUEST_SUFFIX@,
    );
    trim_drops_a_leading_space(argument, ' ');
}

/// A command that a reply asks for on a line of its own is run, whatever lines
/// stand before it and after it, as long as none before it asks for a command.
pub proof fn a_command_among_other_lines_is_run(
    history: Seq<MessageView>,
    before: Seq<char>,
    command: Seq<char>,
    after: Seq<char>,
)
    requires
        before.len() > 0 ==> before.last() == '\n',
        requested(before, "[RUN:"@, "]"@) is None,
        after.len() > 0 ==> after.first() == '\n',
        trim(command) == command,
        !command.contains('\n'),
    ensures
        after_reply(history, before + ("[RUN: "@ + command + "]"@) + after).0.next == (
        NextView::Run { command }),
{
    reveal_strlit("[RUN: ");
    reveal_strlit("[RUN:");
    a_request_among_lines_is_read(before, RUN_PREFIX@, command, after);
    assert("[RUN: "@ + command + "]"@ =~= as_instructed(RUN_PREFIX@, command));
}

/// A search that a reply asks for on a line of its own is made, whatever lines
/// stand before it and after it, as long as no line asks for a command and none
/// before it asks for a search.
pub proof fn a_search_among_other_lines_is_made(
    history: Seq<MessageView>,
    before: Seq<char>,
    query: Seq<char>,
    after: Seq<char>,
)
    requires
        before.len() > 0 ==> before.last() == '\n',
        requested(before, "[WEB_SEARCH:"@, "]"@) is None,
        requested(before + ("[WEB_SEARCH: "@ + query + "]"@) + after, "[RUN:"@, "]"@) is None,
        after.len() > 0 ==> after.first() == '\n',
        trim(query) == query,
        !query.contains('\n'),
    ensures
        ({
            let reply = before + ("[WEB_SEARCH: "@ + query + "]"@) + after;
            after_reply(history, reply).0.next == (NextView::Search { query, reply })
        }),
{
    reveal_strlit("[WEB_SEARCH: ");
    reveal_strlit("[WEB_SEARCH:");
    a_request_among_lines_is_read(before, SEARCH_PREFIX@, query, after);
    assert("[WEB_SEARCH: "@ + query + "]"@ =~= as_instructed(SEARCH_PREFIX@, query));
}

/// The model is shown a tool's output whole where it has no more than three
/// thousand characters, and else its first and its last fifteen hundred, with a
/// remark between them.
pub proof fn output_is_shown_whole_or_by_its_ends(output: Seq<char>)
    ensures
        output.len() <= 3000 ==> shown(output) == output,
        output.len() > 3000 ==> {
            &&& shown(output).take(1500) == output.take(1500)
            &&& shown(output).skip(shown(output).len() - 1500) == output.skip(output.len() - 1500)
            &&& shown(output).subrange(1500, shown(output).len() - 1500)
                == "\n\n[... Вывод урезан для экономии контекста ...]\n\n"@
        },
{
    shortened_keeps_both_ends(output, 3000);
}

/// A task begins with the user's words at the end of the conversation, and by
/// asking the model.
pub proof fn a_task_begins_with_the_prompt(history: Seq<MessageView>, prompt: Seq<char>)
    ensures
        begun(history, prompt).history == history.push(
            MessageView { role: "user"@, content: prompt },
        ),
        begun(history, prompt).next is Ask,
{
}

/// The output of a command joins the conversation in one message of the tool,
/// under its heading; the front end is told the same, the terminal that it is
/// done, and the model is asked again.
pub proof fn a_command_comes_back(history: Seq<MessageView>, command: Seq<char>, output: Seq<char>)
    ensures
        ({
            let task = TaskView { history, next: NextView::Run { command } };
            let (after, list) = step(task, InputView::Output { text: output });
            &&& after.next is Ask
            &&& after.history == history.push(
                MessageView { role: "tool"@, content: "[TOOL OUTPUT]:\n"@ + shown(output) },
            )
            &&& list == seq![
                EffectView::Broadcast {
                    event: EventView::ToolResult { tool_name: "run"@, result: shown(output) },
                },
                EffectView::Notice {
                    kind: NoticeKind::Finished,
                    text: "--- Результат выполнен ---"@,
                },
            ]
        }),
{
}

/// The result of a search joins the conversation in a message of the user, under
/// its heading, behind the reply that asked for it; the front end is told the
/// same, the terminal that it is done, and the model is asked again.
pub proof fn a_search_comes_back(
    history: Seq<MessageView>,
    query: Seq<char>,
    reply: Seq<char>,
    result: Seq<char>,
)
    ensures
        ({
            let task = TaskView { history, next: NextView::Search { query, reply } };
            let (after, list) = step(task, InputView::Output { text: result });
            &&& after.next is Ask
            &&& after.history == history.push(
                MessageView { role: "assistant"@, content: reply },
            ).push(MessageView { role: "user"@, content: "[TOOL OUTPUT]:\n"@ + shown(result) })
            &&& list == seq![
                EffectView::Broadcast {
                    event: EventView::ToolResult { tool_name: "web_search"@, result: shown(result) },
                },
                EffectView::Notice {
                    kind: NoticeKind::Finished,
                    text: "--- Результаты поиска получены ---"@,
                },
            ]
        }),
{
}

/// Where the model could not be asked, the task is over, the conversation is as
/// it was, and the reason is told.
pub proof fn a_failure_ends_the_task(history: Seq<MessageView>, error: Seq<char>)
    ensures
        ({
            let task = TaskView { history, next: NextView::Ask };
            let (after, list) = step(task, InputView::Failure { error });
            &&& after.next is Stop
            &&& after.history == history
            &&& list == seq![
                EffectView::Failure { text: "Ошибка при запросе к API: "@ + error },
            ]
            &&& after_failure(history, error) == (after, list)
        }),
{
}

/// What each step of a task comes to is what the step of the same name says.
pub proof fn steps_go_by_what_the_task_waits_for(
    history: Seq<MessageView>,
    command: Seq<char>,
    query: Seq<char>,
    reply: Seq<char>,
    text: Seq<char>,
)
    ensures
        step(TaskView { history, next: NextView::Ask }, InputView::Reply { text: reply })
            == after_reply(history, reply),
        step(
            TaskView { history, next: NextView::Run { command } },
            InputView::Output { text },
        ) == after_command(history, text),
        step(
            TaskView { history, next: NextView::Search { query, reply } },
            InputView::Output { text },
        ) == after_search(history, reply, text),
{
}

} // verus!

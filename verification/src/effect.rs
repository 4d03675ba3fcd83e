//! What the agent shows and sends while it works.

use vstd::prelude::*;
#[allow(unused_imports)]
use vstd::string::*;

use crate::frontend::FrontendEvent;
#[allow(unused_imports)]
use crate::frontend::EventView;

verus! {

/// What a notice on the terminal is about.
#[derive(Debug, Clone, Copy, PartialEq, Eq, Structural)]
pub enum NoticeKind {
    /// A command is about to run.
    Command,
    /// A search is about to begin.
    Search,
    /// A tool has finished.
    Finished,
}

/// Something that the agent does outside itself without waiting for a result.
#[derive(Debug)]
pub enum Effect {
    /// Show text on the terminal as it comes in.
    Print { text: String },
    /// Show a whole reply on the terminal, formatted.
    Render { text: String },
    /// Show a notice on a line of its own.
    Notice { kind: NoticeKind, text: String },
    /// Report a failure.
    Failure { text: String },
    /// Send an event to the front end, if there is one.
    Broadcast { event: FrontendEvent },
}

/// An effect as a mathematical value.
pub enum EffectView {
    Print { text: Seq<char> },
    Render { text: Seq<char> },
    Notice { kind: NoticeKind, text: Seq<char> },
    Failure { text: Seq<char> },
    Broadcast { event: EventView },
}

impl View for Effect {
    type V = EffectView;

    open spec fn view(&self) -> EffectView {
        match *self {
            Effect::Print { text } => EffectView::Print { text: text@ },
            Effect::Render { text } => EffectView::Render { text: text@ },
            Effect::Notice { kind, text } => EffectView::Notice { kind, text: text@ },
            Effect::Failure { text } => EffectView::Failure { text: text@ },
            Effect::Broadcast { event } => EffectView::Broadcast { event: event@ },
        }
    }
}

/// The effects of a list, in order.
pub open spec fn effects(list: Seq<Effect>) -> Seq<EffectView> {
    list.map_values(|e: Effect| e@)
}

/// An effect takes place unless it is meant for a front end and there is none.
pub open spec fn happens(effect: EffectView, listening: bool) -> bool {
    listening || !(effect is Broadcast)
}

/// The effects of a list that take place.
pub open spec fn carried_out(list: Seq<EffectView>, listening: bool) -> Seq<EffectView> {
    list.filter(|e: EffectView| happens(e, listening))
}

/// Tells whether an effect takes place; `listening` says whether there is a
/// front end.
pub fn takes_place(effect: &Effect, listening: bool) -> (r: bool)
    ensures
        r == happens(effect@, listening),
{
    match effect {
        Effect::Broadcast { event } => listening,
        _ => true,
    }
}

/// The text of the agent message that an effect broadcasts, if it does.
pub open spec fn broadcast_by(effect: EffectView) -> Seq<char> {
    match effect {
        EffectView::Broadcast { event: EventView::AgentMessage { content } } => content,
        _ => Seq::empty(),
    }
}

/// The text that an effect prints as it comes in, if it does.
pub open spec fn printed_by(effect: EffectView) -> Seq<char> {
    match effect {
        EffectView::Print { text } => text,
        _ => Seq::empty(),
    }
}

/// The text of all agent messages among the effects, joined.
pub open spec fn broadcast_text(list: Seq<EffectView>) -> Seq<char>
    decreases list.len(),
{
    if list.len() == 0 {
        Seq::empty()
    } else {
        broadcast_text(list.drop_last()) + broadcast_by(list.last())
    }
}

/// The text that the effects print as it comes in, joined.
pub open spec fn printed_text(list: Seq<EffectView>) -> Seq<char>
    decreases list.len(),
{
    if list.len() == 0 {
        Seq::empty()
    } else {
        printed_text(list.drop_last()) + printed_by(list.last())
    }
}

/// With a front end everything takes place.
pub proof fn all_is_carried_out(list: Seq<EffectView>)
    ensures
        carried_out(list, true) == list,
    decreases list.len(),
{
    reveal(Seq::filter);
    if list.len() > 0 {
        all_is_carried_out(list.drop_last());
        assert(list.drop_last().push(list.last()) =~= list);
    }
}

/// Without a front end nothing is broadcast.
pub proof fn nothing_is_broadcast_to_nobody(list: Seq<EffectView>)
    ensures
        forall|i: int|
            0 <= i < carried_out(list, false).len() ==> !(#[trigger] carried_out(list, false)[i]
                is Broadcast),
{
    let keep = |e: EffectView| happens(e, false);
    assert forall|i: int| 0 <= i < carried_out(list, false).len() implies !(#[trigger] carried_out(
        list,
        false,
    )[i] is Broadcast) by {
        list.lemma_filter_pred(keep, i);
    }
}

/// A single effect takes place or does not.
pub proof fn carried_out_singly(effect: EffectView, listening: bool)
    ensures
        carried_out(seq![effect], listening) == if happens(effect, listening) {
            seq![effect]
        } else {
            Seq::empty()
        },
{
    reveal_with_fuel(Seq::filter, 2);
    assert(seq![effect].drop_last() =~= Seq::<EffectView>::empty());
    assert(Seq::<EffectView>::empty().push(effect) =~= seq![effect]);
}

/// What takes place of joined lists is joined.
pub proof fn carried_out_in_turn(a: Seq<EffectView>, b: Seq<EffectView>, listening: bool)
    ensures
        carried_out(a + b, listening) == carried_out(a, listening) + carried_out(b, listening),
{
    Seq::filter_distributes_over_add(a, b, |e: EffectView| happens(e, listening));
}

/// A single effect broadcasts and prints its own text.
pub proof fn single_effect(effect: EffectView)
    ensures
        broadcast_text(seq![effect]) == broadcast_by(effect),
        printed_text(seq![effect]) == printed_by(effect),
{
    let list = seq![effect];
    let empty = Seq::<EffectView>::empty();
    assert(list.drop_last() =~= empty);
    assert(broadcast_text(empty) =~= Seq::<char>::empty());
    assert(printed_text(empty) =~= Seq::<char>::empty());
    assert(broadcast_text(list) =~= broadcast_by(effect));
    assert(printed_text(list) =~= printed_by(effect));
}

/// Joining lists of effects joins what they broadcast and what they print.
pub proof fn joined_effects(a: Seq<EffectView>, b: Seq<EffectView>)
    ensures
        broadcast_text(a + b) == broadcast_text(a) + broadcast_text(b),
        printed_text(a + b) == printed_text(a) + printed_text(b),
    decreases b.len(),
{
    if b.len() == 0 {
        assert(a + b =~= a);
        assert(broadcast_text(a) + broadcast_text(b) =~= broadcast_text(a));
        assert(printed_text(a) + printed_text(b) =~= printed_text(a));
    } else {
        joined_effects(a, b.drop_last());
        assert((a + b).drop_last() =~= a + b.drop_last());
        assert((a + b).last() == b.last());
        assert(broadcast_text(a + b) =~= broadcast_text(a) + broadcast_text(b));
        assert(printed_text(a + b) =~= printed_text(a) + printed_text(b));
    }
}

/// Whatever is not meant for a front end takes place with and without one; what
/// is meant for it takes place with one.
pub proof fn the_terminal_misses_nothing(effect: EffectView, listening: bool)
    ensures
        !(effect is Broadcast) ==> carried_out(seq![effect], listening) == seq![effect],
        effect is Broadcast ==> carried_out(seq![effect], true) == seq![effect],
        effect is Broadcast ==> carried_out(seq![effect], false).len() == 0,
        happens(effect, listening) <==> carried_out(seq![effect], listening).len() > 0,
{
    carried_out_singly(effect, listening);
    carried_out_singly(effect, true);
    carried_out_singly(effect, false);
}

/// Every effect stands in its list, in order.
pub proof fn effects_are_whole(list: Seq<Effect>)
    ensures
        effects(list).len() == list.len(),
        forall|i: int| 0 <= i < list.len() ==> #[trigger] effects(list)[i] == list[i]@,
{
}

} // verus!

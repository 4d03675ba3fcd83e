//! Collecting a reply that the model streams, while it is printed and passed
//! on to the front end in larger parts.

use vstd::prelude::*;
use vstd::string::*;
#[allow(unused_imports)]
use vstd::utf8::*;

use crate::conversation::StreamChunk;
#[allow(unused_imports)]
use crate::conversation::{ChunkView, MessageView};
use crate::effect::Effect;
#[allow(unused_imports)]
use crate::effect::{broadcast_text, carried_out, carried_out_in_turn, carried_out_singly, effects, joined_effects, printed_text, single_effect, EffectView};
use crate::frontend::FrontendEvent;
#[allow(unused_imports)]
use crate::frontend::EventView;
use crate::outside::utf8_string;
use crate::text::{chars_of, lines_of, position_of, trimmed};
#[allow(unused_imports)]
use crate::text::{byte_len, lines, texts, trim};
#[allow(unused_imports)]
use crate::text_laws::{first_index_is_first, lines_are_cut_at_line_feeds, lines_have_no_line_feed, lines_of_joined_text, trim_is_final};

verus! {

/// The number of bytes from which on held-back text is passed on.
pub const PART_BYTES: usize = 120;

/// The records in a piece of a streamed reply: its lines, without the white
/// space round them and without the empty ones.
pub open spec fn record_lines(text: Seq<char>) -> Seq<Seq<char>> {
    lines(text).map_values(|line: Seq<char>| trim(line)).filter(|line: Seq<char>| line.len() > 0)
}

/// The records in a packet of bytes; none where the packet is not UTF-8.
pub open spec fn packet_records(packet: Seq<u8>) -> Seq<Seq<char>> {
    if valid_utf8(packet) {
        record_lines(decode_utf8(packet))
    } else {
        Seq::empty()
    }
}

/// Splits a packet into the records that are to be decoded.
pub fn packet_lines(packet: Vec<u8>) -> (r: Vec<String>)
    ensures
        texts(r@) == packet_records(packet@),
{
    let mut out: Vec<String> = Vec::new();
    let text: String = match utf8_string(packet) {
        Some(text) => text,
        None => {
            proof {
                assert(texts(out@) =~= Seq::<Seq<char>>::empty());
            }
            return out;
        },
    };
    let all: Vec<String> = lines_of(text.as_str());
    let ghost tight = lines(text@).map_values(|line: Seq<char>| trim(line));
    let ghost keep = |line: Seq<char>| line.len() > 0;
    let mut i: usize = 0;
    proof {
        reveal(Seq::filter);
        assert(tight.take(0) =~= Seq::<Seq<char>>::empty());
        assert(texts(out@) =~= tight.take(0).filter(keep));
    }
    while i < all.len()
        invariant
            i <= all.len(),
            texts(all@) == lines(text@),
            tight == lines(text@).map_values(|line: Seq<char>| trim(line)),
            keep == (|line: Seq<char>| line.len() > 0),
            texts(out@) == tight.take(i as int).filter(keep),
        decreases all.len() - i,
    {
        let line: &str = trimmed(all[i].as_str());
        let ghost before = texts(out@);
        proof {
            reveal(Seq::filter);
            assert(texts(all@)[i as int] == all@[i as int]@);
            assert(tight[i as int] == line@);
            assert(tight.take(i + 1).drop_last() =~= tight.take(i as int));
            assert(tight.take(i + 1).last() == line@);
        }
        if !line.is_empty() {
            out.push(line.to_owned());
            proof {
                assert(texts(out@) =~= before.push(line@));
            }
        }
        i = i + 1;
    }
    proof {
        assert(tight.take(i as int) =~= tight);
    }
    out
}

/// A reply in the course of being collected.
pub struct CollectorView {
    /// All text so far.
    pub full: Seq<char>,
    /// The text that has not been passed on.
    pub pending: Seq<char>,
    /// Whether there is a front end to pass text on to.
    pub listening: bool,
}

pub open spec fn ends_a_sentence(text: Seq<char>) -> bool {
    text.len() > 0 && (text.last() == '.' || text.last() == '!' || text.last() == '?')
}

/// Held-back text is passed on when it is long, when it ends a sentence, or
/// when what came last has a line feed in it.
pub open spec fn is_ripe(pending: Seq<char>, content: Seq<char>) -> bool {
    byte_len(pending) >= PART_BYTES || ends_a_sentence(pending) || content.contains('\n')
}

pub open spec fn agent_message(content: Seq<char>) -> EffectView {
    EffectView::Broadcast { event: EventView::AgentMessage { content } }
}

/// The effect of one piece of text.
pub open spec fn after_content(state: CollectorView, content: Seq<char>) -> (
    CollectorView,
    Seq<EffectView>,
) {
    let full = state.full + content;
    let pending = state.pending + content;
    let print = EffectView::Print { text: content };
    if state.listening && is_ripe(pending, content) {
        (
            CollectorView { full, pending: Seq::empty(), listening: true },
            seq![print, agent_message(pending)],
        )
    } else {
        (CollectorView { full, pending, listening: state.listening }, seq![print])
    }
}

/// The effect of one record.
pub open spec fn after_chunk(state: CollectorView, chunk: ChunkView) -> (
    CollectorView,
    Seq<EffectView>,
) {
    match chunk.message {
        Some(message) => after_content(state, message.content),
        None => (state, Seq::empty()),
    }
}

/// The effect of the records of one packet, `None` standing for a record that
/// could not be decoded. What follows a record that says it is the last is
/// passed over.
pub open spec fn after_packet(state: CollectorView, chunks: Seq<Option<ChunkView>>) -> (
    CollectorView,
    Seq<EffectView>,
)
    decreases chunks.len(),
{
    if chunks.len() == 0 {
        (state, Seq::empty())
    } else {
        match chunks.first() {
            None => after_packet(state, chunks.drop_first()),
            Some(chunk) => {
                let (next, first) = after_chunk(state, chunk);
                if chunk.done == Some(true) {
                    (next, first)
                } else {
                    let (last, rest) = after_packet(next, chunks.drop_first());
                    (last, first + rest)
                }
            },
        }
    }
}

/// What is done when the stream has ended: what was held back is passed on, and
/// the whole reply is shown.
pub open spec fn at_end(state: CollectorView) -> Seq<EffectView> {
    let render = EffectView::Render { text: state.full };
    if state.listening && state.pending.len() > 0 {
        seq![agent_message(state.pending), render]
    } else {
        seq![render]
    }
}

/// The decoded records as mathematical values.
pub open spec fn chunk_views(chunks: Seq<Option<StreamChunk>>) -> Seq<Option<ChunkView>> {
    chunks.map_values(
        |c: Option<StreamChunk>|
            match c {
                Some(chunk) => Some(chunk@),
                None => None,
            },
    )
}

/// Collects a streamed reply.
#[derive(Debug)]
pub struct StreamCollector {
    full: String,
    pending: String,
    listening: bool,
}

impl View for StreamCollector {
    type V = CollectorView;

    closed spec fn view(&self) -> CollectorView {
        CollectorView { full: self.full@, pending: self.pending@, listening: self.listening }
    }
}

impl StreamCollector {
    /// A collector with nothing in it; `listening` says whether there is a
    /// front end.
    pub fn new(listening: bool) -> (r: Self)
        ensures
            r@ == (CollectorView { full: Seq::empty(), pending: Seq::empty(), listening }),
    {
        StreamCollector { full: String::new(), pending: String::new(), listening }
    }

    /// Takes in one piece of text.
    fn take_content(&mut self, content: &str, out: &mut Vec<Effect>)
        ensures
            final(self)@ == after_content(old(self)@, content@).0,
            effects(final(out)@) == effects(old(out)@) + after_content(old(self)@, content@).1,
    {
        let ghost start = self@;
        let ghost listed = effects(out@);
        out.push(Effect::Print { text: content.to_owned() });
        self.full.append(content);
        self.pending.append(content);
        proof {
            assert(effects(out@) =~= listed.push(EffectView::Print { text: content@ }));
        }
        if self.listening && ripe(self.pending.as_str(), content) {
            let part: String = self.pending.clone();
            self.pending = String::new();
            out.push(Effect::Broadcast { event: FrontendEvent::AgentMessage { content: part } });
            proof {
                assert(effects(out@) =~= listed + after_content(start, content@).1);
            }
        } else {
            proof {
                assert(effects(out@) =~= listed + after_content(start, content@).1);
            }
        }
    }

    /// Takes in the records of one packet, in order.
    pub fn take_packet(&mut self, chunks: &Vec<Option<StreamChunk>>) -> (out: Vec<Effect>)
        ensures
            final(self)@ == after_packet(old(self)@, chunk_views(chunks@)).0,
            effects(out@) == after_packet(old(self)@, chunk_views(chunks@)).1,
    {
        let mut out: Vec<Effect> = Vec::new();
        let ghost views = chunk_views(chunks@);
        let ghost goal = after_packet(self@, views);
        let mut i: usize = 0;
        proof {
            assert(views.skip(0) =~= views);
            assert(effects(out@) + goal.1 =~= goal.1);
        }
        while i < chunks.len()
            invariant
                i <= chunks.len(),
                views == chunk_views(chunks@),
                goal == after_packet(old(self)@, views),
                goal.0 == after_packet(self@, views.skip(i as int)).0,
                goal.1 == effects(out@) + after_packet(self@, views.skip(i as int)).1,
            decreases chunks.len() - i,
        {
            let ghost state = self@;
            let ghost listed = effects(out@);
            let ghost rest = views.skip(i as int);
            proof {
                assert(rest.first() == views[i as int]);
                assert(rest.drop_first() =~= views.skip(i + 1));
            }
            match &chunks[i] {
                Some(chunk) => {
                    proof {
                        assert(rest.first() == Some(chunk@));
                    }
                    match &chunk.message {
                        Some(message) => {
                            self.take_content(message.content.as_str(), &mut out);
                        },
                        None => {
                            proof {
                                assert(listed + Seq::<EffectView>::empty() =~= listed);
                            }
                        },
                    }
                    let last: bool = match chunk.done {
                        Some(done) => done,
                        None => false,
                    };
                    if last {
                        return out;
                    }
                    proof {
                        let (next, first) = after_chunk(state, chunk@);
                        let tail = after_packet(next, rest.drop_first());
                        assert(listed + (first + tail.1) =~= (listed + first) + tail.1);
                    }
                },
                None => {},
            }
            i = i + 1;
        }
        proof {
            assert(views.skip(i as int) =~= Seq::<Option<ChunkView>>::empty());
            assert(effects(out@) + Seq::<EffectView>::empty() =~= effects(out@));
        }
        out
    }

    /// Ends the collection. Returns what is left to do, and the whole reply.
    pub fn finish(self) -> (r: (Vec<Effect>, String))
        ensures
            effects(r.0@) == at_end(self@),
            r.1@ == self@.full,
    {
        let mut out: Vec<Effect> = Vec::new();
        let ghost state = self@;
        let full: String = self.full;
        if self.listening && !self.pending.as_str().is_empty() {
            out.push(
                Effect::Broadcast { event: FrontendEvent::AgentMessage { content: self.pending } },
            );
        }
        out.push(Effect::Render { text: full.clone() });
        proof {
            assert(effects(out@) =~= at_end(state));
        }
        (out, full)
    }
}

/// Tells whether held-back text is to be passed on.
fn ripe(pending: &str, content: &str) -> (r: bool)
    ensures
        r == is_ripe(pending@, content@),
{
    if pending.as_bytes().len() >= PART_BYTES {
        return true;
    }
    let held: Vec<char> = chars_of(pending);
    let n: usize = held.len();
    if n > 0 {
        let last: char = held[n - 1];
        if last == '.' || last == '!' || last == '?' {
            return true;
        }
    }
    let fresh: Vec<char> = chars_of(content);
    let at: usize = position_of(&fresh, 0, '\n');
    proof {
        assert(fresh@.skip(0) =~= fresh@);
        first_index_is_first(content@, '\n');
    }
    at < fresh.len()
}

/// The effect of all packets of a reply, in order.
pub open spec fn after_packets(
    state: CollectorView,
    packets: Seq<Seq<Option<ChunkView>>>,
) -> (CollectorView, Seq<EffectView>)
    decreases packets.len(),
{
    if packets.len() == 0 {
        (state, Seq::empty())
    } else {
        let (before, done) = after_packets(state, packets.drop_last());
        let (end, last) = after_packet(before, packets.last());
        (end, done + last)
    }
}

/// The text in the records of one packet, up to the one that says it is the
/// last.
pub open spec fn packet_text(chunks: Seq<Option<ChunkView>>) -> Seq<char>
    decreases chunks.len(),
{
    if chunks.len() == 0 {
        Seq::empty()
    } else {
        match chunks.first() {
            None => packet_text(chunks.drop_first()),
            Some(chunk) => {
                let own = match chunk.message {
                    Some(message) => message.content,
                    None => Seq::empty(),
                };
                if chunk.done == Some(true) {
                    own
                } else {
                    own + packet_text(chunks.drop_first())
                }
            },
        }
    }
}

/// The text in all packets of a reply.
pub open spec fn reply_text(packets: Seq<Seq<Option<ChunkView>>>) -> Seq<char>
    decreases packets.len(),
{
    if packets.len() == 0 {
        Seq::empty()
    } else {
        reply_text(packets.drop_last()) + packet_text(packets.last())
    }
}

/// The state of a collector before the first packet.
pub open spec fn nothing_collected(listening: bool) -> CollectorView {
    CollectorView { full: Seq::empty(), pending: Seq::empty(), listening }
}

/// What one packet adds: `part` to what is collected and printed, and to what
/// is broadcast and held back together.
pub open spec fn adds(
    state: CollectorView,
    part: Seq<char>,
    next: CollectorView,
    list: Seq<EffectView>,
) -> bool {
    &&& next.listening == state.listening
    &&& next.full == state.full + part
    &&& printed_text(list) == part
    &&& broadcast_text(list) + next.pending == state.pending + part
    &&& !state.listening ==> forall|i: int| 0 <= i < list.len() ==> #[trigger] list[i] is Print
    &&& forall|i: int| 0 <= i < list.len() ==> #[trigger] list[i] != agent_message(Seq::empty())
}

proof fn added_in_turn(
    a: CollectorView,
    p: Seq<char>,
    b: CollectorView,
    l: Seq<EffectView>,
    q: Seq<char>,
    c: CollectorView,
    m: Seq<EffectView>,
)
    requires
        adds(a, p, b, l),
        adds(b, q, c, m),
    ensures
        adds(a, p + q, c, l + m),
{
    joined_effects(l, m);
    assert(a.full + p + q =~= a.full + (p + q));
    assert((broadcast_text(l) + broadcast_text(m)) + c.pending =~= broadcast_text(l) + (
    broadcast_text(m) + c.pending));
    assert(broadcast_text(l) + (b.pending + q) =~= (broadcast_text(l) + b.pending) + q);
    assert(a.pending + p + q =~= a.pending + (p + q));
    assert forall|i: int| 0 <= i < (l + m).len() implies #[trigger] (l + m)[i] != agent_message(
        Seq::empty(),
    ) by {
        if i < l.len() {
            assert((l + m)[i] == l[i]);
        } else {
            assert((l + m)[i] == m[i - l.len()]);
        }
    }
    if !a.listening {
        assert forall|i: int| 0 <= i < (l + m).len() implies #[trigger] (l + m)[i] is Print by {
            if i < l.len() {
                assert((l + m)[i] == l[i]);
            } else {
                assert((l + m)[i] == m[i - l.len()]);
            }
        }
    }
}

proof fn nothing_added(state: CollectorView)
    ensures
        adds(state, Seq::empty(), state, Seq::empty()),
{
    assert(state.full + Seq::<char>::empty() =~= state.full);
    assert(Seq::<char>::empty() + state.pending =~= state.pending + Seq::<char>::empty());
}

proof fn added_by_content(state: CollectorView, content: Seq<char>)
    ensures
        adds(
            state,
            content,
            after_content(state, content).0,
            after_content(state, content).1,
        ),
{
    let (next, list) = after_content(state, content);
    let print = EffectView::Print { text: content };
    let one = seq![print];
    single_effect(print);
    let pending = state.pending + content;
    if state.listening && is_ripe(pending, content) {
        if pending.len() == 0 {
            assert(byte_len(pending) == 0);
            assert(content.len() == 0);
        }
        assert(pending.len() > 0);
        assert(list.drop_last() =~= one);
        assert(printed_text(list) =~= content);
        assert(broadcast_text(list) =~= pending);
        assert(broadcast_text(list) + next.pending =~= pending);
    } else {
        assert(broadcast_text(list) + next.pending =~= pending);
    }
}

proof fn added_by_packet(state: CollectorView, chunks: Seq<Option<ChunkView>>)
    ensures
        adds(
            state,
            packet_text(chunks),
            after_packet(state, chunks).0,
            after_packet(state, chunks).1,
        ),
    decreases chunks.len(),
{
    nothing_added(state);
    if chunks.len() > 0 {
        let rest = chunks.drop_first();
        match chunks.first() {
            None => {
                added_by_packet(state, rest);
            },
            Some(chunk) => {
                let (next, first) = after_chunk(state, chunk);
                let own = match chunk.message {
                    Some(message) => message.content,
                    None => Seq::empty(),
                };
                if chunk.message is Some {
                    added_by_content(state, own);
                }
                assert(adds(state, own, next, first));
                if chunk.done != Some(true) {
                    added_by_packet(next, rest);
                    let (last, list) = after_packet(next, rest);
                    added_in_turn(state, own, next, first, packet_text(rest), last, list);
                }
            },
        }
    }
}

proof fn added_by_packets(state: CollectorView, packets: Seq<Seq<Option<ChunkView>>>)
    ensures
        adds(
            state,
            reply_text(packets),
            after_packets(state, packets).0,
            after_packets(state, packets).1,
        ),
    decreases packets.len(),
{
    nothing_added(state);
    if packets.len() > 0 {
        let earlier = packets.drop_last();
        added_by_packets(state, earlier);
        let (before, done) = after_packets(state, earlier);
        added_by_packet(before, packets.last());
        let (end, list) = after_packet(before, packets.last());
        added_in_turn(
            state,
            reply_text(earlier),
            before,
            done,
            packet_text(packets.last()),
            end,
            list,
        );
    }
}

/// However a reply is cut into packets, what is collected is the text of its
/// records in order, and the same text is printed as it comes in.
pub proof fn the_reply_is_collected_and_printed(
    listening: bool,
    packets: Seq<Seq<Option<ChunkView>>>,
)
    ensures
        ({
            let (end, list) = after_packets(nothing_collected(listening), packets);
            &&& end.full == reply_text(packets)
            &&& printed_text(list) == reply_text(packets)
        }),
{
    added_by_packets(nothing_collected(listening), packets);
    assert(Seq::<char>::empty() + reply_text(packets) =~= reply_text(packets));
}

/// The front end gets the whole reply: the messages that are broadcast while
/// it comes in and at its end, joined, are the reply that was collected. None
/// of them is empty.
pub proof fn the_front_end_gets_the_whole_reply(packets: Seq<Seq<Option<ChunkView>>>)
    ensures
        ({
            let (end, list) = after_packets(nothing_collected(true), packets);
            let all = list + at_end(end);
            &&& broadcast_text(all) == reply_text(packets)
            &&& forall|i: int|
                0 <= i < all.len() ==> #[trigger] all[i] != agent_message(Seq::empty())
        }),
{
    let start = nothing_collected(true);
    added_by_packets(start, packets);
    let (end, list) = after_packets(start, packets);
    let tail = at_end(end);
    let all = list + tail;
    let render = EffectView::Render { text: end.full };
    joined_effects(list, tail);
    assert(Seq::<char>::empty() + reply_text(packets) =~= reply_text(packets));
    single_effect(render);
    if end.pending.len() > 0 {
        let part = agent_message(end.pending);
        assert(tail.drop_last() =~= seq![part]);
        single_effect(part);
        assert(broadcast_text(tail) =~= end.pending);
    } else {
        assert(end.pending =~= Seq::<char>::empty());
    }
    assert(broadcast_text(tail) == end.pending);
    assert forall|i: int| 0 <= i < all.len() implies #[trigger] all[i] != agent_message(
        Seq::empty(),
    ) by {
        if i < list.len() {
            assert(all[i] == list[i]);
        } else {
            assert(all[i] == tail[i - list.len()]);
        }
    }
}

/// What can be held back while there is a front end: a short text without a
/// line feed that does not end a sentence.
pub open spec fn can_wait(pending: Seq<char>) -> bool {
    byte_len(pending) < PART_BYTES && !ends_a_sentence(pending) && !pending.contains('\n')
}

proof fn content_leaves_little(state: CollectorView, content: Seq<char>)
    requires
        state.listening ==> can_wait(state.pending),
    ensures
        after_content(state, content).0.listening == state.listening,
        state.listening ==> can_wait(after_content(state, content).0.pending),
{
    let pending = state.pending + content;
    if pending.contains('\n') && !content.contains('\n') {
        let i = choose|i: int| 0 <= i < pending.len() && pending[i] == '\n';
        if i < state.pending.len() {
            assert(state.pending[i] == '\n');
        } else {
            assert(content[i - state.pending.len()] == '\n');
        }
    }
    assert(byte_len(Seq::<char>::empty()) == 0);
}

proof fn packet_leaves_little(state: CollectorView, chunks: Seq<Option<ChunkView>>)
    requires
        state.listening ==> can_wait(state.pending),
    ensures
        after_packet(state, chunks).0.listening == state.listening,
        state.listening ==> can_wait(after_packet(state, chunks).0.pending),
    decreases chunks.len(),
{
    if chunks.len() > 0 {
        let rest = chunks.drop_first();
        match chunks.first() {
            None => {
                packet_leaves_little(state, rest);
            },
            Some(chunk) => {
                if let Some(message) = chunk.message {
                    content_leaves_little(state, message.content);
                }
                if chunk.done != Some(true) {
                    packet_leaves_little(after_chunk(state, chunk).0, rest);
                }
            },
        }
    }
}

/// Whatever has come in, little is held back from the front end: a short text
/// without a line feed that does not end a sentence.
pub proof fn little_is_held_back(packets: Seq<Seq<Option<ChunkView>>>)
    ensures
        after_packets(nothing_collected(true), packets).0.listening,
        can_wait(after_packets(nothing_collected(true), packets).0.pending),
    decreases packets.len(),
{
    if packets.len() == 0 {
        assert(byte_len(Seq::<char>::empty()) == 0);
    } else {
        little_is_held_back(packets.drop_last());
        packet_leaves_little(
            after_packets(nothing_collected(true), packets.drop_last()).0,
            packets.last(),
        );
    }
}

/// Every record that is to be decoded is one line, not empty, without white
/// space at either end.
pub proof fn records_are_single_lines(packet: Seq<u8>)
    ensures
        forall|i: int|
            #![trigger packet_records(packet)[i]]
            0 <= i < packet_records(packet).len() ==> {
                let record = packet_records(packet)[i];
                record.len() > 0 && trim(record) == record && !record.contains('\n')
            },
{
    if valid_utf8(packet) {
        let all = lines(decode_utf8(packet));
        let tight = all.map_values(|line: Seq<char>| trim(line));
        let keep = |line: Seq<char>| line.len() > 0;
        lines_have_no_line_feed(decode_utf8(packet));
        assert forall|i: int|
            #![trigger packet_records(packet)[i]]
            0 <= i < packet_records(packet).len() implies {
            let record = packet_records(packet)[i];
            record.len() > 0 && trim(record) == record && !record.contains('\n')
        } by {
            let record = packet_records(packet)[i];
            tight.lemma_filter_pred(keep, i);
            assert(keep(record));
            assert(tight.filter(keep).contains(record));
            tight.lemma_filter_contains_rev(keep, record);
            let k = choose|k: int| 0 <= k < tight.len() && tight[k] == record;
            trim_is_final(all[k]);
        }
    }
}

/// Two collectors with the same text, of which only the first has a front end.
pub open spec fn differ_in_front_end(a: CollectorView, b: CollectorView) -> bool {
    a.full == b.full && a.listening && !b.listening
}

proof fn content_looks_alike(a: CollectorView, b: CollectorView, content: Seq<char>)
    requires
        differ_in_front_end(a, b),
    ensures
        differ_in_front_end(after_content(a, content).0, after_content(b, content).0),
        carried_out(after_content(a, content).1, false) == carried_out(
            after_content(b, content).1,
            false,
        ),
{
    let print = EffectView::Print { text: content };
    let part = agent_message(a.pending + content);
    let list = after_content(a, content).1;
    let one = seq![print];
    let other = seq![part];
    carried_out_singly(print, false);
    assert(after_content(b, content).1 == one);
    if is_ripe(a.pending + content, content) {
        assert(list =~= one + other);
        carried_out_singly(part, false);
        carried_out_in_turn(one, other, false);
        assert(one + carried_out(other, false) =~= one);
    } else {
        assert(list == one);
    }
}

proof fn packet_looks_alike(a: CollectorView, b: CollectorView, chunks: Seq<Option<ChunkView>>)
    requires
        differ_in_front_end(a, b),
    ensures
        differ_in_front_end(after_packet(a, chunks).0, after_packet(b, chunks).0),
        carried_out(after_packet(a, chunks).1, false) == carried_out(
            after_packet(b, chunks).1,
            false,
        ),
    decreases chunks.len(),
{
    if chunks.len() > 0 {
        let rest = chunks.drop_first();
        match chunks.first() {
            None => {
                packet_looks_alike(a, b, rest);
            },
            Some(chunk) => {
                if let Some(message) = chunk.message {
                    content_looks_alike(a, b, message.content);
                }
                if chunk.done != Some(true) {
                    let (x, first) = after_chunk(a, chunk);
                    let (y, second) = after_chunk(b, chunk);
                    packet_looks_alike(x, y, rest);
                    carried_out_in_turn(first, after_packet(x, rest).1, false);
                    carried_out_in_turn(second, after_packet(y, rest).1, false);
                }
            },
        }
    }
}

proof fn packets_look_alike(packets: Seq<Seq<Option<ChunkView>>>)
    ensures
        differ_in_front_end(
            after_packets(nothing_collected(true), packets).0,
            after_packets(nothing_collected(false), packets).0,
        ),
        carried_out(after_packets(nothing_collected(true), packets).1, false) == carried_out(
            after_packets(nothing_collected(false), packets).1,
            false,
        ),
    decreases packets.len(),
{
    if packets.len() > 0 {
        let earlier = packets.drop_last();
        packets_look_alike(earlier);
        let (a, x) = after_packets(nothing_collected(true), earlier);
        let (b, y) = after_packets(nothing_collected(false), earlier);
        packet_looks_alike(a, b, packets.last());
        carried_out_in_turn(x, after_packet(a, packets.last()).1, false);
        carried_out_in_turn(y, after_packet(b, packets.last()).1, false);
    }
}

proof fn the_end_looks_alike(a: CollectorView, b: CollectorView)
    requires
        differ_in_front_end(a, b),
    ensures
        carried_out(at_end(a), false) == carried_out(at_end(b), false),
{
    let render = EffectView::Render { text: a.full };
    let part = agent_message(a.pending);
    let one = seq![part];
    let other = seq![render];
    carried_out_singly(render, false);
    assert(at_end(b) == other);
    if a.pending.len() > 0 {
        assert(at_end(a) =~= one + other);
        carried_out_singly(part, false);
        carried_out_in_turn(one, other, false);
        assert(carried_out(one, false) + other =~= other);
    } else {
        assert(at_end(a) == other);
    }
}

/// Whether there is a front end makes no difference to the reply that is
/// collected, nor to what the terminal shows while it comes in and at its end.
pub proof fn the_front_end_does_not_change_the_reply(packets: Seq<Seq<Option<ChunkView>>>)
    ensures
        ({
            let (a, x) = after_packets(nothing_collected(true), packets);
            let (b, y) = after_packets(nothing_collected(false), packets);
            &&& differ_in_front_end(a, b)
            &&& carried_out(x, false) == carried_out(y, false)
            &&& carried_out(x + at_end(a), false) == carried_out(y + at_end(b), false)
        }),
{
    let (a, x) = after_packets(nothing_collected(true), packets);
    let (b, y) = after_packets(nothing_collected(false), packets);
    packets_look_alike(packets);
    the_end_looks_alike(a, b);
    carried_out_in_turn(x, at_end(a), false);
    carried_out_in_turn(y, at_end(b), false);
}

/// Without a front end nothing is broadcast.
pub proof fn nobody_listens_nothing_is_sent(packets: Seq<Seq<Option<ChunkView>>>)
    ensures
        ({
            let (end, list) = after_packets(nothing_collected(false), packets);
            let all = list + at_end(end);
            forall|i: int| 0 <= i < all.len() ==> !(#[trigger] all[i] is Broadcast)
        }),
{
    added_by_packets(nothing_collected(false), packets);
    let (end, list) = after_packets(nothing_collected(false), packets);
    let all = list + at_end(end);
    assert forall|i: int| 0 <= i < all.len() implies !(#[trigger] all[i] is Broadcast) by {
        if i < list.len() {
            assert(all[i] == list[i]);
        }
    }
}

/// No record is lost, however long it is: a packet that holds one line gives
/// that line, without the white space round it, unless nothing is left of it;
/// and where a text ends in a line feed, the records of what follows it come
/// after its own, none left out and none added.
pub proof fn no_record_is_lost(line: Seq<char>, a: Seq<char>, b: Seq<char>)
    requires
        !line.contains('\n'),
        a.len() > 0 ==> a.last() == '\n',
    ensures
        packet_records(encode_utf8(line)) == if trim(line).len() > 0 {
            seq![trim(line)]
        } else {
            Seq::empty()
        },
        packet_records(encode_utf8(line + seq!['\n'])) == if trim(line).len() > 0 {
            seq![trim(line)]
        } else {
            Seq::empty()
        },
        packet_records(encode_utf8(a + b)) == packet_records(encode_utf8(a)) + packet_records(
            encode_utf8(b),
        ),
{
    let tight = |l: Seq<char>| trim(l);
    let keep = |l: Seq<char>| l.len() > 0;
    encode_utf8_valid_utf8(line);
    encode_utf8_decode_utf8(line);
    encode_utf8_valid_utf8(line + seq!['\n']);
    encode_utf8_decode_utf8(line + seq!['\n']);
    encode_utf8_valid_utf8(a);
    encode_utf8_decode_utf8(a);
    encode_utf8_valid_utf8(b);
    encode_utf8_decode_utf8(b);
    encode_utf8_valid_utf8(a + b);
    encode_utf8_decode_utf8(a + b);
    one_line_gives_one_record(line);
    lines_of_joined_text(a, b);
    assert((lines(a) + lines(b)).map_values(tight) =~= lines(a).map_values(tight) + lines(
        b,
    ).map_values(tight));
    Seq::filter_distributes_over_add(
        lines(a).map_values(tight),
        lines(b).map_values(tight),
        keep,
    );
}

proof fn one_line_gives_one_record(line: Seq<char>)
    requires
        !line.contains('\n'),
    ensures
        record_lines(line) == if trim(line).len() > 0 {
            seq![trim(line)]
        } else {
            Seq::empty()
        },
        record_lines(line + seq!['\n']) == record_lines(line),
{
    reveal_with_fuel(Seq::filter, 2);
    let tight = |l: Seq<char>| trim(l);
    let keep = |l: Seq<char>| l.len() > 0;
    let empty = Seq::<char>::empty();
    lines_are_cut_at_line_feeds(line, empty);
    lines_are_cut_at_line_feeds(empty, empty);
    let broken = line + seq!['\n'];
    assert(broken + empty =~= broken);
    let first = lines(broken).first();
    assert(lines(broken) =~= seq![first]);
    if line.len() > 0 && line.last() == '\r' {
        return_is_trimmed(line);
    }
    assert(trim(first) == trim(line));
    let one = seq![trim(line)];
    assert(lines(broken).map_values(tight) =~= one);
    assert(one.drop_last() =~= Seq::<Seq<char>>::empty());
    assert(Seq::<Seq<char>>::empty().push(trim(line)) =~= one);
    if line.len() > 0 {
        assert(lines(line).map_values(tight) =~= one);
    } else {
        assert(lines(line) =~= Seq::<Seq<char>>::empty());
        assert(lines(line).map_values(tight) =~= Seq::<Seq<char>>::empty());
        assert(trim(line).len() == 0);
    }
}

proof fn return_is_trimmed(line: Seq<char>)
    requires
        line.len() > 0,
        line.last() == '\r',
    ensures
        trim(line.drop_last()) == trim(line),
    decreases line.len(),
{
    let shorter = line.drop_last();
    if shorter.len() == 0 {
        assert(line.drop_first() =~= shorter);
        assert(crate::text::trim_start(line) == crate::text::trim_start(shorter));
    } else if crate::text::is_white_space(line.first()) {
        let rest = line.drop_first();
        assert(rest.last() == '\r');
        assert(rest.drop_last() =~= shorter.drop_first());
        assert(shorter.first() == line.first());
        return_is_trimmed(rest);
    } else {
        assert(shorter.first() == line.first());
        assert(crate::text::trim_start(line) == line);
        assert(crate::text::trim_start(shorter) == shorter);
    }
}

/// A packet that is UTF-8 is the encoding of the text that it holds; one that
/// is not gives nothing.
pub proof fn packets_hold_text_or_nothing(packet: Seq<u8>)
    ensures
        valid_utf8(packet) ==> packet == encode_utf8(decode_utf8(packet)),
        !valid_utf8(packet) ==> packet_records(packet).len() == 0,
{
    if valid_utf8(packet) {
        decode_utf8_encode_utf8(packet);
    }
}

/// A record adds its text, whole, to what is collected, whether or not it says
/// that it is the last; a record without a message adds nothing, and neither
/// does one that could not be decoded.
pub proof fn a_record_adds_its_text(state: CollectorView, message: MessageView, done: Option<bool>)
    ensures
        ({
            let chunk = Some(ChunkView { message: Some(message), done });
            let (next, list) = after_packet(state, seq![chunk]);
            &&& next.full == state.full + message.content
            &&& next.listening == state.listening
            &&& printed_text(list) == message.content
            &&& broadcast_text(list) + next.pending == state.pending + message.content
        }),
        ({
            let chunk = Some(ChunkView { message: None, done });
            after_packet(state, seq![chunk]) == (state, Seq::<EffectView>::empty())
        }),
        after_packet(state, seq![None]) == (state, Seq::<EffectView>::empty()),
{
    reveal_with_fuel(after_packet, 2);
    let none = Seq::<Option<ChunkView>>::empty();
    let chunk = Some(ChunkView { message: Some(message), done });
    let silent = Some(ChunkView { message: None, done });
    assert(seq![chunk].drop_first() =~= none);
    assert(seq![silent].drop_first() =~= none);
    assert(seq![None::<ChunkView>].drop_first() =~= none);
    added_by_content(state, message.content);
    let (next, list) = after_content(state, message.content);
    assert(list + Seq::<EffectView>::empty() =~= list);
    assert(Seq::<EffectView>::empty() + Seq::<EffectView>::empty() =~= Seq::<EffectView>::empty());
}

/// A record that says it is the last is the last of its packet: what follows it
/// there makes no difference.
pub proof fn nothing_follows_the_last_record(
    state: CollectorView,
    before: Seq<Option<ChunkView>>,
    last: ChunkView,
    rest: Seq<Option<ChunkView>>,
)
    requires
        last.done == Some(true),
    ensures
        after_packet(state, before.push(Some(last)) + rest) == after_packet(
            state,
            before.push(Some(last)),
        ),
    decreases before.len(),
{
    let short = before.push(Some(last));
    let long = short + rest;
    assert(long.first() == short.first());
    if before.len() > 0 {
        let tail = before.drop_first();
        assert(short.first() == before.first());
        assert(short.drop_first() =~= tail.push(Some(last)));
        assert(long.drop_first() =~= tail.push(Some(last)) + rest);
        match before.first() {
            None => {
                nothing_follows_the_last_record(state, tail, last, rest);
            },
            Some(chunk) => {
                nothing_follows_the_last_record(after_chunk(state, chunk).0, tail, last, rest);
            },
        }
    }
}

/// Records that none of them calls the last can come in one packet with those
/// that follow or in a packet of their own: it makes no difference.
pub proof fn packets_can_be_cut_between_records(
    state: CollectorView,
    a: Seq<Option<ChunkView>>,
    b: Seq<Option<ChunkView>>,
)
    requires
        forall|i: int|
            0 <= i < a.len() ==> (#[trigger] a[i] matches Some(chunk) ==> chunk.done != Some(true)),
    ensures
        ({
            let (middle, first) = after_packet(state, a);
            let (end, second) = after_packet(middle, b);
            after_packet(state, a + b) == (end, first + second)
        }),
    decreases a.len(),
{
    let empty = Seq::<EffectView>::empty();
    if a.len() == 0 {
        assert(a + b =~= b);
        assert(empty + after_packet(state, b).1 =~= after_packet(state, b).1);
    } else {
        let rest = a.drop_first();
        assert(a[0] == a.first());
        assert((a + b).first() == a.first());
        assert((a + b).drop_first() =~= rest + b);
        assert forall|i: int| 0 <= i < rest.len() implies (#[trigger] rest[i] matches Some(chunk)
            ==> chunk.done != Some(true)) by {
            assert(rest[i] == a[i + 1]);
        }
        match a.first() {
            None => {
                packets_can_be_cut_between_records(state, rest, b);
            },
            Some(chunk) => {
                let (next, own) = after_chunk(state, chunk);
                packets_can_be_cut_between_records(next, rest, b);
                let (middle, first) = after_packet(next, rest);
                let second = after_packet(middle, b).1;
                assert(own + (first + second) =~= (own + first) + second);
            },
        }
    }
}

/// What is passed on to the front end while a reply comes in is long, ends a
/// sentence, or has a line feed in it; nothing shorter is passed on early.
pub open spec fn is_worth_sending(part: Seq<char>) -> bool {
    ||| encode_utf8(part).len() >= 120
    ||| part.len() > 0 && (part.last() == '.' || part.last() == '!' || part.last() == '?')
    ||| part.contains('\n')
}

/// The effects are prints and messages to the front end, and every message is
/// worth sending.
pub open spec fn sends_worthy_parts(list: Seq<EffectView>) -> bool {
    forall|i: int|
        0 <= i < list.len() ==> {
            ||| #[trigger] list[i] is Print
            ||| exists|part: Seq<char>|
                is_worth_sending(part) && list[i] == #[trigger] agent_message(part)
        }
}

proof fn worthy_parts_in_turn(a: Seq<EffectView>, b: Seq<EffectView>)
    requires
        sends_worthy_parts(a),
        sends_worthy_parts(b),
    ensures
        sends_worthy_parts(a + b),
{
    assert forall|i: int| 0 <= i < (a + b).len() implies {
        ||| #[trigger] (a + b)[i] is Print
        ||| exists|part: Seq<char>|
            is_worth_sending(part) && (a + b)[i] == #[trigger] agent_message(part)
    } by {
        if i < a.len() {
            assert((a + b)[i] == a[i]);
        } else {
            assert((a + b)[i] == b[i - a.len()]);
        }
    }
}

proof fn content_sends_worthy_parts(state: CollectorView, content: Seq<char>)
    ensures
        sends_worthy_parts(after_content(state, content).1),
{
    let pending = state.pending + content;
    let list = after_content(state, content).1;
    if state.listening && is_ripe(pending, content) {
        if content.contains('\n') {
            let i = choose|i: int| 0 <= i < content.len() && content[i] == '\n';
            assert(pending[state.pending.len() + i] == '\n');
        }
        assert(is_worth_sending(pending));
        assert(list[1] == agent_message(pending));
    }
}

proof fn packet_sends_worthy_parts(state: CollectorView, chunks: Seq<Option<ChunkView>>)
    ensures
        sends_worthy_parts(after_packet(state, chunks).1),
    decreases chunks.len(),
{
    if chunks.len() > 0 {
        let rest = chunks.drop_first();
        match chunks.first() {
            None => {
                packet_sends_worthy_parts(state, rest);
            },
            Some(chunk) => {
                let (next, own) = after_chunk(state, chunk);
                if let Some(message) = chunk.message {
                    content_sends_worthy_parts(state, message.content);
                }
                packet_sends_worthy_parts(next, rest);
                worthy_parts_in_turn(own, after_packet(next, rest).1);
            },
        }
    }
}

/// However a reply comes in, each message that the front end is sent before its
/// end is worth sending, and what is held back is not.
pub proof fn parts_are_sent_when_they_are_worth_it(packets: Seq<Seq<Option<ChunkView>>>)
    ensures
        sends_worthy_parts(after_packets(nothing_collected(true), packets).1),
        !is_worth_sending(after_packets(nothing_collected(true), packets).0.pending),
    decreases packets.len(),
{
    little_is_held_back(packets);
    if packets.len() > 0 {
        let earlier = packets.drop_last();
        parts_are_sent_when_they_are_worth_it(earlier);
        let (before, done) = after_packets(nothing_collected(true), earlier);
        packet_sends_worthy_parts(before, packets.last());
        worthy_parts_in_turn(done, after_packet(before, packets.last()).1);
    }
}

/// At the end the whole reply is shown once, last of all; what was held back
/// goes to the front end before that, if there is a front end and anything was.
pub proof fn the_whole_reply_is_shown_at_the_end(state: CollectorView)
    ensures
        at_end(state).last() == (EffectView::Render { text: state.full }),
        state.listening && state.pending.len() > 0 ==> at_end(state).drop_last() == seq![
            EffectView::Broadcast {
                event: EventView::AgentMessage { content: state.pending },
            },
        ],
        !state.listening || state.pending.len() == 0 ==> at_end(state).len() == 1,
{
    if state.listening && state.pending.len() > 0 {
        assert(at_end(state).drop_last() =~= seq![agent_message(state.pending)]);
    }
}

/// Every record stands in the list of its packet, in order, with what it says.
pub proof fn chunks_are_whole(chunks: Seq<Option<StreamChunk>>)
    ensures
        chunk_views(chunks).len() == chunks.len(),
        forall|i: int|
            0 <= i < chunks.len() ==> match chunks[i] {
                Some(chunk) => #[trigger] chunk_views(chunks)[i] == Some(chunk@),
                None => chunk_views(chunks)[i] is None,
            },
{
}

} // verus!

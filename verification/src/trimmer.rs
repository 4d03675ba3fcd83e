//! Shortening of tool output before it enters the conversation.

use vstd::prelude::*;
use vstd::string::*;

verus! {

/// What stands in a shortened text in place of its middle.
pub const OMISSION_MARK: &'static str = "\n\n[... Вывод урезан для экономии контекста ...]\n\n";

/// `text` as a tool reports it: as it is where it has at most `max_chars`
/// characters, else its first and its last `max_chars / 2` characters round
/// the omission mark.
pub open spec fn shortened(text: Seq<char>, max_chars: nat) -> Seq<char> {
    if text.len() <= max_chars {
        text
    } else {
        let half = (max_chars / 2) as int;
        text.take(half) + OMISSION_MARK@ + text.skip(text.len() - half)
    }
}

/// Shortens tool output to save context.
pub struct ToolOutputTrimmer;

impl ToolOutputTrimmer {
    /// Cuts the middle out of a text of more than `max_chars` characters.
    pub fn trim_output(text: &str, max_chars: usize) -> (r: String)
        ensures
            r@ == shortened(text@, max_chars as nat),
    {
        let len: usize = text.unicode_len();
        if len <= max_chars {
            return text.to_owned();
        }
        let half: usize = max_chars / 2;
        let mut out: String = text.substring_char(0, half).to_owned();
        out.append(OMISSION_MARK);
        out.append(text.substring_char(len - half, len));
        out
    }
}

/// A shortened text begins as the text begins and ends as it ends, and it is
/// never longer than the limit and the omission mark together.
pub proof fn shortened_keeps_both_ends(text: Seq<char>, max_chars: nat)
    ensures
        shortened(text, max_chars).len() <= max_chars + OMISSION_MARK@.len(),
        text.len() <= max_chars ==> shortened(text, max_chars) == text,
        text.len() > max_chars ==> {
            let half = (max_chars / 2) as int;
            let out = shortened(text, max_chars);
            &&& out.len() == 2 * half + OMISSION_MARK@.len()
            &&& out.take(half) == text.take(half)
            &&& out.skip(out.len() - half) == text.skip(text.len() - half)
            &&& out.subrange(half, out.len() - half) == OMISSION_MARK@
        },
{
    if text.len() > max_chars {
        let half = (max_chars / 2) as int;
        let out = shortened(text, max_chars);
        assert(out.take(half) =~= text.take(half));
        assert(out.skip(out.len() - half) =~= text.skip(text.len() - half));
        assert(out.subrange(half, out.len() - half) =~= OMISSION_MARK@);
    }
}

} // verus!

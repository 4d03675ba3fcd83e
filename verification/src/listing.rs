//! Numbered lists of what a search has found.

use vstd::prelude::*;
use vstd::string::*;

use crate::number::decimal_text;
#[allow(unused_imports)]
use crate::number::decimal;

verus! {

/// The most entries that a list shows.
pub const MAX_ENTRIES: usize = 5;

/// One entry of a list.
#[derive(Debug)]
pub struct ListItem {
    pub title: String,
    pub url: String,
    pub text: String,
}

/// An entry as a mathematical value.
pub struct ItemView {
    pub title: Seq<char>,
    pub url: Seq<char>,
    pub text: Seq<char>,
}

impl View for ListItem {
    type V = ItemView;

    open spec fn view(&self) -> ItemView {
        ItemView { title: self.title@, url: self.url@, text: self.text@ }
    }
}

pub open spec fn items(list: Seq<ListItem>) -> Seq<ItemView> {
    list.map_values(|i: ListItem| i@)
}

/// An entry with its number, on lines of its own.
pub open spec fn entry(number: nat, item: ItemView) -> Seq<char> {
    decimal(number) + ". "@ + item.title + " — "@ + item.url + "\n   "@ + item.text + "\n\n"@
}

/// The entries of a list in order, numbered from one.
pub open spec fn numbered(list: Seq<ItemView>) -> Seq<char>
    decreases list.len(),
{
    if list.len() == 0 {
        Seq::empty()
    } else {
        numbered(list.drop_last()) + entry(list.len(), list.last())
    }
}

/// Writes out a list, numbered from one.
pub fn numbered_text(list: &Vec<ListItem>) -> (r: String)
    ensures
        r@ == numbered(items(list@)),
{
    let mut out: String = String::new();
    let mut i: usize = 0;
    proof {
        assert(items(list@).take(0) =~= Seq::<ItemView>::empty());
    }
    while i < list.len()
        invariant
            i <= list.len(),
            out@ == numbered(items(list@).take(i as int)),
        decreases list.len() - i,
    {
        let ghost before = out@;
        let ghost upto = items(list@).take(i + 1);
        let number: u64 = (i as u64) + 1;
        out.append(decimal_text(number).as_str());
        out.append(". ");
        out.append(list[i].title.as_str());
        out.append(" — ");
        out.append(list[i].url.as_str());
        out.append("\n   ");
        out.append(list[i].text.as_str());
        out.append("\n\n");
        proof {
            assert(upto.drop_last() =~= items(list@).take(i as int));
            assert(upto.last() == list@[i as int]@);
            assert(out@ =~= before + entry(upto.len(), upto.last()));
        }
        i = i + 1;
    }
    proof {
        assert(items(list@).take(i as int) =~= items(list@));
    }
    out
}

/// A list grows by its entries: another entry is written behind those before
/// it, with its number, its title, its address and its text, each whole.
pub proof fn lists_grow_by_entries(list: Seq<ItemView>, item: ItemView)
    ensures
        numbered(Seq::empty()).len() == 0,
        numbered(list.push(item)) == numbered(list) + decimal(list.len() + 1) + ". "@ + item.title
            + " — "@ + item.url + "\n   "@ + item.text + "\n\n"@,
{
    let more = list.push(item);
    assert(more.drop_last() =~= list);
    assert(numbered(more) =~= numbered(list) + decimal(list.len() + 1) + ". "@ + item.title
        + " — "@ + item.url + "\n   "@ + item.text + "\n\n"@);
}

/// Every entry stands in the list, in order, with its three parts.
pub proof fn items_are_whole(list: Seq<ListItem>)
    ensures
        items(list).len() == list.len(),
        forall|i: int|
            0 <= i < list.len() ==> (#[trigger] items(list)[i]).title == list[i].title@
                && items(list)[i].url == list[i].url@ && items(list)[i].text == list[i].text@,
{
}

} // verus!

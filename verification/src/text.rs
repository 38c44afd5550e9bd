//! Building text from parts.

use vstd::prelude::*;
use vstd::string::StringExecFns;
use crate::row::names_of;

verus! {

/// The items in their order, with `separator` between each two.
pub open spec fn joined(items: Seq<Seq<char>>, separator: Seq<char>) -> Seq<char>
    decreases items.len(),
{
    if items.len() == 0 {
        Seq::empty()
    } else if items.len() == 1 {
        items[0]
    } else {
        joined(items.drop_last(), separator) + separator + items.last()
    }
}

/// Joins the items with `separator` between each two.
pub fn join(items: &Vec<String>, separator: &str) -> (text: String)
    ensures
        text@ == joined(names_of(items@), separator@),
{
    let mut text = String::new();
    let mut i: usize = 0;
    assert(names_of(items@).subrange(0, 0) =~= Seq::<Seq<char>>::empty());
    while i < items.len()
        invariant
            i <= items@.len(),
            text@ == joined(names_of(items@).subrange(0, i as int), separator@),
        decreases items@.len() - i,
    {
        let ghost before = names_of(items@).subrange(0, i as int);
        let ghost after = names_of(items@).subrange(0, i + 1);
        assert(after.drop_last() =~= before);
        assert(after.last() == items@[i as int]@);
        if i > 0 {
            text.append(separator);
        } else {
            assert(text@ + items@[i as int]@ =~= items@[i as int]@);
        }
        text.append(items[i].as_str());
        i += 1;
    }
    assert(names_of(items@).subrange(0, items@.len() as int) =~= names_of(items@));
    text
}

/// The pieces of `text` between the occurrences of `separator`, found from
/// the left without overlap, from place `at` on; the piece that is being
/// read began at `piece`.
pub open spec fn pieces(text: Seq<char>, separator: Seq<char>, piece: int, at: int) -> Seq<Seq<char>>
    decreases text.len() - at,
{
    if separator.len() == 0 || at < 0 || at + separator.len() > text.len() {
        seq![text.subrange(piece, text.len() as int)]
    } else if text.subrange(at, at + separator.len()) == separator {
        seq![text.subrange(piece, at)] + pieces(
            text,
            separator,
            at + separator.len(),
            at + separator.len(),
        )
    } else {
        pieces(text, separator, piece, at + 1)
    }
}

/// The pieces of `text` between the occurrences of `separator`: one more
/// piece than there are occurrences, found from the left without overlap.
pub open spec fn split_by(text: Seq<char>, separator: Seq<char>) -> Seq<Seq<char>> {
    pieces(text, separator, 0, 0)
}

/// The pieces that `str::split` yields for a separator that is not empty:
/// the substrings of `text` between the matches of `separator`, which are
/// found from the left and do not overlap.
#[verifier::external_body]
pub(crate) fn split(text: &str, separator: &str) -> (parts: Vec<String>)
    requires
        separator@.len() > 0,
    ensures
        names_of(parts@) == split_by(text@, separator@),
{
    text.split(separator).map(String::from).collect()
}

} // verus!

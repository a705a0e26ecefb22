//! Reading strings character by character.

use vstd::prelude::*;

verus! {

/// The characters of `text`, in order.
pub(crate) fn chars(text: &str) -> (list: Vec<char>)
    ensures
        list@ == text@,
{
    let mut list: Vec<char> = Vec::new();
    for c in it: text.chars()
        invariant
            it.seq() == text@,
            list@ == text@.take(it.index() as int),
    {
        list.push(c);
        assert(list@ =~= text@.take(it.index() + 1));
    }
    assert(list@ =~= text@);
    list
}

/// Whether `at` is the place of the first `wanted` in `text`.
pub open spec fn is_first(text: Seq<char>, wanted: char, at: int) -> bool {
    &&& 0 <= at < text.len()
    &&& text[at] == wanted
    &&& forall|j: int| 0 <= j < at ==> text[j] != wanted
}

/// The place of the first `wanted` in `list`, if there is one.
pub(crate) fn find(list: &Vec<char>, wanted: char) -> (found: Option<usize>)
    ensures
        match found {
            Some(at) => is_first(list@, wanted, at as int),
            None => forall|j: int| 0 <= j < list.len() ==> list[j] != wanted,
        },
{
    let mut at: usize = 0;
    while at < list.len()
        invariant
            at <= list.len(),
            forall|j: int| 0 <= j < at ==> list[j] != wanted,
        decreases list.len() - at,
    {
        if list[at] == wanted {
            return Some(at);
        }
        at += 1;
    }
    None
}

/// Whether `list` and `other` hold the same characters.
pub(crate) fn same(list: &Vec<char>, other: &Vec<char>) -> (equal: bool)
    ensures
        equal == (list@ == other@),
{
    if list.len() != other.len() {
        return false;
    }
    let mut at: usize = 0;
    while at < list.len()
        invariant
            at <= list.len(),
            list.len() == other.len(),
            forall|j: int| 0 <= j < at ==> list[j] == other[j],
        decreases list.len() - at,
    {
        if list[at] != other[at] {
            return false;
        }
        at += 1;
    }
    assert(list@ =~= other@);
    true
}

/// The characters of `text` from `from` up to, not including, `to`.
pub(crate) fn piece(text: &str, from: usize, to: usize) -> (part: String)
    requires
        from <= to <= text@.len(),
    ensures
        part@ == text@.subrange(from as int, to as int),
{
    text.substring_char(from, to).to_owned()
}

/// How many times `wanted` stands at the start of `text` before anything
/// else does.
pub open spec fn leading(text: Seq<char>, wanted: char) -> nat
    decreases text.len(),
{
    if text.len() > 0 && text[0] == wanted {
        1 + leading(text.skip(1), wanted)
    } else {
        0
    }
}

/// The leading run of `wanted` ends where something else stands, or where the
/// text ends.
pub proof fn lemma_leading_ends(text: Seq<char>, wanted: char, count: int)
    requires
        0 <= count <= text.len(),
        forall|j: int| 0 <= j < count ==> text[j] == wanted,
        count == text.len() || text[count] != wanted,
    ensures
        leading(text, wanted) == count,
    decreases count,
{
    if count > 0 {
        lemma_leading_ends(text.skip(1), wanted, count - 1);
    }
}

/// How many times `wanted` stands at the start of `list`.
pub(crate) fn count_leading(list: &Vec<char>, wanted: char) -> (count: usize)
    ensures
        count == leading(list@, wanted),
        count <= list.len(),
{
    let mut count: usize = 0;
    while count < list.len() && list[count] == wanted
        invariant
            count <= list.len(),
            forall|j: int| 0 <= j < count ==> list[j] == wanted,
        decreases list.len() - count,
    {
        count += 1;
    }
    proof {
        lemma_leading_ends(list@, wanted, count as int);
    }
    count
}

/// The characters of `list` from `from` on.
pub(crate) fn tail(list: &Vec<char>, from: usize) -> (rest: Vec<char>)
    requires
        from <= list.len(),
    ensures
        rest@ == list@.skip(from as int),
{
    let mut rest: Vec<char> = Vec::new();
    let mut at: usize = from;
    while at < list.len()
        invariant
            from <= at <= list.len(),
            rest@ == list@.subrange(from as int, at as int),
        decreases list.len() - at,
    {
        rest.push(list[at]);
        assert(rest@ =~= list@.subrange(from as int, at + 1));
        at += 1;
    }
    assert(rest@ =~= list@.skip(from as int));
    rest
}

/// The first `to` characters of `list`.
pub(crate) fn head(list: &Vec<char>, to: usize) -> (front: Vec<char>)
    requires
        to <= list.len(),
    ensures
        front@ == list@.take(to as int),
{
    let mut front: Vec<char> = Vec::new();
    let mut at: usize = 0;
    while at < to
        invariant
            at <= to <= list.len(),
            front@ == list@.take(at as int),
        decreases to - at,
    {
        front.push(list[at]);
        assert(front@ =~= list@.take(at + 1));
        at += 1;
    }
    front
}

} // verus!

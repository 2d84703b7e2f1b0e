//! Small string helpers shared by the other modules.

use vstd::prelude::*;
use vstd::string::*;

verus! {

/// Appends one character to a `String` (std's `String::push`).
#[verifier::external_body]
pub(crate) fn push_char(s: &mut String, c: char)
    ensures
        final(s)@ == old(s)@.push(c),
{
    s.push(c);
}

/// The texts of a list of strings.
pub open spec fn texts(list: Seq<String>) -> Seq<Seq<char>> {
    list.map_values(|s: String| s@)
}

/// The pieces of `list` one after another, with `sep` between each two of them.
pub open spec fn join_text(list: Seq<Seq<char>>, sep: Seq<char>) -> Seq<char>
    decreases list.len(),
{
    if list.len() == 0 {
        seq![]
    } else if list.len() == 1 {
        list[0]
    } else {
        join_text(list.drop_last(), sep) + sep + list.last()
    }
}

/// Joins strings with a separator, as `[String]::join` does.
pub fn join_strings(list: &Vec<String>, sep: &str) -> (r: String)
    ensures
        r@ == join_text(texts(list@), sep@),
{
    let mut res = String::new();
    let ghost pieces = texts(list@);
    assert(pieces.take(0) =~= Seq::<Seq<char>>::empty());
    let mut i: usize = 0;
    while i < list.len()
        invariant
            i <= list.len(),
            pieces == texts(list@),
            pieces.len() == list.len(),
            res@ == join_text(pieces.take(i as int), sep@),
        decreases list.len() - i,
    {
        assert(pieces.take(i + 1).drop_last() =~= pieces.take(i as int));
        assert(pieces.take(i + 1).last() == list@[i as int]@);
        if i != 0 {
            res.append(sep);
        }
        res.append(list[i].as_str());
        i = i + 1;
    }
    assert(pieces.take(list.len() as int) =~= pieces);
    res
}

/// Joining nothing gives the empty text, and joining one piece gives that piece.
pub proof fn join_text_short(x: Seq<char>, sep: Seq<char>)
    ensures
        join_text(Seq::<Seq<char>>::empty(), sep) == Seq::<char>::empty(),
        join_text(seq![x], sep) == x,
{
}

/// Adding a piece at the end of a non-empty list adds the separator and then
/// the piece: every two consecutive pieces have `sep` between them.
pub proof fn join_text_push(list: Seq<Seq<char>>, x: Seq<char>, sep: Seq<char>)
    requires
        list.len() > 0,
    ensures
        join_text(list.push(x), sep) == join_text(list, sep) + sep + x,
{
    assert(list.push(x).drop_last() =~= list);
}

/// Joining two non-empty lists put together is joining each of them, with
/// `sep` between the two results.
pub proof fn join_text_concat(a: Seq<Seq<char>>, b: Seq<Seq<char>>, sep: Seq<char>)
    requires
        a.len() > 0,
        b.len() > 0,
    ensures
        join_text(a + b, sep) == join_text(a, sep) + sep + join_text(b, sep),
    decreases b.len(),
{
    if b.len() == 1 {
        assert(a + b =~= a.push(b[0]));
        join_text_push(a, b[0], sep);
    } else {
        let c = b.drop_last();
        join_text_concat(a, c, sep);
        assert(a + b =~= (a + c).push(b.last()));
        join_text_push(a + c, b.last(), sep);
        assert(b =~= c.push(b.last()));
        join_text_push(c, b.last(), sep);
        assert(join_text(a, sep) + sep + join_text(c, sep) + sep + b.last() =~= join_text(a, sep)
            + sep + (join_text(c, sep) + sep + b.last()));
    }
}

} // verus!

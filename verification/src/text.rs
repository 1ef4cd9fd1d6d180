//! Text helpers shared by the renderers.

use vstd::prelude::*;
use vstd::string::*;

verus! {

/// `str`'s `PartialEq::eq`: two string slices are equal exactly when they hold the same
/// characters.
pub assume_specification[ <str as PartialEq>::eq ](a: &str, b: &str) -> (r: bool)
    ensures
        r == (a@ == b@),
;

/// `String::push`: appends one character to the end of the string.
pub assume_specification[ String::push ](s: &mut String, ch: char)
    ensures
        final(s)@ == old(s)@.push(ch),
;

/// The texts of `parts`, in order, with `sep` between each two neighbours.
pub open spec fn join(parts: Seq<Seq<char>>, sep: Seq<char>) -> Seq<char>
    decreases parts.len(),
{
    if parts.len() == 0 {
        Seq::empty()
    } else if parts.len() == 1 {
        parts[0]
    } else {
        join(parts.drop_last(), sep) + sep + parts.last()
    }
}

/// Joins the first `count` of `parts` with `sep` between each two neighbours.
pub fn join_strings(parts: &[String], count: usize, sep: &str) -> (s: String)
    requires
        count <= parts@.len(),
    ensures
        s@ == join(parts.deep_view().take(count as int), sep@),
{
    let ghost texts = parts.deep_view();
    if count == 0 {
        return String::new();
    }
    let mut s = parts[0].clone();
    let mut i: usize = 1;
    while i < count
        invariant
            1 <= i <= count <= parts@.len(),
            texts == parts.deep_view(),
            s@ == join(texts.take(i as int), sep@),
        decreases count - i,
    {
        s.append(sep);
        s.append(parts[i].as_str());
        proof {
            assert(texts.take(i + 1).drop_last() =~= texts.take(i as int));
        }
        i += 1;
    }
    s
}

} // verus!

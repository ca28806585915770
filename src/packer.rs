//! Arity-bounded group packing: an ordered list of expressions becomes one
//! right-nested group in which no group holds more than a fixed number of
//! direct elements.

use vstd::prelude::*;
use crate::text::{join, join_strings, strs, owned};

verus! {

/// The largest group the resource composition contract is defined for.
pub const MAX_TUPLE_SIZE: usize = 16;

/// The direct elements of each nesting level, outermost first, when `s` is cut
/// into runs of `c`: every level but the last also holds the next level as
/// its final element.
pub open spec fn levels<A>(s: Seq<A>, c: nat) -> Seq<Seq<A>>
    decreases s.len(),
{
    if c == 0 || s.len() <= c {
        seq![s]
    } else {
        seq![s.take(c as int)] + levels(s.skip(c as int), c)
    }
}

/// The text of nested levels: each level in parentheses, the next level
/// appended as its last element.
pub open spec fn render(ls: Seq<Seq<Seq<char>>>) -> Seq<char>
    decreases ls.len(),
{
    if ls.len() == 0 {
        "()"@
    } else if ls.len() == 1 {
        "("@ + join(ls[0], ", "@) + ")"@
    } else {
        "("@ + join(ls[0], ", "@) + ", "@ + render(ls.drop_first()) + ")"@
    }
}

/// The group of at most `w` direct elements per level that holds `s`.
pub open spec fn nested_group(s: Seq<Seq<char>>, w: nat) -> Seq<char> {
    render(levels(s, (w - 1) as nat))
}

/// The levels of `s` from index `start` on, rendered.
fn nest_from(elements: &Vec<String>, start: usize, c: usize) -> (r: String)
    requires
        c > 0,
        start <= elements@.len(),
    ensures
        r@ == render(levels(strs(elements@).skip(start as int), c as nat)),
    decreases elements@.len() - start,
{
    let ghost s = strs(elements@).skip(start as int);
    let len = elements.len();
    let end: usize = if len - start <= c {
        len
    } else {
        start + c
    };
    let mut chunk: Vec<String> = Vec::new();
    let mut k: usize = start;
    while k < end
        invariant
            start <= k <= end <= elements@.len(),
            chunk@.len() == k - start,
            forall|j: int| 0 <= j < k - start ==> chunk@[j] == elements@[start + j],
        decreases end - k,
    {
        chunk.push(elements[k].clone());
        k = k + 1;
    }
    assert(strs(chunk@) =~= strs(elements@).subrange(start as int, end as int));
    let mut out = owned("(");
    let inner = join_strings(&chunk, ", ");
    out.append(inner.as_str());
    if end < len {
        assert(s.take(c as int) =~= strs(chunk@));
        assert(s.skip(c as int) =~= strs(elements@).skip(end as int));
        let rest = nest_from(elements, end, c);
        out.append(", ");
        out.append(rest.as_str());
        out.append(")");
        assert(levels(s, c as nat).drop_first() =~= levels(s.skip(c as int), c as nat));
    } else {
        assert(s =~= strs(chunk@));
        out.append(")");
    }
    out
}

/// Packs `elements` into groups of at most `max_tuple_size` direct elements,
/// nesting the rest of the list as the last element of each full group. No
/// elements give the empty group `()`.
pub fn nested_tuples(elements: &Vec<String>, max_tuple_size: usize) -> (r: String)
    requires
        max_tuple_size > 1,
    ensures
        r@ == nested_group(strs(elements@), max_tuple_size as nat),
{
    assert(strs(elements@).skip(0) =~= strs(elements@));
    nest_from(elements, 0, max_tuple_size - 1)
}

} // verus!

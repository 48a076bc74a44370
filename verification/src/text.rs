//! Strings as sequences of characters: the name that a locator derives, and
//! the order in which names are kept.

use vstd::prelude::*;
use vstd::std_specs::iter::IteratorSpec;

verus! {

/// Where the final path segment of `s` begins: just behind its last `/`, or
/// at the start where it has none.
pub open spec fn segment_start(s: Seq<char>) -> nat
    decreases s.len(),
{
    if s.len() == 0 {
        0
    } else if s.last() == '/' {
        s.len()
    } else {
        segment_start(s.drop_last())
    }
}

/// The final path segment of a locator: what follows its last `/`, or all of
/// it where it has none. It is empty where the locator ends in `/`.
pub open spec fn final_segment(locator: Seq<char>) -> Seq<char> {
    locator.skip(segment_start(locator) as int)
}

/// Where the segment starts: at or behind a `/` unless at the start of the
/// string, and with no `/` from there on.
proof fn lemma_segment_start(s: Seq<char>)
    ensures
        segment_start(s) <= s.len(),
        segment_start(s) > 0 ==> s[segment_start(s) - 1] == '/',
        forall|i: int| segment_start(s) <= i < s.len() ==> s[i] != '/',
    decreases s.len(),
{
    if s.len() > 0 && s.last() != '/' {
        let front = s.drop_last();
        lemma_segment_start(front);
        assert forall|i: int| segment_start(s) <= i < s.len() implies s[i] != '/' by {
            if i < front.len() {
                assert(front[i] == s[i]);
            }
        }
    }
}

/// The final segment is an end of the locator that holds no `/`, and what
/// stands before it is empty or ends in `/`.
pub proof fn law_final_segment(locator: Seq<char>)
    ensures
        final_segment(locator).len() <= locator.len(),
        final_segment(locator) == locator.skip(locator.len() - final_segment(locator).len()),
        !final_segment(locator).contains('/'),
        final_segment(locator).len() < locator.len() ==> locator[locator.len() - final_segment(
            locator,
        ).len() - 1] == '/',
{
    lemma_segment_start(locator);
    let name = final_segment(locator);
    if name.contains('/') {
        let i = choose|i: int| 0 <= i < name.len() && name[i] == '/';
        assert(locator[segment_start(locator) + i] == '/');
    }
}

/// Only the final segment is such an end of the locator.
pub proof fn law_final_segment_unique(locator: Seq<char>, name: Seq<char>)
    requires
        name.len() <= locator.len(),
        name == locator.skip(locator.len() - name.len()),
        !name.contains('/'),
        name.len() < locator.len() ==> locator[locator.len() - name.len() - 1] == '/',
    ensures
        name == final_segment(locator),
{
    let cut = locator.len() - name.len();
    assert forall|i: int| cut <= i < locator.len() implies locator[i] != '/' by {
        assert(name[i - cut] == locator[i]);
        assert(name.contains(name[i - cut]));
    }
    lemma_segment_start_is(locator, cut);
}

/// A position at or behind a `/` unless at the start, with no `/` from there
/// on, is where the segment starts.
proof fn lemma_segment_start_is(s: Seq<char>, k: int)
    requires
        0 <= k <= s.len(),
        k > 0 ==> s[k - 1] == '/',
        forall|i: int| k <= i < s.len() ==> s[i] != '/',
    ensures
        segment_start(s) == k,
    decreases s.len(),
{
    if s.len() > 0 && s.last() != '/' {
        let front = s.drop_last();
        assert forall|i: int| k <= i < front.len() implies front[i] != '/' by {
            assert(front[i] == s[i]);
        }
        lemma_segment_start_is(front, k);
    }
}

/// Appending a character moves the segment start behind it if it is a `/`,
/// and leaves it otherwise.
proof fn lemma_segment_start_push(s: Seq<char>, c: char)
    ensures
        segment_start(s.push(c)) == if c == '/' {
            s.len() + 1
        } else {
            segment_start(s)
        },
{
    assert(s.push(c).drop_last() =~= s);
}

/// The name under which a locator is tracked: its final path segment.
pub fn derive_name(locator: &str) -> (name: String)
    ensures
        name@ == final_segment(locator@),
{
    let length: usize = locator.unicode_len();
    let mut start: usize = 0;
    let mut seen: usize = 0;
    let mut chars = locator.chars();
    loop
        invariant
            length == locator@.len(),
            seen + chars.remaining().len() == locator@.len(),
            chars.remaining() == locator@.skip(seen as int),
            start == segment_start(locator@.take(seen as int)),
            start <= seen,
        ensures
            seen == length,
        decreases length - seen,
    {
        let ghost before = chars.remaining();
        match chars.next() {
            None => {
                break ;
            },
            Some(c) => {
                proof {
                    assert(c == locator@[seen as int]);
                    assert(locator@.take(seen + 1) =~= locator@.take(seen as int).push(c));
                    lemma_segment_start_push(locator@.take(seen as int), c);
                    assert(before.drop_first() =~= locator@.skip(seen + 1));
                }
                seen = seen + 1;
                if c == '/' {
                    start = seen;
                }
            },
        }
    }
    proof {
        assert(locator@.take(seen as int) =~= locator@);
    }
    let tail = locator.substring_char(start, length);
    proof {
        assert(locator@.subrange(start as int, length as int) =~= locator@.skip(start as int));
    }
    tail.to_owned()
}

/// How one name stands to another in the order in which names are kept.
#[derive(Clone, Copy, Debug, PartialEq, Eq, Structural)]
pub enum Order {
    Before,
    Same,
    After,
}

/// The strict lexicographic order of two names by the code points of their
/// characters: a proper prefix comes first, and otherwise the first character
/// in which the two differ decides.
pub open spec fn precedes(a: Seq<char>, b: Seq<char>) -> bool
    decreases a.len(),
{
    if b.len() == 0 {
        false
    } else if a.len() == 0 {
        true
    } else if a[0] == b[0] {
        precedes(a.drop_first(), b.drop_first())
    } else {
        (a[0] as u32) < (b[0] as u32)
    }
}

/// Where `a` stands relative to `b`.
pub open spec fn order_of(a: Seq<char>, b: Seq<char>) -> Order {
    if a == b {
        Order::Same
    } else if precedes(a, b) {
        Order::Before
    } else {
        Order::After
    }
}

/// No name precedes itself.
pub proof fn lemma_precedes_irreflexive(a: Seq<char>)
    ensures
        !precedes(a, a),
    decreases a.len(),
{
    if a.len() > 0 {
        lemma_precedes_irreflexive(a.drop_first());
    }
}

/// Of two different names exactly one precedes the other.
pub proof fn lemma_precedes_total(a: Seq<char>, b: Seq<char>)
    ensures
        a != b ==> (precedes(a, b) <==> !precedes(b, a)),
        a == b ==> !precedes(a, b) && !precedes(b, a),
    decreases a.len(),
{
    if a == b {
        lemma_precedes_irreflexive(a);
    } else if a.len() > 0 && b.len() > 0 {
        if a[0] == b[0] {
            lemma_precedes_total(a.drop_first(), b.drop_first());
            if a.drop_first() == b.drop_first() {
                assert(a =~= seq![a[0]] + a.drop_first());
                assert(b =~= seq![b[0]] + b.drop_first());
            }
        } else {
            vstd::utf8::char_u32_cast(a[0], a[0] as u32);
            vstd::utf8::char_u32_cast(b[0], b[0] as u32);
        }
    } else if a.len() == 0 && b.len() == 0 {
        assert(a =~= b);
    }
}

/// The order is transitive.
pub proof fn lemma_precedes_transitive(a: Seq<char>, b: Seq<char>, c: Seq<char>)
    requires
        precedes(a, b),
        precedes(b, c),
    ensures
        precedes(a, c),
    decreases a.len(),
{
    if a.len() > 0 && a[0] == b[0] && b[0] == c[0] {
        lemma_precedes_transitive(a.drop_first(), b.drop_first(), c.drop_first());
    }
}

/// How the order of two non-empty names follows from their first characters
/// and from the order of what comes behind them.
pub proof fn lemma_order_by_head(a: Seq<char>, b: Seq<char>)
    requires
        a.len() > 0,
        b.len() > 0,
    ensures
        a[0] == b[0] ==> order_of(a, b) == order_of(a.drop_first(), b.drop_first()),
        a[0] != b[0] ==> order_of(a, b) == if (a[0] as u32) < (b[0] as u32) {
            Order::Before
        } else {
            Order::After
        },
{
    if a[0] == b[0] && a.drop_first() == b.drop_first() {
        assert(a =~= seq![a[0]] + a.drop_first());
        assert(b =~= seq![b[0]] + b.drop_first());
    }
}

/// Compares two names in the order in which names are kept.
pub fn compare(a: &str, b: &str) -> (order: Order)
    ensures
        order == order_of(a@, b@),
{
    let mut left = a.chars();
    let mut right = b.chars();
    loop
        invariant
            left.decrease() is Some,
            order_of(a@, b@) == order_of(left.remaining(), right.remaining()),
        decreases left.decrease()->0,
    {
        let ghost l = left.remaining();
        let ghost r = right.remaining();
        let x = left.next();
        let y = right.next();
        match (x, y) {
            (None, None) => {
                proof {
                    assert(l =~= r);
                }
                return Order::Same;
            },
            (None, Some(_)) => {
                return Order::Before;
            },
            (Some(_), None) => {
                return Order::After;
            },
            (Some(c), Some(d)) => {
                proof {
                    lemma_order_by_head(l, r);
                }
                if c != d {
                    return if (c as u32) < (d as u32) {
                        Order::Before
                    } else {
                        Order::After
                    };
                }
            },
        }
    }
}

} // verus!

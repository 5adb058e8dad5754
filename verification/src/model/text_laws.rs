//! Facts about nesting depth and white space in texts put together from pieces.

use vstd::prelude::*;
use crate::model::scan::{
    back_spaces, balanced, depth_at, depth_step, is_closer, is_opener, is_space, lemma_back_spaces,
    lemma_skip_spaces, skip_spaces, trim_hi, trim_lo, trimmed_text,
};

verus! {

/// The depth in a text made of two pieces: that of the first piece inside it,
/// and after it the depth at its end plus that of the second piece.
pub proof fn lemma_depth_concat(a: Seq<char>, b: Seq<char>, i: int)
    requires
        0 <= i <= a.len() + b.len(),
    ensures
        depth_at(a + b, i) == if i <= a.len() {
            depth_at(a, i)
        } else {
            depth_at(a, a.len() as int) + depth_at(b, i - a.len())
        },
    decreases i,
{
    if i > 0 {
        lemma_depth_concat(a, b, i - 1);
        if i <= a.len() {
            assert((a + b)[i - 1] == a[i - 1]);
        } else {
            assert((a + b)[i - 1] == b[i - 1 - a.len()]);
            assert(depth_at(b, 0) == 0);
            assert(depth_at(b, i - a.len()) == depth_at(b, i - a.len() - 1) + depth_step(
                b[i - a.len() - 1],
            ));
        }
    }
}

/// Two balanced texts, one after the other, are balanced.
pub proof fn lemma_balanced_concat(a: Seq<char>, b: Seq<char>)
    requires
        balanced(a),
        balanced(b),
    ensures
        balanced(a + b),
{
    assert forall|i: int| 0 <= i <= (a + b).len() implies depth_at(a + b, i) >= 0 by {
        lemma_depth_concat(a, b, i);
    }
    lemma_depth_concat(a, b, (a + b).len() as int);
}

/// Whether the text holds no parenthesis and no bracket.
pub open spec fn flat(s: Seq<char>) -> bool {
    forall|i: int| 0 <= i < s.len() ==> !is_opener(#[trigger] s[i]) && !is_closer(s[i])
}

/// In a text without parentheses and brackets the depth is zero throughout.
pub proof fn lemma_flat_depth(s: Seq<char>, i: int)
    requires
        flat(s),
        0 <= i <= s.len(),
    ensures
        depth_at(s, i) == 0,
    decreases i,
{
    if i > 0 {
        lemma_flat_depth(s, i - 1);
        assert(!is_opener(s[i - 1]) && !is_closer(s[i - 1]));
    }
}

/// A text without parentheses and brackets is balanced.
pub proof fn lemma_flat_balanced(s: Seq<char>)
    requires
        flat(s),
    ensures
        balanced(s),
{
    assert forall|i: int| 0 <= i <= s.len() implies depth_at(s, i) == 0 by {
        lemma_flat_depth(s, i);
    }
}

/// A balanced text between an opener and a closer.
pub open spec fn wrapped(open: char, inner: Seq<char>, close: char) -> Seq<char> {
    seq![open] + inner + seq![close]
}

/// A balanced text between an opener and a closer is balanced; inside, the
/// depth is one more than in the text itself.
pub proof fn lemma_wrapped_depth(open: char, inner: Seq<char>, close: char)
    requires
        is_opener(open),
        is_closer(close),
        balanced(inner),
    ensures
        balanced(wrapped(open, inner, close)),
        wrapped(open, inner, close).len() == inner.len() + 2,
        wrapped(open, inner, close)[0] == open,
        wrapped(open, inner, close).last() == close,
        forall|i: int|
            1 <= i <= inner.len() + 1 ==> depth_at(wrapped(open, inner, close), i) == 1 + depth_at(
                inner,
                i - 1,
            ),
        forall|i: int|
            0 <= i < inner.len() ==> wrapped(open, inner, close)[i + 1] == inner[i],
        wrapped(open, inner, close).subrange(1, inner.len() as int + 1) == inner,
{
    let w = wrapped(open, inner, close);
    let head = seq![open];
    let tail = seq![close];
    assert(depth_at(head, 1) == 1) by {
        assert(depth_at(head, 0) == 0);
        assert(head[0] == open);
    }
    assert(depth_at(tail, 1) == -1) by {
        assert(depth_at(tail, 0) == 0);
        assert(tail[0] == close);
    }
    assert forall|i: int| 1 <= i <= inner.len() + 1 implies depth_at(w, i) == 1 + depth_at(
        inner,
        i - 1,
    ) by {
        lemma_depth_concat(head + inner, tail, i);
        lemma_depth_concat(head, inner, i);
    }
    assert(depth_at(w, 0) == 0);
    assert(depth_at(w, w.len() as int) == 0) by {
        lemma_depth_concat(head + inner, tail, w.len() as int);
        lemma_depth_concat(head, inner, inner.len() as int + 1);
    }
    assert(w.subrange(1, inner.len() as int + 1) =~= inner);
}

/// Whether the text is white space only.
pub open spec fn blank(s: Seq<char>) -> bool {
    forall|i: int| 0 <= i < s.len() ==> is_space(#[trigger] s[i])
}

/// Whether the text is not empty and neither starts nor ends with white space.
pub open spec fn tight(s: Seq<char>) -> bool {
    s.len() > 0 && !is_space(s[0]) && !is_space(s.last())
}

/// Dropping the white space around a text that has white space on either side
/// of a tight text leaves the tight text.
pub proof fn lemma_trim_padded(a: Seq<char>, p: Seq<char>, b: Seq<char>)
    requires
        blank(a),
        blank(b),
        tight(p),
    ensures
        trimmed_text(a + p + b) == p,
{
    let s = a + p + b;
    lemma_skip_spaces(s, 0);
    lemma_back_spaces(s, s.len() as int);
    let lo = skip_spaces(s, 0);
    let hi = back_spaces(s, s.len() as int);
    assert(s[a.len() as int] == p[0]);
    assert(s[a.len() + p.len() - 1] == p.last());
    assert(lo == a.len()) by {
        if lo < a.len() {
            assert(s[lo] == a[lo]);
        } else if lo > a.len() {
            assert(is_space(s[a.len() as int]));
        }
    }
    assert(hi == a.len() + p.len()) by {
        if hi > a.len() + p.len() {
            assert(s[hi - 1] == b[hi - 1 - a.len() - p.len()]);
        } else if hi < a.len() + p.len() {
            assert(is_space(s[a.len() + p.len() - 1]));
        }
    }
    assert(s.subrange(lo, hi) =~= p);
}

/// Dropping the white space around a tight text leaves it as it is.
pub proof fn lemma_trim_tight(p: Seq<char>)
    requires
        tight(p),
    ensures
        trimmed_text(p) == p,
{
    let e = Seq::<char>::empty();
    lemma_trim_padded(e, p, e);
    assert(e + p + e =~= p);
}

} // verus!

//! The mathematical model of owner-scoped enumeration.
//!
//! A backend keeps, for each owner, an index of `(TxPointer, TxId)` pairs
//! that is strictly ascending in pointer.  An enumeration walks that index in
//! one of the two directions, optionally resuming past a cursor pointer; the
//! cursor is exclusive: the element at the cursor itself is not produced
//! again.  `remaining_of` is the sequence such a walk still has to produce.

use vstd::prelude::*;

use crate::types::IterDirection;
use crate::types::TxId;
use crate::types::TxPointer;

verus! {

/// Whether the element at pointer `p` still lies ahead of the cursor when
/// walking in `direction`.  Without a cursor every element lies ahead.
pub open spec fn beyond(cursor: Option<TxPointer>, p: TxPointer, direction: IterDirection) -> bool {
    match cursor {
        Option::None => true,
        Option::Some(c) => match direction {
            IterDirection::Ascending => c.spec_lt(p),
            IterDirection::Descending => p.spec_lt(c),
        },
    }
}

/// The stored ascending index as seen by a walk in `direction`.
pub open spec fn oriented(
    index: Seq<(TxPointer, TxId)>,
    direction: IterDirection,
) -> Seq<(TxPointer, TxId)> {
    match direction {
        IterDirection::Ascending => index,
        IterDirection::Descending => index.reverse(),
    }
}

/// Drops the longest prefix of `s` whose pointers do not lie beyond the
/// cursor; what is left is the part of the walk still to come.
pub open spec fn suffix_beyond(
    s: Seq<(TxPointer, TxId)>,
    cursor: Option<TxPointer>,
    direction: IterDirection,
) -> Seq<(TxPointer, TxId)>
    decreases s.len(),
{
    if s.len() == 0 {
        Seq::empty()
    } else if beyond(cursor, s[0].0, direction) {
        s
    } else {
        suffix_beyond(s.skip(1), cursor, direction)
    }
}

/// The number of elements `suffix_beyond` drops: the index of the first
/// element beyond the cursor, or the length when none is.
pub open spec fn first_beyond(
    s: Seq<(TxPointer, TxId)>,
    cursor: Option<TxPointer>,
    direction: IterDirection,
) -> int
    decreases s.len(),
{
    if s.len() == 0 {
        0
    } else if beyond(cursor, s[0].0, direction) {
        0
    } else {
        1 + first_beyond(s.skip(1), cursor, direction)
    }
}

/// What an enumeration of `index` in `direction`, resumed past `cursor`,
/// still produces.
pub open spec fn remaining_of(
    index: Seq<(TxPointer, TxId)>,
    cursor: Option<TxPointer>,
    direction: IterDirection,
) -> Seq<(TxPointer, TxId)> {
    suffix_beyond(oriented(index, direction), cursor, direction)
}

/// Pointers strictly increase along the sequence.
pub open spec fn strictly_ascending(s: Seq<(TxPointer, TxId)>) -> bool {
    forall|i: int, j: int| 0 <= i < j < s.len() ==> s[i].0.spec_lt(s[j].0)
}

/// Pointers strictly advance along the sequence in the sense of `direction`.
pub open spec fn strictly_oriented(s: Seq<(TxPointer, TxId)>, direction: IterDirection) -> bool {
    forall|i: int, j: int|
        0 <= i < j < s.len() ==> match direction {
            IterDirection::Ascending => s[i].0.spec_lt(s[j].0),
            IterDirection::Descending => s[j].0.spec_lt(s[i].0),
        }
}

/// Orienting a strictly ascending index leaves it strictly advancing in the
/// direction of the walk.
pub proof fn lemma_oriented_strictly(index: Seq<(TxPointer, TxId)>, direction: IterDirection)
    requires
        strictly_ascending(index),
    ensures
        strictly_oriented(oriented(index, direction), direction),
{
    let s = oriented(index, direction);
    match direction {
        IterDirection::Ascending => {},
        IterDirection::Descending => {
            assert forall|i: int, j: int| 0 <= i < j < s.len() implies s[j].0.spec_lt(
                s[i].0,
            ) by {
                assert(s[i] == index[index.len() - 1 - i]);
                assert(s[j] == index[index.len() - 1 - j]);
            }
        },
    }
}

/// `suffix_beyond` keeps exactly the elements from the first one beyond the
/// cursor on: it is the suffix of `s` starting at `first_beyond`.
pub proof fn lemma_suffix_beyond_characterized(
    s: Seq<(TxPointer, TxId)>,
    cursor: Option<TxPointer>,
    direction: IterDirection,
)
    ensures
        0 <= first_beyond(s, cursor, direction) <= s.len(),
        suffix_beyond(s, cursor, direction) == s.skip(first_beyond(s, cursor, direction)),
        forall|j: int|
            0 <= j < first_beyond(s, cursor, direction) ==> !beyond(cursor, s[j].0, direction),
        first_beyond(s, cursor, direction) < s.len() ==> beyond(
            cursor,
            s[first_beyond(s, cursor, direction)].0,
            direction,
        ),
    decreases s.len(),
{
    let fb = first_beyond(s, cursor, direction);
    if s.len() == 0 {
        assert(suffix_beyond(s, cursor, direction) =~= s.skip(0));
    } else if beyond(cursor, s[0].0, direction) {
        assert(suffix_beyond(s, cursor, direction) =~= s.skip(0));
    } else {
        let t = s.skip(1);
        lemma_suffix_beyond_characterized(t, cursor, direction);
        let fbt = first_beyond(t, cursor, direction);
        assert(fb == 1 + fbt);
        assert(suffix_beyond(s, cursor, direction) == t.skip(fbt));
        assert(t.skip(fbt) =~= s.skip(fb));
        assert forall|j: int| 0 <= j < fb implies !beyond(cursor, s[j].0, direction) by {
            if j > 0 {
                assert(s[j] == t[j - 1]);
            }
        }
        if fb < s.len() {
            assert(s[fb] == t[fbt]);
        }
    }
}

/// Resuming an enumeration at the pointer of its `k`-th element produces
/// exactly the elements after position `k`: the cursor is exclusive, and no
/// element is skipped or repeated.
pub proof fn lemma_resume_at(s: Seq<(TxPointer, TxId)>, direction: IterDirection, k: int)
    requires
        strictly_oriented(s, direction),
        0 <= k < s.len(),
    ensures
        suffix_beyond(s, Some(s[k].0), direction) == s.skip(k + 1),
{
    let cursor = Some(s[k].0);
    lemma_suffix_beyond_characterized(s, cursor, direction);
    let fb = first_beyond(s, cursor, direction);
    assert forall|j: int| 0 <= j < s.len() implies beyond(cursor, s[j].0, direction) == (j
        > k) by {
        if j < k {
            assert(match direction {
                IterDirection::Ascending => s[j].0.spec_lt(s[k].0),
                IterDirection::Descending => s[k].0.spec_lt(s[j].0),
            });
        }
        if j > k {
            assert(match direction {
                IterDirection::Ascending => s[k].0.spec_lt(s[j].0),
                IterDirection::Descending => s[j].0.spec_lt(s[k].0),
            });
        }
    }
    if fb < s.len() {
        assert(beyond(cursor, s[fb].0, direction));
        assert(fb > k);
        if fb > k + 1 {
            assert(!beyond(cursor, s[k + 1].0, direction));
            assert(false);
        }
    } else {
        if k + 1 < s.len() {
            assert(!beyond(cursor, s[k + 1].0, direction));
            assert(false);
        }
    }
    assert(fb == k + 1);
}

/// A walk that has not started yet still has the whole oriented index ahead
/// of it.
pub proof fn lemma_remaining_unstarted(index: Seq<(TxPointer, TxId)>, direction: IterDirection)
    ensures
        remaining_of(index, None, direction) == oriented(index, direction),
{
    let s = oriented(index, direction);
    if s.len() == 0 {
        assert(remaining_of(index, None, direction) =~= s);
    }
}

} // verus!

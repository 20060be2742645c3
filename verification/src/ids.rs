//! The ids of a library: a prefix and a number, minted one above the highest in use.

use vstd::prelude::*;
use vstd::string::*;

use crate::num::{dec, lemma_dec, parse_u32, parsed_u32};
use crate::text::{after_prefix, strip_prefix};

verus! {

/// The number that follows the prefix in an id, where a number does.
pub open spec fn number_after(id: Seq<char>, prefix: Seq<char>) -> Option<nat> {
    match after_prefix(id, prefix) {
        Some(t) => parsed_u32(t),
        None => None,
    }
}

/// The highest number that follows the prefix in any of the ids, or zero.
pub open spec fn top_number(ids: Seq<Seq<char>>, prefix: Seq<char>) -> nat
    decreases ids.len(),
{
    if ids.len() == 0 {
        0
    } else {
        let before = top_number(ids.drop_last(), prefix);
        match number_after(ids.last(), prefix) {
            Some(n) => if n > before {
                n
            } else {
                before
            },
            None => before,
        }
    }
}

/// The id that is minted next.
pub open spec fn next_id(ids: Seq<Seq<char>>, prefix: Seq<char>) -> Seq<char> {
    prefix + dec(top_number(ids, prefix) + 1)
}

/// The higher of `best` and the number of an id.
pub fn raise(best: u32, id: &str, prefix: &str) -> (r: u32)
    ensures
        r == match number_after(id@, prefix@) {
            Some(n) => if n > best {
                n
            } else {
                best as nat
            },
            None => best as nat,
        },
{
    match strip_prefix(id, prefix) {
        Some(t) => match parse_u32(t) {
            Some(n) => if n > best {
                n
            } else {
                best
            },
            None => best,
        },
        None => best,
    }
}

/// The position of the first of the ids that is `id`.
pub open spec fn position_of(ids: Seq<Seq<char>>, id: Seq<char>) -> Option<int>
    decreases ids.len(),
{
    if ids.len() == 0 {
        None
    } else {
        match position_of(ids.drop_last(), id) {
            Some(i) => Some(i),
            None => if ids.last() == id {
                Some(ids.len() - 1)
            } else {
                None
            },
        }
    }
}

/// What [`position_of`] gives: the least position of the id, where it occurs.
pub proof fn lemma_position_of(ids: Seq<Seq<char>>, id: Seq<char>)
    ensures
        match position_of(ids, id) {
            Some(i) => 0 <= i < ids.len() && ids[i] == id && forall|j: int|
                0 <= j < i ==> #[trigger] ids[j] != id,
            None => forall|j: int| 0 <= j < ids.len() ==> #[trigger] ids[j] != id,
        },
    decreases ids.len(),
{
    if ids.len() > 0 {
        lemma_position_of(ids.drop_last(), id);
        assert forall|j: int| 0 <= j < ids.len() - 1 implies #[trigger] ids[j]
            == ids.drop_last()[j] by {}
    }
}

/// A position before which the id does not occur is the first.
pub proof fn lemma_first_position(ids: Seq<Seq<char>>, id: Seq<char>, i: int)
    requires
        0 <= i < ids.len(),
        ids[i] == id,
        forall|j: int| 0 <= j < i ==> #[trigger] ids[j] != id,
    ensures
        position_of(ids, id) == Some(i),
{
    lemma_position_of(ids, id);
    match position_of(ids, id) {
        Some(k) => {
            if k < i {
                assert(ids[k] != id);
            }
            if i < k {
                assert(ids[i] != id);
            }
        },
        None => {
            assert(ids[i] != id);
        },
    }
}

/// Whether no two of the ids are the same.
pub open spec fn distinct(ids: Seq<Seq<char>>) -> bool {
    forall|i: int, j: int| 0 <= i < j < ids.len() ==> #[trigger] ids[i] != #[trigger] ids[j]
}

proof fn lemma_top_number(ids: Seq<Seq<char>>, prefix: Seq<char>, i: int)
    requires
        0 <= i < ids.len(),
    ensures
        number_after(ids[i], prefix) matches Some(n) ==> n <= top_number(ids, prefix),
    decreases ids.len(),
{
    if i < ids.len() - 1 {
        lemma_top_number(ids.drop_last(), prefix, i);
        assert(ids.drop_last()[i] == ids[i]);
    }
}

pub proof fn lemma_number_after_minted(prefix: Seq<char>, n: nat)
    requires
        n <= u32::MAX,
    ensures
        number_after(prefix + dec(n), prefix) == Some(n),
{
    lemma_dec(n);
    assert(prefix.is_prefix_of(prefix + dec(n)));
    assert((prefix + dec(n)).skip(prefix.len() as int) =~= dec(n));
    assert(dec(n)[0] != '+');
}

/// The id that is minted next is not in use.
pub proof fn law_next_id_is_fresh(ids: Seq<Seq<char>>, prefix: Seq<char>)
    requires
        top_number(ids, prefix) < u32::MAX,
    ensures
        forall|i: int| 0 <= i < ids.len() ==> #[trigger] ids[i] != next_id(ids, prefix),
{
    lemma_number_after_minted(prefix, top_number(ids, prefix) + 1);
    assert forall|i: int| 0 <= i < ids.len() implies #[trigger] ids[i] != next_id(
        ids,
        prefix,
    ) by {
        lemma_top_number(ids, prefix, i);
    }
}

// ---- Laws --------------------------------------------------------------

/// A new id is the prefix and the number after the highest in use: none of the ids has a
/// higher one, and one of them has it, or it is zero.
pub proof fn law_next_id_counts_on(ids: Seq<Seq<char>>, prefix: Seq<char>)
    ensures
        next_id(ids, prefix) == prefix + dec(top_number(ids, prefix) + 1),
        forall|i: int|
            0 <= i < ids.len() ==> (number_after(#[trigger] ids[i], prefix) matches Some(n) ==> n
                <= top_number(ids, prefix)),
        top_number(ids, prefix) > 0 ==> exists|i: int|
            0 <= i < ids.len() && number_after(#[trigger] ids[i], prefix) == Some(
                top_number(ids, prefix),
            ),
    decreases ids.len(),
{
    assert forall|i: int| 0 <= i < ids.len() implies (number_after(#[trigger] ids[i], prefix)
        matches Some(n) ==> n <= top_number(ids, prefix)) by {
        lemma_top_number(ids, prefix, i);
    }
    if ids.len() > 0 {
        let rest = ids.drop_last();
        law_next_id_counts_on(rest, prefix);
        assert(ids[ids.len() - 1] == ids.last());
        if top_number(rest, prefix) > 0 {
            let i = choose|i: int|
                0 <= i < rest.len() && number_after(#[trigger] rest[i], prefix) == Some(
                    top_number(rest, prefix),
                );
            assert(ids[i] == rest[i]);
        }
    }
}

} // verus!

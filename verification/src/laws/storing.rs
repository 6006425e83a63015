//! Storing values on a blackboard and reading them back.

use vstd::prelude::*;

use crate::blackboard::{got_or_inserted, reads, written, Blackboard};
use crate::slot::{
    clones_alike, faithful, law_any_value_comes_back, law_any_value_has_one_type, steady, unlike,
    AnySlot, Slot, Value,
};

verus! {

/// A value of any type that was stored is read back as a clone of itself, and as nothing under
/// another type.
pub proof fn law_stored_value_reads_back<T: Clone + Send + 'static, U: Clone + Send + 'static>(
    board: &mut Blackboard<AnySlot>,
    key: &str,
    value: T,
    got: Option<T>,
    seen: Option<U>,
)
    requires
        call_ensures(Blackboard::<AnySlot>::set::<T>, (board, key, value), ()),
        call_ensures(Blackboard::<AnySlot>::get::<T>, (&*final(board), key), got),
        call_ensures(Blackboard::<AnySlot>::get::<U>, (&*final(board), key), seen),
    ensures
        got matches Some(copy) && cloned(value, copy),
        unlike::<T, U>() ==> seen is None,
{
    law_any_value_comes_back::<T>();
    if unlike::<T, U>() {
        law_any_value_has_one_type::<T, U>();
    }
    assert(written(old(board)@, key@, value, final(board)@));
    assert(reads(final(board)@, key@, got));
    assert(reads(final(board)@, key@, seen));
}

/// A plain value that was stored is read back as it is, and the last one stored under a key is the
/// one there.
pub proof fn law_plain_value_reads_back(
    board: &mut Blackboard<Value>,
    again: &mut Blackboard<Value>,
    key: &str,
    number: u64,
    text: String,
    first: Option<u64>,
    second: Option<String>,
    stale: Option<u64>,
)
    requires
        call_ensures(Blackboard::<Value>::set::<u64>, (board, key, number), ()),
        call_ensures(Blackboard::<Value>::get::<u64>, (&*final(board), key), first),
        *old(again) == *final(board),
        call_ensures(Blackboard::<Value>::set::<String>, (again, key, text), ()),
        call_ensures(Blackboard::<Value>::get::<String>, (&*final(again), key), second),
        call_ensures(Blackboard::<Value>::get::<u64>, (&*final(again), key), stale),
    ensures
        first == Some(number),
        second == Some(text),
        stale is None,
{
    assert(written(old(board)@, key@, number, final(board)@));
    assert(reads(final(board)@, key@, first));
    assert(written(old(again)@, key@, text, final(again)@));
    assert(reads(final(again)@, key@, second));
    assert(reads(final(again)@, key@, stale));
}

/// Storing and removing under one key leaves what is read under every other as it was.
pub proof fn law_other_keys_read_as_before<V: Slot<T> + Slot<U>, T, U: Clone>(
    set: &mut Blackboard<V>,
    cut: &mut Blackboard<V>,
    key: &str,
    value: T,
    found: bool,
    other: &str,
    before: Option<U>,
    after: Option<U>,
    gone: Option<U>,
)
    requires
        steady::<V, U>(),
        clones_alike::<U>(),
        call_ensures(Blackboard::<V>::get::<U>, (&*old(set), other), before),
        call_ensures(Blackboard::<V>::set::<T>, (set, key, value), ()),
        call_ensures(Blackboard::<V>::get::<U>, (&*final(set), other), after),
        *old(cut) == *old(set),
        call_ensures(Blackboard::<V>::remove, (cut, key), found),
        call_ensures(Blackboard::<V>::get::<U>, (&*final(cut), other), gone),
        other@ != key@,
    ensures
        after == before,
        gone == before,
{
    assert(reads(old(set)@, other@, before));
    assert(written(old(set)@, key@, value, final(set)@));
    assert(reads(final(set)@, other@, after));
    assert(reads(final(cut)@, other@, gone));
}

/// A key that was removed reads as nothing and is not contained; the removal tells whether it was.
pub proof fn law_removed_key_is_gone<V: Slot<T>, T: Clone>(
    board: &mut Blackboard<V>,
    key: &str,
    was: bool,
    found: bool,
    now: bool,
    got: Option<T>,
    other: &str,
    other_was: bool,
    other_is: bool,
)
    requires
        call_ensures(Blackboard::<V>::contains, (&*old(board), key), was),
        call_ensures(Blackboard::<V>::contains, (&*old(board), other), other_was),
        call_ensures(Blackboard::<V>::remove, (board, key), found),
        call_ensures(Blackboard::<V>::contains, (&*final(board), key), now),
        call_ensures(Blackboard::<V>::contains, (&*final(board), other), other_is),
        call_ensures(Blackboard::<V>::get::<T>, (&*final(board), key), got),
    ensures
        found <==> was,
        !now,
        got is None,
        other@ != key@ ==> (other_is <==> other_was),
{
    assert(reads(final(board)@, key@, got));
}

/// A key that was stored is contained, and no other is that was not before; there is one more just
/// where it was absent.
pub proof fn law_stored_key_is_contained<V: Slot<T>, T>(
    board: &mut Blackboard<V>,
    key: &str,
    value: T,
    was: bool,
    now: bool,
    other: &str,
    other_was: bool,
    other_is: bool,
    count: usize,
    counted: usize,
)
    requires
        call_ensures(Blackboard::<V>::contains, (&*old(board), key), was),
        call_ensures(Blackboard::<V>::contains, (&*old(board), other), other_was),
        call_ensures(Blackboard::<V>::len, (&*old(board),), count),
        call_ensures(Blackboard::<V>::set::<T>, (board, key, value), ()),
        call_ensures(Blackboard::<V>::contains, (&*final(board), key), now),
        call_ensures(Blackboard::<V>::contains, (&*final(board), other), other_is),
        call_ensures(Blackboard::<V>::len, (&*final(board),), counted),
    ensures
        now,
        other@ != key@ ==> (other_is <==> other_was),
        counted == if was {
            count as int
        } else {
            count + 1
        },
{
    assert(written(old(board)@, key@, value, final(board)@));
}

/// A removal takes one key where it was there, and none otherwise.
pub proof fn law_removal_is_counted<V>(
    board: &mut Blackboard<V>,
    key: &str,
    found: bool,
    count: usize,
    counted: usize,
)
    requires
        call_ensures(Blackboard::<V>::len, (&*old(board),), count),
        call_ensures(Blackboard::<V>::remove, (board, key), found),
        call_ensures(Blackboard::<V>::len, (&*final(board),), counted),
    ensures
        counted == if found {
            count - 1
        } else {
            count as int
        },
{
}

/// A new board contains nothing, and a board is empty just where it counts no key.
pub proof fn law_empty_board_contains_nothing<V>(
    made: Blackboard<V>,
    plain: Blackboard<V>,
    key: &str,
    found: bool,
    seen: bool,
    any: Blackboard<V>,
    count: usize,
    empty: bool,
)
    requires
        call_ensures(Blackboard::<V>::new, (), made),
        call_ensures(<Blackboard<V> as Default>::default, (), plain),
        call_ensures(Blackboard::<V>::contains, (&made, key), found),
        call_ensures(Blackboard::<V>::contains, (&plain, key), seen),
        call_ensures(Blackboard::<V>::len, (&any,), count),
        call_ensures(Blackboard::<V>::is_empty, (&any,), empty),
    ensures
        !found,
        !seen,
        empty <==> count == 0,
{
    if count == 0 {
        assert(any@.dom() =~= Set::<Seq<char>>::empty()) by {
            any@.dom().lemma_len0_is_empty();
        }
        assert(any@ =~= Map::<Seq<char>, V>::empty());
    }
    if empty {
        assert(any@.dom() =~= Set::<Seq<char>>::empty());
    }
}

/// The keys of a board are those that it contains, each once, and as many as it counts.
pub proof fn law_keys_are_those_contained<V>(
    board: Blackboard<V>,
    keys: Vec<String>,
    count: usize,
    key: &str,
    found: bool,
)
    requires
        call_ensures(Blackboard::<V>::keys, (&board,), keys),
        call_ensures(Blackboard::<V>::len, (&board,), count),
        call_ensures(Blackboard::<V>::contains, (&board, key), found),
    ensures
        keys@.len() == count,
        found <==> exists|i: int| 0 <= i < keys@.len() && (#[trigger] keys@[i])@ == key@,
        forall|i: int, j: int|
            0 <= i < keys@.len() && 0 <= j < keys@.len() && i != j ==> (#[trigger] keys@[i])@ != (
            #[trigger] keys@[j])@,
{
}

/// What is there as a `T` is given and nothing is stored; otherwise the default is given and is
/// there from now on. Either way the next one who asks gets what was given, where clones are
/// equal.
pub proof fn law_default_is_stored_once<V: Slot<T>, T: Clone>(
    first: &mut Blackboard<V>,
    second: &mut Blackboard<V>,
    key: &str,
    default: T,
    other: T,
    held: Option<T>,
    one: T,
    two: T,
)
    requires
        faithful::<V, T>(),
        steady::<V, T>(),
        clones_alike::<T>(),
        call_ensures(Blackboard::<V>::get::<T>, (&*old(first), key), held),
        call_ensures(Blackboard::<V>::get_or_insert::<T>, (first, key, default), one),
        *old(second) == *final(first),
        call_ensures(Blackboard::<V>::get_or_insert::<T>, (second, key, other), two),
    ensures
        held matches Some(existing) ==> one == existing && final(first)@ == old(first)@,
        held is None ==> one == default && final(first)@.contains_key(key@),
        two == one,
        final(second)@ == final(first)@,
        forall|k: Seq<char>|
            k != key@ ==> (#[trigger] final(first)@.contains_key(k) <==> old(first)@.contains_key(
                k,
            )) && (old(first)@.contains_key(k) ==> final(first)@[k] == old(first)@[k]),
{
    assert(reads(old(first)@, key@, held));
    assert(got_or_inserted(old(first)@, key@, default, one, final(first)@));
    assert(got_or_inserted(old(second)@, key@, other, two, final(second)@));
    let again = choose|again: Option<T>|
        #[trigger] reads(old(second)@, key@, again) && match again {
            Some(existing) => two == existing && final(second)@ == old(second)@,
            None => two == other && exists|copy: T|
                #[trigger] cloned(other, copy) && written(
                    old(second)@,
                    key@,
                    copy,
                    final(second)@,
                ),
        };
    assert(reads(old(second)@, key@, again));
    assert(again is Some);
}

} // verus!

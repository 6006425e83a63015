//! A small typed store for passing data between tasks and steps.
//!
//! Values are stored by string key and retrieved by type: [`Blackboard::get`] returns `Some`
//! only if a value under that key was stored with the requested type.

use vstd::prelude::*;

use crate::slot::{
    apart, clones_alike, faithful, law_any_value_comes_back, law_any_value_has_one_type, steady,
    unlike, AnySlot, Slot, Value,
};

verus! {

/// Whether reading `key` as a `T` may give `got`: what the slot under the key gives, and nothing
/// where the key is absent.
pub open spec fn reads<V: Slot<T>, T: Clone>(
    board: Map<Seq<char>, V>,
    key: Seq<char>,
    got: Option<T>,
) -> bool {
    if board.contains_key(key) {
        call_ensures(<V as Slot<T>>::unpack, (&board[key],), got)
    } else {
        got is None
    }
}

/// Whether a board with `value` stored under `key` may become `after`: the wrapped value is there,
/// and everything else is as it was.
pub open spec fn written<V: Slot<T>, T>(
    board: Map<Seq<char>, V>,
    key: Seq<char>,
    value: T,
    after: Map<Seq<char>, V>,
) -> bool {
    exists|slot: V|
        #[trigger] call_ensures(<V as Slot<T>>::pack, (value,), slot) && after == board.insert(
            key,
            slot,
        )
}

/// Whether asking for the value under `key`, or else storing `default`, may give `value` and
/// leave `after`: what is there as a `T` is given and nothing changes; otherwise a copy of the
/// default is stored and the default is given.
pub open spec fn got_or_inserted<V: Slot<T>, T: Clone>(
    board: Map<Seq<char>, V>,
    key: Seq<char>,
    default: T,
    value: T,
    after: Map<Seq<char>, V>,
) -> bool {
    exists|held: Option<T>|
        #[trigger] reads(board, key, held) && match held {
            Some(existing) => value == existing && after == board,
            None => value == default && exists|copy: T|
                #[trigger] cloned(default, copy) && written(board, key, copy, after),
        }
}

/// Whether no key occurs twice.
spec fn distinct_keys<V>(entries: Seq<(String, V)>) -> bool {
    forall|i: int, j: int|
        0 <= i < j < entries.len() ==> #[trigger] entries[i].0@ != #[trigger] entries[j].0@
}

/// Whether a value is stored under `key`.
spec fn has_key<V>(entries: Seq<(String, V)>, key: Seq<char>) -> bool {
    exists|i: int| 0 <= i < entries.len() && #[trigger] entries[i].0@ == key
}

/// The position of the value stored under `key`.
spec fn position<V>(entries: Seq<(String, V)>, key: Seq<char>) -> int {
    choose|i: int| 0 <= i < entries.len() && #[trigger] entries[i].0@ == key
}

/// The entries as a map from key to value.
spec fn as_map<V>(entries: Seq<(String, V)>) -> Map<Seq<char>, V> {
    Map::new(
        |key: Seq<char>| has_key(entries, key),
        |key: Seq<char>| entries[position(entries, key)].1,
    )
}

/// A typed key/value store.
///
/// Its view maps each stored key to the value under it. It is an owned store: steps that share
/// one hold it behind a handle of the runtime's.
#[derive(Debug)]
pub struct Blackboard<V = Value> {
    entries: Vec<(String, V)>,
}

impl<V> View for Blackboard<V> {
    type V = Map<Seq<char>, V>;

    closed spec fn view(&self) -> Map<Seq<char>, V> {
        as_map(self.entries@)
    }
}

proof fn lemma_entry<V>(entries: Seq<(String, V)>, i: int)
    requires
        distinct_keys(entries),
        0 <= i < entries.len(),
    ensures
        as_map(entries).contains_key(entries[i].0@),
        as_map(entries)[entries[i].0@] == entries[i].1,
        position(entries, entries[i].0@) == i,
{
    let j = position(entries, entries[i].0@);
    assert(0 <= j < entries.len() && entries[j].0@ == entries[i].0@);
    if i < j {
        assert(entries[i].0@ != entries[j].0@);
    } else if j < i {
        assert(entries[j].0@ != entries[i].0@);
    }
}

proof fn lemma_push<V>(entries: Seq<(String, V)>, key: String, value: V)
    requires
        distinct_keys(entries),
        !has_key(entries, key@),
    ensures
        distinct_keys(entries.push((key, value))),
        as_map(entries.push((key, value))) == as_map(entries).insert(key@, value),
{
    let after = entries.push((key, value));
    assert forall|i: int, j: int| 0 <= i < j < after.len() implies #[trigger] after[i].0@
        != #[trigger] after[j].0@ by {
        if j == entries.len() {
            assert(entries[i].0@ != key@);
        } else {
            assert(entries[i].0@ != entries[j].0@);
        }
    }
    assert forall|k: Seq<char>| has_key(after, k) == (k == key@ || has_key(entries, k)) by {
        if has_key(entries, k) {
            let i = position(entries, k);
            assert(after[i].0@ == k);
        }
        if k == key@ {
            assert(after[entries.len() as int].0@ == k);
        }
    }
    assert forall|k: Seq<char>| has_key(after, k) implies as_map(after)[k] == as_map(
        entries,
    ).insert(key@, value)[k] by {
        let i = position(after, k);
        lemma_entry(after, i);
        if i < entries.len() {
            lemma_entry(entries, i);
        }
    }
    assert(as_map(after) =~= as_map(entries).insert(key@, value));
}

proof fn lemma_remove<V>(entries: Seq<(String, V)>, at: int)
    requires
        distinct_keys(entries),
        0 <= at < entries.len(),
    ensures
        distinct_keys(entries.remove(at)),
        !has_key(entries.remove(at), entries[at].0@),
        as_map(entries.remove(at)) == as_map(entries).remove(entries[at].0@),
{
    let after = entries.remove(at);
    let key = entries[at].0@;
    assert forall|i: int| 0 <= i < after.len() implies #[trigger] after[i] == (if i < at {
        entries[i]
    } else {
        entries[i + 1]
    }) by {}
    assert forall|i: int, j: int| 0 <= i < j < after.len() implies #[trigger] after[i].0@
        != #[trigger] after[j].0@ by {
        let a = if i < at { i } else { i + 1 };
        let b = if j < at { j } else { j + 1 };
        assert(entries[a].0@ != entries[b].0@);
    }
    assert forall|i: int| 0 <= i < after.len() implies #[trigger] after[i].0@ != key by {
        let a = if i < at { i } else { i + 1 };
        if a < at {
            assert(entries[a].0@ != entries[at].0@);
        } else {
            assert(entries[at].0@ != entries[a].0@);
        }
    }
    assert forall|k: Seq<char>| has_key(after, k) == (k != key && has_key(entries, k)) by {
        if has_key(after, k) {
            let i = position(after, k);
            let a = if i < at { i } else { i + 1 };
            assert(entries[a].0@ == k);
        }
        if k != key && has_key(entries, k) {
            let i = position(entries, k);
            let b = if i < at { i } else { i - 1 };
            assert(after[b].0@ == k);
        }
    }
    assert forall|k: Seq<char>| has_key(after, k) implies as_map(after)[k] == as_map(entries)[k] by {
        let i = position(after, k);
        let a = if i < at { i } else { i + 1 };
        lemma_entry(after, i);
        lemma_entry(entries, a);
    }
    assert(as_map(after) =~= as_map(entries).remove(key));
}

proof fn lemma_len<V>(entries: Seq<(String, V)>)
    requires
        distinct_keys(entries),
    ensures
        as_map(entries).dom().finite(),
        as_map(entries).len() == entries.len(),
    decreases entries.len(),
{
    if entries.len() == 0 {
        assert(as_map(entries) =~= Map::empty());
    } else {
        let front = entries.drop_last();
        let last = entries.last();
        assert(front.push(last) =~= entries);
        assert(distinct_keys(front)) by {
            assert forall|i: int, j: int| 0 <= i < j < front.len() implies #[trigger] front[i].0@
                != #[trigger] front[j].0@ by {
                assert(entries[i].0@ != entries[j].0@);
            }
        }
        assert(!has_key(front, last.0@)) by {
            assert forall|i: int| 0 <= i < front.len() implies #[trigger] front[i].0@ != last.0@ by {
                assert(entries[i].0@ != entries[entries.len() - 1].0@);
            }
        }
        lemma_len(front);
        lemma_push(front, last.0, last.1);
    }
}

impl<V> Blackboard<V> {
    #[verifier::type_invariant]
    spec fn keys_are_distinct(self) -> bool {
        distinct_keys(self.entries@)
    }

    /// Create a new, empty blackboard.
    pub fn new() -> (board: Blackboard<V>)
        ensures
            board@ == Map::<Seq<char>, V>::empty(),
    {
        let board = Blackboard { entries: Vec::new() };
        assert(board@ =~= Map::empty());
        board
    }

    /// The position of the value stored under `key`, if any.
    fn find(&self, key: &str) -> (found: Option<usize>)
        ensures
            match found {
                Some(i) => i < self.entries@.len() && self.entries@[i as int].0@ == key@,
                None => !has_key(self.entries@, key@),
            },
    {
        let wanted = key.to_string();
        let mut i: usize = 0;
        while i < self.entries.len()
            invariant
                wanted@ == key@,
                i <= self.entries@.len(),
                forall|j: int| 0 <= j < i ==> #[trigger] self.entries@[j].0@ != key@,
            decreases self.entries@.len() - i,
        {
            if self.entries[i].0 == wanted {
                return Some(i);
            }
            i += 1;
        }
        None
    }

    /// Store `value` under `key`, replacing any previous value regardless of its type.
    pub fn set<T>(&mut self, key: &str, value: T) where V: Slot<T>
        ensures
            written(old(self)@, key@, value, final(self)@),
    {
        let slot = V::pack(value);
        self.store(key, slot);
    }

    /// Store a wrapped value under `key`.
    fn store(&mut self, key: &str, slot: V)
        ensures
            final(self)@ == old(self)@.insert(key@, slot),
    {
        let _ = self.remove(key);
        proof {
            use_type_invariant(&*self);
        }
        let mut entries: Vec<(String, V)> = Vec::new();
        std::mem::swap(&mut entries, &mut self.entries);
        proof {
            assert(!has_key(entries@, key@)) by {
                if has_key(entries@, key@) {
                    assert(as_map(entries@).contains_key(key@));
                }
            }
        }
        let name = key.to_string();
        proof {
            lemma_push(entries@, name, slot);
            assert(old(self)@.remove(key@).insert(key@, slot) =~= old(self)@.insert(key@, slot));
        }
        entries.push((name, slot));
        self.entries = entries;
    }

    /// A copy of the value stored under `key`, if one exists and was stored as type `T`.
    /// Returns `None` if the key is absent or holds a different type.
    pub fn get<T>(&self, key: &str) -> (value: Option<T>) where V: Slot<T>, T: Clone
        ensures
            reads(self@, key@, value),
    {
        proof {
            use_type_invariant(self);
        }
        match self.find(key) {
            Some(i) => {
                proof {
                    lemma_entry(self.entries@, i as int);
                }
                self.entries[i].1.unpack()
            },
            None => None,
        }
    }

    /// Whether a value is stored under `key` (of any type).
    pub fn contains(&self, key: &str) -> (found: bool)
        ensures
            found == self@.contains_key(key@),
    {
        self.find(key).is_some()
    }

    /// Remove the value stored under `key`. Returns `true` if a value was present.
    pub fn remove(&mut self, key: &str) -> (found: bool)
        ensures
            found == old(self)@.contains_key(key@),
            final(self)@ == old(self)@.remove(key@),
    {
        proof {
            use_type_invariant(&*self);
        }
        match self.find(key) {
            Some(i) => {
                proof {
                    lemma_remove(self.entries@, i as int);
                }
                let mut entries: Vec<(String, V)> = Vec::new();
                std::mem::swap(&mut entries, &mut self.entries);
                let _ = entries.remove(i);
                self.entries = entries;
                true
            },
            None => {
                assert(self@.remove(key@) =~= self@);
                false
            },
        }
    }

    /// The value under `key` if present and of type `T`; otherwise store and return `default`.
    pub fn get_or_insert<T>(&mut self, key: &str, default: T) -> (value: T) where
        V: Slot<T>,
        T: Clone,

        ensures
            got_or_inserted(old(self)@, key@, default, value, final(self)@),
    {
        match self.get::<T>(key) {
            Some(existing) => existing,
            None => {
                let copy = default.clone();
                assert(cloned(default, copy));
                self.set(key, copy);
                default
            },
        }
    }

    /// The number of stored keys.
    pub fn len(&self) -> (count: usize)
        ensures
            self@.dom().finite(),
            count == self@.len(),
    {
        proof {
            use_type_invariant(self);
            lemma_len(self.entries@);
        }
        self.entries.len()
    }

    /// Whether the blackboard holds no values.
    pub fn is_empty(&self) -> (empty: bool)
        ensures
            empty == (self@ == Map::<Seq<char>, V>::empty()),
    {
        proof {
            use_type_invariant(self);
            lemma_len(self.entries@);
            if self.entries@.len() == 0 {
                assert(self@ =~= Map::empty());
            }
        }
        self.entries.len() == 0
    }

    /// A snapshot of all currently stored keys, each once.
    pub fn keys(&self) -> (keys: Vec<String>)
        ensures
            keys@.len() == self@.len(),
            forall|i: int, j: int|
                0 <= i < j < keys@.len() ==> #[trigger] keys@[i]@ != #[trigger] keys@[j]@,
            forall|i: int| 0 <= i < keys@.len() ==> self@.contains_key(#[trigger] keys@[i]@),
            forall|key: Seq<char>|
                #[trigger] self@.contains_key(key) ==> exists|i: int|
                    0 <= i < keys@.len() && #[trigger] keys@[i]@ == key,
    {
        proof {
            use_type_invariant(self);
            lemma_len(self.entries@);
        }
        let mut keys: Vec<String> = Vec::new();
        let mut i: usize = 0;
        while i < self.entries.len()
            invariant
                i <= self.entries@.len(),
                keys@.len() == i,
                forall|j: int| 0 <= j < i ==> #[trigger] keys@[j]@ == self.entries@[j].0@,
            decreases self.entries@.len() - i,
        {
            keys.push(self.entries[i].0.clone());
            i += 1;
        }
        proof {
            assert forall|i: int, j: int| 0 <= i < j < keys@.len() implies #[trigger] keys@[i]@
                != #[trigger] keys@[j]@ by {
                assert(self.entries@[i].0@ != self.entries@[j].0@);
            }
            assert forall|j: int| 0 <= j < keys@.len() implies self@.contains_key(
                #[trigger] keys@[j]@,
            ) by {
                lemma_entry(self.entries@, j);
            }
            assert forall|key: Seq<char>| #[trigger] self@.contains_key(key) implies exists|j: int|
                0 <= j < keys@.len() && #[trigger] keys@[j]@ == key by {
                let j = position(self.entries@, key);
                assert(keys@[j]@ == key);
            }
        }
        keys
    }
}

impl<V> Default for Blackboard<V> {
    fn default() -> (board: Blackboard<V>)
        ensures
            board@ == Map::<Seq<char>, V>::empty(),
    {
        Blackboard::new()
    }
}

/// Reading gives back a clone of what was last written under the key, as the type it was written
/// with, which is that value where clones are equal. Writing under one key leaves every other key
/// as it was, whatever its type.
pub proof fn law_read_after_write<V: Slot<T> + Slot<U>, T: Clone, U: Clone>(
    board: Map<Seq<char>, V>,
    key: Seq<char>,
    value: T,
    after: Map<Seq<char>, V>,
    got: Option<T>,
    other: Seq<char>,
    seen: Option<U>,
)
    requires
        faithful::<V, T>(),
        written(board, key, value, after),
        reads(after, key, got),
    ensures
        got matches Some(copy) && cloned(value, copy),
        clones_alike::<T>() ==> got == Some(value),
        other != key ==> (reads::<V, U>(after, other, seen) <==> reads::<V, U>(
            board,
            other,
            seen,
        )),
{
}

/// A removed key is gone under every type, and the other keys stay.
pub proof fn law_read_after_remove<V: Slot<T>, T: Clone>(
    board: Map<Seq<char>, V>,
    key: Seq<char>,
    other: Seq<char>,
    got: Option<T>,
)
    ensures
        reads(board.remove(key), key, got) ==> got is None,
        other != key ==> (reads(board.remove(key), other, got) <==> reads(board, other, got)),
{
}

/// A later write replaces the value under a key whatever its type: read as another type than it was
/// last written with, the key yields nothing.
pub proof fn law_read_as_another_type<V: Slot<T> + Slot<U>, T, U: Clone>(
    board: Map<Seq<char>, V>,
    key: Seq<char>,
    value: T,
    after: Map<Seq<char>, V>,
    got: Option<U>,
)
    requires
        apart::<V, T, U>(),
        written(board, key, value, after),
        reads(after, key, got),
    ensures
        got is None,
{
}

/// A write adds its key where it was absent, and no other: there is one key more then, and as many
/// as before otherwise.
pub proof fn law_write_adds_its_key<V: Slot<T>, T>(
    board: Map<Seq<char>, V>,
    key: Seq<char>,
    value: T,
    after: Map<Seq<char>, V>,
    other: Seq<char>,
)
    requires
        board.dom().finite(),
        written(board, key, value, after),
    ensures
        after.contains_key(key),
        other != key ==> after.contains_key(other) == board.contains_key(other),
        after.len() == if board.contains_key(key) {
            board.len()
        } else {
            board.len() + 1
        },
{
}

/// What is there as a `T` is given and the board stays as it is; otherwise, be the key absent or
/// held as another type, the default is given and replaces what was there. Either way a read then
/// gives a value, every other key is as it was, and there is one key more just where it was absent.
/// Where clones are equal, the value given is the one that was read before, or else the default, and
/// a read then gives it again.
pub proof fn law_get_or_insert<V: Slot<T>, T: Clone>(
    board: Map<Seq<char>, V>,
    key: Seq<char>,
    default: T,
    value: T,
    after: Map<Seq<char>, V>,
    held: Option<T>,
    got: Option<T>,
    other: Seq<char>,
)
    requires
        faithful::<V, T>(),
        steady::<V, T>(),
        board.dom().finite(),
        reads(board, key, held),
        got_or_inserted(board, key, default, value, after),
        reads(after, key, got),
    ensures
        held is Some ==> after == board && reads(board, key, Some(value)),
        held is None ==> value == default && exists|copy: T|
            #[trigger] cloned(default, copy) && written(board, key, copy, after),
        got is Some,
        clones_alike::<T>() ==> {
            &&& held matches Some(existing) ==> value == existing
            &&& held is None ==> written(board, key, default, after)
            &&& got == Some(value)
        },
        other != key ==> after.contains_key(other) == board.contains_key(other) && (
        board.contains_key(other) ==> after[other] == board[other]),
        after.len() == if board.contains_key(key) {
            board.len()
        } else {
            board.len() + 1
        },
{
}

/// A key that yields a value as some type is contained; one that was written is contained,
/// whatever it yields, and one that was removed is not.
pub proof fn law_contains_follows_writes<V: Slot<T>, T: Clone>(
    board: Map<Seq<char>, V>,
    key: Seq<char>,
    value: T,
    after: Map<Seq<char>, V>,
    got: Option<T>,
)
    requires
        reads(board, key, got),
        written(board, key, value, after),
    ensures
        got is Some ==> board.contains_key(key),
        after.contains_key(key),
        !board.remove(key).contains_key(key),
        !Map::<Seq<char>, V>::empty().contains_key(key),
{
}

/// A board that holds values of any type gives back a clone of what was last written under a key,
/// as the type it was written with, and nothing as another type, whatever was there before.
pub proof fn law_any_type_reads_back<T: Clone + Send + 'static, U: Clone + Send + 'static>(
    board: Map<Seq<char>, AnySlot>,
    key: Seq<char>,
    value: T,
    after: Map<Seq<char>, AnySlot>,
    got: Option<T>,
    seen: Option<U>,
)
    requires
        written(board, key, value, after),
        reads(after, key, got),
        reads(after, key, seen),
    ensures
        got matches Some(copy) && cloned(value, copy),
        clones_alike::<T>() ==> got == Some(value),
        unlike::<T, U>() ==> seen is None,
{
    law_any_value_comes_back::<T>();
    if unlike::<T, U>() {
        law_any_value_has_one_type::<T, U>();
    }
}

/// On a board that holds values of any type, what is there as a `T` is given and stays; otherwise
/// the default is given and replaces what was there, whatever its type. A read then gives it again,
/// where clones are equal, and every other key is as it was.
pub proof fn law_any_type_get_or_insert<T: Clone + Send + 'static>(
    board: Map<Seq<char>, AnySlot>,
    key: Seq<char>,
    default: T,
    value: T,
    after: Map<Seq<char>, AnySlot>,
    held: Option<T>,
    got: Option<T>,
    other: Seq<char>,
)
    requires
        board.dom().finite(),
        reads(board, key, held),
        got_or_inserted(board, key, default, value, after),
        reads(after, key, got),
    ensures
        held is Some ==> after == board,
        held is None ==> value == default,
        got is Some,
        clones_alike::<T>() ==> (held matches Some(existing) ==> value == existing),
        clones_alike::<T>() ==> got == Some(value),
        other != key ==> after.contains_key(other) == board.contains_key(other) && (
        board.contains_key(other) ==> after[other] == board[other]),
        after.len() == if board.contains_key(key) {
            board.len()
        } else {
            board.len() + 1
        },
{
    law_any_value_comes_back::<T>();
    law_get_or_insert(board, key, default, value, after, held, got, other);
}

} // verus!

//! A map from text to values, kept in key order.
use vstd::prelude::*;

use crate::text;
use crate::text::{same_text, text_before};

verus! {

/// Entries by key. A map that starts empty and grows by `insert` holds them in ascending key
/// order, each key once.
#[derive(Debug, PartialEq)]
pub struct TextMap<V> {
    pub entries: Vec<(String, V)>,
}

/// Position of the first pair whose key is `key`, or the number of pairs.
pub open spec fn index_of<K, T>(pairs: Seq<(K, T)>, key: K) -> nat
    decreases pairs.len(),
{
    if pairs.len() == 0 || pairs[0].0 == key {
        0
    } else {
        1 + index_of(pairs.skip(1), key)
    }
}

/// The value stored under `key`.
pub open spec fn lookup<K, T>(pairs: Seq<(K, T)>, key: K) -> Option<T> {
    let i = index_of(pairs, key);
    if i < pairs.len() {
        Some(pairs[i as int].1)
    } else {
        None
    }
}

/// Whether some pair has the key `key`.
pub open spec fn has_key<K, T>(pairs: Seq<(K, T)>, key: K) -> bool {
    lookup(pairs, key) is Some
}

/// The pairs with the value stored under `key`: in place of the old one, or
/// before the first greater key.
pub open spec fn stored<T>(pairs: Seq<(Seq<char>, T)>, key: Seq<char>, value: T) -> Seq<
    (Seq<char>, T),
>
    decreases pairs.len(),
{
    if pairs.len() == 0 {
        seq![(key, value)]
    } else if pairs[0].0 == key {
        seq![(key, value)] + pairs.skip(1)
    } else if text::before(key, pairs[0].0) {
        seq![(key, value)] + pairs
    } else {
        seq![pairs[0]] + stored(pairs.skip(1), key, value)
    }
}

/// Keys strictly ascending.
pub open spec fn ascending<T>(pairs: Seq<(Seq<char>, T)>) -> bool {
    forall|i: int, j: int|
        0 <= i < j < pairs.len() ==> text::before((#[trigger] pairs[i]).0, (#[trigger] pairs[j]).0)
}

/// The first match decides a lookup.
pub proof fn lemma_index_of<K, T>(pairs: Seq<(K, T)>, key: K, i: int)
    requires
        0 <= i <= pairs.len(),
        forall|j: int| 0 <= j < i ==> (#[trigger] pairs[j]).0 != key,
        i == pairs.len() || pairs[i].0 == key,
    ensures
        index_of(pairs, key) == i,
    decreases pairs.len(),
{
    if pairs.len() > 0 && i > 0 {
        let rest = pairs.skip(1);
        assert forall|j: int| 0 <= j < i - 1 implies (#[trigger] rest[j]).0 != key by {
            assert(rest[j] == pairs[j + 1]);
        }
        lemma_index_of(rest, key, i - 1);
    }
}

/// An index that a lookup finds holds the key, and no earlier one does.
pub proof fn lemma_found<K, T>(pairs: Seq<(K, T)>, key: K)
    ensures
        0 <= index_of(pairs, key) <= pairs.len(),
        index_of(pairs, key) < pairs.len() ==> pairs[index_of(pairs, key) as int].0 == key,
        forall|j: int| 0 <= j < index_of(pairs, key) ==> (#[trigger] pairs[j]).0 != key,
    decreases pairs.len(),
{
    if pairs.len() > 0 && pairs[0].0 != key {
        let rest = pairs.skip(1);
        lemma_found(rest, key);
        assert forall|j: int| 0 <= j < index_of(pairs, key) implies (#[trigger] pairs[j]).0
            != key by {
            if j > 0 {
                assert(rest[j - 1] == pairs[j]);
            }
        }
    }
}

impl<V> TextMap<V> {
    /// A map with no entries.
    pub fn new() -> (map: Self)
        ensures
            map.entries@.len() == 0,
            map.well_formed(),
    {
        TextMap { entries: Vec::new() }
    }

    /// The entries, their values taken as they are.
    pub open spec fn pairs(&self) -> Seq<(Seq<char>, V)> {
        self.entries@.map_values(|entry: (String, V)| (entry.0@, entry.1))
    }

    /// Keys in ascending order, each once: what `new` gives, and what `insert` and
    /// `remove` keep.
    pub open spec fn well_formed(&self) -> bool {
        ascending(self.pairs())
    }

    pub fn len(&self) -> (n: usize)
        ensures
            n == self.entries@.len(),
    {
        self.entries.len()
    }

    pub fn is_empty(&self) -> (empty: bool)
        ensures
            empty == (self.entries@.len() == 0),
    {
        self.entries.len() == 0
    }

    /// Position of `key`, or the number of entries.
    pub fn position(&self, key: &str) -> (at: usize)
        ensures
            at == index_of(self.pairs(), key@),
            at <= self.entries@.len(),
            at < self.entries@.len() ==> self.entries@[at as int].0@ == key@,
            forall|j: int| 0 <= j < at ==> (#[trigger] self.entries@[j]).0@ != key@,
    {
        let mut i: usize = 0;
        while i < self.entries.len()
            invariant
                i <= self.entries@.len(),
                forall|j: int| 0 <= j < i ==> (#[trigger] self.entries@[j]).0@ != key@,
            decreases self.entries@.len() - i,
        {
            if same_text(&self.entries[i].0, key) {
                proof {
                    lemma_index_of(self.pairs(), key@, i as int);
                }
                return i;
            }
            i = i + 1;
        }
        proof {
            lemma_index_of(self.pairs(), key@, i as int);
        }
        i
    }

    /// The value stored under `key`.
    pub fn get(&self, key: &str) -> (found: Option<&V>)
        ensures
            match found {
                Some(value) => lookup(self.pairs(), key@) == Some(*value),
                None => lookup(self.pairs(), key@) is None,
            },
    {
        let at: usize = self.position(key);
        if at < self.entries.len() {
            Some(&self.entries[at].1)
        } else {
            None
        }
    }

    pub fn contains_key(&self, key: &str) -> (found: bool)
        ensures
            found == has_key(self.pairs(), key@),
    {
        self.position(key) < self.entries.len()
    }

    /// Store a value under a key, replacing what was there.
    pub fn insert(&mut self, key: String, value: V)
        ensures
            final(self).pairs() == stored(old(self).pairs(), key@, value),
            old(self).well_formed() ==> final(self).well_formed(),
    {
        let ghost before = self.pairs();
        proof {
            if ascending(before) {
                law_stored(before, key@, value);
            }
        }
        let mut i: usize = 0;
        assert(before.take(0) + stored(before.skip(0), key@, value) =~= stored(
            before,
            key@,
            value,
        )) by {
            assert(before.skip(0) =~= before);
        }
        while i < self.entries.len() && text_before(&self.entries[i].0, &key)
            invariant
                i <= self.entries@.len(),
                before == self.pairs(),
                self.entries@ == old(self).entries@,
                before.take(i as int) + stored(before.skip(i as int), key@, value) == stored(
                    before,
                    key@,
                    value,
                ),
            decreases self.entries@.len() - i,
        {
            proof {
                let rest = before.skip(i as int);
                lemma_before_excludes(self.entries@[i as int].0@, key@);
                assert(rest[0] == before[i as int]);
                assert(rest.skip(1) =~= before.skip(i + 1));
                assert(before.take(i as int) + (seq![rest[0]] + stored(rest.skip(1), key@, value))
                    =~= before.take(i + 1) + stored(before.skip(i + 1), key@, value));
            }
            i = i + 1;
        }
        let same = i < self.entries.len() && same_text(&self.entries[i].0, &key);
        if same {
            let ghost rest = before.skip(i as int);
            let ghost old_entries = self.entries@;
            let entry = (key, value);
            self.entries.set(i, entry);
            proof {
                assert(rest[0] == before[i as int]);
                assert(self.pairs() =~= before.take(i as int) + (seq![(key@, value)] + rest.skip(
                    1,
                )));
            }
        } else {
            let ghost rest = before.skip(i as int);
            proof {
                if i < self.entries@.len() {
                    assert(rest[0] == before[i as int]);
                    lemma_before_total(self.entries@[i as int].0@, key@);
                }
            }
            let entry = (key, value);
            self.entries.insert(i, entry);
            proof {
                assert(self.pairs() =~= before.take(i as int) + (seq![(key@, value)] + rest));
                if i == before.len() {
                    assert(rest =~= Seq::empty());
                    assert(seq![(key@, value)] + rest =~= seq![(key@, value)]);
                }
            }
        }
    }
}

/// The pairs without the one under `key`.
pub open spec fn removed<K, T>(pairs: Seq<(K, T)>, key: K) -> Seq<(K, T)> {
    let i = index_of(pairs, key);
    if i < pairs.len() {
        pairs.remove(i as int)
    } else {
        pairs
    }
}

impl<V> TextMap<V> {
    /// Take out what is stored under a key.
    pub fn remove(&mut self, key: &str)
        ensures
            ({
                let i = index_of(old(self).pairs(), key@);
                final(self).entries@ == if i < old(self).entries@.len() {
                    old(self).entries@.remove(i as int)
                } else {
                    old(self).entries@
                }
            }),
            old(self).well_formed() ==> final(self).well_formed(),
    {
        let at: usize = self.position(key);
        if at < self.entries.len() {
            self.entries.remove(at);
            assert forall|i: int, j: int|
                old(self).well_formed() && 0 <= i < j < self.pairs().len() implies text::before(
                (#[trigger] self.pairs()[i]).0,
                (#[trigger] self.pairs()[j]).0,
            ) by {
                let before = old(self).pairs();
                let i2: int = if i < at { i } else { i + 1 };
                let j2: int = if j < at { j } else { j + 1 };
                assert(self.pairs()[i] == before[i2] && self.pairs()[j] == before[j2]);
            }
        }
    }
}

/// A text that comes before another differs from it, and not the other way round.
pub proof fn lemma_before_excludes(a: Seq<char>, b: Seq<char>)
    requires
        text::before(a, b),
    ensures
        a != b,
        !text::before(b, a),
    decreases a.len(),
{
    if a.len() > 0 && a[0] == b[0] {
        lemma_before_excludes(a.skip(1), b.skip(1));
    }
}

/// Of two different texts one comes first.
pub proof fn lemma_before_total(a: Seq<char>, b: Seq<char>)
    ensures
        text::before(a, b) || text::before(b, a) || a == b,
    decreases a.len(),
{
    if a.len() > 0 && b.len() > 0 {
        if a[0] == b[0] {
            lemma_before_total(a.skip(1), b.skip(1));
            if a.skip(1) == b.skip(1) {
                assert(a =~= seq![a[0]] + a.skip(1));
                assert(b =~= seq![b[0]] + b.skip(1));
            }
        }
    } else {
        assert(a.len() == 0 && b.len() == 0 ==> a =~= b);
    }
}

/// The order of texts is transitive.
pub proof fn lemma_before_transitive(a: Seq<char>, b: Seq<char>, c: Seq<char>)
    requires
        text::before(a, b),
        text::before(b, c),
    ensures
        text::before(a, c),
    decreases a.len(),
{
    if a.len() > 0 && a[0] == b[0] && b[0] == c[0] {
        lemma_before_transitive(a.skip(1), b.skip(1), c.skip(1));
    }
}

/// Storing a value keeps the keys ascending, and a lookup then finds it; every
/// other key keeps its value.
pub proof fn law_stored<T>(pairs: Seq<(Seq<char>, T)>, key: Seq<char>, value: T)
    requires
        ascending(pairs),
    ensures
        ascending(stored(pairs, key, value)),
        lookup(stored(pairs, key, value), key) == Some(value),
        forall|other: Seq<char>|
            other != key ==> #[trigger] lookup(stored(pairs, key, value), other) == lookup(
                pairs,
                other,
            ),
    decreases pairs.len(),
{
    let out = stored(pairs, key, value);
    if pairs.len() == 0 {
        assert forall|other: Seq<char>| other != key implies #[trigger] lookup(out, other)
            == lookup(pairs, other) by {
            lemma_index_of(out, other, 1);
        }
    } else if pairs[0].0 == key {
        assert(out.skip(1) =~= pairs.skip(1));
    } else if before_key(key, pairs) {
        assert(out.skip(1) =~= pairs);
        assert forall|i: int, j: int| 0 <= i < j < out.len() implies text::before(
            (#[trigger] out[i]).0,
            (#[trigger] out[j]).0,
        ) by {
            assert(out[j] == pairs[j - 1]);
            if i == 0 {
                if j > 1 {
                    lemma_before_transitive(key, pairs[0].0, pairs[j - 1].0);
                }
            } else {
                assert(out[i] == pairs[i - 1]);
            }
        }
        assert forall|other: Seq<char>| other != key implies #[trigger] lookup(out, other)
            == lookup(pairs, other) by {
            lemma_found(pairs, other);
        }
    } else {
        let rest = pairs.skip(1);
        let tail = stored(rest, key, value);
        assert(out.skip(1) =~= tail);
        assert forall|i: int, j: int| 0 <= i < j < rest.len() implies text::before(
            (#[trigger] rest[i]).0,
            (#[trigger] rest[j]).0,
        ) by {
            assert(rest[i] == pairs[i + 1] && rest[j] == pairs[j + 1]);
        }
        law_stored(rest, key, value);
        lemma_stored_keys(rest, key, value);
        lemma_before_total(pairs[0].0, key);
        assert forall|i: int, j: int| 0 <= i < j < out.len() implies text::before(
            (#[trigger] out[i]).0,
            (#[trigger] out[j]).0,
        ) by {
            assert(out[j] == tail[j - 1]);
            if i == 0 {
                let k = choose|k: int|
                    tail[j - 1].0 == key || (0 <= k < rest.len() && (#[trigger] rest[k]).0
                        == tail[j - 1].0);
                if tail[j - 1].0 != key {
                    assert(rest[k] == pairs[k + 1]);
                }
            } else {
                assert(out[i] == tail[i - 1]);
            }
        }
        assert forall|other: Seq<char>| other != key implies #[trigger] lookup(out, other)
            == lookup(pairs, other) by {
            assert(lookup(tail, other) == lookup(rest, other));
            lemma_found(tail, other);
            lemma_found(rest, other);
        }
        lemma_found(tail, key);
    }
}

spec fn before_key<T>(key: Seq<char>, pairs: Seq<(Seq<char>, T)>) -> bool {
    text::before(key, pairs[0].0)
}

proof fn lemma_stored_keys<T>(pairs: Seq<(Seq<char>, T)>, key: Seq<char>, value: T)
    ensures
        forall|i: int|
            0 <= i < stored(pairs, key, value).len() ==> (#[trigger] stored(
                pairs,
                key,
                value,
            )[i]).0 == key || exists|k: int|
                0 <= k < pairs.len() && (#[trigger] pairs[k]).0 == stored(pairs, key, value)[i].0,
    decreases pairs.len(),
{
    let out = stored(pairs, key, value);
    if pairs.len() > 0 {
        let rest = pairs.skip(1);
        if pairs[0].0 != key && !text::before(key, pairs[0].0) {
            lemma_stored_keys(rest, key, value);
        }
        assert forall|i: int| 0 <= i < out.len() implies (#[trigger] out[i]).0 == key
            || exists|k: int| 0 <= k < pairs.len() && (#[trigger] pairs[k]).0 == out[i].0 by {
            if pairs[0].0 == key {
                if i > 0 {
                    assert(out[i] == pairs[i]);
                }
            } else if text::before(key, pairs[0].0) {
                if i > 0 {
                    assert(out[i] == pairs[i - 1]);
                }
            } else if i == 0 {
                assert(pairs[0].0 == out[0].0);
            } else {
                let tail = stored(rest, key, value);
                assert(out[i] == tail[i - 1]);
                if tail[i - 1].0 != key {
                    let k = choose|k: int|
                        0 <= k < rest.len() && (#[trigger] rest[k]).0 == tail[i - 1].0;
                    assert(pairs[k + 1].0 == out[i].0);
                }
            }
        }
    }
}

/// Pairs with their values seen through a function.
pub open spec fn mapped<A, B>(pairs: Seq<(Seq<char>, A)>, f: spec_fn(A) -> B) -> Seq<
    (Seq<char>, B),
> {
    pairs.map_values(|p: (Seq<char>, A)| (p.0, f(p.1)))
}

/// Storing and then seeing is seeing and then storing.
pub proof fn lemma_stored_mapped<A, B>(
    pairs: Seq<(Seq<char>, A)>,
    key: Seq<char>,
    value: A,
    f: spec_fn(A) -> B,
)
    ensures
        mapped(stored(pairs, key, value), f) == stored(mapped(pairs, f), key, f(value)),
    decreases pairs.len(),
{
    let views = mapped(pairs, f);
    if pairs.len() == 0 {
        assert(mapped(seq![(key, value)], f) =~= seq![(key, f(value))]);
    } else {
        assert(views.skip(1) =~= mapped(pairs.skip(1), f));
        if pairs[0].0 == key {
            assert(mapped(seq![(key, value)] + pairs.skip(1), f) =~= seq![(key, f(value))]
                + views.skip(1));
        } else if text::before(key, pairs[0].0) {
            assert(mapped(seq![(key, value)] + pairs, f) =~= seq![(key, f(value))] + views);
        } else {
            lemma_stored_mapped(pairs.skip(1), key, value, f);
            let rest = stored(pairs.skip(1), key, value);
            assert(mapped(seq![pairs[0]] + rest, f) =~= seq![views[0]] + mapped(rest, f));
        }
    }
}

} // verus!

//! Maps that list their entries in increasing key order.
use vstd::prelude::*;

use crate::sequences::append;
use crate::values::{OrderedKey, PlainValue};

verus! {

/// The keys of the listing increase strictly.
pub open spec fn keys_increase<K: OrderedKey, X>(listing: Seq<(K::V, X)>) -> bool {
    forall|i: int, j: int|
        #![trigger listing[i], listing[j]]
        0 <= i < j < listing.len() ==> K::before(listing[i].0, listing[j].0)
}

/// The key occurs in the listing.
pub open spec fn lists_key<A, X>(listing: Seq<(A, X)>, key: A) -> bool {
    exists|i: int| 0 <= i < listing.len() && #[trigger] listing[i].0 == key
}

/// The map that a listing stands for.
pub open spec fn listed_map<A, X>(listing: Seq<(A, X)>) -> Map<A, X> {
    Map::new(
        |key: A| lists_key(listing, key),
        |key: A| listing[choose|i: int| 0 <= i < listing.len() && #[trigger] listing[i].0 == key].1,
    )
}

/// The listing in increasing key order of a finite map.
pub open spec fn ordered_listing<K: OrderedKey, X>(map: Map<K::V, X>) -> Seq<(K::V, X)> {
    choose|listing: Seq<(K::V, X)>|
        keys_increase::<K, X>(listing) && #[trigger] listed_map(listing) == map
}

/// The values of a finite map in increasing key order.
pub open spec fn ordered_values<K: OrderedKey, X>(map: Map<K::V, X>) -> Seq<X> {
    ordered_listing::<K, X>(map).map_values(|entry: (K::V, X)| entry.1)
}

/// The keys of a finite map in increasing order.
pub open spec fn ordered_keys<K: OrderedKey, X>(map: Map<K::V, X>) -> Seq<K::V> {
    ordered_listing::<K, X>(map).map_values(|entry: (K::V, X)| entry.0)
}

/// In a listing with increasing keys each entry is the map's entry at its key.
pub proof fn lemma_listed_at<K: OrderedKey, X>(listing: Seq<(K::V, X)>, index: int)
    requires
        keys_increase::<K, X>(listing),
        0 <= index < listing.len(),
    ensures
        listed_map(listing).contains_key(listing[index].0),
        listed_map(listing)[listing[index].0] == listing[index].1,
{
    let key = listing[index].0;
    let chosen = choose|i: int| 0 <= i < listing.len() && #[trigger] listing[i].0 == key;
    assert(listing[index].0 == key);
    K::order_is_irreflexive(key);
    if chosen != index {
        assert(listing[chosen].0 == key);
        if chosen < index {
            assert(K::before(listing[chosen].0, listing[index].0));
        } else {
            assert(K::before(listing[index].0, listing[chosen].0));
        }
    }
}

/// Two listings with increasing keys of one map are one listing.
pub proof fn lemma_listing_unique<K: OrderedKey, X>(left: Seq<(K::V, X)>, right: Seq<(K::V, X)>)
    requires
        keys_increase::<K, X>(left),
        keys_increase::<K, X>(right),
        listed_map(left) == listed_map(right),
    ensures
        left == right,
    decreases left.len(),
{
    if left.len() == 0 {
        if right.len() > 0 {
            lemma_listed_at::<K, X>(right, 0);
            assert(lists_key(left, right[0].0));
        }
        assert(left =~= right);
    } else {
        lemma_listed_at::<K, X>(left, left.len() - 1);
        let left_last = left[left.len() - 1];
        assert(lists_key(right, left_last.0));
        let in_right = choose|i: int| 0 <= i < right.len() && #[trigger] right[i].0 == left_last.0;
        lemma_listed_at::<K, X>(right, right.len() - 1);
        let right_last = right[right.len() - 1];
        assert(lists_key(left, right_last.0));
        let in_left = choose|i: int| 0 <= i < left.len() && #[trigger] left[i].0 == right_last.0;
        if in_right != right.len() - 1 {
            assert(K::before(right[in_right].0, right[right.len() - 1].0));
            if in_left != left.len() - 1 {
                assert(K::before(left[in_left].0, left[left.len() - 1].0));
                K::order_is_transitive(left_last.0, right_last.0, left_last.0);
            }
            K::order_is_irreflexive(left_last.0);
        }
        assert(left_last == right_last);
        let left_rest = left.drop_last();
        let right_rest = right.drop_last();
        assert(listed_map(left_rest) =~= listed_map(left).remove(left_last.0)) by {
            lemma_without_last::<K, X>(left);
        }
        assert(listed_map(right_rest) =~= listed_map(right).remove(left_last.0)) by {
            lemma_without_last::<K, X>(right);
        }
        lemma_listing_unique::<K, X>(left_rest, right_rest);
        assert(left =~= left_rest.push(left_last));
        assert(right =~= right_rest.push(right_last));
    }
}

proof fn lemma_without_last<K: OrderedKey, X>(listing: Seq<(K::V, X)>)
    requires
        keys_increase::<K, X>(listing),
        listing.len() > 0,
    ensures
        keys_increase::<K, X>(listing.drop_last()),
        listed_map(listing.drop_last()) == listed_map(listing).remove(listing.last().0),
{
    let rest = listing.drop_last();
    let last = listing.last();
    assert forall|i: int, j: int|
        #![trigger rest[i], rest[j]]
        0 <= i < j < rest.len() implies K::before(rest[i].0, rest[j].0) by {
        assert(rest[i] == listing[i] && rest[j] == listing[j]);
    }
    let removed = listed_map(listing).remove(last.0);
    assert forall|key: K::V| listed_map(rest).contains_key(key) == removed.contains_key(key) by {
        if lists_key(rest, key) {
            let i = choose|i: int| 0 <= i < rest.len() && #[trigger] rest[i].0 == key;
            assert(listing[i].0 == key);
            K::order_is_irreflexive(key);
            assert(K::before(listing[i].0, listing[listing.len() - 1].0));
        }
        if lists_key(listing, key) && key != last.0 {
            let i = choose|i: int| 0 <= i < listing.len() && #[trigger] listing[i].0 == key;
            assert(rest[i].0 == key);
        }
    }
    assert forall|key: K::V| listed_map(rest).contains_key(key) implies listed_map(rest)[key]
        == removed[key] by {
        let i = choose|i: int| 0 <= i < rest.len() && #[trigger] rest[i].0 == key;
        lemma_listed_at::<K, X>(rest, i);
        lemma_listed_at::<K, X>(listing, i);
        assert(rest[i] == listing[i]);
        assert(removed.contains_key(key));
    }
    assert(listed_map(rest) =~= removed);
}

/// A listing with increasing keys is the ordered listing of its map.
pub proof fn lemma_ordered_listing<K: OrderedKey, X>(listing: Seq<(K::V, X)>)
    requires
        keys_increase::<K, X>(listing),
    ensures
        ordered_listing::<K, X>(listed_map(listing)) == listing,
{
    let map = listed_map(listing);
    let chosen = ordered_listing::<K, X>(map);
    assert(keys_increase::<K, X>(listing) && listed_map(listing) == map);
    lemma_listing_unique::<K, X>(chosen, listing);
}

/// A listing with increasing keys has one entry for each key of its map.
pub proof fn lemma_listing_len<K: OrderedKey, X>(listing: Seq<(K::V, X)>)
    requires
        keys_increase::<K, X>(listing),
    ensures
        listed_map(listing).dom().finite(),
        listed_map(listing).dom().len() == listing.len(),
    decreases listing.len(),
{
    let map = listed_map(listing);
    if listing.len() == 0 {
        assert(map.dom() =~= Set::<K::V>::empty());
    } else {
        lemma_without_last::<K, X>(listing);
        lemma_listing_len::<K, X>(listing.drop_last());
        lemma_listed_at::<K, X>(listing, listing.len() - 1);
        assert(map.dom() =~= listed_map(listing.drop_last()).dom().insert(listing.last().0));
    }
}

/// Writing a new value at a listed key.
proof fn lemma_updated<K: OrderedKey, X>(listing: Seq<(K::V, X)>, index: int, value: X)
    requires
        keys_increase::<K, X>(listing),
        0 <= index < listing.len(),
    ensures
        keys_increase::<K, X>(listing.update(index, (listing[index].0, value))),
        listed_map(listing.update(index, (listing[index].0, value))) == listed_map(listing).insert(
            listing[index].0,
            value,
        ),
{
    let changed = listing.update(index, (listing[index].0, value));
    assert forall|i: int, j: int|
        #![trigger changed[i], changed[j]]
        0 <= i < j < changed.len() implies K::before(changed[i].0, changed[j].0) by {
        assert(changed[i].0 == listing[i].0 && changed[j].0 == listing[j].0);
    }
    let expected = listed_map(listing).insert(listing[index].0, value);
    lemma_listed_at::<K, X>(listing, index);
    assert forall|key: K::V| listed_map(changed).contains_key(key) == expected.contains_key(key) by {
        if lists_key(changed, key) {
            let i = choose|i: int| 0 <= i < changed.len() && #[trigger] changed[i].0 == key;
            assert(listing[i].0 == key);
        }
        if lists_key(listing, key) {
            let i = choose|i: int| 0 <= i < listing.len() && #[trigger] listing[i].0 == key;
            assert(changed[i].0 == key);
        }
    }
    assert forall|key: K::V| listed_map(changed).contains_key(key) implies listed_map(changed)[key]
        == expected[key] by {
        let i = choose|i: int| 0 <= i < changed.len() && #[trigger] changed[i].0 == key;
        lemma_listed_at::<K, X>(changed, i);
        lemma_listed_at::<K, X>(listing, i);
        if i != index {
            assert(changed[i] == listing[i]);
            K::order_is_irreflexive(key);
            assert(listing[i].0 != listing[index].0) by {
                if i < index {
                    assert(K::before(listing[i].0, listing[index].0));
                } else {
                    assert(K::before(listing[index].0, listing[i].0));
                }
            }
        }
    }
    assert(listed_map(changed) =~= expected);
}

/// Placing a new key between the smaller and the larger ones.
proof fn lemma_inserted<K: OrderedKey, X>(listing: Seq<(K::V, X)>, index: int, key: K::V, value: X)
    requires
        keys_increase::<K, X>(listing),
        0 <= index <= listing.len(),
        forall|i: int| 0 <= i < index ==> K::before((#[trigger] listing[i]).0, key),
        forall|i: int| index <= i < listing.len() ==> K::before(key, (#[trigger] listing[i]).0),
    ensures
        keys_increase::<K, X>(listing.insert(index, (key, value))),
        !listed_map(listing).contains_key(key),
        listed_map(listing.insert(index, (key, value))) == listed_map(listing).insert(key, value),
{
    let grown = listing.insert(index, (key, value));
    assert forall|i: int, j: int|
        #![trigger grown[i], grown[j]]
        0 <= i < j < grown.len() implies K::before(grown[i].0, grown[j].0) by {
        if i < index {
            assert(grown[i] == listing[i]);
        } else if i > index {
            assert(grown[i] == listing[i - 1]);
        }
        if j < index {
            assert(grown[j] == listing[j]);
        } else if j > index {
            assert(grown[j] == listing[j - 1]);
        }
    }
    K::order_is_irreflexive(key);
    assert(!lists_key(listing, key)) by {
        if lists_key(listing, key) {
            let i = choose|i: int| 0 <= i < listing.len() && #[trigger] listing[i].0 == key;
            assert(K::before(listing[i].0, key) || K::before(key, listing[i].0));
        }
    }
    let expected = listed_map(listing).insert(key, value);
    assert(grown[index].0 == key);
    assert forall|other: K::V| listed_map(grown).contains_key(other) == expected.contains_key(
        other,
    ) by {
        if lists_key(grown, other) {
            let i = choose|i: int| 0 <= i < grown.len() && #[trigger] grown[i].0 == other;
            if i < index {
                assert(listing[i].0 == other);
            } else if i > index {
                assert(listing[i - 1].0 == other);
            }
        }
        if lists_key(listing, other) {
            let i = choose|i: int| 0 <= i < listing.len() && #[trigger] listing[i].0 == other;
            if i < index {
                assert(grown[i].0 == other);
            } else {
                assert(grown[i + 1].0 == other);
            }
        }
    }
    assert forall|other: K::V| listed_map(grown).contains_key(other) implies listed_map(grown)[other]
        == expected[other] by {
        let i = choose|i: int| 0 <= i < grown.len() && #[trigger] grown[i].0 == other;
        lemma_listed_at::<K, X>(grown, i);
        if i < index {
            lemma_listed_at::<K, X>(listing, i);
            assert(grown[i] == listing[i]);
        } else if i > index {
            lemma_listed_at::<K, X>(listing, i - 1);
            assert(grown[i] == listing[i - 1]);
        }
    }
    assert(listed_map(grown) =~= expected);
}

/// The place at which a new key enters a listing with increasing keys.
pub proof fn lemma_entry_place<K: OrderedKey, X>(listing: Seq<(K::V, X)>, key: K::V) -> (place: int)
    requires
        keys_increase::<K, X>(listing),
        !listed_map(listing).contains_key(key),
    ensures
        0 <= place <= listing.len(),
        forall|i: int| 0 <= i < place ==> K::before((#[trigger] listing[i]).0, key),
        forall|i: int| place <= i < listing.len() ==> K::before(key, (#[trigger] listing[i]).0),
    decreases listing.len(),
{
    if listing.len() == 0 {
        0
    } else {
        let last = listing[listing.len() - 1];
        lemma_listed_at::<K, X>(listing, listing.len() - 1);
        K::order_is_total(last.0, key);
        if K::before(last.0, key) {
            assert forall|i: int| 0 <= i < listing.len() implies K::before(
                (#[trigger] listing[i]).0,
                key,
            ) by {
                if i < listing.len() - 1 {
                    K::order_is_transitive(listing[i].0, last.0, key);
                }
            }
            listing.len() as int
        } else {
            let rest = listing.drop_last();
            lemma_without_last::<K, X>(listing);
            let place = lemma_entry_place::<K, X>(rest, key);
            assert forall|i: int| 0 <= i < place implies K::before((#[trigger] listing[i]).0, key) by {
                assert(rest[i] == listing[i]);
            }
            assert forall|i: int| place <= i < listing.len() implies K::before(
                key,
                (#[trigger] listing[i]).0,
            ) by {
                if i < rest.len() {
                    assert(rest[i] == listing[i]);
                }
            }
            place
        }
    }
}

/// Every finite map has its ordered listing.
pub proof fn lemma_ordered_listing_exists<K: OrderedKey, X>(map: Map<K::V, X>)
    requires
        map.dom().finite(),
    ensures
        keys_increase::<K, X>(ordered_listing::<K, X>(map)),
        listed_map(ordered_listing::<K, X>(map)) == map,
    decreases map.dom().len(),
{
    if map.dom().len() == 0 {
        let listing = Seq::<(K::V, X)>::empty();
        assert(listed_map(listing) =~= map);
        assert(keys_increase::<K, X>(listing) && listed_map(listing) == map);
    } else {
        let key = map.dom().choose();
        let rest = map.remove(key);
        lemma_ordered_listing_exists::<K, X>(rest);
        let place = lemma_ordered_insert::<K, X>(rest, key, map[key]);
        assert(rest.insert(key, map[key]) =~= map);
    }
}

/// A new key enters the ordered listing of a finite map at one place.
pub proof fn lemma_ordered_insert<K: OrderedKey, X>(
    map: Map<K::V, X>,
    key: K::V,
    value: X,
) -> (place: int)
    requires
        !map.contains_key(key),
        keys_increase::<K, X>(ordered_listing::<K, X>(map)),
        listed_map(ordered_listing::<K, X>(map)) == map,
    ensures
        0 <= place <= ordered_listing::<K, X>(map).len(),
        ordered_listing::<K, X>(map.insert(key, value)) == ordered_listing::<K, X>(map).insert(
            place,
            (key, value),
        ),
        keys_increase::<K, X>(ordered_listing::<K, X>(map.insert(key, value))),
        listed_map(ordered_listing::<K, X>(map.insert(key, value))) == map.insert(key, value),
{
    let listing = ordered_listing::<K, X>(map);
    let place = lemma_entry_place::<K, X>(listing, key);
    lemma_inserted::<K, X>(listing, place, key, value);
    lemma_ordered_listing::<K, X>(listing.insert(place, (key, value)));
    place
}

/// A map kept as a vector of entries with strictly increasing keys.
#[derive(Debug, PartialEq, Eq)]
pub struct OrderedMap<K: OrderedKey, V: PlainValue> {
    entries: Vec<(K, V)>,
}

impl<K: OrderedKey, V: PlainValue> DeepView for OrderedMap<K, V> {
    type V = Map<K::V, V::V>;

    closed spec fn deep_view(&self) -> Map<K::V, V::V> {
        listed_map(self.entries.deep_view())
    }
}

impl<K: OrderedKey, V: PlainValue> Clone for OrderedMap<K, V> {
    fn clone(&self) -> (copy: Self)
        ensures
            copy.deep_view() == self.deep_view(),
    {
        self.duplicate()
    }
}

impl<K: OrderedKey, V: PlainValue> PlainValue for OrderedMap<K, V> {
    fn duplicate(&self) -> (copy: Self) {
        proof {
            use_type_invariant(self);
        }
        OrderedMap { entries: self.entries.duplicate() }
    }

    fn same(&self, other: &Self) -> (equal: bool) {
        proof {
            use_type_invariant(self);
            use_type_invariant(other);
            if self.deep_view() == other.deep_view() {
                lemma_listing_unique::<K, V::V>(
                    self.entries.deep_view(),
                    other.entries.deep_view(),
                );
            }
        }
        self.entries.same(&other.entries)
    }
}

impl<K: OrderedKey, V: PlainValue> OrderedMap<K, V> {
    #[verifier::type_invariant]
    pub closed spec fn well_formed(&self) -> bool {
        keys_increase::<K, V::V>(self.entries.deep_view())
    }

    pub fn new() -> (map: Self)
        ensures
            map.deep_view() == Map::<K::V, V::V>::empty(),
    {
        let entries: Vec<(K, V)> = Vec::new();
        assert(entries.deep_view().len() == 0);
        let map = OrderedMap { entries };
        assert(map.deep_view() =~= Map::<K::V, V::V>::empty());
        map
    }

    /// The entries in increasing key order.
    pub open spec fn listing(&self) -> Seq<(K::V, V::V)> {
        ordered_listing::<K, V::V>(self.deep_view())
    }

    proof fn lemma_listing(&self)
        requires
            self.well_formed(),
        ensures
            self.listing() == self.entries.deep_view(),
            keys_increase::<K, V::V>(self.listing()),
    {
        lemma_ordered_listing::<K, V::V>(self.entries.deep_view());
    }

    pub fn len(&self) -> (count: usize)
        ensures
            count == self.listing().len(),
            count == self.deep_view().dom().len(),
            self.deep_view().dom().finite(),
            keys_increase::<K, V::V>(self.listing()),
            listed_map(self.listing()) == self.deep_view(),
    {
        proof {
            use_type_invariant(self);
            self.lemma_listing();
            lemma_listing_len::<K, V::V>(self.listing());
        }
        self.entries.len()
    }

    pub fn key_at(&self, index: usize) -> (key: &K)
        requires
            index < self.listing().len(),
        ensures
            key.deep_view() == self.listing()[index as int].0,
    {
        proof {
            use_type_invariant(self);
            self.lemma_listing();
        }
        &self.entries[index].0
    }

    pub fn value_at(&self, index: usize) -> (value: &V)
        requires
            index < self.listing().len(),
        ensures
            value.deep_view() == self.listing()[index as int].1,
    {
        proof {
            use_type_invariant(self);
            self.lemma_listing();
        }
        &self.entries[index].1
    }

    /// The values in increasing key order.
    pub fn to_values(&self) -> (values: Vec<V>)
        ensures
            values.deep_view() == ordered_values::<K, V::V>(self.deep_view()),
    {
        let mut values: Vec<V> = Vec::new();
        let count: usize = self.len();
        let ghost all = ordered_values::<K, V::V>(self.deep_view());
        for index in 0..count
            invariant
                count == self.listing().len(),
                all == ordered_values::<K, V::V>(self.deep_view()),
                values.deep_view() == all.take(index as int),
        {
            append(&mut values, self.value_at(index).duplicate());
            assert(all.take(index as int + 1) =~= all.take(index as int).push(all[index as int]));
        }
        assert(all.take(all.len() as int) =~= all);
        values
    }

    /// The keys in increasing order.
    pub fn to_keys(&self) -> (keys: Vec<K>)
        ensures
            keys.deep_view() == ordered_keys::<K, V::V>(self.deep_view()),
    {
        let mut keys: Vec<K> = Vec::new();
        let count: usize = self.len();
        let ghost all = ordered_keys::<K, V::V>(self.deep_view());
        for index in 0..count
            invariant
                count == self.listing().len(),
                all == ordered_keys::<K, V::V>(self.deep_view()),
                keys.deep_view() == all.take(index as int),
        {
            append(&mut keys, self.key_at(index).duplicate());
            assert(all.take(index as int + 1) =~= all.take(index as int).push(all[index as int]));
        }
        assert(all.take(all.len() as int) =~= all);
        keys
    }

    pub fn is_empty(&self) -> (result: bool)
        ensures
            result == (self.deep_view() == Map::<K::V, V::V>::empty()),
    {
        proof {
            use_type_invariant(self);
            self.lemma_listing();
            if self.listing().len() > 0 {
                lemma_listed_at::<K, V::V>(self.entries.deep_view(), 0);
            } else {
                assert(self.deep_view() =~= Map::<K::V, V::V>::empty());
            }
        }
        self.len() == 0
    }

    /// The place at which the key stands, or at which it would be inserted.
    fn place(&self, key: &K) -> (place: usize)
        ensures
            place <= self.entries.deep_view().len(),
            forall|i: int|
                0 <= i < place ==> K::before(
                    (#[trigger] self.entries.deep_view()[i]).0,
                    key.deep_view(),
                ),
            place < self.entries.deep_view().len() ==> !K::before(
                self.entries.deep_view()[place as int].0,
                key.deep_view(),
            ),
    {
        let mut place: usize = 0;
        while place < self.entries.len() && self.entries[place].0.precedes(key)
            invariant
                place <= self.entries.len(),
                forall|i: int|
                    0 <= i < place ==> K::before(
                        (#[trigger] self.entries.deep_view()[i]).0,
                        key.deep_view(),
                    ),
            decreases self.entries.len() - place,
        {
            place += 1;
        }
        place
    }

    pub fn get(&self, key: &K) -> (found: Option<&V>)
        ensures
            match found {
                Some(value) => self.deep_view().contains_key(key.deep_view())
                    && value.deep_view() == self.deep_view()[key.deep_view()],
                None => !self.deep_view().contains_key(key.deep_view()),
            },
    {
        proof {
            use_type_invariant(self);
        }
        let place: usize = self.place(key);
        let ghost listing = self.entries.deep_view();
        if place < self.entries.len() && self.entries[place].0.same(key) {
            proof {
                lemma_listed_at::<K, V::V>(listing, place as int);
            }
            Some(&self.entries[place].1)
        } else {
            proof {
                self.lemma_absent(key.deep_view(), place as int);
            }
            None
        }
    }

    proof fn lemma_absent(&self, key: K::V, place: int)
        requires
            self.well_formed(),
            0 <= place <= self.entries.deep_view().len(),
            forall|i: int|
                0 <= i < place ==> K::before((#[trigger] self.entries.deep_view()[i]).0, key),
            place < self.entries.deep_view().len() ==> !K::before(
                self.entries.deep_view()[place].0,
                key,
            ) && self.entries.deep_view()[place].0 != key,
        ensures
            forall|i: int|
                place <= i < self.entries.deep_view().len() ==> K::before(
                    key,
                    (#[trigger] self.entries.deep_view()[i]).0,
                ),
            !self.deep_view().contains_key(key),
    {
        let listing = self.entries.deep_view();
        assert forall|i: int| place <= i < listing.len() implies K::before(
            key,
            (#[trigger] listing[i]).0,
        ) by {
            K::order_is_total(listing[place].0, key);
            if i > place {
                assert(K::before(listing[place].0, listing[i].0));
                K::order_is_transitive(key, listing[place].0, listing[i].0);
            }
        }
        K::order_is_irreflexive(key);
        if lists_key(listing, key) {
            let i = choose|i: int| 0 <= i < listing.len() && #[trigger] listing[i].0 == key;
            assert(K::before(listing[i].0, key) || K::before(key, listing[i].0));
        }
    }

    /// Writes the value at the key and hands back the value that it replaces.
    pub fn insert(&mut self, key: K, value: V) -> (replaced: Option<V>)
        ensures
            final(self).deep_view() == old(self).deep_view().insert(
                key.deep_view(),
                value.deep_view(),
            ),
            match replaced {
                Some(earlier) => old(self).deep_view().contains_key(key.deep_view())
                    && earlier.deep_view() == old(self).deep_view()[key.deep_view()],
                None => !old(self).deep_view().contains_key(key.deep_view()),
            },
    {
        proof {
            use_type_invariant(&*self);
        }
        let place: usize = self.place(&key);
        let ghost listing = self.entries.deep_view();
        let ghost key_model = key.deep_view();
        let ghost value_model = value.deep_view();
        if place < self.entries.len() && self.entries[place].0.same(&key) {
            proof {
                lemma_listed_at::<K, V::V>(listing, place as int);
                lemma_updated::<K, V::V>(listing, place as int, value_model);
            }
            let earlier: V = self.entries[place].1.duplicate();
            let mut entries: Vec<(K, V)> = Vec::new();
            std::mem::swap(&mut entries, &mut self.entries);
            entries[place] = (key, value);
            assert(entries.deep_view() =~= listing.update(place as int, (key_model, value_model)));
            self.entries = entries;
            Some(earlier)
        } else {
            proof {
                self.lemma_absent(key_model, place as int);
                lemma_inserted::<K, V::V>(listing, place as int, key_model, value_model);
            }
            let mut entries: Vec<(K, V)> = Vec::new();
            std::mem::swap(&mut entries, &mut self.entries);
            entries.insert(place, (key, value));
            assert(entries.deep_view() =~= listing.insert(place as int, (key_model, value_model)));
            self.entries = entries;
            None
        }
    }
}

/// The map that holds the members of a set as its keys.
pub open spec fn membership<A>(set: Set<A>) -> Map<A, ()> {
    Map::new(|member: A| set.contains(member), |member: A| ())
}

/// The members of a finite set in increasing order.
pub open spec fn ordered_members<K: OrderedKey>(set: Set<K::V>) -> Seq<K::V> {
    ordered_keys::<K, ()>(membership(set))
}

/// The ordered members of a finite set are its members, each once and increasing.
pub proof fn lemma_members_listed<K: OrderedKey>(set: Set<K::V>)
    requires
        set.finite(),
    ensures
        ordered_members::<K>(set).to_set() == set,
        ordered_members::<K>(set).len() == set.len(),
        forall|i: int, j: int|
            #![trigger ordered_members::<K>(set)[i], ordered_members::<K>(set)[j]]
            0 <= i < j < ordered_members::<K>(set).len() ==> K::before(
                ordered_members::<K>(set)[i],
                ordered_members::<K>(set)[j],
            ),
{
    let map = membership(set);
    let members = ordered_members::<K>(set);
    assert(map.dom() =~= set);
    lemma_ordered_listing_exists::<K, ()>(map);
    let listing = ordered_listing::<K, ()>(map);
    lemma_listing_len::<K, ()>(listing);
    assert forall|value: K::V| members.contains(value) <==> set.contains(value) by {
        if set.contains(value) {
            assert(lists_key(listing, value));
            let k = choose|k: int| 0 <= k < listing.len() && #[trigger] listing[k].0 == value;
            assert(members[k] == value);
        }
        if members.contains(value) {
            let k = choose|k: int| 0 <= k < members.len() && members[k] == value;
            lemma_listed_at::<K, ()>(listing, k);
        }
    }
    assert(members.to_set() =~= set);
    assert forall|i: int, j: int|
        #![trigger members[i], members[j]]
        0 <= i < j < members.len() implies K::before(members[i], members[j]) by {
        assert(K::before(listing[i].0, listing[j].0));
    }
}

/// The ordered keys of a finite map are its keys.
pub proof fn lemma_keys_listed<K: OrderedKey, X>(map: Map<K::V, X>)
    requires
        map.dom().finite(),
    ensures
        ordered_keys::<K, X>(map).to_set() == map.dom(),
{
    lemma_ordered_listing_exists::<K, X>(map);
    let listing = ordered_listing::<K, X>(map);
    let keys = ordered_keys::<K, X>(map);
    assert forall|key: K::V| keys.contains(key) <==> map.contains_key(key) by {
        if map.contains_key(key) {
            assert(lists_key(listing, key));
            let k = choose|k: int| 0 <= k < listing.len() && #[trigger] listing[k].0 == key;
            assert(keys[k] == key);
        }
        if keys.contains(key) {
            let k = choose|k: int| 0 <= k < keys.len() && keys[k] == key;
            lemma_listed_at::<K, X>(listing, k);
        }
    }
    assert(keys.to_set() =~= map.dom());
}

/// A set kept as a vector with strictly increasing members.
#[derive(Debug, PartialEq, Eq)]
pub struct OrderedSet<K: OrderedKey> {
    members: OrderedMap<K, ()>,
}

impl<K: OrderedKey> DeepView for OrderedSet<K> {
    type V = Set<K::V>;

    closed spec fn deep_view(&self) -> Set<K::V> {
        self.members.deep_view().dom()
    }
}

impl<K: OrderedKey> Clone for OrderedSet<K> {
    fn clone(&self) -> (copy: Self)
        ensures
            copy.deep_view() == self.deep_view(),
    {
        self.duplicate()
    }
}

impl<K: OrderedKey> PlainValue for OrderedSet<K> {
    fn duplicate(&self) -> (copy: Self) {
        OrderedSet { members: self.members.duplicate() }
    }

    fn same(&self, other: &Self) -> (equal: bool) {
        proof {
            self.lemma_membership();
            other.lemma_membership();
        }
        self.members.same(&other.members)
    }
}

impl<K: OrderedKey> OrderedSet<K> {
    proof fn lemma_membership(&self)
        ensures
            self.members.deep_view() == membership(self.deep_view()),
    {
        assert(self.members.deep_view() =~= membership(self.deep_view()));
    }

    pub fn new() -> (set: Self)
        ensures
            set.deep_view() == Set::<K::V>::empty(),
    {
        let set = OrderedSet { members: OrderedMap::new() };
        assert(set.deep_view() =~= Set::<K::V>::empty());
        set
    }

    /// The members in increasing order.
    pub open spec fn listing(&self) -> Seq<K::V> {
        ordered_members::<K>(self.deep_view())
    }

    pub fn len(&self) -> (count: usize)
        ensures
            count == self.listing().len(),
            count == self.deep_view().len(),
            self.deep_view().finite(),
    {
        proof {
            self.lemma_membership();
        }
        self.members.len()
    }

    pub fn member_at(&self, index: usize) -> (member: &K)
        requires
            index < self.listing().len(),
        ensures
            member.deep_view() == self.listing()[index as int],
    {
        proof {
            self.lemma_membership();
        }
        self.members.key_at(index)
    }

    pub fn contains(&self, member: &K) -> (result: bool)
        ensures
            result == self.deep_view().contains(member.deep_view()),
    {
        self.members.get(member).is_some()
    }

    /// Adds the member and says whether it was missing.
    pub fn insert(&mut self, member: K) -> (added: bool)
        ensures
            final(self).deep_view() == old(self).deep_view().insert(member.deep_view()),
            added == !old(self).deep_view().contains(member.deep_view()),
    {
        let ghost before = self.deep_view();
        let ghost model = member.deep_view();
        let replaced = self.members.insert(member, ());
        assert(self.deep_view() =~= before.insert(model));
        replaced.is_none()
    }

    /// Adds every one of the values.
    pub fn add_all(&mut self, values: &Vec<K>)
        ensures
            final(self).deep_view() == old(self).deep_view().union(values.deep_view().to_set()),
    {
        let ghost before = self.deep_view();
        let ghost all = values.deep_view();
        assert(self.deep_view() =~= before.union(all.take(0).to_set()));
        for index in 0..values.len()
            invariant
                all == values.deep_view(),
                self.deep_view() == before.union(all.take(index as int).to_set()),
        {
            assert(all[index as int] == values@[index as int].deep_view());
            self.insert(values[index].duplicate());
            assert(self.deep_view() =~= before.union(all.take(index as int + 1).to_set())) by {
                assert forall|value: K::V| all.take(index as int + 1).contains(value)
                    <==> all.take(index as int).contains(value) || value == all[index as int] by {
                    crate::planning::lemma_take_contains(all, index as int, value);
                }
            }
        }
        assert(all.take(all.len() as int) =~= all);
    }

    /// The set of the values.
    pub fn from_values(values: &Vec<K>) -> (set: Self)
        ensures
            set.deep_view() == values.deep_view().to_set(),
    {
        let mut set: Self = OrderedSet::new();
        set.add_all(values);
        assert(set.deep_view() =~= values.deep_view().to_set());
        set
    }

    /// Adds the members of another set.
    pub fn unite(&mut self, more: &Self)
        ensures
            final(self).deep_view() == old(self).deep_view().union(more.deep_view()),
    {
        let count: usize = more.len();
        let members = more.to_vec();
        proof {
            lemma_members_listed::<K>(more.deep_view());
        }
        self.add_all(&members);
    }

    /// The members in increasing order.
    pub fn to_vec(&self) -> (members: Vec<K>)
        ensures
            members.deep_view() == self.listing(),
    {
        let mut members: Vec<K> = Vec::new();
        let count: usize = self.len();
        for index in 0..count
            invariant
                count == self.listing().len(),
                members.deep_view() == self.listing().take(index as int),
        {
            append(&mut members, self.member_at(index).duplicate());
            assert(self.listing().take(index as int + 1) =~= self.listing().take(
                index as int,
            ).push(self.listing()[index as int]));
        }
        assert(self.listing().take(self.listing().len() as int) =~= self.listing());
        members
    }
}

} // verus!

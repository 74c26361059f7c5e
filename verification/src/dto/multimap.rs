//! A multi-map from text to text that remembers the order in which its keys
//! came: `multimap::MultiMap` for the values, beside the keys in order.

use crate::dto::keyed::{
    has_key, index_ignoring_case, key_index, keys_distinct, lemma_index_ignoring_case,
    lemma_key_index, lemma_key_index_is, pair_texts, texts,
};
use crate::text::{eq_ignore_ascii_case, same_ignoring_case};
use vstd::prelude::*;

verus! {

/// `multimap::MultiMap`, the hash multi-map of the `multimap` crate. Nothing
/// of its inside is known here; [`store_contents`] names what it holds.
#[verifier::external_type_specification]
#[verifier::external_body]
#[verifier::reject_recursive_types(K)]
#[verifier::reject_recursive_types(V)]
#[verifier::reject_recursive_types(S)]
pub struct ExMultiMap<K, V, S>(::multimap::MultiMap<K, V, S>);

/// What a `multimap::MultiMap` holds: for each key that is in it, the
/// values of the key in the order in which they were put in.
pub uninterp spec fn store_contents(store: ::multimap::MultiMap<String, String>) -> Map<
    Seq<char>,
    Seq<Seq<char>>,
>;

/// What a `multimap::MultiMap` holds after `insert(key, value)`: the value
/// stands last among those of the key.
pub open spec fn contents_with(
    contents: Map<Seq<char>, Seq<Seq<char>>>,
    key: Seq<char>,
    value: Seq<char>,
) -> Map<Seq<char>, Seq<Seq<char>>> {
    if contents.contains_key(key) {
        contents.insert(key, contents[key].push(value))
    } else {
        contents.insert(key, seq![value])
    }
}

/// Whether the key is in the map and has a value.
pub open spec fn has_first(contents: Map<Seq<char>, Seq<Seq<char>>>, key: Seq<char>) -> bool {
    contents.contains_key(key) && contents[key].len() > 0
}

/// What a `multimap::MultiMap` holds once the first value of a key has
/// been written to.
pub open spec fn contents_after_write(
    contents: Map<Seq<char>, Seq<Seq<char>>>,
    key: Seq<char>,
    written: Seq<char>,
) -> Map<Seq<char>, Seq<Seq<char>>> {
    contents.insert(key, contents[key].update(0, written))
}

/// What a `multimap::MultiMap` holds when it holds nothing.
pub open spec fn no_contents() -> Map<Seq<char>, Seq<Seq<char>>> {
    Map::empty()
}

/// `multimap::MultiMap::new`: a map that holds nothing.
#[verifier::external_body]
fn store_new() -> (r: ::multimap::MultiMap<String, String>)
    ensures
        store_contents(r) == no_contents(),
{
    ::multimap::MultiMap::new()
}

/// `multimap::MultiMap::insert`: the value becomes the last of its key, and
/// the first where the key is new.
#[verifier::external_body]
fn store_insert(store: &mut ::multimap::MultiMap<String, String>, key: String, value: String)
    ensures
        store_contents(*final(store)) == contents_with(store_contents(*old(store)), key@, value@),
{
    store.insert(key, value)
}

/// `multimap::MultiMap::get_vec`: the values of the key, where it is in
/// the map.
#[verifier::external_body]
fn store_get_vec<'a>(store: &'a ::multimap::MultiMap<String, String>, key: &str) -> (r: Option<
    &'a Vec<String>,
>)
    ensures
        r is Some <==> store_contents(*store).contains_key(key@),
        r matches Some(values) ==> texts(values@) == store_contents(*store)[key@],
{
    store.get_vec(key)
}

/// `multimap::MultiMap::get_mut`: the first value of the key, to be
/// written to; nothing where the key is not in the map or has no value. What
/// is written becomes the first value of the key, and nothing else changes.
#[verifier::external_body]
fn store_get_mut<'a>(store: &'a mut ::multimap::MultiMap<String, String>, key: &str) -> (r: Option<
    &'a mut String,
>)
    ensures
        r is Some <==> has_first(store_contents(*old(store)), key@),
        r matches Some(slot) ==> (*slot)@ == store_contents(*old(store))[key@][0],
        r matches Some(slot) ==> store_contents(*final(store)) == contents_after_write(
            store_contents(*old(store)),
            key@,
            (*final(slot))@,
        ),
        r is None ==> store_contents(*final(store)) == store_contents(*old(store)),
{
    store.get_mut(key)
}

/// `Clone::clone` of `multimap::MultiMap`: a map that holds the same.
#[verifier::external_body]
fn store_clone(store: &::multimap::MultiMap<String, String>) -> (r: ::multimap::MultiMap<
    String,
    String,
>)
    ensures
        store_contents(r) == store_contents(*store),
{
    store.clone()
}

/// The groups of a multi-map: each key with its values, the keys in the
/// order in which they first came, the values of a key in the order in
/// which they came.
pub type Groups = Seq<(Seq<char>, Seq<Seq<char>>)>;

/// No key has two groups, and no group is empty.
pub open spec fn groups_wf(groups: Groups) -> bool {
    &&& keys_distinct(groups)
    &&& forall|i: int| 0 <= i < groups.len() ==> (#[trigger] groups[i]).1.len() > 0
}

/// The groups after one more pair: the value stands last in the group of
/// its key, and a new key gets a new group after the others.
pub open spec fn groups_with(groups: Groups, key: Seq<char>, value: Seq<char>) -> Groups {
    let i = key_index(groups, key);
    if i < groups.len() {
        groups.update(i, (key, groups[i].1.push(value)))
    } else {
        groups.push((key, seq![value]))
    }
}

/// The groups after `value` is put in the place of the first value of the
/// key: as they are, where the key has no group.
pub open spec fn groups_with_first(groups: Groups, key: Seq<char>, value: Seq<char>) -> Groups {
    let i = key_index(groups, key);
    if i < groups.len() {
        groups.update(i, (key, groups[i].1.update(0, value)))
    } else {
        groups
    }
}

/// The groups that pairs make when they are put in one after the other.
pub open spec fn groups_of(pairs: Seq<(Seq<char>, Seq<char>)>) -> Groups
    decreases pairs.len(),
{
    if pairs.len() == 0 {
        Seq::empty()
    } else {
        groups_with(groups_of(pairs.drop_last()), pairs.last().0, pairs.last().1)
    }
}

/// The pairs of one group, in order.
pub open spec fn pairs_of_group(key: Seq<char>, values: Seq<Seq<char>>) -> Seq<
    (Seq<char>, Seq<char>),
> {
    Seq::new(values.len(), |i: int| (key, values[i]))
}

/// The pairs of the groups: group after group, each value with its key.
pub open spec fn pairs_of(groups: Groups) -> Seq<(Seq<char>, Seq<char>)>
    decreases groups.len(),
{
    if groups.len() == 0 {
        Seq::empty()
    } else {
        pairs_of(groups.drop_last()) + pairs_of_group(groups.last().0, groups.last().1)
    }
}

/// The keys of the groups after one more pair are the keys before and the
/// key of the pair.
pub proof fn lemma_groups_with_keys(groups: Groups, key: Seq<char>, value: Seq<char>, other: Seq<char>)
    ensures
        has_key(groups_with(groups, key, value), other) <==> has_key(groups, other) || other == key,
{
    let after = groups_with(groups, key, value);
    lemma_key_index(groups, key);
    lemma_key_index(groups, other);
    lemma_key_index(after, other);
    let i = key_index(groups, other);
    let j = key_index(after, other);
    if j < after.len() && j < groups.len() {
        assert(groups[j].0 == other);
    }
    if i < groups.len() {
        assert(after[i].0 == other);
    }
    if other == key && !has_key(groups, key) {
        assert(after[groups.len() as int].0 == key);
    }
}

/// The groups that pairs make have the keys of the pairs.
pub proof fn lemma_groups_of_keys(pairs: Seq<(Seq<char>, Seq<char>)>, key: Seq<char>)
    ensures
        has_key(groups_of(pairs), key) <==> exists|i: int|
            0 <= i < pairs.len() && (#[trigger] pairs[i]).0 == key,
    decreases pairs.len(),
{
    if pairs.len() > 0 {
        let rest = pairs.drop_last();
        lemma_groups_of_keys(rest, key);
        lemma_groups_with_keys(groups_of(rest), pairs.last().0, pairs.last().1, key);
        if has_key(groups_of(pairs), key) {
            if pairs.last().0 == key {
                assert(pairs[pairs.len() - 1].0 == key);
            } else {
                let i = choose|i: int| 0 <= i < rest.len() && (#[trigger] rest[i]).0 == key;
                assert(pairs[i].0 == key);
            }
        }
        if exists|i: int| 0 <= i < pairs.len() && (#[trigger] pairs[i]).0 == key {
            let i = choose|i: int| 0 <= i < pairs.len() && (#[trigger] pairs[i]).0 == key;
            if i < rest.len() {
                assert(rest[i].0 == key);
            }
        }
    }
}

/// Pairs, and after them the pairs of a group whose key they do not hold,
/// make the groups of the pairs and after them the group.
pub proof fn lemma_groups_of_group(
    pairs: Seq<(Seq<char>, Seq<char>)>,
    key: Seq<char>,
    values: Seq<Seq<char>>,
)
    requires
        !has_key(groups_of(pairs), key),
    ensures
        groups_of(pairs + pairs_of_group(key, values)) == if values.len() == 0 {
            groups_of(pairs)
        } else {
            groups_of(pairs).push((key, values))
        },
    decreases values.len(),
{
    let all = pairs + pairs_of_group(key, values);
    let before = groups_of(pairs);
    if values.len() == 0 {
        assert(all =~= pairs);
    } else {
        let fewer = values.drop_last();
        lemma_groups_of_group(pairs, key, fewer);
        assert(all.drop_last() =~= pairs + pairs_of_group(key, fewer));
        assert(all.last() == (key, values.last()));
        lemma_key_index(before, key);
        if fewer.len() == 0 {
            assert(seq![values.last()] =~= values);
        } else {
            let grown = before.push((key, fewer));
            assert forall|j: int| 0 <= j < before.len() implies (#[trigger] grown[j]).0 != key by {
                assert(grown[j] == before[j]);
            }
            lemma_key_index_is(grown, key, before.len() as int);
            assert(fewer.push(values.last()) =~= values);
            assert(grown.update(before.len() as int, (key, values)) =~= before.push((key, values)));
        }
    }
}

/// The pairs of well-formed groups make the groups again.
pub proof fn lemma_groups_round_trip(groups: Groups)
    requires
        groups_wf(groups),
    ensures
        groups_of(pairs_of(groups)) == groups,
    decreases groups.len(),
{
    if groups.len() > 0 {
        let rest = groups.drop_last();
        let last = groups.last();
        assert(groups_wf(rest)) by {
            assert forall|i: int, j: int| 0 <= i < j < rest.len() implies (#[trigger] rest[i]).0 != (
            #[trigger] rest[j]).0 by {
                assert(rest[i] == groups[i] && rest[j] == groups[j]);
            }
            assert forall|i: int| 0 <= i < rest.len() implies (#[trigger] rest[i]).1.len() > 0 by {
                assert(rest[i] == groups[i]);
            }
        }
        lemma_groups_round_trip(rest);
        assert forall|j: int| 0 <= j < rest.len() implies (#[trigger] rest[j]).0 != last.0 by {
            assert(rest[j] == groups[j]);
            assert(groups[groups.len() - 1] == last);
        }
        lemma_key_index(rest, last.0);
        assert(groups[groups.len() - 1].1.len() > 0);
        lemma_groups_of_group(pairs_of(rest), last.0, last.1);
        assert(rest.push(last) =~= groups);
    } else {
        assert(pairs_of(groups) =~= Seq::<(Seq<char>, Seq<char>)>::empty());
    }
}

/// An insertion-ordered multi-map from text to text.
#[derive(Debug)]
pub struct OrderedMultiMap {
    keys: Vec<String>,
    store: ::multimap::MultiMap<String, String>,
}

impl View for OrderedMultiMap {
    type V = Groups;

    closed spec fn view(&self) -> Groups {
        Seq::new(
            self.keys@.len(),
            |i: int| (self.keys@[i]@, store_contents(self.store)[self.keys@[i]@]),
        )
    }
}

impl OrderedMultiMap {
    /// The keys in order are the keys of the store, each once, and each has
    /// a value.
    pub closed spec fn wf(&self) -> bool {
        &&& forall|i: int, j: int|
            0 <= i < j < self.keys@.len() ==> (#[trigger] self.keys@[i])@ != (
            #[trigger] self.keys@[j])@
        &&& forall|i: int|
            0 <= i < self.keys@.len() ==> store_contents(self.store).contains_key(
                (#[trigger] self.keys@[i])@,
            )
        &&& forall|key: Seq<char>| #[trigger]
            store_contents(self.store).contains_key(key) ==> exists|i: int|
                0 <= i < self.keys@.len() && (#[trigger] self.keys@[i])@ == key
        &&& forall|key: Seq<char>| #[trigger]
            store_contents(self.store).contains_key(key) ==> store_contents(self.store)[key].len()
                > 0
    }

    /// A well-formed multi-map has well-formed groups.
    pub proof fn lemma_wf(&self)
        requires
            self.wf(),
        ensures
            groups_wf(self@),
    {
    }

    /// A multi-map that holds nothing.
    pub fn new() -> (r: OrderedMultiMap)
        ensures
            r.wf(),
            r@ == Groups::empty(),
    {
        let r = OrderedMultiMap { keys: Vec::new(), store: store_new() };
        assert(r@ =~= Groups::empty());
        r
    }

    /// Puts in one more pair.
    pub fn insert(&mut self, key: String, value: String)
        requires
            old(self).wf(),
        ensures
            final(self).wf(),
            final(self)@ == groups_with(old(self)@, key@, value@),
    {
        let ghost before = self@;
        let ghost contents = store_contents(self.store);
        let known = store_get_vec(&self.store, key.as_str()).is_some();
        proof {
            lemma_key_index(before, key@);
            if known {
                let i = choose|i: int| 0 <= i < self.keys@.len() && (#[trigger] self.keys@[i])@ == key@;
                assert(before[i].0 == key@);
                lemma_key_index_is(before, key@, i);
            } else {
                if has_key(before, key@) {
                    let i = key_index(before, key@);
                    assert(contents.contains_key(self.keys@[i]@));
                }
            }
        }
        if !known {
            self.keys.push(key.clone());
        }
        store_insert(&mut self.store, key, value);
        proof {
            let after = store_contents(self.store);
            assert(after == contents_with(contents, key@, value@));
            assert forall|k: Seq<char>| #[trigger] after.contains_key(k) implies exists|i: int|
                0 <= i < self.keys@.len() && (#[trigger] self.keys@[i])@ == k by {
                if k == key@ {
                    if known {
                        let i = key_index(before, key@);
                        assert(self.keys@[i]@ == k);
                    } else {
                        assert(self.keys@[self.keys@.len() - 1]@ == k);
                    }
                } else {
                    assert(contents.contains_key(k));
                    let i = choose|i: int|
                        0 <= i < old(self).keys@.len() && (#[trigger] old(self).keys@[i])@ == k;
                    assert(self.keys@[i]@ == k);
                }
            }
            assert(self@ =~= groups_with(before, key@, value@));
        }
    }

    /// The number of keys.
    pub fn len(&self) -> (r: usize)
        ensures
            r == self@.len(),
    {
        self.keys.len()
    }

    /// Whether nothing is in the map.
    pub fn is_empty(&self) -> (r: bool)
        ensures
            r == (self@.len() == 0),
    {
        self.keys.len() == 0
    }

    /// The key at `i`, in the order in which the keys came.
    pub fn key_at(&self, i: usize) -> (r: &String)
        requires
            i < self@.len(),
        ensures
            r@ == self@[i as int].0,
    {
        &self.keys[i]
    }

    /// The values of the key, in the order in which they came.
    pub fn get_vec(&self, key: &str) -> (r: Option<&Vec<String>>)
        requires
            self.wf(),
        ensures
            r is Some <==> has_key(self@, key@),
            r matches Some(values) ==> texts(values@) == self@[key_index(self@, key@)].1 && values@.len()
                > 0,
    {
        let r = store_get_vec(&self.store, key);
        proof {
            lemma_key_index(self@, key@);
            if r is Some {
                let i = choose|i: int| 0 <= i < self.keys@.len() && (#[trigger] self.keys@[i])@ == key@;
                assert(self@[i].0 == key@);
                lemma_key_index_is(self@, key@, i);
                assert(texts(r.unwrap()@).len() == r.unwrap()@.len());
            } else if has_key(self@, key@) {
                let i = key_index(self@, key@);
                assert(store_contents(self.store).contains_key(self.keys@[i]@));
            }
        }
        r
    }

    /// The first value of the key.
    pub fn get(&self, key: &str) -> (r: Option<&String>)
        requires
            self.wf(),
        ensures
            r is Some <==> has_key(self@, key@),
            r matches Some(value) ==> value@ == self@[key_index(self@, key@)].1[0],
    {
        match self.get_vec(key) {
            Some(values) => {
                assert(texts(values@)[0] == values@[0]@);
                Some(&values[0])
            },
            None => None,
        }
    }

    /// The values of the first key that is `key` but for the case of its
    /// ASCII letters.
    pub fn get_vec_ignoring_case(&self, key: &str) -> (r: Option<&Vec<String>>)
        requires
            self.wf(),
        ensures
            r is Some <==> index_ignoring_case(self@, key@) < self@.len(),
            r matches Some(values) ==> texts(values@) == self@[index_ignoring_case(self@, key@)].1,
    {
        let n = self.keys.len();
        let mut i: usize = 0;
        while i < n
            invariant
                self.wf(),
                0 <= i <= n,
                n == self.keys@.len(),
                n == self@.len(),
                forall|j: int| 0 <= j < i ==> !same_ignoring_case((#[trigger] self@[j]).0, key@),
            decreases n - i,
        {
            if eq_ignore_ascii_case(self.keys[i].as_str(), key) {
                let r = store_get_vec(&self.store, self.keys[i].as_str());
                proof {
                    assert(self@[i as int].0 == self.keys@[i as int]@);
                    assert(store_contents(self.store).contains_key(self.keys@[i as int]@));
                    lemma_index_ignoring_case(self@, key@, i as int);
                }
                return r;
            }
            i += 1;
        }
        proof {
            lemma_index_ignoring_case(self@, key@, n as int);
        }
        None
    }

    /// Whether the key is in the map.
    pub fn contains_key(&self, key: &str) -> (r: bool)
        requires
            self.wf(),
        ensures
            r == has_key(self@, key@),
    {
        self.get_vec(key).is_some()
    }

    /// Puts `value` in the place of the first value of the key. `false`,
    /// and no change, where the key is not in the map.
    pub fn set_first(&mut self, key: &str, value: String) -> (r: bool)
        requires
            old(self).wf(),
        ensures
            final(self).wf(),
            r == has_key(old(self)@, key@),
            final(self)@ == groups_with_first(old(self)@, key@, value@),
    {
        let ghost before = self@;
        let ghost contents = store_contents(self.store);
        proof {
            lemma_key_index(before, key@);
            if contents.contains_key(key@) {
                let i = choose|i: int| 0 <= i < self.keys@.len() && (#[trigger] self.keys@[i])@ == key@;
                assert(before[i].0 == key@);
                lemma_key_index_is(before, key@, i);
            } else if has_key(before, key@) {
                let i = key_index(before, key@);
                assert(contents.contains_key(self.keys@[i]@));
            }
        }
        let r = match store_get_mut(&mut self.store, key) {
            Some(slot) => {
                *slot = value;
                true
            },
            None => false,
        };
        proof {
            let after = store_contents(self.store);
            if r {
                assert forall|k: Seq<char>| #[trigger] after.contains_key(k) implies exists|i: int|
                    0 <= i < self.keys@.len() && (#[trigger] self.keys@[i])@ == k by {
                    if k == key@ {
                        let i = key_index(before, key@);
                        assert(self.keys@[i]@ == k);
                    } else {
                        assert(contents.contains_key(k));
                        let i = choose|i: int|
                            0 <= i < old(self).keys@.len() && (#[trigger] old(self).keys@[i])@
                                == k;
                        assert(self.keys@[i]@ == k);
                    }
                }
            }
            assert(self@ =~= groups_with_first(before, key@, value@));
        }
        r
    }

    /// Every pair of the map: group after group, each value with its key.
    pub fn to_pairs(&self) -> (r: Vec<(String, String)>)
        requires
            self.wf(),
        ensures
            pair_texts(r@) == pairs_of(self@),
    {
        let mut out: Vec<(String, String)> = Vec::new();
        let n = self.keys.len();
        let mut i: usize = 0;
        assert(pair_texts(out@) =~= pairs_of(self@.take(0)));
        while i < n
            invariant
                self.wf(),
                0 <= i <= n,
                n == self@.len(),
                n == self.keys@.len(),
                pair_texts(out@) == pairs_of(self@.take(i as int)),
            decreases n - i,
        {
            let key = &self.keys[i];
            let ghost done = pairs_of(self@.take(i as int));
            proof {
                assert(self@.take(i + 1).drop_last() =~= self@.take(i as int));
                assert(self@.take(i + 1).last() == self@[i as int]);
                assert(store_contents(self.store).contains_key(self.keys@[i as int]@));
            }
            if let Some(values) = store_get_vec(&self.store, key.as_str()) {
                let m = values.len();
                let mut j: usize = 0;
                assert(pair_texts(out@) =~= done + pairs_of_group(key@, texts(values@).take(0)));
                while j < m
                    invariant
                        0 <= j <= m,
                        m == values@.len(),
                        pair_texts(out@) == done + pairs_of_group(
                            key@,
                            texts(values@).take(j as int),
                        ),
                    decreases m - j,
                {
                    let ghost so_far = pair_texts(out@);
                    out.push((key.clone(), values[j].clone()));
                    proof {
                        assert(pair_texts(out@) =~= so_far.push((key@, values@[j as int]@)));
                        assert(pairs_of_group(key@, texts(values@).take(j + 1)) =~= pairs_of_group(
                            key@,
                            texts(values@).take(j as int),
                        ).push((key@, values@[j as int]@)));
                    }
                    j += 1;
                }
                assert(texts(values@).take(m as int) =~= texts(values@));
            }
            i += 1;
        }
        assert(self@.take(n as int) =~= self@);
        out
    }

    /// The map that the pairs make when they are put in one after the
    /// other.
    pub fn from_pairs(pairs: &Vec<(String, String)>) -> (r: OrderedMultiMap)
        ensures
            r.wf(),
            r@ == groups_of(pair_texts(pairs@)),
    {
        let mut map = OrderedMultiMap::new();
        let n = pairs.len();
        let mut i: usize = 0;
        assert(pair_texts(pairs@).take(0) =~= Seq::<(Seq<char>, Seq<char>)>::empty());
        while i < n
            invariant
                0 <= i <= n,
                n == pairs@.len(),
                map.wf(),
                map@ == groups_of(pair_texts(pairs@).take(i as int)),
            decreases n - i,
        {
            proof {
                let all = pair_texts(pairs@);
                assert(all.take(i + 1).drop_last() =~= all.take(i as int));
                assert(all.take(i + 1).last() == (pairs@[i as int].0@, pairs@[i as int].1@));
            }
            map.insert(pairs[i].0.clone(), pairs[i].1.clone());
            i += 1;
        }
        assert(pair_texts(pairs@).take(n as int) =~= pair_texts(pairs@));
        map
    }
}

impl Clone for OrderedMultiMap {
    fn clone(&self) -> (r: Self)
        ensures
            self.wf() ==> r.wf(),
            r@ == self@,
    {
        let mut keys: Vec<String> = Vec::new();
        let n = self.keys.len();
        let mut i: usize = 0;
        while i < n
            invariant
                0 <= i <= n,
                n == self.keys@.len(),
                keys@.len() == i,
                forall|j: int| 0 <= j < i ==> (#[trigger] keys@[j])@ == self.keys@[j]@,
            decreases n - i,
        {
            keys.push(self.keys[i].clone());
            i += 1;
        }
        let r = OrderedMultiMap { keys, store: store_clone(&self.store) };
        proof {
            assert(r@ =~= self@);
            if self.wf() {
                assert forall|key: Seq<char>| #[trigger]
                    store_contents(r.store).contains_key(key) implies exists|i: int|
                    0 <= i < r.keys@.len() && (#[trigger] r.keys@[i])@ == key by {
                    let i = choose|i: int|
                        0 <= i < self.keys@.len() && (#[trigger] self.keys@[i])@ == key;
                    assert(r.keys@[i]@ == key);
                }
            }
        }
        r
    }
}

} // verus!

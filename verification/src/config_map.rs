//! The configuration of one run: text values under unique text keys.

use vstd::hash_map::StringHashMap;
use vstd::prelude::*;
use vstd::string::*;

verus! {

/// A mapping from keys to values, both text. A key occurs once; a value
/// written under a key that is present takes the place of the old one.
pub struct ConfigMap {
    entries: StringHashMap<String>,
}

impl View for ConfigMap {
    type V = Map<Seq<char>, Seq<char>>;

    closed spec fn view(&self) -> Map<Seq<char>, Seq<char>> {
        self.entries@.map_values(|value: String| value@)
    }
}

/// The mapping that a series of pairs builds when each is written in
/// turn: of two pairs with one key, the later one stays.
pub open spec fn pairs_map(pairs: Seq<(Seq<char>, Seq<char>)>) -> Map<Seq<char>, Seq<char>>
    decreases pairs.len(),
{
    if pairs.len() == 0 {
        Map::empty()
    } else {
        pairs_map(pairs.drop_last()).insert(pairs.last().0, pairs.last().1)
    }
}

/// The value under `key`, or the empty text where the key is absent.
pub open spec fn value_or_empty(map: Map<Seq<char>, Seq<char>>, key: Seq<char>) -> Seq<char> {
    if map.contains_key(key) {
        map[key]
    } else {
        Seq::empty()
    }
}

/// Merging keeps every key of both mappings; where both hold a key, the
/// value of the second one stands in the result.
pub proof fn lemma_merge_prefers_second(
    first: Map<Seq<char>, Seq<char>>,
    second: Map<Seq<char>, Seq<char>>,
    key: Seq<char>,
)
    ensures
        first.union_prefer_right(second).contains_key(key) <==> first.contains_key(key)
            || second.contains_key(key),
        second.contains_key(key) ==> first.union_prefer_right(second)[key] == second[key],
        first.contains_key(key) && !second.contains_key(key) ==> first.union_prefer_right(
            second,
        )[key] == first[key],
{
}

impl ConfigMap {
    /// The empty mapping.
    pub fn new() -> (r: ConfigMap)
        ensures
            r@ == Map::<Seq<char>, Seq<char>>::empty(),
    {
        let r = ConfigMap { entries: StringHashMap::new() };
        r
    }

    /// Writes `value` under `key`, in place of what was there.
    pub fn insert(&mut self, key: String, value: String)
        ensures
            final(self)@ == old(self)@.insert(key@, value@),
    {
        self.entries.insert(key, value);
    }

    /// Whether `key` is present.
    pub fn contains_key(&self, key: &str) -> (r: bool)
        ensures
            r == self@.contains_key(key@),
    {
        self.entries.contains_key(key)
    }

    /// The value under `key`, if the key is present.
    pub fn get(&self, key: &str) -> (r: Option<String>)
        ensures
            match r {
                Some(value) => self@.contains_key(key@) && value@ == self@[key@],
                None => !self@.contains_key(key@),
            },
    {
        match self.entries.get(key) {
            Some(value) => Some(value.clone()),
            None => None,
        }
    }

    /// The value under `key`, or the empty text where the key is absent.
    pub fn get_or_empty(&self, key: &str) -> (r: String)
        ensures
            r@ == value_or_empty(self@, key@),
    {
        match self.entries.get(key) {
            Some(value) => value.clone(),
            None => String::new(),
        }
    }

    /// The number of keys.
    pub fn len(&self) -> (r: usize)
        ensures
            r == self@.len(),
    {
        assert(self@.dom() =~= self.entries@.dom());
        self.entries.len()
    }

    /// Writes every pair of `other` into this mapping: keys of both stay,
    /// and where both hold a key the value of `other` stands.
    pub fn merge(&mut self, other: ConfigMap)
        ensures
            final(self)@ == old(self)@.union_prefer_right(other@),
    {
        self.entries.union_prefer_right(other.entries);
    }

    /// The mapping that holds the given pairs, written in their order.
    pub fn from_pairs(pairs: Vec<(String, String)>) -> (r: ConfigMap)
        ensures
            r@ == pairs_map(pairs.deep_view()),
    {
        let ghost all = pairs.deep_view();
        let mut r = ConfigMap::new();
        let mut rest = pairs;
        let mut late: Vec<(String, String)> = Vec::new();
        while rest.len() > 0
            invariant
                rest.len() + late.len() == all.len(),
                rest.deep_view() =~= all.subrange(0, rest.len() as int),
                forall|j: int|
                    0 <= j < late.len() ==> (#[trigger] late[j]).deep_view() == all[all.len() - 1
                        - j],
            decreases rest.len(),
        {
            let ghost held = rest.deep_view();
            let pair = rest.pop().unwrap();
            assert(pair.deep_view() == held[held.len() - 1]);
            late.push(pair);
        }
        while late.len() > 0
            invariant
                late.len() <= all.len(),
                forall|j: int|
                    0 <= j < late.len() ==> (#[trigger] late[j]).deep_view() == all[all.len() - 1
                        - j],
                r@ == pairs_map(all.subrange(0, all.len() - late.len())),
            decreases late.len(),
        {
            let ghost at = all.len() - late.len();
            let (key, value) = late.pop().unwrap();
            assert(all.subrange(0, at + 1).drop_last() =~= all.subrange(0, at));
            r.insert(key, value);
        }
        r
    }
}

} // verus!

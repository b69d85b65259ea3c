//! Fields: named values given by a profile or by the caller.

use vstd::hash_map::StringHashMap;
use vstd::prelude::*;

verus! {

/// Named values that a template's fields are filled from: a profile's data,
/// or the overrides that a caller gives.
pub struct FieldMap {
    entries: StringHashMap<String>,
}

impl View for FieldMap {
    type V = Map<Seq<char>, Seq<char>>;

    closed spec fn view(&self) -> Map<Seq<char>, Seq<char>> {
        self.entries@.map_values(|value: String| value@)
    }
}

/// The map that a list of pairs stands for: each name with the value of the
/// last pair that has it.
pub open spec fn pairs_map(pairs: Seq<(String, String)>) -> Map<Seq<char>, Seq<char>>
    decreases pairs.len(),
{
    if pairs.len() == 0 {
        Map::empty()
    } else {
        pairs_map(pairs.drop_last()).insert(pairs.last().0@, pairs.last().1@)
    }
}

impl FieldMap {
    /// A map without entries.
    pub fn new() -> (map: FieldMap)
        ensures
            map@ == Map::<Seq<char>, Seq<char>>::empty(),
    {
        let map = FieldMap { entries: StringHashMap::new() };
        map
    }

    /// Defines `name` as `value`, in place of what it was before.
    pub fn insert(&mut self, name: String, value: String)
        ensures
            final(self)@ == old(self)@.insert(name@, value@),
    {
        self.entries.insert(name, value);
    }

    /// The value that `name` is defined as.
    pub fn get(&self, name: &str) -> (value: Option<&String>)
        ensures
            match value {
                Some(v) => self@.contains_key(name@) && self@[name@] == v@,
                None => !self@.contains_key(name@),
            },
    {
        self.entries.get(name)
    }

    /// The map that a list of pairs stands for.
    pub fn from_pairs(pairs: &Vec<(String, String)>) -> (map: FieldMap)
        ensures
            map@ == pairs_map(pairs@),
    {
        let mut map = FieldMap::new();
        let mut i: usize = 0;
        while i < pairs.len()
            invariant
                i <= pairs.len(),
                map@ == pairs_map(pairs@.take(i as int)),
            decreases pairs.len() - i,
        {
            map.insert(pairs[i].0.clone(), pairs[i].1.clone());
            i += 1;
            assert(pairs@.take(i as int).drop_last() == pairs@.take(i - 1));
        }
        assert(pairs@.take(i as int) == pairs@);
        map
    }
}

/// The value of a field: the overrides' where they define it, else the
/// profile's.
pub open spec fn field_value(
    name: Seq<char>,
    overrides: Map<Seq<char>, Seq<char>>,
    profile: Map<Seq<char>, Seq<char>>,
) -> Option<Seq<char>> {
    if overrides.contains_key(name) {
        Some(overrides[name])
    } else if profile.contains_key(name) {
        Some(profile[name])
    } else {
        None
    }
}

/// Looks a field up in the overrides, then in the profile.
pub fn resolve_field<'a>(name: &str, overrides: &'a FieldMap, profile: &'a FieldMap) -> (value:
    Option<&'a String>)
    ensures
        match value {
            Some(v) => field_value(name@, overrides@, profile@) == Some(v@),
            None => field_value(name@, overrides@, profile@) is None,
        },
{
    match overrides.get(name) {
        Some(v) => Some(v),
        None => profile.get(name),
    }
}

/// A value that the overrides define is the field's value, whatever the
/// profile says of that name; the profile decides only where the overrides
/// are silent.
pub proof fn lemma_overrides_shadow_profile(
    name: Seq<char>,
    overrides: Map<Seq<char>, Seq<char>>,
    profile: Map<Seq<char>, Seq<char>>,
)
    ensures
        overrides.contains_key(name) ==> field_value(name, overrides, profile) == Some(
            overrides[name],
        ),
        !overrides.contains_key(name) && profile.contains_key(name) ==> field_value(
            name,
            overrides,
            profile,
        ) == Some(profile[name]),
        field_value(name, overrides, profile) is None <==> !overrides.contains_key(name)
            && !profile.contains_key(name),
{
}

} // verus!

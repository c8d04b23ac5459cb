//! Ordered string-keyed maps for headers, query parameters and path
//! parameters. Keys may repeat in a `ParamMap<String>`; lookups see the
//! first entry with the key.
use vstd::prelude::*;

use crate::text::{chars_eq, chars_of};

verus! {

/// The value(s) stored under a header or query key: one value, or the
/// values of a key that was given more than once.
#[derive(Clone)]
pub enum DuplicateMap {
    Single(String),
    List(Vec<String>),
}

/// The abstract contents of a `DuplicateMap`.
pub enum DuplicateValues {
    Single(Seq<char>),
    List(Seq<Seq<char>>),
}

/// The character sequences held by a sequence of strings.
pub open spec fn string_views(v: Seq<String>) -> Seq<Seq<char>> {
    v.map_values(|s: String| s@)
}

impl View for DuplicateMap {
    type V = DuplicateValues;

    open spec fn view(&self) -> DuplicateValues {
        match self {
            DuplicateMap::Single(s) => DuplicateValues::Single(s@),
            DuplicateMap::List(v) => DuplicateValues::List(string_views(v@)),
        }
    }
}

/// All values held, in the order they were added.
pub open spec fn all_values(d: DuplicateValues) -> Seq<Seq<char>> {
    match d {
        DuplicateValues::Single(s) => seq![s],
        DuplicateValues::List(v) => v,
    }
}

/// The references in `v`, seen as character sequences.
pub open spec fn ref_views(v: Seq<&String>) -> Seq<Seq<char>> {
    v.map_values(|s: &String| s@)
}

impl DuplicateMap {
    /// The value, when exactly one was stored as a single value.
    pub fn as_single(&self) -> (r: Option<&String>)
        ensures
            match self@ {
                DuplicateValues::Single(s) => r matches Some(x) && x@ == s,
                DuplicateValues::List(_) => r is None,
            },
    {
        match self {
            DuplicateMap::Single(value) => Some(value),
            _ => None,
        }
    }

    /// The values, when they are stored as a list.
    pub fn as_list(&self) -> (r: Option<&Vec<String>>)
        ensures
            match self@ {
                DuplicateValues::Single(_) => r is None,
                DuplicateValues::List(v) => r matches Some(x) && string_views(x@) == v,
            },
    {
        match self {
            DuplicateMap::List(values) => Some(values),
            _ => None,
        }
    }

    /// All values, in order, whichever way they are stored.
    pub fn as_slice(&self) -> (r: Vec<&String>)
        ensures
            ref_views(r@) == all_values(self@),
    {
        match self {
            DuplicateMap::Single(value) => {
                let r = vec![value];
                assert(ref_views(r@) =~= seq![value@]);
                r
            },
            DuplicateMap::List(values) => {
                let mut r: Vec<&String> = Vec::new();
                let mut i: usize = 0;
                while i < values.len()
                    invariant
                        i <= values@.len(),
                        ref_views(r@) == string_views(values@).take(i as int),
                    decreases values@.len() - i,
                {
                    let ghost before = r@;
                    let e = &values[i];
                    r.push(e);
                    proof {
                        assert(r@ == before.push(e));
                        assert(ref_views(before.push(e)) =~= ref_views(before).push(e@));
                        assert(string_views(values@).take(i + 1) =~= string_views(values@).take(
                            i as int,
                        ).push(values@[i as int]@));
                    }
                    i = i + 1;
                }
                assert(string_views(values@).take(i as int) =~= string_views(values@));
                r
            },
        }
    }
}

/// The position of the first entry whose key is `key`.
pub open spec fn index_of_key<V>(entries: Seq<(Seq<char>, V)>, key: Seq<char>) -> Option<int>
    decreases entries.len(),
{
    if entries.len() == 0 {
        None
    } else if entries[0].0 == key {
        Some(0)
    } else {
        match index_of_key(entries.drop_first(), key) {
            Some(i) => Some(i + 1),
            None => None,
        }
    }
}

/// `i` is the position of the first entry with key `key`.
pub open spec fn is_first_key<V>(entries: Seq<(Seq<char>, V)>, key: Seq<char>, i: int) -> bool {
    &&& 0 <= i < entries.len()
    &&& entries[i].0 == key
    &&& forall|j: int| 0 <= j < i ==> entries[j].0 != key
}

/// Some entry has key `key`.
pub open spec fn has_key<V>(entries: Seq<(Seq<char>, V)>, key: Seq<char>) -> bool {
    exists|i: int| 0 <= i < entries.len() && entries[i].0 == key
}

/// The value of the first entry with key `key`.
pub open spec fn lookup<V>(entries: Seq<(Seq<char>, V)>, key: Seq<char>) -> Option<V> {
    match index_of_key(entries, key) {
        Some(i) => Some(entries[i].1),
        None => None,
    }
}

/// `index_of_key` finds exactly the first entry with the key.
pub proof fn lemma_index_of_key<V>(entries: Seq<(Seq<char>, V)>, key: Seq<char>)
    ensures
        index_of_key(entries, key) matches Some(i) ==> is_first_key(entries, key, i),
        index_of_key(entries, key) is None <==> !has_key(entries, key),
        forall|i: int| is_first_key(entries, key, i) ==> index_of_key(entries, key) == Some(i),
    decreases entries.len(),
{
    if entries.len() == 0 {
    } else if entries[0].0 == key {
        assert(is_first_key(entries, key, 0));
    } else {
        let rest = entries.drop_first();
        lemma_index_of_key(rest, key);
        if let Some(i) = index_of_key(rest, key) {
            assert forall|j: int| 0 <= j < i + 1 implies entries[j].0 != key by {
                if j > 0 {
                    assert(entries[j] == rest[j - 1]);
                }
            }
        }
        assert forall|i: int| is_first_key(entries, key, i) implies index_of_key(entries, key)
            == Some(i) by {
            assert(is_first_key(rest, key, i - 1));
        }
        if has_key(entries, key) {
            let i = choose|i: int| 0 <= i < entries.len() && entries[i].0 == key;
            assert(rest[i - 1].0 == key);
        }
        if has_key(rest, key) {
            let i = choose|i: int| 0 <= i < rest.len() && rest[i].0 == key;
            assert(entries[i + 1].0 == key);
        }
    }
}

/// The combination of the values `d` with one more value `v`.
pub open spec fn merge_value(d: DuplicateValues, v: Seq<char>) -> DuplicateValues {
    match d {
        DuplicateValues::Single(o) => DuplicateValues::List(seq![o, v]),
        DuplicateValues::List(items) => DuplicateValues::List(items.push(v)),
    }
}

/// The entries after adding value `v` under `key`, keeping repeated
/// values together.
pub open spec fn add_duplicate(
    entries: Seq<(Seq<char>, DuplicateValues)>,
    key: Seq<char>,
    v: Seq<char>,
) -> Seq<(Seq<char>, DuplicateValues)> {
    match index_of_key(entries, key) {
        Some(i) => entries.update(i, (key, merge_value(entries[i].1, v))),
        None => entries.push((key, DuplicateValues::Single(v))),
    }
}

/// An ordered list of entries from string keys to values.
#[derive(Clone)]
pub struct ParamMap<T> {
    params: Vec<(String, T)>,
}

/// The abstract entries of a vector of key/value pairs.
pub open spec fn entry_views<T: View>(v: Seq<(String, T)>) -> Seq<(Seq<char>, T::V)> {
    v.map_values(|e: (String, T)| (e.0@, e.1@))
}

impl<T: View> View for ParamMap<T> {
    type V = Seq<(Seq<char>, T::V)>;

    closed spec fn view(&self) -> Seq<(Seq<char>, T::V)> {
        entry_views(self.params@)
    }
}

impl<T: View> Default for ParamMap<T> {
    /// A map with no entries.
    fn default() -> (r: Self)
        ensures
            r@ == Seq::<(Seq<char>, T::V)>::empty(),
    {
        Self::empty()
    }
}

impl<T: View> ParamMap<T> {
    /// A map with no entries.
    pub fn empty() -> (r: Self)
        ensures
            r@ == Seq::<(Seq<char>, T::V)>::empty(),
    {
        let r = ParamMap { params: Vec::new() };
        assert(r@ =~= Seq::<(Seq<char>, T::V)>::empty());
        r
    }

    /// The position of the first entry with key `index`.
    fn position(&self, index: &str) -> (r: Option<usize>)
        ensures
            r matches Some(i) ==> index_of_key(self@, index@) == Some(i as int) && i
                < self.params@.len(),
            r is None ==> index_of_key(self@, index@) is None,
    {
        let key = chars_of(index);
        let mut i: usize = 0;
        while i < self.params.len()
            invariant
                key@ == index@,
                i <= self.params@.len(),
                self@.len() == self.params@.len(),
                forall|j: int| 0 <= j < i ==> self@[j].0 != index@,
            decreases self.params@.len() - i,
        {
            let k = chars_of(self.params[i].0.as_str());
            proof {
                assert(self@[i as int].0 == self.params@[i as int].0@);
            }
            if chars_eq(&k, &key) {
                proof {
                    assert(is_first_key(self@, index@, i as int));
                    lemma_index_of_key(self@, index@);
                }
                return Some(i);
            }
            i = i + 1;
        }
        proof {
            lemma_index_of_key(self@, index@);
        }
        None
    }

    /// Whether some entry has key `index`.
    pub fn has(&self, index: &str) -> (r: bool)
        ensures
            r == has_key(self@, index@),
    {
        proof {
            lemma_index_of_key(self@, index@);
        }
        self.position(index).is_some()
    }

    /// The value of the first entry with key `index`.
    pub fn get(&self, index: &str) -> (r: Option<&T>)
        ensures
            match lookup(self@, index@) {
                Some(v) => r matches Some(x) && x@ == v,
                None => r is None,
            },
    {
        match self.position(index) {
            Some(i) => Some(&self.params[i].1),
            None => None,
        }
    }
}

impl ParamMap<DuplicateMap> {
    /// Adds `value` under `key`: a first value is stored alone, a second
    /// turns the entry into a list, further values extend the list.
    pub fn add(&mut self, key: &str, value: String)
        ensures
            final(self)@ == add_duplicate(old(self)@, key@, value@),
    {
        match self.position(key) {
            Some(i) => {
                proof {
                    lemma_index_of_key(self@, key@);
                    assert(self@[i as int].0 == self.params@[i as int].0@);
                }
                let (k, v) = self.params.remove(i);
                let ghost old_v = v@;
                let merged = match v {
                    DuplicateMap::Single(original_value) => {
                        let items = vec![original_value, value];
                        assert(string_views(items@) =~= seq![original_value@, value@]);
                        DuplicateMap::List(items)
                    },
                    DuplicateMap::List(mut items) => {
                        let ghost before = string_views(items@);
                        items.push(value);
                        assert(string_views(items@) =~= before.push(value@));
                        DuplicateMap::List(items)
                    },
                };
                assert(merged@ == merge_value(old_v, value@));
                assert(k@ == key@);
                self.params.insert(i, (k, merged));
                proof {
                    assert(self@ =~= add_duplicate(old(self)@, key@, value@));
                }
            },
            None => {
                let k = key.to_owned();
                self.params.push((k, DuplicateMap::Single(value)));
                proof {
                    assert(self@ =~= add_duplicate(old(self)@, key@, value@));
                }
            },
        }
    }
}

impl DuplicateMap {
    /// A copy of these values.
    pub(crate) fn copy(&self) -> (r: DuplicateMap)
        ensures
            r@ == self@,
    {
        match self {
            DuplicateMap::Single(s) => DuplicateMap::Single(s.clone()),
            DuplicateMap::List(items) => {
                let mut copied: Vec<String> = Vec::new();
                let mut i: usize = 0;
                while i < items.len()
                    invariant
                        i <= items@.len(),
                        string_views(copied@) == string_views(items@).take(i as int),
                    decreases items@.len() - i,
                {
                    let ghost before = copied@;
                    copied.push(items[i].clone());
                    proof {
                        assert(string_views(copied@) =~= string_views(before).push(items@[i as int]@));
                        assert(string_views(items@).take(i + 1) =~= string_views(items@).take(
                            i as int,
                        ).push(items@[i as int]@));
                    }
                    i = i + 1;
                }
                assert(string_views(items@).take(i as int) =~= string_views(items@));
                DuplicateMap::List(copied)
            },
        }
    }
}

impl ParamMap<DuplicateMap> {
    /// A copy of this map.
    pub(crate) fn copy(&self) -> (r: ParamMap<DuplicateMap>)
        ensures
            r@ == self@,
    {
        let mut params: Vec<(String, DuplicateMap)> = Vec::new();
        let mut i: usize = 0;
        while i < self.params.len()
            invariant
                i <= self.params@.len(),
                entry_views(params@) == entry_views(self.params@).take(i as int),
            decreases self.params@.len() - i,
        {
            let ghost before = params@;
            let (k, v) = &self.params[i];
            params.push((k.clone(), v.copy()));
            proof {
                assert(entry_views(params@) =~= entry_views(before).push((k@, v@)));
                assert(entry_views(self.params@).take(i + 1) =~= entry_views(self.params@).take(
                    i as int,
                ).push((k@, v@)));
            }
            i = i + 1;
        }
        assert(entry_views(self.params@).take(i as int) =~= entry_views(self.params@));
        let r = ParamMap { params };
        r
    }
}

/// The message of a lookup that found several values for `key`.
pub open spec fn multiple_values_message(key: Seq<char>) -> Seq<char> {
    "Expected single value for key '"@ + key + "', but found multiple values."@
}

/// The message of an insertion refused because `key` holds one value.
pub open spec fn single_taken_message(key: Seq<char>) -> Seq<char> {
    "Key '"@ + key + "' already has a single value, cannot add another."@
}

/// The message of an insertion refused because `key` holds several values.
pub open spec fn list_taken_message(key: Seq<char>) -> Seq<char> {
    "Key '"@ + key + "' already has multiple values, cannot add a single value."@
}

/// `prefix + middle + suffix` as a new string.
fn concat3(prefix: &str, middle: &str, suffix: &str) -> (r: String)
    ensures
        r@ == prefix@ + middle@ + suffix@,
{
    let mut r = String::from_str(prefix);
    r.append(middle);
    r.append(suffix);
    r
}

impl ParamMap<DuplicateMap> {
    /// The single value of `index`; an error when the key holds a list.
    pub fn get_require_single(&self, index: &str) -> (r: Result<Option<&String>, String>)
        ensures
            match lookup(self@, index@) {
                Some(DuplicateValues::Single(s)) => r matches Ok(Some(x)) && x@ == s,
                Some(DuplicateValues::List(_)) => r matches Err(m) && m@
                    == multiple_values_message(index@),
                None => r matches Ok(None),
            },
    {
        match self.get(index) {
            Some(DuplicateMap::Single(value)) => Ok(Some(value)),
            Some(DuplicateMap::List(_)) => Err(
                concat3("Expected single value for key '", index, "', but found multiple values."),
            ),
            _ => Ok(None),
        }
    }

    /// The value of `index` when it holds exactly one value.
    pub fn get_single(&self, index: &str) -> (r: Option<&String>)
        ensures
            match lookup(self@, index@) {
                Some(DuplicateValues::Single(s)) => r matches Some(x) && x@ == s,
                _ => r is None,
            },
    {
        match self.get(index) {
            Some(DuplicateMap::Single(value)) => Some(value),
            _ => None,
        }
    }

    /// Adds `value` under `key` when the key is new; an error otherwise.
    pub fn add_require_single(&mut self, key: &str, value: String) -> (r: Result<(), String>)
        ensures
            match lookup(old(self)@, key@) {
                None => r is Ok && final(self)@ == old(self)@.push(
                    (key@, DuplicateValues::Single(value@)),
                ),
                Some(DuplicateValues::Single(_)) => final(self)@ == old(self)@ && (r matches Err(m)
                    && m@ == single_taken_message(key@)),
                Some(DuplicateValues::List(_)) => final(self)@ == old(self)@ && (r matches Err(m)
                    && m@ == list_taken_message(key@)),
            },
    {
        match self.get(key) {
            Some(DuplicateMap::Single(_)) => {
                return Err(
                    concat3(
                        "Key '",
                        key,
                        "' already has a single value, cannot add another.",
                    ),
                );
            },
            Some(DuplicateMap::List(_)) => {
                return Err(
                    concat3(
                        "Key '",
                        key,
                        "' already has multiple values, cannot add a single value.",
                    ),
                );
            },
            None => {},
        }
        self.params.push((key.to_owned(), DuplicateMap::Single(value)));
        proof {
            assert(self@ =~= old(self)@.push((key@, DuplicateValues::Single(value@))));
        }
        Ok(())
    }
}

impl ParamMap<String> {
    /// Appends the entry `key = value`; earlier entries with the same key
    /// are kept and still win lookups.
    pub fn add(&mut self, key: &str, value: String)
        ensures
            final(self)@ == old(self)@.push((key@, value@)),
    {
        self.params.push((key.to_owned(), value));
        proof {
            assert(self@ =~= old(self)@.push((key@, value@)));
        }
    }
}

/// Two entry lists with the same keys in the same places find the same
/// first position for every key.
pub proof fn lemma_same_keys_same_index<V, W>(
    a: Seq<(Seq<char>, V)>,
    b: Seq<(Seq<char>, W)>,
    key: Seq<char>,
)
    requires
        a.len() == b.len(),
        forall|j: int| 0 <= j < a.len() ==> a[j].0 == b[j].0,
    ensures
        index_of_key(a, key) == index_of_key(b, key),
{
    lemma_index_of_key(a, key);
    lemma_index_of_key(b, key);
    if let Some(i) = index_of_key(a, key) {
        assert(is_first_key(b, key, i));
    } else if let Some(i) = index_of_key(b, key) {
        assert(is_first_key(a, key, i));
    }
}

/// After `add(key, value)` on a map of single strings, `key` is present;
/// its lookup is unchanged when it was present before and is `value`
/// otherwise, and every other key looks up as before.
pub proof fn law_string_map_add_then_get(
    m: Seq<(Seq<char>, Seq<char>)>,
    key: Seq<char>,
    value: Seq<char>,
    other: Seq<char>,
)
    requires
        other != key,
    ensures
        has_key(m.push((key, value)), key),
        lookup(m.push((key, value)), key) == (if has_key(m, key) {
            lookup(m, key)
        } else {
            Some(value)
        }),
        lookup(m.push((key, value)), other) == lookup(m, other),
{
    let n = m.push((key, value));
    lemma_index_of_key(m, key);
    lemma_index_of_key(n, key);
    lemma_index_of_key(m, other);
    lemma_index_of_key(n, other);
    assert(n[m.len() as int].0 == key);
    if let Some(i) = index_of_key(m, key) {
        assert(is_first_key(n, key, i));
    } else {
        assert(is_first_key(n, key, m.len() as int));
    }
    if let Some(i) = index_of_key(m, other) {
        assert(is_first_key(n, other, i));
    }
}

/// Adding to a map of repeatable values appends `value` to the values of
/// `key` (starting a single value when the key is new) and leaves every
/// other key as it was.
pub proof fn law_duplicate_add_accumulates(
    m: Seq<(Seq<char>, DuplicateValues)>,
    key: Seq<char>,
    value: Seq<char>,
    other: Seq<char>,
)
    requires
        other != key,
    ensures
        lookup(add_duplicate(m, key, value), key) matches Some(d) && all_values(d) == (
        match lookup(m, key) {
            Some(old_d) => all_values(old_d),
            None => Seq::<Seq<char>>::empty(),
        }).push(value),
        lookup(add_duplicate(m, key, value), other) == lookup(m, other),
{
    let n = add_duplicate(m, key, value);
    lemma_index_of_key(m, key);
    lemma_index_of_key(m, other);
    lemma_index_of_key(n, key);
    lemma_index_of_key(n, other);
    match index_of_key(m, key) {
        Some(i) => {
            assert(is_first_key(n, key, i));
            lemma_same_keys_same_index(m, n, other);
            match m[i].1 {
                DuplicateValues::Single(o) => {
                    assert(seq![o, value] =~= seq![o].push(value));
                },
                DuplicateValues::List(items) => {},
            }
        },
        None => {
            assert(is_first_key(n, key, m.len() as int));
            assert(seq![value] =~= Seq::<Seq<char>>::empty().push(value));
            if let Some(i) = index_of_key(m, other) {
                assert(is_first_key(n, other, i));
            }
        },
    }
}

/// A key that was absent and is then added with `add_require_single`
/// reads back as that single value.
pub proof fn law_add_single_then_get_single(
    m: Seq<(Seq<char>, DuplicateValues)>,
    key: Seq<char>,
    value: Seq<char>,
)
    requires
        lookup(m, key) is None,
    ensures
        lookup(m.push((key, DuplicateValues::Single(value))), key) == Some(
            DuplicateValues::Single(value),
        ),
{
    let n = m.push((key, DuplicateValues::Single(value)));
    lemma_index_of_key(m, key);
    lemma_index_of_key(n, key);
    assert(is_first_key(n, key, m.len() as int));
}

} // verus!

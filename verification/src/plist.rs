//! A property-list value model: what the library reads and writes of the
//! plists exchanged with devices and with Apple's signing server.
//!
//! Dictionaries keep their entries in order, each key once; inserting an
//! existing key replaces its value in place, and removing a key moves the
//! last entry into its slot (the order the plist crate's dictionaries keep).

use vstd::prelude::*;

verus! {

/// A property-list value.
#[derive(Debug)]
pub enum PlistValue {
    /// An array.
    Array(Vec<PlistValue>),
    /// A dictionary.
    Dictionary(PlistDict),
    /// A boolean.
    Boolean(bool),
    /// Raw data.
    Data(Vec<u8>),
    /// A date, as nanoseconds since the Unix epoch.
    Date(i128),
    /// A real number, as the bits of an IEEE 754 double.
    Real(u64),
    /// An integer (a plist integer is a `u64` or an `i64`).
    Integer(i128),
    /// A string.
    String(String),
    /// A keyed-archive UID.
    Uid(u64),
}

/// A dictionary: its entries in order, each key once.
#[derive(Debug)]
pub struct PlistDict {
    entries: Vec<(String, PlistValue)>,
}

/// The mathematical form of a property-list value.
pub enum PlistView {
    /// An array.
    Array(Seq<PlistView>),
    /// A dictionary, its entries in order.
    Dictionary(Seq<(Seq<char>, PlistView)>),
    /// A boolean.
    Boolean(bool),
    /// Raw data.
    Data(Seq<u8>),
    /// A date, as nanoseconds since the Unix epoch.
    Date(int),
    /// A real number's bits.
    Real(u64),
    /// An integer.
    Integer(int),
    /// A string.
    String(Seq<char>),
    /// A UID.
    Uid(u64),
}

/// The views of a sequence of values.
pub open spec fn view_values(s: Seq<PlistValue>) -> Seq<PlistView>
    decreases s, 0int,
{
    Seq::new(
        s.len(),
        |i: int|
            if 0 <= i < s.len() {
                view_value(s[i])
            } else {
                PlistView::Boolean(false)
            },
    )
}

/// The views of dictionary entries.
pub open spec fn view_entries(s: Seq<(String, PlistValue)>) -> Seq<(Seq<char>, PlistView)>
    decreases s, 0int,
{
    Seq::new(
        s.len(),
        |i: int|
            if 0 <= i < s.len() {
                (s[i].0@, view_value(s[i].1))
            } else {
                (Seq::empty(), PlistView::Boolean(false))
            },
    )
}

/// The entries of a dictionary, viewed.
pub closed spec fn dict_view(d: PlistDict) -> Seq<(Seq<char>, PlistView)>
    decreases d, 0int,
{
    view_entries(d.entries@)
}

/// The view of a value.
pub open spec fn view_value(v: PlistValue) -> PlistView
    decreases v, 1int,
{
    match v {
        PlistValue::Array(a) => PlistView::Array(view_values(a@)),
        PlistValue::Dictionary(d) => PlistView::Dictionary(dict_view(d)),
        PlistValue::Boolean(b) => PlistView::Boolean(b),
        PlistValue::Data(d) => PlistView::Data(d@),
        PlistValue::Date(t) => PlistView::Date(t as int),
        PlistValue::Real(r) => PlistView::Real(r),
        PlistValue::Integer(i) => PlistView::Integer(i as int),
        PlistValue::String(s) => PlistView::String(s@),
        PlistValue::Uid(u) => PlistView::Uid(u),
    }
}

impl View for PlistValue {
    type V = PlistView;

    open spec fn view(&self) -> PlistView {
        view_value(*self)
    }
}

impl View for PlistDict {
    type V = Seq<(Seq<char>, PlistView)>;

    open spec fn view(&self) -> Seq<(Seq<char>, PlistView)> {
        dict_view(*self)
    }
}

// ---------------------------------------------------------------------------
// Dictionary model
// ---------------------------------------------------------------------------

/// Whether no key occurs twice.
pub open spec fn keys_unique(es: Seq<(Seq<char>, PlistView)>) -> bool {
    forall|i: int, j: int| 0 <= i < j < es.len() ==> es[i].0 != es[j].0
}

/// The index of `key`'s entry, or -1.
pub open spec fn key_index(es: Seq<(Seq<char>, PlistView)>, key: Seq<char>) -> int
    decreases es.len(),
{
    if es.len() == 0 {
        -1
    } else if key_index(es.drop_last(), key) >= 0 {
        key_index(es.drop_last(), key)
    } else if es.last().0 == key {
        es.len() - 1
    } else {
        -1
    }
}

/// The value of `key`, if the dictionary has it.
pub open spec fn lookup(es: Seq<(Seq<char>, PlistView)>, key: Seq<char>) -> Option<PlistView> {
    let i = key_index(es, key);
    if i >= 0 {
        Some(es[i].1)
    } else {
        None
    }
}

/// The entries after inserting `key` with `value`: a present key keeps its
/// place and takes the new value; a new key goes at the end.
pub open spec fn inserted(es: Seq<(Seq<char>, PlistView)>, key: Seq<char>, value: PlistView) -> Seq<
    (Seq<char>, PlistView),
> {
    let i = key_index(es, key);
    if i >= 0 {
        es.update(i, (key, value))
    } else {
        es.push((key, value))
    }
}

/// The entries after removing `key`: the last entry takes the removed
/// one's place.
pub open spec fn removed(es: Seq<(Seq<char>, PlistView)>, key: Seq<char>) -> Seq<
    (Seq<char>, PlistView),
> {
    let i = key_index(es, key);
    if i < 0 {
        es
    } else if i == es.len() - 1 {
        es.drop_last()
    } else {
        es.drop_last().update(i, es.last())
    }
}

pub proof fn lemma_key_index(es: Seq<(Seq<char>, PlistView)>, key: Seq<char>)
    ensures
        -1 <= key_index(es, key) < es.len(),
        key_index(es, key) >= 0 ==> es[key_index(es, key)].0 == key && forall|j: int|
            0 <= j < key_index(es, key) ==> es[j].0 != key,
        key_index(es, key) < 0 ==> forall|j: int| 0 <= j < es.len() ==> es[j].0 != key,
    decreases es.len(),
{
    if es.len() > 0 {
        let d = es.drop_last();
        lemma_key_index(d, key);
        assert(forall|j: int| 0 <= j < d.len() ==> d[j] == es[j]);
    }
}

proof fn lemma_key_index_of(es: Seq<(Seq<char>, PlistView)>, key: Seq<char>, i: int)
    requires
        0 <= i < es.len(),
        es[i].0 == key,
        forall|j: int| 0 <= j < i ==> es[j].0 != key,
    ensures
        key_index(es, key) == i,
{
    lemma_key_index(es, key);
}

proof fn lemma_key_index_none(es: Seq<(Seq<char>, PlistView)>, key: Seq<char>)
    requires
        forall|j: int| 0 <= j < es.len() ==> es[j].0 != key,
    ensures
        key_index(es, key) == -1,
{
    lemma_key_index(es, key);
}

/// Reading a dictionary after an insertion: the inserted key gives the new
/// value, every other key what it gave before.
pub proof fn law_lookup_inserted(
    es: Seq<(Seq<char>, PlistView)>,
    key: Seq<char>,
    value: PlistView,
    other: Seq<char>,
)
    ensures
        lookup(inserted(es, key, value), key) == Some(value),
        other != key ==> lookup(inserted(es, key, value), other) == lookup(es, other),
{
    let es2 = inserted(es, key, value);
    let i = key_index(es, key);
    lemma_key_index(es, key);
    lemma_key_index(es, other);
    if i >= 0 {
        assert(es2.len() == es.len());
        lemma_key_index_of(es2, key, i);
        if other != key {
            let j = key_index(es, other);
            if j >= 0 {
                assert forall|t: int| 0 <= t < j implies es2[t].0 != other by {
                    assert(es2[t].0 == es[t].0 || t == i);
                }
                lemma_key_index_of(es2, other, j);
            } else {
                assert forall|t: int| 0 <= t < es2.len() implies es2[t].0 != other by {
                    assert(es2[t].0 == es[t].0 || t == i);
                }
                lemma_key_index_none(es2, other);
            }
        }
    } else {
        lemma_key_index_of(es2, key, es.len() as int);
        if other != key {
            let j = key_index(es, other);
            if j >= 0 {
                assert forall|t: int| 0 <= t < j implies es2[t].0 != other by {
                    assert(es2[t] == es[t]);
                }
                lemma_key_index_of(es2, other, j);
            } else {
                assert forall|t: int| 0 <= t < es2.len() implies es2[t].0 != other by {
                    if t < es.len() {
                        assert(es2[t] == es[t]);
                    }
                }
                lemma_key_index_none(es2, other);
            }
        }
    }
}

/// With keys unique, a key's index is where it stands.
proof fn lemma_unique_index(es: Seq<(Seq<char>, PlistView)>, key: Seq<char>, t: int)
    requires
        keys_unique(es),
        0 <= t < es.len(),
        es[t].0 == key,
    ensures
        key_index(es, key) == t,
{
    assert forall|j: int| 0 <= j < t implies es[j].0 != key by {
        assert(es[j].0 != es[t].0);
    }
    lemma_key_index_of(es, key, t);
}

/// Reading a dictionary of unique keys after a removal: the removed key is
/// gone, every other key gives what it gave before, and keys stay unique.
pub proof fn law_lookup_removed(es: Seq<(Seq<char>, PlistView)>, key: Seq<char>, other: Seq<char>)
    requires
        keys_unique(es),
    ensures
        keys_unique(removed(es, key)),
        lookup(removed(es, key), key) is None,
        other != key ==> lookup(removed(es, key), other) == lookup(es, other),
{
    let i = key_index(es, key);
    lemma_key_index(es, key);
    lemma_key_index(es, other);
    let es2 = removed(es, key);
    if i < 0 {
    } else {
        let n = es.len();
        assert(forall|t: int| 0 <= t < es2.len() ==> (#[trigger] es2[t] == es[t] || (t == i && es2[t] == es[n - 1])));
        assert(forall|t: int| 0 <= t < es2.len() ==> #[trigger] es2[t].0 != key) by {
            assert forall|t: int| 0 <= t < es2.len() implies #[trigger] es2[t].0 != key by {
                if es2[t] == es[t] {
                    if t != i {
                        assert(es[t].0 != es[i].0);
                    }
                } else {
                    assert(es[n - 1].0 != es[i].0);
                }
            }
        }
        assert(keys_unique(es2)) by {
            assert forall|a: int, b: int| 0 <= a < b < es2.len() implies es2[a].0 != es2[b].0 by {
                if a == i {
                    assert(es2[a] == es[n - 1]);
                    assert(es2[b] == es[b]);
                    assert(b < n - 1);
                } else if b == i {
                    assert(es2[b] == es[n - 1]);
                    assert(es2[a] == es[a]);
                } else {
                    assert(es2[a] == es[a] && es2[b] == es[b]);
                }
            }
        }
        lemma_key_index_none(es2, key);
        if other != key {
            let t = key_index(es, other);
            if t >= 0 {
                if t == n - 1 && i != n - 1 {
                    assert(es2[i] == es[n - 1]);
                    lemma_unique_index(es2, other, i);
                } else {
                    assert(t != i);
                    assert(t < es2.len());
                    assert(es2[t] == es[t]);
                    lemma_unique_index(es2, other, t);
                }
            } else {
                assert forall|u: int| 0 <= u < es2.len() implies es2[u].0 != other by {
                    if es2[u] == es[u] {
                    } else {
                        assert(es2[u] == es[n - 1]);
                    }
                }
                lemma_key_index_none(es2, other);
            }
        }
    }
}

/// Inserting into a dictionary of unique keys keeps its keys unique.
pub proof fn law_inserted_unique(es: Seq<(Seq<char>, PlistView)>, key: Seq<char>, value: PlistView)
    requires
        keys_unique(es),
    ensures
        keys_unique(inserted(es, key, value)),
{
    lemma_key_index(es, key);
    let es2 = inserted(es, key, value);
    assert forall|a: int, b: int| 0 <= a < b < es2.len() implies es2[a].0 != es2[b].0 by {
        if key_index(es, key) >= 0 {
            assert(es2[a].0 == es[a].0 && es2[b].0 == es[b].0);
        } else if b == es.len() {
            assert(es2[a] == es[a]);
        } else {
            assert(es2[a] == es[a] && es2[b] == es[b]);
        }
    }
}

impl PlistDict {
    /// Each key occurs once.
    #[verifier::type_invariant]
    closed spec fn unique_keys(&self) -> bool {
        keys_unique(view_entries(self.entries@))
    }

    /// An empty dictionary.
    pub fn new() -> (r: PlistDict)
        ensures
            r@ == Seq::<(Seq<char>, PlistView)>::empty(),
    {
        let d = PlistDict { entries: Vec::new() };
        assert(d@ =~= Seq::<(Seq<char>, PlistView)>::empty());
        d
    }

    /// The number of entries.
    pub fn len(&self) -> (r: usize)
        ensures
            r == self@.len(),
            keys_unique(self@),
    {
        proof {
            use_type_invariant(self);
        }
        self.entries.len()
    }

    /// The entry at `i`, in order.
    pub fn entry(&self, i: usize) -> (r: (&String, &PlistValue))
        requires
            i < self@.len(),
        ensures
            r.0@ == self@[i as int].0,
            r.1@ == self@[i as int].1,
            *r.1 == value_at(*self, i as int),
    {
        let e = &self.entries[i];
        (&e.0, &e.1)
    }

    /// The index of `key`'s entry.
    fn find(&self, key: &String) -> (r: Option<usize>)
        ensures
            match r {
                Some(i) => key_index(self@, key@) == i && i < self.entries@.len(),
                None => key_index(self@, key@) == -1,
            },
            self@.len() == self.entries@.len(),
    {
        let mut i: usize = 0;
        while i < self.entries.len()
            invariant
                i <= self@.len(),
                self@.len() == self.entries@.len(),
                forall|j: int| 0 <= j < i ==> self@[j].0 != key@,
            decreases self.entries.len() - i,
        {
            if self.entries[i].0 == *key {
                proof {
                    lemma_key_index_of(self@, key@, i as int);
                }
                return Some(i);
            }
            i = i + 1;
        }
        proof {
            lemma_key_index_none(self@, key@);
        }
        None
    }

    /// The value of `key`, if present.
    pub fn get(&self, key: &str) -> (r: Option<&PlistValue>)
        ensures
            match lookup(self@, key@) {
                Some(v) => r matches Some(x) && x@ == v,
                None => r is None,
            },
    {
        let k = key.to_owned();
        match self.find(&k) {
            Some(i) => {
                assert(self@[i as int].1 == self.entries@[i as int].1@);
                Some(&self.entries[i].1)
            },
            None => None,
        }
    }

    /// Whether `key` is present.
    pub fn contains_key(&self, key: &str) -> (r: bool)
        ensures
            r == (lookup(self@, key@) is Some),
    {
        self.get(key).is_some()
    }

    /// Sets `key` to `value`: a present key keeps its place; a new key goes
    /// at the end.
    pub fn insert(&mut self, key: String, value: PlistValue)
        ensures
            final(self)@ == inserted(old(self)@, key@, value@),
    {
        proof {
            use_type_invariant(&*self);
            lemma_key_index(self@, key@);
        }
        let ghost key_view = key@;
        let ghost value_view = value@;
        match self.find(&key) {
            Some(i) => {
                let mut entries = Vec::new();
                std::mem::swap(&mut entries, &mut self.entries);
                let ghost before = entries@;
                entries.set(i, (key, value));
                assert(view_entries(entries@) =~= view_entries(before).update(
                    i as int,
                    (key_view, value_view),
                ));
                self.entries = entries;
            },
            None => {
                let mut entries = Vec::new();
                std::mem::swap(&mut entries, &mut self.entries);
                let ghost before = entries@;
                entries.push((key, value));
                assert(view_entries(entries@) =~= view_entries(before).push((key_view, value_view)));
                self.entries = entries;
            },
        }
    }

    /// Removes `key`, moving the last entry into its place; gives back its
    /// value.
    pub fn remove(&mut self, key: &str) -> (r: Option<PlistValue>)
        ensures
            final(self)@ == removed(old(self)@, key@),
            match lookup(old(self)@, key@) {
                Some(v) => r matches Some(x) && x@ == v,
                None => r is None,
            },
    {
        proof {
            use_type_invariant(&*self);
            lemma_key_index(self@, key@);
        }
        let k = key.to_owned();
        match self.find(&k) {
            Some(i) => {
                let mut entries = Vec::new();
                std::mem::swap(&mut entries, &mut self.entries);
                let ghost before = entries@;
                let ghost vb = view_entries(before);
                let (_k, v) = entries.swap_remove(i);
                assert(view_entries(entries@) =~= removed(vb, key@));
                self.entries = entries;
                Some(v)
            },
            None => None,
        }
    }
}

// ---------------------------------------------------------------------------
// Value accessors
// ---------------------------------------------------------------------------

impl PlistValue {
    /// The string, if this is one.
    pub fn as_string(&self) -> (r: Option<&str>)
        ensures
            match self@ {
                PlistView::String(s) => r matches Some(t) && t@ == s,
                _ => r is None,
            },
    {
        match self {
            PlistValue::String(s) => Some(s.as_str()),
            _ => None,
        }
    }

    /// The boolean, if this is one.
    pub fn as_boolean(&self) -> (r: Option<bool>)
        ensures
            match self@ {
                PlistView::Boolean(b) => r == Some(b),
                _ => r is None,
            },
    {
        match self {
            PlistValue::Boolean(b) => Some(*b),
            _ => None,
        }
    }

    /// The integer, if this is one that fits a `u64`.
    pub fn as_unsigned_integer(&self) -> (r: Option<u64>)
        ensures
            match self@ {
                PlistView::Integer(i) => if 0 <= i <= u64::MAX {
                    r == Some(i as u64)
                } else {
                    r is None
                },
                _ => r is None,
            },
    {
        match self {
            PlistValue::Integer(i) => {
                if 0 <= *i && *i <= 0xFFFF_FFFF_FFFF_FFFF {
                    Some(*i as u64)
                } else {
                    None
                }
            },
            _ => None,
        }
    }

    /// The integer, if this is one that fits an `i64`.
    pub fn as_signed_integer(&self) -> (r: Option<i64>)
        ensures
            match self@ {
                PlistView::Integer(i) => if i64::MIN <= i <= i64::MAX {
                    r == Some(i as i64)
                } else {
                    r is None
                },
                _ => r is None,
            },
    {
        match self {
            PlistValue::Integer(i) => {
                if -0x8000_0000_0000_0000 <= *i && *i <= 0x7FFF_FFFF_FFFF_FFFF {
                    Some(*i as i64)
                } else {
                    None
                }
            },
            _ => None,
        }
    }

    /// The dictionary, if this is one.
    pub fn as_dictionary(&self) -> (r: Option<&PlistDict>)
        ensures
            match self@ {
                PlistView::Dictionary(es) => r matches Some(d) && d@ == es,
                _ => r is None,
            },
    {
        match self {
            PlistValue::Dictionary(d) => Some(d),
            _ => None,
        }
    }

    /// The array, if this is one.
    pub fn as_array(&self) -> (r: Option<&Vec<PlistValue>>)
        ensures
            match self@ {
                PlistView::Array(items) => r matches Some(a) && view_values(a@) == items,
                _ => r is None,
            },
    {
        match self {
            PlistValue::Array(a) => Some(a),
            _ => None,
        }
    }

    /// The data, if this is data.
    pub fn as_data(&self) -> (r: Option<&Vec<u8>>)
        ensures
            match self@ {
                PlistView::Data(d) => r matches Some(x) && x@ == d,
                _ => r is None,
            },
    {
        match self {
            PlistValue::Data(d) => Some(d),
            _ => None,
        }
    }
}

// ---------------------------------------------------------------------------
// Copies
// ---------------------------------------------------------------------------

/// The value of the entry at `i`.
pub closed spec fn value_at(d: PlistDict, i: int) -> PlistValue {
    d.entries@[i].1
}

/// A dictionary's entry values are smaller than the dictionary.
pub proof fn lemma_dict_value_smaller(v: PlistValue, i: int)
    requires
        v is Dictionary,
        0 <= i < dict_view(v->Dictionary_0).len(),
    ensures
        decreases_to!(v => value_at(v->Dictionary_0, i)),
{
    lemma_dict_item_smaller(v, i);
}

/// An array's items are smaller than the array.
pub proof fn lemma_array_item_smaller(v: PlistValue, i: int)
    requires
        v is Array,
        0 <= i < v->Array_0@.len(),
    ensures
        decreases_to!(v => v->Array_0@[i]),
{
    let a = v->Array_0;
    assert(decreases_to!(v => a));
    assert(decreases_to!(a => a@));
    assert(decreases_to!(a@ => a@[i]));
}

impl PlistValue {
    /// A copy of the value.
    pub fn deep_clone(&self) -> (r: PlistValue)
        ensures
            r@ == self@,
        decreases self,
    {
        match self {
            PlistValue::Array(a) => {
                let mut out: Vec<PlistValue> = Vec::new();
                let mut i: usize = 0;
                while i < a.len()
                    invariant
                        i <= a@.len(),
                        *self == PlistValue::Array(*a),
                        out@.len() == i,
                        view_values(out@) == view_values(a@).take(i as int),
                    decreases a.len() - i,
                {
                    proof {
                        lemma_array_item_smaller(*self, i as int);
                    }
                    let c = a[i].deep_clone();
                    let ghost before = out@;
                    out.push(c);
                    proof {
                        assert forall|k: int| 0 <= k < i + 1 implies view_values(out@)[k]
                            == view_values(a@).take(i + 1)[k] by {
                            if k < i {
                                assert(out@[k] == before[k]);
                                assert(view_values(before)[k] == view_values(a@).take(i as int)[k]);
                            }
                        }
                    }
                    assert(view_values(out@) =~= view_values(a@).take(i + 1));
                    i = i + 1;
                }
                assert(view_values(out@) =~= view_values(a@));
                PlistValue::Array(out)
            },
            PlistValue::Dictionary(d) => {
                proof {
                    assert(decreases_to!(*self => *d));
                }
                PlistValue::Dictionary(d.deep_clone())
            },
            PlistValue::Boolean(b) => PlistValue::Boolean(*b),
            PlistValue::Data(d) => PlistValue::Data(vstd::slice::slice_to_vec(d.as_slice())),
            PlistValue::Date(t) => PlistValue::Date(*t),
            PlistValue::Real(r) => PlistValue::Real(*r),
            PlistValue::Integer(i) => PlistValue::Integer(*i),
            PlistValue::String(s) => PlistValue::String(s.clone()),
            PlistValue::Uid(u) => PlistValue::Uid(*u),
        }
    }
}

impl PlistDict {
    /// A copy of the dictionary.
    pub fn deep_clone(&self) -> (r: PlistDict)
        ensures
            r@ == self@,
        decreases self,
    {
        proof {
            use_type_invariant(self);
        }
        let mut out: Vec<(String, PlistValue)> = Vec::new();
        let mut i: usize = 0;
        while i < self.entries.len()
            invariant
                i <= self.entries@.len(),
                out@.len() == i,
                view_entries(out@) == view_entries(self.entries@).take(i as int),
            decreases self.entries.len() - i,
        {
            proof {
                assert(decreases_to!(*self => self.entries));
                assert(decreases_to!(self.entries => self.entries@));
                assert(decreases_to!(self.entries@ => self.entries@[i as int]));
                assert(decreases_to!(self.entries@[i as int] => self.entries@[i as int].1));
            }
            let k = self.entries[i].0.clone();
            let v = self.entries[i].1.deep_clone();
            let ghost before = out@;
            out.push((k, v));
            proof {
                assert forall|j: int| 0 <= j < i + 1 implies view_entries(out@)[j]
                    == view_entries(self.entries@).take(i + 1)[j] by {
                    if j < i {
                        assert(out@[j] == before[j]);
                        assert(view_entries(before)[j] == view_entries(self.entries@).take(i as int)[j]);
                    }
                }
            }
            assert(view_entries(out@) =~= view_entries(self.entries@).take(i + 1));
            i = i + 1;
        }
        assert(view_entries(out@) =~= view_entries(self.entries@));
        PlistDict { entries: out }
    }
}

// ---------------------------------------------------------------------------
// Reading views
// ---------------------------------------------------------------------------

/// The value of `key` in a dictionary view; none for other views.
pub open spec fn view_get(v: PlistView, key: Seq<char>) -> Option<PlistView> {
    match v {
        PlistView::Dictionary(es) => lookup(es, key),
        _ => None,
    }
}

/// The value of `key` in an optional dictionary view.
pub open spec fn opt_get(v: Option<PlistView>, key: Seq<char>) -> Option<PlistView> {
    match v {
        Some(x) => view_get(x, key),
        None => None,
    }
}

/// The string an optional view holds.
pub open spec fn view_string(v: Option<PlistView>) -> Option<Seq<char>> {
    match v {
        Some(PlistView::String(s)) => Some(s),
        _ => None,
    }
}

/// The boolean an optional view holds.
pub open spec fn view_bool(v: Option<PlistView>) -> Option<bool> {
    match v {
        Some(PlistView::Boolean(b)) => Some(b),
        _ => None,
    }
}

/// The integer an optional view holds, when it fits an `i64`.
pub open spec fn view_signed(v: Option<PlistView>) -> Option<i64> {
    match v {
        Some(PlistView::Integer(i)) => if i64::MIN <= i <= i64::MAX {
            Some(i as i64)
        } else {
            None
        },
        _ => None,
    }
}

/// The integer an optional view holds, when it fits a `u64`.
pub open spec fn view_unsigned(v: Option<PlistView>) -> Option<u64> {
    match v {
        Some(PlistView::Integer(i)) => if 0 <= i <= u64::MAX {
            Some(i as u64)
        } else {
            None
        },
        _ => None,
    }
}

/// The data an optional view holds.
pub open spec fn view_data(v: Option<PlistView>) -> Option<Seq<u8>> {
    match v {
        Some(PlistView::Data(d)) => Some(d),
        _ => None,
    }
}

/// The items of an optional array view.
pub open spec fn view_array(v: Option<PlistView>) -> Option<Seq<PlistView>> {
    match v {
        Some(PlistView::Array(items)) => Some(items),
        _ => None,
    }
}

/// The entries of an optional dictionary view.
pub open spec fn view_dict(v: Option<PlistView>) -> Option<Seq<(Seq<char>, PlistView)>> {
    match v {
        Some(PlistView::Dictionary(es)) => Some(es),
        _ => None,
    }
}

/// The value of `key` in an optional dictionary.
pub fn get_in<'a>(d: Option<&'a PlistDict>, key: &str) -> (r: Option<&'a PlistValue>)
    ensures
        match d {
            Some(x) => match lookup(x@, key@) {
                Some(v) => r matches Some(y) && y@ == v,
                None => r is None,
            },
            None => r is None,
        },
{
    match d {
        Some(x) => x.get(key),
        None => None,
    }
}

/// The dictionary an optional value holds.
pub fn dict_of<'a>(v: Option<&'a PlistValue>) -> (r: Option<&'a PlistDict>)
    ensures
        match v {
            Some(x) => match x@ {
                PlistView::Dictionary(es) => r matches Some(d) && d@ == es,
                _ => r is None,
            },
            None => r is None,
        },
{
    match v {
        Some(x) => x.as_dictionary(),
        None => None,
    }
}

// ---------------------------------------------------------------------------
// Equality
// ---------------------------------------------------------------------------

/// Whether the bits of a double are a NaN.
pub open spec fn real_is_nan(bits: u64) -> bool {
    (bits / 0x10_0000_0000_0000) % 0x800 == 0x7FF && bits % 0x10_0000_0000_0000 != 0
}

/// Whether two doubles, given by their bits, compare equal: neither is NaN,
/// and they are the same number (the two zeros are equal).
pub open spec fn reals_equal(a: u64, b: u64) -> bool {
    !real_is_nan(a) && !real_is_nan(b) && (a == b || (a % 0x8000_0000_0000_0000 == 0 && b
        % 0x8000_0000_0000_0000 == 0))
}

/// Whether two values compare equal as plist values do: arrays item by
/// item, dictionaries as maps (the same keys with equal values, in any
/// order), reals as doubles, everything else by value.
pub open spec fn plist_equal(a: PlistView, b: PlistView) -> bool
    decreases a,
{
    match (a, b) {
        (PlistView::Array(x), PlistView::Array(y)) => x.len() == y.len() && forall|i: int|
            0 <= i < x.len() ==> plist_equal(#[trigger] x[i], y[i]),
        (PlistView::Dictionary(x), PlistView::Dictionary(y)) => x.len() == y.len() && forall|i: int|
            0 <= i < x.len() ==> (#[trigger] lookup(y, x[i].0)) is Some && plist_equal(
                x[i].1,
                lookup(y, x[i].0)->0,
            ),
        (PlistView::Boolean(x), PlistView::Boolean(y)) => x == y,
        (PlistView::Data(x), PlistView::Data(y)) => x == y,
        (PlistView::Date(x), PlistView::Date(y)) => x == y,
        (PlistView::Real(x), PlistView::Real(y)) => reals_equal(x, y),
        (PlistView::Integer(x), PlistView::Integer(y)) => x == y,
        (PlistView::String(x), PlistView::String(y)) => x == y,
        (PlistView::Uid(x), PlistView::Uid(y)) => x == y,
        _ => false,
    }
}

fn reals_equal_exec(a: u64, b: u64) -> (r: bool)
    ensures
        r == reals_equal(a, b),
{
    let a_nan = (a / 0x10_0000_0000_0000) % 0x800 == 0x7FF && a % 0x10_0000_0000_0000 != 0;
    let b_nan = (b / 0x10_0000_0000_0000) % 0x800 == 0x7FF && b % 0x10_0000_0000_0000 != 0;
    !a_nan && !b_nan && (a == b || (a % 0x8000_0000_0000_0000 == 0 && b % 0x8000_0000_0000_0000
        == 0))
}

proof fn lemma_dict_item_smaller(v: PlistValue, i: int)
    requires
        v is Dictionary,
        0 <= i < v->Dictionary_0.entries@.len(),
    ensures
        decreases_to!(v => v->Dictionary_0.entries@[i].1),
{
    let d = v->Dictionary_0;
    assert(decreases_to!(v => d));
    assert(decreases_to!(d => d.entries));
    assert(decreases_to!(d.entries => d.entries@));
    assert(decreases_to!(d.entries@ => d.entries@[i]));
    assert(decreases_to!(d.entries@[i] => d.entries@[i].1));
}

/// Whether two values compare equal as plist values do.
pub fn values_equal(a: &PlistValue, b: &PlistValue) -> (r: bool)
    ensures
        r == plist_equal(a@, b@),
    decreases a,
{
    match a {
        PlistValue::Array(x) => {
            let y = match b {
                PlistValue::Array(y) => y,
                _ => return false,
            };
            assert(a@ == PlistView::Array(view_values(x@)));
            assert(b@ == PlistView::Array(view_values(y@)));
            if x.len() != y.len() {
                return false;
            }
            let mut i: usize = 0;
            while i < x.len()
                invariant
                    *a == PlistValue::Array(*x),
                    a@ == PlistView::Array(view_values(x@)),
                    b@ == PlistView::Array(view_values(y@)),
                    x@.len() == y@.len(),
                    i <= x@.len(),
                    forall|k: int| 0 <= k < i ==> plist_equal(view_values(x@)[k], view_values(y@)[k]),
                decreases x.len() - i,
            {
                proof {
                    lemma_array_item_smaller(*a, i as int);
                }
                let eq = values_equal(&x[i], &y[i]);
                assert(view_values(x@)[i as int] == x@[i as int]@);
                assert(view_values(y@)[i as int] == y@[i as int]@);
                if !eq {
                    assert(!plist_equal(view_values(x@)[i as int], view_values(y@)[i as int]));
                    return false;
                }
                i = i + 1;
            }
            true
        },
        PlistValue::Dictionary(x) => {
            let y = match b {
                PlistValue::Dictionary(y) => y,
                _ => return false,
            };
            assert(a@ == PlistView::Dictionary(x@));
            assert(b@ == PlistView::Dictionary(y@));
            proof {
                use_type_invariant(x);
                use_type_invariant(y);
            }
            if x.entries.len() != y.entries.len() {
                return false;
            }
            let mut i: usize = 0;
            while i < x.entries.len()
                invariant
                    *a == PlistValue::Dictionary(*x),
                    a@ == PlistView::Dictionary(x@),
                    b@ == PlistView::Dictionary(y@),
                    x@.len() == y@.len(),
                    x@.len() == x.entries@.len(),
                    i <= x@.len(),
                    forall|k: int|
                        0 <= k < i ==> (#[trigger] lookup(y@, x@[k].0)) is Some && plist_equal(
                            x@[k].1,
                            lookup(y@, x@[k].0)->0,
                        ),
                decreases x.entries.len() - i,
            {
                proof {
                    lemma_dict_item_smaller(*a, i as int);
                }
                let key = &x.entries[i].0;
                let value = &x.entries[i].1;
                assert(x@[i as int].0 == key@ && x@[i as int].1 == value@);
                match y.get(key.as_str()) {
                    None => {
                        assert(lookup(y@, x@[i as int].0) is None);
                        return false;
                    },
                    Some(w) => {
                        if !values_equal(value, w) {
                            assert(!plist_equal(x@[i as int].1, lookup(y@, x@[i as int].0)->0));
                            return false;
                        }
                    },
                }
                i = i + 1;
            }
            true
        },
        PlistValue::Boolean(x) => match b {
            PlistValue::Boolean(y) => *x == *y,
            _ => false,
        },
        PlistValue::Data(x) => match b {
            PlistValue::Data(y) => crate::bytes::bytes_equal(x.as_slice(), y.as_slice()),
            _ => false,
        },
        PlistValue::Date(x) => match b {
            PlistValue::Date(y) => *x == *y,
            _ => false,
        },
        PlistValue::Real(x) => match b {
            PlistValue::Real(y) => reals_equal_exec(*x, *y),
            _ => false,
        },
        PlistValue::Integer(x) => match b {
            PlistValue::Integer(y) => *x == *y,
            _ => false,
        },
        PlistValue::String(x) => match b {
            PlistValue::String(y) => *x == *y,
            _ => false,
        },
        PlistValue::Uid(x) => match b {
            PlistValue::Uid(y) => *x == *y,
            _ => false,
        },
    }
}

} // verus!

use vstd::prelude::*;

verus! {

/// A data value attached to objects and evidence.  Strings and booleans are
/// held as such; any other JSON value is held as its JSON text.
#[derive(Debug, Clone, PartialEq, Eq)]
pub enum Value {
    Null,
    Bool(bool),
    String(String),
    Json(String),
}

/// The mathematical content of a [`Value`].
pub enum ValueModel {
    Null,
    Bool(bool),
    Text(Seq<char>),
    Json(Seq<char>),
}

impl ValueModel {
    /// The text of a string value.
    pub open spec fn text(self) -> Option<Seq<char>> {
        match self {
            ValueModel::Text(s) => Some(s),
            _ => None,
        }
    }
}

impl View for Value {
    type V = ValueModel;

    open spec fn view(&self) -> ValueModel {
        match self {
            Value::Null => ValueModel::Null,
            Value::Bool(b) => ValueModel::Bool(*b),
            Value::String(s) => ValueModel::Text(s@),
            Value::Json(s) => ValueModel::Json(s@),
        }
    }
}

impl Value {
    /// A copy of the value.
    pub fn duplicate(&self) -> (r: Value)
        ensures
            r@ == self@,
    {
        match self {
            Value::Null => Value::Null,
            Value::Bool(b) => Value::Bool(*b),
            Value::String(s) => Value::String(s.clone()),
            Value::Json(s) => Value::Json(s.clone()),
        }
    }

    /// The string held by a string value, `None` for any other value.
    pub fn as_str(&self) -> (r: Option<&str>)
        ensures
            r matches Some(s) ==> self@.text() == Some(s@),
            r is None ==> self@.text() is None,
    {
        match self {
            Value::String(s) => Some(s.as_str()),
            _ => None,
        }
    }
}

/// The key of an entry.
pub open spec fn entry_key(e: (String, Value)) -> Seq<char> {
    e.0@
}

/// Keys of a sequence of entries are pairwise distinct.
pub open spec fn keys_distinct(s: Seq<(Seq<char>, ValueModel)>) -> bool {
    forall|i: int, j: int| 0 <= i < s.len() && 0 <= j < s.len() && i != j ==> s[i].0 != s[j].0
}

/// Position of `key` among the entries, if present.
pub open spec fn key_index(s: Seq<(Seq<char>, ValueModel)>, key: Seq<char>) -> Option<int>
    decreases s.len(),
{
    if s.len() == 0 {
        None
    } else if s.last().0 == key {
        Some(s.len() - 1)
    } else {
        key_index(s.drop_last(), key)
    }
}

/// The value stored under `key`.
pub open spec fn lookup(s: Seq<(Seq<char>, ValueModel)>, key: Seq<char>) -> Option<ValueModel> {
    match key_index(s, key) {
        Some(i) => Some(s[i].1),
        None => None,
    }
}

/// The entries after `key` is set to `v`: an entry with that key is
/// replaced in place, otherwise a new entry goes at the end.
pub open spec fn store(s: Seq<(Seq<char>, ValueModel)>, key: Seq<char>, v: ValueModel) -> Seq<(Seq<char>, ValueModel)> {
    match key_index(s, key) {
        Some(i) => s.update(i, (key, v)),
        None => s.push((key, v)),
    }
}

pub proof fn lemma_key_index(s: Seq<(Seq<char>, ValueModel)>, key: Seq<char>)
    ensures
        key_index(s, key) matches Some(i) ==> 0 <= i < s.len() && s[i].0 == key,
        key_index(s, key) is None ==> forall|j: int| 0 <= j < s.len() ==> s[j].0 != key,
        key_index(s, key) is Some && keys_distinct(s) ==> forall|j: int|
            0 <= j < s.len() && s[j].0 == key ==> j == key_index(s, key)->0,
    decreases s.len(),
{
    if s.len() > 0 {
        lemma_key_index(s.drop_last(), key);
        if s.last().0 != key {
            assert forall|j: int| 0 <= j < s.len() - 1 implies s[j] == s.drop_last()[j] by {}
        }
    }
}

/// Replacing an entry by one with the same key moves no key.
pub proof fn lemma_key_index_update(s: Seq<(Seq<char>, ValueModel)>, i: int, x: (Seq<char>, ValueModel), key: Seq<char>)
    requires
        0 <= i < s.len(),
        x.0 == s[i].0,
    ensures
        key_index(s.update(i, x), key) == key_index(s, key),
    decreases s.len(),
{
    let u = s.update(i, x);
    if i == s.len() - 1 {
        assert(u.drop_last() =~= s.drop_last());
    } else {
        assert(u.drop_last() =~= s.drop_last().update(i, x));
        lemma_key_index_update(s.drop_last(), i, x, key);
    }
}

/// What a lookup finds after a store: the stored value under the stored
/// key, and what it found before under any other key.
pub proof fn lemma_lookup_store(s: Seq<(Seq<char>, ValueModel)>, k: Seq<char>, v: ValueModel, key: Seq<char>)
    ensures
        lookup(store(s, k, v), key) == (if key == k { Some(v) } else { lookup(s, key) }),
        key_index(store(s, k, v), key) is Some <==> (key == k || key_index(s, key) is Some),
{
    lemma_key_index(s, k);
    lemma_key_index(s, key);
    match key_index(s, k) {
        Some(i) => {
            lemma_key_index_update(s, i, (k, v), key);
            if key != k {
                if key_index(s, key) is Some {
                    assert(key_index(s, key)->0 != i);
                }
            }
        },
        None => {
            assert(s.push((k, v)).drop_last() =~= s);
        },
    }
}

/// The keys (as character sequences) and values of stored entries.
pub open spec fn entries_view(v: Seq<(String, Value)>) -> Seq<(Seq<char>, ValueModel)> {
    Seq::new(v.len(), |i: int| (v[i].0@, v[i].1@))
}

/// A string-keyed table of values that keeps its entries in insertion order.
pub struct DataMap {
    entries: Vec<(String, Value)>,
}

impl View for DataMap {
    type V = Seq<(Seq<char>, ValueModel)>;

    closed spec fn view(&self) -> Seq<(Seq<char>, ValueModel)> {
        entries_view(self.entries@)
    }
}

impl DataMap {
    #[verifier::type_invariant]
    closed spec fn inv(self) -> bool {
        keys_distinct(self@)
    }

    /// An empty table.
    pub fn new() -> (m: DataMap)
        ensures
            m@ == Seq::<(Seq<char>, ValueModel)>::empty(),
    {
        let m = DataMap { entries: Vec::new() };
        assert(m@ =~= Seq::<(Seq<char>, ValueModel)>::empty());
        m
    }

    /// The number of entries; no two of them share a key.
    pub fn len(&self) -> (n: usize)
        ensures
            n == self@.len(),
            keys_distinct(self@),
    {
        proof {
            use_type_invariant(self);
        }
        self.entries.len()
    }

    pub fn is_empty(&self) -> (b: bool)
        ensures
            b == (self@.len() == 0),
    {
        self.entries.len() == 0
    }

    /// The key and value of the `i`-th entry.
    pub fn entry(&self, i: usize) -> (r: (&String, &Value))
        requires
            i < self@.len(),
        ensures
            r.0@ == self@[i as int].0,
            r.1@ == self@[i as int].1,
    {
        (&self.entries[i].0, &self.entries[i].1)
    }

    fn find(&self, key: &str) -> (r: Option<usize>)
        ensures
            r matches Some(i) ==> key_index(self@, key@) == Some(i as int) && i < self@.len(),
            r is None ==> key_index(self@, key@) is None,
    {
        proof {
            use_type_invariant(self);
            lemma_key_index(self@, key@);
        }
        let k = key.to_owned();
        let mut i: usize = 0;
        while i < self.entries.len()
            invariant
                i <= self.entries.len(),
                k@ == key@,
                keys_distinct(self@),
                self@.len() == self.entries.len(),
                forall|j: int| 0 <= j < i ==> self@[j].0 != key@,
            decreases self.entries.len() - i,
        {
            if self.entries[i].0 == k {
                proof {
                    lemma_key_index(self@, key@);
                    if key_index(self@, key@) is None {
                        assert(self@[i as int].0 == key@);
                    }
                }
                return Some(i);
            }
            i += 1;
        }
        proof {
            lemma_key_index(self@, key@);
        }
        None
    }

    /// The value stored under `key`.
    pub fn get(&self, key: &str) -> (r: Option<&Value>)
        ensures
            r matches Some(v) ==> lookup(self@, key@) == Some(v@),
            r is None ==> lookup(self@, key@) is None,
    {
        match self.find(key) {
            Some(i) => {
                assert(self@[i as int].1 == self.entries@[i as int].1@);
                Some(&self.entries[i].1)
            },
            None => None,
        }
    }

    /// Whether an entry has the key `key`.
    pub fn contains_key(&self, key: &str) -> (b: bool)
        ensures
            b == (key_index(self@, key@) is Some),
    {
        self.find(key).is_some()
    }

    /// Sets the value stored under `key`.
    pub fn insert(&mut self, key: String, value: Value)
        ensures
            final(self)@ == store(old(self)@, key@, value@),
    {
        proof {
            use_type_invariant(&*self);
            lemma_key_index(self@, key@);
        }
        let ghost old_view = self@;
        match self.find(key.as_str()) {
            Some(i) => {
                let mut entries: Vec<(String, Value)> = Vec::new();
                std::mem::swap(&mut entries, &mut self.entries);
                entries.set(i, (key, value));
                proof {
                    assert(entries_view(entries@)
                        =~= store(old_view, key@, value@));
                    assert(keys_distinct(store(old_view, key@, value@)));
                }
                self.entries = entries;
            }
            None => {
                let mut entries: Vec<(String, Value)> = Vec::new();
                std::mem::swap(&mut entries, &mut self.entries);
                entries.push((key, value));
                proof {
                    assert(entries_view(entries@)
                        =~= store(old_view, key@, value@));
                    assert(keys_distinct(store(old_view, key@, value@)));
                }
                self.entries = entries;
            }
        }
    }

    /// A copy of the table.
    pub fn duplicate(&self) -> (r: DataMap)
        ensures
            r@ == self@,
    {
        proof {
            use_type_invariant(self);
        }
        let mut entries: Vec<(String, Value)> = Vec::new();
        let mut i: usize = 0;
        while i < self.entries.len()
            invariant
                i <= self.entries.len(),
                keys_distinct(self@),
                self@.len() == self.entries@.len(),
                entries@.len() == i,
                entries_view(entries@) =~= self@.take(i as int),
            decreases self.entries.len() - i,
        {
            let k = self.entries[i].0.clone();
            let v = self.entries[i].1.duplicate();
            let ghost before = entries@;
            assert(self@[i as int] == (self.entries@[i as int].0@, self.entries@[i as int].1@));
            entries.push((k, v));
            assert(entries@ == before.push((k, v)));
            assert(k@ == self.entries@[i as int].0@);
            assert(before.len() == i);
            assert(entries@.len() == i + 1);
            assert(entries_view(entries@).len() == i + 1);
            assert(entries_view(before) =~= self@.take(i as int));
            assert forall|j: int| 0 <= j < i + 1 implies entries_view(entries@)[j] == self@.take(i + 1)[j] by {
                if j < i {
                    assert(entries_view(entries@)[j] == entries_view(before)[j]);
                }
            }
            assert(entries_view(entries@) =~= self@.take(i + 1));
            i += 1;
        }
        assert(self@.take(self.entries.len() as int) =~= self@);
        DataMap { entries }
    }
}

} // verus!

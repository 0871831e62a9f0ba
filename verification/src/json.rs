//! JSON values as the library holds them: task contexts, subtask parameters
//! and analysis results.

use vstd::prelude::*;

verus! {

/// A JSON value. Numbers are kept as unsigned integers, negative integers,
/// or, for all other numbers, by their decimal text.
#[derive(Debug)]
pub enum Json {
    Null,
    Bool(bool),
    UInt(u64),
    Int(i64),
    Float(String),
    Str(String),
    Array(Vec<Json>),
    Object(Vec<(String, Json)>),
}

/// Index of the first entry named `key`, if any.
pub open spec fn find_key(entries: Seq<(String, Json)>, key: Seq<char>) -> Option<int>
    decreases entries.len(),
{
    if entries.len() == 0 {
        None
    } else if entries[0].0@ == key {
        Some(0)
    } else {
        match find_key(entries.drop_first(), key) {
            Some(i) => Some(i + 1),
            None => None,
        }
    }
}

pub proof fn lemma_find_key(entries: Seq<(String, Json)>, key: Seq<char>)
    ensures
        find_key(entries, key) matches Some(i) ==> 0 <= i < entries.len() && entries[i].0@ == key
            && forall|j: int| 0 <= j < i ==> (#[trigger] entries[j]).0@ != key,
        find_key(entries, key) is None ==> forall|j: int| 0 <= j < entries.len() ==> (#[trigger] entries[j]).0@ != key,
    decreases entries.len(),
{
    if entries.len() > 0 {
        lemma_find_key(entries.drop_first(), key);
        if entries[0].0@ != key {
            assert forall|j: int| 1 <= j < entries.len() implies entries[j] == entries.drop_first()[j - 1] by {}
        }
    }
}

impl Json {
    /// The member named `key` of an object; `None` for a missing member or a
    /// value that is not an object.
    pub open spec fn spec_get(self, key: Seq<char>) -> Option<Json> {
        match self {
            Json::Object(entries) => match find_key(entries@, key) {
                Some(i) => Some(entries@[i].1),
                None => None,
            },
            _ => None,
        }
    }

    /// `self[key]`: the member named `key`, or `Null`.
    pub open spec fn member(self, key: Seq<char>) -> Json {
        match self.spec_get(key) {
            Some(v) => v,
            None => Json::Null,
        }
    }

    /// `self[i]`: element `i` of an array, or `Null`.
    pub open spec fn element(self, i: int) -> Json {
        match self {
            Json::Array(items) => if 0 <= i < items@.len() { items@[i] } else { Json::Null },
            _ => Json::Null,
        }
    }

    /// The text of member `key`, if it is a string.
    pub open spec fn text_at(self, key: Seq<char>) -> Option<Seq<char>> {
        self.member(key).spec_as_str()
    }

    pub open spec fn spec_as_array(self) -> Option<Seq<Json>> {
        match self {
            Json::Array(items) => Some(items@),
            _ => None,
        }
    }

    pub open spec fn spec_as_u64(self) -> Option<u64> {
        match self {
            Json::UInt(n) => Some(n),
            Json::Int(n) => if n >= 0 { Some(n as u64) } else { None },
            _ => None,
        }
    }

    pub open spec fn spec_as_str(self) -> Option<Seq<char>> {
        match self {
            Json::Str(s) => Some(s@),
            _ => None,
        }
    }

    pub open spec fn spec_as_bool(self) -> Option<bool> {
        match self {
            Json::Bool(b) => Some(b),
            _ => None,
        }
    }

    /// The member named `key` of an object.
    pub fn get(&self, key: &str) -> (r: Option<&Json>)
        ensures
            r matches Some(v) ==> self.spec_get(key@) == Some(*v),
            r is None ==> self.spec_get(key@) is None,
    {
        match self {
            Json::Object(entries) => {
                let n = entries.len();
                let mut i: usize = 0;
                proof {
                    lemma_find_key(entries@, key@);
                }
                while i < n
                    invariant
                        *self == Json::Object(*entries),
                        n == entries@.len(),
                        i <= n,
                        forall|j: int| 0 <= j < i ==> (#[trigger] entries@[j]).0@ != key@,
                        find_key(entries@, key@) matches Some(k) ==> 0 <= k < n && entries@[k].0@ == key@
                            && forall|j: int| 0 <= j < k ==> (#[trigger] entries@[j]).0@ != key@,
                        find_key(entries@, key@) is None ==> forall|j: int| 0 <= j < n ==> (#[trigger] entries@[j]).0@ != key@,
                    decreases n - i,
                {
                    if str_eq(entries[i].0.as_str(), key) {
                        proof {
                            assert(entries@[i as int].0@ == key@);
                            assert(find_key(entries@, key@) == Some(i as int)) by {
                                if let Some(k) = find_key(entries@, key@) {
                                    if k < i {
                                        assert(entries@[k].0@ != key@);
                                    }
                                    if k > i {
                                        assert(entries@[i as int].0@ != key@);
                                    }
                                } else {
                                    assert(entries@[i as int].0@ != key@);
                                }
                            }
                        }
                        assert(self.spec_get(key@) == Some(entries@[i as int].1));
                        return Some(&entries[i].1);
                    }
                    i = i + 1;
                }
                None
            },
            _ => None,
        }
    }

    /// The items of an array.
    pub fn as_array(&self) -> (r: Option<&Vec<Json>>)
        ensures
            r matches Some(v) ==> self.spec_as_array() == Some(v@),
            r is None ==> self.spec_as_array() is None,
    {
        match self {
            Json::Array(items) => Some(items),
            _ => None,
        }
    }

    /// The value of a non-negative integer.
    pub fn as_u64(&self) -> (r: Option<u64>)
        ensures
            r == self.spec_as_u64(),
    {
        match self {
            Json::UInt(n) => Some(*n),
            Json::Int(n) => if *n >= 0 { Some(*n as u64) } else { None },
            _ => None,
        }
    }

    /// The text of a string.
    pub fn as_str(&self) -> (r: Option<&str>)
        ensures
            r matches Some(s) ==> self.spec_as_str() == Some(s@),
            r is None ==> self.spec_as_str() is None,
    {
        match self {
            Json::Str(s) => Some(s.as_str()),
            _ => None,
        }
    }

    /// The value of a boolean.
    pub fn as_bool(&self) -> (r: Option<bool>)
        ensures
            r == self.spec_as_bool(),
    {
        match self {
            Json::Bool(b) => Some(*b),
            _ => None,
        }
    }

    /// Sets member `key` of an object to `value`, replacing an existing
    /// member of that name; `Null` first becomes an empty object.
    pub fn set(&mut self, key: &str, value: Json)
        requires
            *old(self) is Null || *old(self) is Object,
        ensures
            *final(self) is Object,
            final(self).spec_get(key@) == Some(value),
            forall|k: Seq<char>| k != key@ ==> #[trigger] final(self).spec_get(k) == old(self).spec_get(k),
    {
        let mut taken = Json::Null;
        std::mem::swap(self, &mut taken);
        let mut entries: Vec<(String, Json)> = match taken {
            Json::Object(es) => es,
            _ => Vec::new(),
        };
        let ghost old_entries = entries@;
        proof {
            lemma_find_key(old_entries, key@);
            assert forall|kk: Seq<char>| #[trigger] old(self).spec_get(kk) == match find_key(old_entries, kk) {
                Some(j) => Some(old_entries[j].1),
                None => None,
            } by {
                if *old(self) is Null {
                    assert(old_entries.len() == 0);
                    assert(find_key(old_entries, kk) is None);
                }
            }
        }
        let n = entries.len();
        let mut i: usize = 0;
        let mut found: bool = false;
        while i < n
            invariant
                n == entries@.len(),
                entries@ == old_entries,
                i <= n,
                forall|j: int| 0 <= j < i ==> (#[trigger] old_entries[j]).0@ != key@,
                found ==> i < n && old_entries[i as int].0@ == key@,
            ensures
                found ==> i < n && old_entries[i as int].0@ == key@,
                !found ==> forall|j: int| 0 <= j < n ==> (#[trigger] old_entries[j]).0@ != key@,
            decreases n - i,
        {
            if str_eq(entries[i].0.as_str(), key) {
                found = true;
                break;
            }
            i = i + 1;
        }
        if found {
            let ghost k = i as int;
            entries.set(i, (String::from_str(key), value));
            proof {
                assert(entries@ == old_entries.update(k, entries@[k]));
                lemma_find_key_same_keys(old_entries, entries@);
                assert(find_key(old_entries, key@) == Some(k)) by {
                    if let Some(kk) = find_key(old_entries, key@) {
                        if kk > k {
                            assert(old_entries[k].0@ != key@);
                        }
                    }
                }
                assert forall|kk: Seq<char>| kk != key@ implies
                    #[trigger] Json::Object(entries).spec_get(kk) == old(self).spec_get(kk) by {
                    lemma_find_key(old_entries, kk);
                    assert(find_key(entries@, kk) == find_key(old_entries, kk));
                    if let Some(j) = find_key(old_entries, kk) {
                        assert(j != k);
                        assert(entries@[j] == old_entries[j]);
                    }
                }
                assert(Json::Object(entries).spec_get(key@) == Some(value));
            }
            *self = Json::Object(entries);
            assert(forall|kk: Seq<char>| kk != key@ ==> #[trigger] self.spec_get(kk) == old(self).spec_get(kk));
        } else {
            let ghost before = entries@;
            let entry = (String::from_str(key), value);
            entries.push(entry);
            proof {
                assert forall|kk: Seq<char>| true implies
                    #[trigger] find_key(entries@, kk) == (match find_key(before, kk) {
                        Some(j) => Some(j),
                        None => if entry.0@ == kk { Some(before.len() as int) } else { None },
                    }) by {
                    lemma_find_key_push(before, entry, kk);
                }
                lemma_find_key(before, key@);
                assert forall|kk: Seq<char>| kk != key@ implies
                    #[trigger] Json::Object(entries).spec_get(kk) == old(self).spec_get(kk) by {
                    lemma_find_key(before, kk);
                    assert(find_key(entries@, kk) == find_key(before, kk));
                    if let Some(j) = find_key(before, kk) {
                        assert(entries@[j] == before[j]);
                    }
                }
                assert(find_key(entries@, key@) == Some(before.len() as int));
                assert(entries@[before.len() as int] == entry);
            }
            *self = Json::Object(entries);
        }
    }
}

/// `find_key` looks only at the names of the entries.
pub proof fn lemma_find_key_same_keys(a: Seq<(String, Json)>, b: Seq<(String, Json)>)
    requires
        a.len() == b.len(),
        forall|j: int| 0 <= j < a.len() ==> (#[trigger] a[j]).0@ == b[j].0@,
    ensures
        forall|k: Seq<char>| #[trigger] find_key(a, k) == find_key(b, k),
{
    assert forall|k: Seq<char>| #[trigger] find_key(a, k) == find_key(b, k) by {
        lemma_find_key_same_keys_at(a, b, k);
    }
}

proof fn lemma_find_key_same_keys_at(a: Seq<(String, Json)>, b: Seq<(String, Json)>, k: Seq<char>)
    requires
        a.len() == b.len(),
        forall|j: int| 0 <= j < a.len() ==> (#[trigger] a[j]).0@ == b[j].0@,
    ensures
        find_key(a, k) == find_key(b, k),
    decreases a.len(),
{
    if a.len() > 0 {
        assert forall|j: int| 0 <= j < a.drop_first().len() implies (#[trigger] a.drop_first()[j]).0@ == b.drop_first()[j].0@ by {
            assert(a.drop_first()[j] == a[j + 1]);
            assert(b.drop_first()[j] == b[j + 1]);
        }
        lemma_find_key_same_keys_at(a.drop_first(), b.drop_first(), k);
    }
}

/// Appending an entry finds it only where no earlier entry has its name.
pub proof fn lemma_find_key_push(s: Seq<(String, Json)>, e: (String, Json), k: Seq<char>)
    ensures
        find_key(s.push(e), k) == (match find_key(s, k) {
            Some(j) => Some(j),
            None => if e.0@ == k { Some(s.len() as int) } else { None },
        }),
    decreases s.len(),
{
    reveal_with_fuel(find_key, 2);
    if s.len() > 0 {
        assert(s.push(e)[0] == s[0]);
        assert(s.push(e).drop_first() == s.drop_first().push(e));
        lemma_find_key_push(s.drop_first(), e, k);
    } else {
        assert(s.push(e).drop_first() == Seq::<(String, Json)>::empty());
    }
}

impl Json {
    /// An object with the given distinct members.
    pub fn object2(k1: &str, v1: Json, k2: &str, v2: Json) -> (j: Json)
        requires
            k1@ != k2@,
        ensures
            j is Object,
            j.spec_get(k1@) == Some(v1),
            j.spec_get(k2@) == Some(v2),
            forall|k: Seq<char>| k != k1@ && k != k2@ ==> #[trigger] j.spec_get(k) is None,
    {
        let mut j = Json::Null;
        j.set(k1, v1);
        j.set(k2, v2);
        j
    }

    /// An object with the given distinct members.
    pub fn object3(k1: &str, v1: Json, k2: &str, v2: Json, k3: &str, v3: Json) -> (j: Json)
        requires
            k1@ != k2@,
            k1@ != k3@,
            k2@ != k3@,
        ensures
            j is Object,
            j.spec_get(k1@) == Some(v1),
            j.spec_get(k2@) == Some(v2),
            j.spec_get(k3@) == Some(v3),
            forall|k: Seq<char>| k != k1@ && k != k2@ && k != k3@ ==> #[trigger] j.spec_get(k) is None,
    {
        let mut j = Json::object2(k1, v1, k2, v2);
        j.set(k3, v3);
        j
    }

    /// An object with the given distinct members.
    pub fn object4(k1: &str, v1: Json, k2: &str, v2: Json, k3: &str, v3: Json, k4: &str, v4: Json) -> (j: Json)
        requires
            k1@ != k2@,
            k1@ != k3@,
            k1@ != k4@,
            k2@ != k3@,
            k2@ != k4@,
            k3@ != k4@,
        ensures
            j is Object,
            j.spec_get(k1@) == Some(v1),
            j.spec_get(k2@) == Some(v2),
            j.spec_get(k3@) == Some(v3),
            j.spec_get(k4@) == Some(v4),
            forall|k: Seq<char>| k != k1@ && k != k2@ && k != k3@ && k != k4@ ==> #[trigger] j.spec_get(k) is None,
    {
        let mut j = Json::object3(k1, v1, k2, v2, k3, v3);
        j.set(k4, v4);
        j
    }
}

/// `a == b` on string slices.
pub fn str_eq(a: &str, b: &str) -> (r: bool)
    ensures
        r == (a@ == b@),
{
    let x = String::from_str(a);
    let y = String::from_str(b);
    x == y
}

} // verus!

use vstd::prelude::*;

verus! {

/// Character classes and length of a derived password.
#[derive(PartialEq, Eq, Structural, Clone, Copy, Debug)]
pub enum PasswordTemplate {
    Maximum,
    Long,
    Medium,
    Short,
    Basic,
    Pin,
}

/// What a stored secret is used as.
#[derive(PartialEq, Eq, Structural, Clone, Copy, Debug)]
pub enum StoredUsage {
    Password,
    Text,
}

/// One field of an entry: a secret regenerated on demand from the site name
/// and counter, or an opaque secret kept as is.
#[derive(PartialEq, Eq, Clone, Debug)]
pub enum Field {
    Derived { counter: u32, site_name: Option<String>, template: PasswordTemplate },
    Stored { data: Vec<u8>, usage: StoredUsage },
}

/// The field that editing a new name starts from: a derived password with
/// counter 0, no site name and the strongest template.
pub open spec fn default_field() -> Field {
    Field::Derived { counter: 0, site_name: None, template: PasswordTemplate::Maximum }
}

/// A fresh default field.
pub fn new_default_field() -> (r: Field)
    ensures
        r == default_field(),
{
    Field::Derived { counter: 0, site_name: None, template: PasswordTemplate::Maximum }
}

/// An entry's fields as name and value, in the order they are listed.
pub type Fields = Seq<(Seq<char>, Field)>;

/// Whether a field is listed under `k`.
pub open spec fn has_key(s: Fields, k: Seq<char>) -> bool {
    exists|i: int| 0 <= i < s.len() && (#[trigger] s[i]).0 == k
}

/// The position of the field listed under `k`, when there is one.
pub open spec fn key_index(s: Fields, k: Seq<char>) -> int {
    choose|i: int| 0 <= i < s.len() && (#[trigger] s[i]).0 == k
}

/// No name is listed twice.
pub open spec fn unique_keys(s: Fields) -> bool {
    forall|i: int, j: int| 0 <= i < s.len() && 0 <= j < s.len() && (#[trigger] s[i]).0 == (#[trigger] s[j]).0 ==> i == j
}

/// The field listed under `k`, if any.
pub open spec fn lookup(s: Fields, k: Seq<char>) -> Option<Field> {
    if has_key(s, k) {
        Some(s[key_index(s, k)].1)
    } else {
        None
    }
}

/// The fields with `k` set to `f`: in place when `k` is listed, else at the end.
pub open spec fn inserted(s: Fields, k: Seq<char>, f: Field) -> Fields {
    if has_key(s, k) {
        s.update(key_index(s, k), (k, f))
    } else {
        s.push((k, f))
    }
}

/// The fields without `k`.
pub open spec fn removed(s: Fields, k: Seq<char>) -> Fields {
    if has_key(s, k) {
        s.remove(key_index(s, k))
    } else {
        s
    }
}

/// A named collection of fields, each name listed once.
#[derive(Clone, Debug)]
pub struct Entry {
    fields: Vec<(String, Field)>,
}

impl View for Entry {
    type V = Fields;

    closed spec fn view(&self) -> Fields {
        self.fields@.map_values(|p: (String, Field)| (p.0@, p.1))
    }
}

impl Entry {
    /// Each name is listed once.
    pub open spec fn wf(&self) -> bool {
        unique_keys(self@)
    }

    /// An entry with no fields.
    pub fn new() -> (r: Entry)
        ensures
            r@ == Seq::<(Seq<char>, Field)>::empty(),
            r.wf(),
    {
        Entry { fields: Vec::new() }
    }

    /// Where `name` is listed.
    fn find(&self, name: &str) -> (r: Option<usize>)
        requires
            self.wf(),
        ensures
            r is Some <==> has_key(self@, name@),
            r is Some ==> r->0 == key_index(self@, name@) && r->0 < self@.len(),
    {
        let want = name.to_owned();
        let mut i: usize = 0;
        while i < self.fields.len()
            invariant
                i <= self.fields@.len(),
                want@ == name@,
                self.wf(),
                self@.len() == self.fields@.len(),
                forall|j: int| 0 <= j < i ==> (#[trigger] self@[j]).0 != name@,
            decreases self.fields@.len() - i,
        {
            assert(self@[i as int].0 == self.fields@[i as int].0@);
            if self.fields[i].0 == want {
                proof {
                    assert(has_key(self@, name@));
                    let k = key_index(self@, name@);
                    assert(self@[k].0 == name@);
                    assert(self@[i as int].0 == name@);
                }
                return Some(i);
            }
            i = i + 1;
        }
        None
    }

    /// The field listed under `name`, if any.
    pub fn get(&self, name: &str) -> (r: Option<&Field>)
        requires
            self.wf(),
        ensures
            r matches Some(f) ==> lookup(self@, name@) == Some(*f),
            r is None ==> lookup(self@, name@) is None,
    {
        match self.find(name) {
            Some(i) => Some(&self.fields[i].1),
            None => None,
        }
    }

    /// Takes the field listed under `name` out of the entry.
    pub fn remove(&mut self, name: &str) -> (r: Option<Field>)
        requires
            old(self).wf(),
        ensures
            r == lookup(old(self)@, name@),
            final(self)@ == removed(old(self)@, name@),
            final(self).wf(),
    {
        match self.find(name) {
            Some(i) => {
                let ghost before = self@;
                let (_, f) = self.fields.remove(i);
                proof {
                    assert(self@ =~= before.remove(i as int));
                    assert forall|a: int, b: int| 0 <= a < self@.len() && 0 <= b < self@.len() && (#[trigger] self@[a]).0 == (#[trigger] self@[b]).0 implies a == b by {
                        let a2 = if a < i { a } else { a + 1 };
                        let b2 = if b < i { b } else { b + 1 };
                        assert(self@[a] == before[a2]);
                        assert(self@[b] == before[b2]);
                    }
                }
                Some(f)
            },
            None => None,
        }
    }

    /// Lists `field` under `name`, replacing what was listed there.
    pub fn insert(&mut self, name: String, field: Field)
        requires
            old(self).wf(),
        ensures
            final(self)@ == inserted(old(self)@, name@, field),
            final(self).wf(),
    {
        let ghost before = self@;
        let ghost k = name@;
        match self.find(name.as_str()) {
            Some(i) => {
                self.fields.set(i, (name, field));
                proof {
                    assert(self@ =~= before.update(i as int, (k, field)));
                    assert forall|a: int, b: int| 0 <= a < self@.len() && 0 <= b < self@.len() && (#[trigger] self@[a]).0 == (#[trigger] self@[b]).0 implies a == b by {
                        if a != i && b != i {
                            assert(self@[a] == before[a] && self@[b] == before[b]);
                        } else if a == i && b != i {
                            assert(self@[b] == before[b]);
                            assert(before[i as int].0 == k);
                        } else if a != i && b == i {
                            assert(self@[a] == before[a]);
                            assert(before[i as int].0 == k);
                        }
                    }
                }
            },
            None => {
                self.fields.push((name, field));
                proof {
                    assert(self@ =~= before.push((k, field)));
                    assert forall|a: int, b: int| 0 <= a < self@.len() && 0 <= b < self@.len() && (#[trigger] self@[a]).0 == (#[trigger] self@[b]).0 implies a == b by {
                        if a < before.len() && b < before.len() {
                            assert(self@[a] == before[a] && self@[b] == before[b]);
                        } else if a < before.len() {
                            assert(self@[a] == before[a]);
                        } else if b < before.len() {
                            assert(self@[b] == before[b]);
                        }
                    }
                }
            },
        }
    }

    /// The names of the fields, in the order they are listed.
    pub fn field_names(&self) -> (r: Vec<String>)
        ensures
            r@.map_values(|s: String| s@) == self@.map_values(|p: (Seq<char>, Field)| p.0),
    {
        let mut r: Vec<String> = Vec::new();
        let mut i: usize = 0;
        while i < self.fields.len()
            invariant
                i <= self.fields@.len(),
                self@.len() == self.fields@.len(),
                r@.map_values(|s: String| s@) == self@.take(i as int).map_values(|p: (Seq<char>, Field)| p.0),
            decreases self.fields@.len() - i,
        {
            let n = self.fields[i].0.clone();
            let ghost prev = r@;
            r.push(n);
            proof {
                assert(self@[i as int].0 == self.fields@[i as int].0@);
                assert(r@.map_values(|s: String| s@) =~= prev.map_values(|s: String| s@).push(n@));
                assert(self@.take(i as int + 1) =~= self@.take(i as int).push(self@[i as int]));
            }
            i = i + 1;
            assert(r@.map_values(|s: String| s@) =~= self@.take(i as int).map_values(|p: (Seq<char>, Field)| p.0));
        }
        assert(self@.take(i as int) =~= self@);
        r
    }
}

} // verus!

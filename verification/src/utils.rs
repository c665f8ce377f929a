//! Resource references and the name-to-font association used by the
//! draw layer.

use vstd::prelude::*;

verus! {

broadcast use vstd::seq_lib::group_seq_properties;

/// A resource named for lookup in a context, or carried directly.
#[derive(Debug, Clone)]
pub enum ResourceRef<T> {
    Name(String),
    Object(T),
}

impl<T> ResourceRef<T> {
    /// A reference by name.
    pub fn name(value: String) -> (r: Self)
        ensures
            r == ResourceRef::<T>::Name(value),
    {
        Self::Name(value)
    }

    /// A reference carrying the resource itself.
    pub fn object(value: T) -> (r: Self)
        ensures
            r == ResourceRef::<T>::Object(value),
    {
        Self::Object(value)
    }
}

/// The position of the first key of `keys` that equals `name`.
pub open spec fn spec_index_of(keys: Seq<Seq<char>>, name: Seq<char>) -> Option<int>
    decreases keys.len(),
{
    if keys.len() == 0 {
        None
    } else if keys[0] == name {
        Some(0int)
    } else {
        match spec_index_of(keys.drop_first(), name) {
            Some(i) => Some(i + 1),
            None => None,
        }
    }
}

/// `spec_index_of` returns exactly the first matching position.
pub proof fn lemma_index_of_first(keys: Seq<Seq<char>>, name: Seq<char>, i: int)
    requires
        0 <= i < keys.len(),
        keys[i] == name,
        forall|j: int| 0 <= j < i ==> keys[j] != name,
    ensures
        spec_index_of(keys, name) == Some(i),
    decreases i,
{
    if i > 0 {
        lemma_index_of_first(keys.drop_first(), name, i - 1);
    }
}

/// `spec_index_of` finds nothing exactly when no key matches.
pub proof fn lemma_index_of_absent(keys: Seq<Seq<char>>, name: Seq<char>)
    requires
        forall|j: int| 0 <= j < keys.len() ==> keys[j] != name,
    ensures
        spec_index_of(keys, name) is None,
    decreases keys.len(),
{
    if keys.len() > 0 {
        lemma_index_of_absent(keys.drop_first(), name);
    }
}

/// A found index is in range and matches, and nothing before it does.
pub proof fn lemma_index_of_found(keys: Seq<Seq<char>>, name: Seq<char>)
    ensures
        match spec_index_of(keys, name) {
            Some(i) => 0 <= i < keys.len() && keys[i] == name && forall|j: int|
                0 <= j < i ==> keys[j] != name,
            None => forall|j: int| 0 <= j < keys.len() ==> keys[j] != name,
        },
    decreases keys.len(),
{
    if keys.len() > 0 && keys[0] != name {
        let sub = keys.drop_first();
        lemma_index_of_found(sub, name);
        assert(forall|j: int| 1 <= j < keys.len() ==> #[trigger] keys[j] == sub[j - 1]);
        match spec_index_of(sub, name) {
            Some(i) => {
                assert(keys[i + 1] == sub[i]);
                assert forall|j: int| 0 <= j < i + 1 implies keys[j] != name by {
                    if j >= 1 {
                        assert(keys[j] == sub[j - 1]);
                    }
                }
            },
            None => {
                assert forall|j: int| 0 <= j < keys.len() implies keys[j] != name by {
                    if j >= 1 {
                        assert(keys[j] == sub[j - 1]);
                    }
                }
            },
        }
    }
}

/// An association from font names to loaded fonts, kept as two parallel
/// lists so fonts stay addressable by the position they were added at —
/// the index that glyph keys carry.
#[derive(Debug, Default, Clone)]
pub struct FontMap<T> {
    keys: Vec<String>,
    values: Vec<T>,
}

impl<T> FontMap<T> {
    /// The names, as character sequences, in insertion order.
    pub closed spec fn spec_keys(&self) -> Seq<Seq<char>> {
        self.keys@.map_values(|s: String| s@)
    }

    /// The fonts, in insertion order.
    pub closed spec fn spec_values(&self) -> Seq<T> {
        self.values@
    }

    /// Each name pairs with one font: the two lists run in parallel.
    pub open spec fn wf(&self) -> bool {
        self.spec_keys().len() == self.spec_values().len()
    }

    /// An empty map.
    pub fn new() -> (r: Self)
        ensures
            r.wf(),
            r.spec_keys() == Seq::<Seq<char>>::empty(),
            r.spec_values() == Seq::<T>::empty(),
    {
        let r = Self { keys: Vec::new(), values: Vec::new() };
        proof {
            assert(r.spec_keys() =~= Seq::<Seq<char>>::empty());
        }
        r
    }

    /// Associates `name` with `font`: replaces the font of an existing
    /// name, otherwise appends the pair.
    pub fn insert(&mut self, name: String, font: T)
        requires
            old(self).wf(),
        ensures
            final(self).wf(),
            match spec_index_of(old(self).spec_keys(), name@) {
                Some(i) => final(self).spec_keys() == old(self).spec_keys() && final(self).spec_values() == old(self).spec_values().update(i, font),
                None => final(self).spec_keys() == old(self).spec_keys().push(name@) && final(self).spec_values() == old(self).spec_values().push(font),
            },
    {
        proof {
            lemma_index_of_found(self.spec_keys(), name@);
        }
        if let Some(index) = self.index_of(&name) {
            self.values[index] = font;
        } else {
            self.keys.push(name);
            self.values.push(font);
            proof {
                assert(self.spec_keys() =~= old(self).spec_keys().push(name@));
            }
        }
    }

    /// Removes a name and returns its font, or `None` for an unknown
    /// name.
    pub fn remove(&mut self, name: &String) -> (r: Option<T>)
        requires
            old(self).wf(),
        ensures
            final(self).wf(),
            match spec_index_of(old(self).spec_keys(), name@) {
                Some(i) => r == Some(old(self).spec_values()[i]) && final(self).spec_keys() == old(self).spec_keys().remove(i) && final(self).spec_values() == old(self).spec_values().remove(i),
                None => r is None && final(self).spec_keys() == old(self).spec_keys() && final(self).spec_values() == old(self).spec_values(),
            },
    {
        proof {
            lemma_index_of_found(self.spec_keys(), name@);
        }
        if let Some(index) = self.index_of(name) {
            self.keys.remove(index);
            let font = self.values.remove(index);
            proof {
                let i = index as int;
                assert forall|k: int| 0 <= k < self.keys@.len() implies self.spec_keys()[k]
                    == old(self).spec_keys().remove(i)[k] by {
                    assert(self.spec_keys()[k] == self.keys@[k]@);
                    if k < i {
                        assert(self.keys@[k] == old(self).keys@[k]);
                        assert(old(self).spec_keys()[k] == old(self).keys@[k]@);
                    } else {
                        assert(self.keys@[k] == old(self).keys@[k + 1]);
                        assert(old(self).spec_keys()[k + 1] == old(self).keys@[k + 1]@);
                    }
                }
                assert(self.spec_keys() =~= old(self).spec_keys().remove(i));
            }
            Some(font)
        } else {
            None
        }
    }

    /// The position of `name` among the keys, or `None` when absent.
    pub fn index_of(&self, name: &String) -> (r: Option<usize>)
        ensures
            match r {
                Some(idx) => spec_index_of(self.spec_keys(), name@) == Some(idx as int),
                None => spec_index_of(self.spec_keys(), name@) is None,
            },
    {
        let n = self.keys.len();
        let mut i: usize = 0;
        while i < n
            invariant
                i <= n,
                n == self.keys@.len(),
                forall|j: int| 0 <= j < i ==> self.spec_keys()[j] != name@,
            decreases n - i,
        {
            let hit = self.keys[i] == *name;
            proof {
                assert(self.spec_keys()[i as int] == self.keys@[i as int]@);
            }
            if hit {
                proof {
                    lemma_index_of_first(self.spec_keys(), name@, i as int);
                }
                return Some(i);
            }
            i += 1;
        }
        proof {
            lemma_index_of_absent(self.spec_keys(), name@);
        }
        None
    }

    /// The font of `name`, or `None` when absent.
    pub fn get(&self, name: &String) -> (r: Option<&T>)
        requires
            self.wf(),
        ensures
            match spec_index_of(self.spec_keys(), name@) {
                Some(i) => r matches Some(f) && *f == self.spec_values()[i],
                None => r is None,
            },
    {
        proof {
            lemma_index_of_found(self.spec_keys(), name@);
        }
        if let Some(index) = self.index_of(name) {
            let font = &self.values[index];
            proof {
                assert(*font == self.spec_values()[index as int]);
            }
            Some(font)
        } else {
            None
        }
    }

    /// The names, in insertion order.
    pub fn keys(&self) -> (r: &[String])
        ensures
            r@.map_values(|s: String| s@) == self.spec_keys(),
    {
        self.keys.as_slice()
    }

    /// The fonts, in insertion order.
    pub fn values(&self) -> (r: &[T])
        ensures
            r@ == self.spec_values(),
    {
        self.values.as_slice()
    }
}

} // verus!

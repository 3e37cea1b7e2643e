//! Form field values keyed by the field's `var`.

use vstd::prelude::*;

use crate::text::{opt_string, string_is};

verus! {

/// The value recorded last for key `k` among `es`.
pub open spec fn value_of(es: Seq<(String, String)>, k: Seq<char>) -> Option<Seq<char>>
    decreases es.len(),
{
    if es.len() == 0 {
        None
    } else if es.last().0@ == k {
        Some(es.last().1@)
    } else {
        value_of(es.drop_last(), k)
    }
}

/// A map from field names to values, holding one value per name.
#[derive(Debug, Clone)]
pub struct FieldValues {
    entries: Vec<(String, String)>,
}

proof fn lemma_value_of_update(es: Seq<(String, String)>, i: int, e: (String, String), k: Seq<char>)
    requires
        0 <= i < es.len(),
        es[i].0@ == e.0@,
        forall|j: int| i < j < es.len() ==> (#[trigger] es[j]).0@ != e.0@,
    ensures
        value_of(es.update(i, e), k) == if k == e.0@ {
            Some(e.1@)
        } else {
            value_of(es, k)
        },
    decreases es.len(),
{
    let u = es.update(i, e);
    if i == es.len() - 1 {
        assert(u.drop_last() =~= es.drop_last());
    } else {
        assert(u.drop_last() =~= es.drop_last().update(i, e));
        assert(es.last() == es[es.len() - 1]);
        lemma_value_of_update(es.drop_last(), i, e, k);
    }
}

impl FieldValues {
    /// The value held for `k`.
    pub closed spec fn lookup(&self, k: Seq<char>) -> Option<Seq<char>> {
        value_of(self.entries@, k)
    }

    /// An empty map.
    pub fn new() -> (r: Self)
        ensures
            forall|k: Seq<char>| r.lookup(k) is None,
    {
        FieldValues { entries: Vec::new() }
    }

    /// The value held for `key`, cloned.
    pub fn get(&self, key: &String) -> (r: Option<String>)
        ensures
            opt_string(r) == self.lookup(key@),
    {
        let mut i: usize = self.entries.len();
        assert(self.entries@.take(i as int) =~= self.entries@);
        while i > 0
            invariant
                i <= self.entries.len(),
                value_of(self.entries@, key@) == value_of(self.entries@.take(i as int), key@),
            decreases i,
        {
            assert(self.entries@.take(i as int).drop_last() =~= self.entries@.take(i - 1));
            if string_is(&self.entries[i - 1].0, key.as_str()) {
                return Some(self.entries[i - 1].1.clone());
            }
            i = i - 1;
        }
        None
    }

    /// Sets the value for `key` to `value`.
    pub fn insert(&mut self, key: String, value: String)
        ensures
            forall|k: Seq<char>|
                #![trigger final(self).lookup(k)]
                final(self).lookup(k) == if k == key@ {
                    Some(value@)
                } else {
                    old(self).lookup(k)
                },
    {
        let ghost es = self.entries@;
        let mut i: usize = self.entries.len();
        while i > 0
            invariant
                i <= self.entries.len(),
                self.entries@ == es,
                es == old(self).entries@,
                forall|j: int| i <= j < es.len() ==> (#[trigger] es[j]).0@ != key@,
            decreases i,
        {
            if string_is(&self.entries[i - 1].0, key.as_str()) {
                let e = (key, value);
                let ghost ge = e;
                self.entries.set(i - 1, e);
                proof {
                    assert forall|k: Seq<char>| #[trigger]
                        value_of(self.entries@, k) == if k == ge.0@ {
                            Some(ge.1@)
                        } else {
                            value_of(es, k)
                        } by {
                        lemma_value_of_update(es, i - 1, ge, k);
                    }
                }
                return;
            }
            i = i - 1;
        }
        self.entries.push((key, value));
        proof {
            assert forall|k: Seq<char>| #[trigger] value_of(self.entries@, k) == if k == key@ {
                Some(value@)
            } else {
                value_of(es, k)
            } by {
                assert(self.entries@.drop_last() =~= es);
            }
        }
    }

    /// Removes all values.
    pub fn clear(&mut self)
        ensures
            forall|k: Seq<char>| final(self).lookup(k) is None,
    {
        self.entries.clear();
    }
}

} // verus!

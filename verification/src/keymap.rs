//! A lookup table keyed by numeric key code, with unique keys and
//! replace-on-insert semantics. It backs both the custom-binding store of
//! the key configuration and the runtime dispatch table.

use vstd::prelude::*;

verus! {

/// The value bound to `key`, if any, reading the entries front to back.
pub open spec fn lookup_spec<V>(s: Seq<(i32, V)>, key: int) -> Option<V>
    decreases s.len(),
{
    if s.len() == 0 {
        None
    } else if s[0].0 as int == key {
        Some(s[0].1)
    } else {
        lookup_spec(s.drop_first(), key)
    }
}

/// No two entries share a key.
pub open spec fn keys_unique<V>(s: Seq<(i32, V)>) -> bool {
    forall|i: int, j: int| 0 <= i < j < s.len() ==> (#[trigger] s[i]).0 != (#[trigger] s[j]).0
}

pub proof fn lemma_lookup_at<V>(s: Seq<(i32, V)>, idx: int)
    requires
        keys_unique(s),
        0 <= idx < s.len(),
    ensures
        lookup_spec(s, s[idx].0 as int) == Some(s[idx].1),
    decreases idx,
{
    if idx > 0 {
        assert(s[0].0 != s[idx].0);
        assert(s.drop_first()[idx - 1] == s[idx]);
        assert(keys_unique(s.drop_first())) by {
            assert(forall|i: int, j: int|
                0 <= i < j < s.drop_first().len() ==> (#[trigger] s.drop_first()[i]) == s[i + 1]
                    && (#[trigger] s.drop_first()[j]) == s[j + 1]);
        }
        lemma_lookup_at(s.drop_first(), idx - 1);
    }
}

pub proof fn lemma_lookup_index<V>(s: Seq<(i32, V)>, key: int)
    requires
        lookup_spec(s, key) is Some,
    ensures
        exists|i: int|
            0 <= i < s.len() && (#[trigger] s[i]).0 as int == key && s[i].1 == lookup_spec(
                s,
                key,
            )->Some_0,
    decreases s.len(),
{
    if s.len() > 0 {
        if s[0].0 as int == key {
            assert(s[0].0 as int == key && s[0].1 == lookup_spec(s, key)->Some_0);
        } else {
            lemma_lookup_index(s.drop_first(), key);
            let i = choose|i: int|
                0 <= i < s.drop_first().len() && (#[trigger] s.drop_first()[i]).0 as int == key
                    && s.drop_first()[i].1 == lookup_spec(s.drop_first(), key)->Some_0;
            assert(s[i + 1] == s.drop_first()[i]);
        }
    }
}

proof fn lemma_lookup_absent<V>(s: Seq<(i32, V)>, key: int)
    requires
        forall|i: int| 0 <= i < s.len() ==> (#[trigger] s[i]).0 as int != key,
    ensures
        lookup_spec(s, key) is None,
    decreases s.len(),
{
    if s.len() > 0 {
        assert(forall|i: int|
            0 <= i < s.drop_first().len() ==> (#[trigger] s.drop_first()[i]) == s[i + 1]);
        lemma_lookup_absent(s.drop_first(), key);
    }
}

proof fn lemma_lookup_update<V>(s: Seq<(i32, V)>, idx: int, v: V)
    requires
        keys_unique(s),
        0 <= idx < s.len(),
    ensures
        keys_unique(s.update(idx, (s[idx].0, v))),
        lookup_spec(s.update(idx, (s[idx].0, v)), s[idx].0 as int) == Some(v),
        forall|k: int|
            k != s[idx].0 as int ==> lookup_spec(s.update(idx, (s[idx].0, v)), k) == lookup_spec(
                s,
                k,
            ),
    decreases idx,
{
    let t = s.update(idx, (s[idx].0, v));
    assert(keys_unique(t)) by {
        assert(forall|i: int| 0 <= i < s.len() ==> (#[trigger] t[i]).0 == s[i].0);
    }
    if idx == 0 {
        assert(t[0] == (s[0].0, v));
        assert(t.drop_first() =~= s.drop_first());
        assert forall|k: int| k != s[0].0 as int implies lookup_spec(t, k) == lookup_spec(
            s,
            k,
        ) by {}
    } else {
        assert(t[0] == s[0]);
        assert(t.drop_first() =~= s.drop_first().update(idx - 1, (s[idx].0, v)));
        assert(keys_unique(s.drop_first())) by {
            assert(forall|i: int, j: int|
                0 <= i < j < s.drop_first().len() ==> (#[trigger] s.drop_first()[i]) == s[i + 1]
                    && (#[trigger] s.drop_first()[j]) == s[j + 1]);
        }
        assert(s.drop_first()[idx - 1] == s[idx]);
        lemma_lookup_update(s.drop_first(), idx - 1, v);
        assert(s[0].0 != s[idx].0);
        assert forall|k: int| k != s[idx].0 as int implies lookup_spec(t, k) == lookup_spec(
            s,
            k,
        ) by {
            if s[0].0 as int != k {
                assert(lookup_spec(t, k) == lookup_spec(t.drop_first(), k));
                assert(lookup_spec(s, k) == lookup_spec(s.drop_first(), k));
            }
        }
        assert(lookup_spec(t, s[idx].0 as int) == Some(v)) by {
            assert(lookup_spec(t, s[idx].0 as int) == lookup_spec(
                t.drop_first(),
                s[idx].0 as int,
            ));
        }
    }
}

proof fn lemma_lookup_push<V>(s: Seq<(i32, V)>, key: i32, v: V)
    requires
        keys_unique(s),
        forall|i: int| 0 <= i < s.len() ==> (#[trigger] s[i]).0 != key,
    ensures
        keys_unique(s.push((key, v))),
        lookup_spec(s.push((key, v)), key as int) == Some(v),
        forall|k: int| k != key as int ==> lookup_spec(s.push((key, v)), k) == lookup_spec(s, k),
    decreases s.len(),
{
    let t = s.push((key, v));
    assert(keys_unique(t)) by {
        assert(forall|i: int| 0 <= i < s.len() ==> (#[trigger] t[i]) == s[i]);
        assert(t[s.len() as int].0 == key);
    }
    if s.len() == 0 {
        assert(t[0] == (key, v));
        assert(t.drop_first() =~= Seq::<(i32, V)>::empty());
        assert forall|k: int| k != key as int implies lookup_spec(t, k) == lookup_spec(s, k) by {
            assert(lookup_spec(t.drop_first(), k) is None);
        }
    } else {
        assert(t[0] == s[0]);
        assert(t.drop_first() =~= s.drop_first().push((key, v)));
        assert(keys_unique(s.drop_first())) by {
            assert(forall|i: int, j: int|
                0 <= i < j < s.drop_first().len() ==> (#[trigger] s.drop_first()[i]) == s[i + 1]
                    && (#[trigger] s.drop_first()[j]) == s[j + 1]);
        }
        assert(forall|i: int|
            0 <= i < s.drop_first().len() ==> (#[trigger] s.drop_first()[i]) == s[i + 1]);
        lemma_lookup_push(s.drop_first(), key, v);
        assert forall|k: int| k != key as int implies lookup_spec(t, k) == lookup_spec(s, k) by {
            if s[0].0 as int != k {
                assert(lookup_spec(t, k) == lookup_spec(t.drop_first(), k));
                assert(lookup_spec(s, k) == lookup_spec(s.drop_first(), k));
            }
        }
    }
}

/// A table from key code to a bound value; later insertions for a code
/// replace earlier ones.
#[derive(Clone)]
pub struct KeyMap<V> {
    entries: Vec<(i32, V)>,
}

impl<V> View for KeyMap<V> {
    type V = Seq<(i32, V)>;

    closed spec fn view(&self) -> Seq<(i32, V)> {
        self.entries@
    }
}

impl<V> KeyMap<V> {
    /// Every key appears at most once.
    pub open spec fn wf(&self) -> bool {
        keys_unique(self@)
    }

    /// An empty table.
    pub fn new() -> (r: KeyMap<V>)
        ensures
            r@ == Seq::<(i32, V)>::empty(),
            r.wf(),
    {
        KeyMap { entries: Vec::new() }
    }

    pub fn len(&self) -> (r: usize)
        ensures
            r == self@.len(),
    {
        self.entries.len()
    }

    /// The entry at one position, for walking the table in order.
    pub fn entry_at(&self, i: usize) -> (r: &(i32, V))
        requires
            i < self@.len(),
        ensures
            *r == self@[i as int],
    {
        &self.entries[i]
    }

    /// Binds `value` to `key`, replacing whatever the key was bound to.
    pub fn insert(&mut self, key: i32, value: V)
        requires
            old(self).wf(),
        ensures
            final(self).wf(),
            lookup_spec(final(self)@, key as int) == Some(value),
            forall|k: int|
                k != key as int ==> lookup_spec(final(self)@, k) == lookup_spec(old(self)@, k),
            final(self)@.len() <= old(self)@.len() + 1,
    {
        let n = self.entries.len();
        let mut i: usize = 0;
        while i < n
            invariant
                0 <= i <= n,
                n == self@.len(),
                self == old(self),
                self.wf(),
                forall|j: int| 0 <= j < i ==> (#[trigger] self@[j]).0 != key,
            decreases n - i,
        {
            if self.entries[i].0 == key {
                proof {
                    lemma_lookup_update(self@, i as int, value);
                }
                self.entries[i] = (key, value);
                return ;
            }
            i = i + 1;
        }
        proof {
            lemma_lookup_push(self@, key, value);
        }
        self.entries.push((key, value));
    }

    /// The value bound to `key`, if any.
    pub fn get(&self, key: i32) -> (r: Option<&V>)
        requires
            self.wf(),
        ensures
            match r {
                Some(v) => lookup_spec(self@, key as int) == Some(*v),
                None => lookup_spec(self@, key as int) is None,
            },
    {
        let n = self.entries.len();
        let mut i: usize = 0;
        while i < n
            invariant
                0 <= i <= n,
                n == self@.len(),
                self.wf(),
                forall|j: int| 0 <= j < i ==> (#[trigger] self@[j]).0 != key,
            decreases n - i,
        {
            if self.entries[i].0 == key {
                proof {
                    lemma_lookup_at(self@, i as int);
                }
                return Some(&self.entries[i].1);
            }
            i = i + 1;
        }
        proof {
            lemma_lookup_absent(self@, key as int);
        }
        None
    }
}

} // verus!

//! A heterogeneous store: named slots each holding a value whose static type
//! has been erased into a uniform box.
//!
//! Erasure here is by a closed sum type, [`Erased`], the recovery operation
//! being a checked match on the variant. The store trusts, rather than
//! enforces, that a given name is only ever written through keys of one type;
//! a read that finds the wrong variant is a fatal integrity violation, not a
//! recoverable error.

use vstd::prelude::*;
use crate::key::Key;
use crate::text::str_eq;

verus! {

/// A value whose static type has been erased.
///
/// The set of storable types is closed: every type that can go into a
/// [`TypeErasedStore`] maps onto exactly one of these variants.
pub enum Erased {
    Unsigned(u64),
    Flag(bool),
    Text(String),
    Lines(Vec<String>),
}

/// A type whose values can be erased into an [`Erased`] box and recovered
/// from it by a checked match.
pub trait Erasable: Sized {
    /// The box that a value of this type erases to.
    spec fn erase_spec(v: Self) -> Erased;

    /// What a checked recovery of this type from a box yields.
    spec fn recover_spec(e: Erased) -> Option<Self>;

    /// Law: recovery undoes erasure exactly.
    proof fn lemma_erase_recover(v: Self)
        ensures
            Self::recover_spec(Self::erase_spec(v)) == Some(v),
    ;

    /// Erase a value into its box.
    fn erase(self) -> (e: Erased)
        ensures
            e == Self::erase_spec(self),
    ;

    /// Checked recovery: a reference to the boxed value, if the box holds
    /// this type.
    fn recover_ref(e: &Erased) -> (r: Option<&Self>)
        ensures
            match r {
                Some(x) => Self::recover_spec(*e) == Some(*x),
                None => Self::recover_spec(*e) is None,
            },
    ;
}

impl Erasable for u64 {
    open spec fn erase_spec(v: u64) -> Erased {
        Erased::Unsigned(v)
    }

    open spec fn recover_spec(e: Erased) -> Option<u64> {
        match e {
            Erased::Unsigned(x) => Some(x),
            _ => None,
        }
    }

    proof fn lemma_erase_recover(v: u64) {
    }

    fn erase(self) -> (e: Erased) {
        Erased::Unsigned(self)
    }

    fn recover_ref(e: &Erased) -> (r: Option<&u64>) {
        match e {
            Erased::Unsigned(x) => Some(x),
            _ => None,
        }
    }
}

impl Erasable for bool {
    open spec fn erase_spec(v: bool) -> Erased {
        Erased::Flag(v)
    }

    open spec fn recover_spec(e: Erased) -> Option<bool> {
        match e {
            Erased::Flag(x) => Some(x),
            _ => None,
        }
    }

    proof fn lemma_erase_recover(v: bool) {
    }

    fn erase(self) -> (e: Erased) {
        Erased::Flag(self)
    }

    fn recover_ref(e: &Erased) -> (r: Option<&bool>) {
        match e {
            Erased::Flag(x) => Some(x),
            _ => None,
        }
    }
}

impl Erasable for String {
    open spec fn erase_spec(v: String) -> Erased {
        Erased::Text(v)
    }

    open spec fn recover_spec(e: Erased) -> Option<String> {
        match e {
            Erased::Text(x) => Some(x),
            _ => None,
        }
    }

    proof fn lemma_erase_recover(v: String) {
    }

    fn erase(self) -> (e: Erased) {
        Erased::Text(self)
    }

    fn recover_ref(e: &Erased) -> (r: Option<&String>) {
        match e {
            Erased::Text(x) => Some(x),
            _ => None,
        }
    }
}

impl Erasable for Vec<String> {
    open spec fn erase_spec(v: Vec<String>) -> Erased {
        Erased::Lines(v)
    }

    open spec fn recover_spec(e: Erased) -> Option<Vec<String>> {
        match e {
            Erased::Lines(x) => Some(x),
            _ => None,
        }
    }

    proof fn lemma_erase_recover(v: Vec<String>) {
    }

    fn erase(self) -> (e: Erased) {
        Erased::Lines(self)
    }

    fn recover_ref(e: &Erased) -> (r: Option<&Vec<String>>) {
        match e {
            Erased::Lines(x) => Some(x),
            _ => None,
        }
    }
}

/// The abstract contents of an entry list: a map from each stored name to the
/// box most recently stored under it.
spec fn entries_map(s: Seq<(&'static str, Erased)>) -> Map<Seq<char>, Erased>
    decreases s.len(),
{
    if s.len() == 0 {
        Map::empty()
    } else {
        entries_map(s.drop_last()).insert(s.last().0@, s.last().1)
    }
}

/// Pairwise-distinct entry names.
spec fn distinct_names(s: Seq<(&'static str, Erased)>) -> bool {
    forall|i: int, j: int| 0 <= i < j < s.len() ==> s[i].0@ != s[j].0@
}

proof fn lemma_contains(s: Seq<(&'static str, Erased)>, k: Seq<char>)
    ensures
        entries_map(s).contains_key(k) <==> exists|i: int| 0 <= i < s.len() && s[i].0@ == k,
    decreases s.len(),
{
    if s.len() == 0 {
    } else {
        lemma_contains(s.drop_last(), k);
        if s.last().0@ == k {
            assert(s[s.len() - 1].0@ == k);
        } else {
            if entries_map(s).contains_key(k) {
                let i = choose|i: int| 0 <= i < s.drop_last().len() && s.drop_last()[i].0@ == k;
                assert(s[i].0@ == k);
            }
            if exists|i: int| 0 <= i < s.len() && s[i].0@ == k {
                let i = choose|i: int| 0 <= i < s.len() && s[i].0@ == k;
                assert(s.drop_last()[i].0@ == k);
            }
        }
    }
}

proof fn lemma_value_at(s: Seq<(&'static str, Erased)>, i: int)
    requires
        distinct_names(s),
        0 <= i < s.len(),
    ensures
        entries_map(s).contains_key(s[i].0@),
        entries_map(s)[s[i].0@] == s[i].1,
    decreases s.len(),
{
    if i == s.len() - 1 {
    } else {
        assert(distinct_names(s.drop_last()));
        assert(s.drop_last()[i] == s[i]);
        lemma_value_at(s.drop_last(), i);
        assert(s.last().0@ != s[i].0@);
    }
}

proof fn lemma_update_value(s: Seq<(&'static str, Erased)>, i: int, p: (&'static str, Erased))
    requires
        distinct_names(s),
        0 <= i < s.len(),
        p.0@ == s[i].0@,
    ensures
        entries_map(s.update(i, p)) =~= entries_map(s).insert(p.0@, p.1),
    decreases s.len(),
{
    let t = s.update(i, p);
    if i == s.len() - 1 {
        assert(t.drop_last() =~= s.drop_last());
        assert(t.last() == p);
    } else {
        assert(distinct_names(s.drop_last()));
        assert(s.drop_last()[i] == s[i]);
        lemma_update_value(s.drop_last(), i, p);
        assert(t.drop_last() =~= s.drop_last().update(i, p));
        assert(t.last() == s.last());
        assert(s.last().0@ != p.0@);
    }
}

/// A mapping from string names to boxed values of erased type.
///
/// Abstractly a `Map<Seq<char>, Erased>`; each name holds the box most
/// recently inserted under it.
pub struct TypeErasedStore {
    entries: Vec<(&'static str, Erased)>,
}

impl View for TypeErasedStore {
    type V = Map<Seq<char>, Erased>;

    closed spec fn view(&self) -> Map<Seq<char>, Erased> {
        entries_map(self.entries@)
    }
}

impl TypeErasedStore {
    /// Well-formedness: no two entries share a name. Constructors establish
    /// it and every method preserves it.
    pub closed spec fn wf(self) -> bool {
        distinct_names(self.entries@)
    }

    /// An empty store.
    pub fn new() -> (s: TypeErasedStore)
        ensures
            s@ == Map::<Seq<char>, Erased>::empty(),
            s.wf(),
    {
        TypeErasedStore { entries: Vec::new() }
    }

    /// Store `value` under `key`'s name, with its type erased, overwriting
    /// whatever the name held before. Never fails.
    pub fn insert<T: Erasable>(&mut self, key: Key<T>, value: T)
        requires
            old(self).wf(),
        ensures
            final(self)@ == old(self)@.insert(key@, T::erase_spec(value)),
            final(self).wf(),
    {
        let name = key.name();
        let e = value.erase();
        let ghost s0 = self.entries@;
        let n = self.entries.len();
        let mut i: usize = 0;
        while i < n
            invariant
                i <= n,
                n == s0.len(),
                self.entries@ == s0,
                s0 == old(self).entries@,
                distinct_names(s0),
                name@ == key@,
                e == T::erase_spec(value),
                forall|j: int| 0 <= j < i ==> s0[j].0@ != name@,
            decreases n - i,
        {
            if str_eq(self.entries[i].0, name) {
                self.entries[i] = (name, e);
                proof {
                    lemma_update_value(s0, i as int, (name, e));
                    assert(distinct_names(self.entries@));
                }
                return;
            }
            i += 1;
        }
        self.entries.push((name, e));
        proof {
            assert(self.entries@.drop_last() =~= s0);
            assert(distinct_names(self.entries@));
        }
    }

    /// Look up `key`'s name and recover the stored value as a `T`.
    ///
    /// Absence is a first-class outcome, `None`. A present box that does not
    /// recover as `T` means two differently-typed keys shared one name: that
    /// is a corrupted store, a programming error outside this contract, and
    /// the read fails fast instead of returning.
    pub fn get<T: Erasable>(&self, key: Key<T>) -> (r: Option<&T>)
        requires
            self.wf(),
            self@.contains_key(key@) ==> T::recover_spec(self@[key@]) is Some,
        ensures
            match r {
                Some(v) => {
                    &&& self@.contains_key(key@)
                    &&& T::recover_spec(self@[key@]) == Some(*v)
                },
                None => !self@.contains_key(key@),
            },
    {
        let name = key.name();
        let n = self.entries.len();
        let mut i: usize = 0;
        while i < n
            invariant
                i <= n,
                n == self.entries@.len(),
                distinct_names(self.entries@),
                name@ == key@,
                self@.contains_key(key@) ==> T::recover_spec(self@[key@]) is Some,
                self@ == entries_map(self.entries@),
                forall|j: int| 0 <= j < i ==> self.entries@[j].0@ != name@,
            decreases n - i,
        {
            if str_eq(self.entries[i].0, name) {
                proof {
                    lemma_value_at(self.entries@, i as int);
                }
                match T::recover_ref(&self.entries[i].1) {
                    Some(v) => {
                        return Some(v);
                    },
                    None => {
                        return unreached();
                    },
                }
            }
            i += 1;
        }
        proof {
            lemma_contains(self.entries@, name@);
        }
        None
    }
}

/// Law: inserting a value under a key and immediately reading the same key
/// recovers exactly that value, whatever the store held before.
pub proof fn lemma_insert_then_get<T: Erasable>(m: Map<Seq<char>, Erased>, k: Seq<char>, v: T)
    ensures
        m.insert(k, T::erase_spec(v)).contains_key(k),
        T::recover_spec(m.insert(k, T::erase_spec(v))[k]) == Some(v),
{
    T::lemma_erase_recover(v);
}

/// Law: inserting twice under the same key keeps only the most recent value;
/// a read then recovers the second one.
pub proof fn lemma_insert_overwrites<T: Erasable>(
    m: Map<Seq<char>, Erased>,
    k: Seq<char>,
    v1: T,
    v2: T,
)
    ensures
        m.insert(k, T::erase_spec(v1)).insert(k, T::erase_spec(v2))
            =~= m.insert(k, T::erase_spec(v2)),
        T::recover_spec(m.insert(k, T::erase_spec(v1)).insert(k, T::erase_spec(v2))[k])
            == Some(v2),
{
    T::lemma_erase_recover(v2);
}

} // verus!

//! The typed key itself: a string name carrying a type-level tag.

use vstd::prelude::*;
use core::marker::PhantomData;
use crate::text::str_eq;

verus! {

/// A string constant that additionally remembers, in the type system alone, a
/// type `T`.
///
/// The type parameter is never stored: a `Key<T>` is just its name at runtime,
/// and two keys are the same key exactly when their names are equal. The
/// associated type is a static property of the declaration site.
pub struct Key<T> {
    name: &'static str,
    marker: PhantomData<T>,
}

impl<T> View for Key<T> {
    type V = Seq<char>;

    /// A key is abstractly its name.
    closed spec fn view(&self) -> Seq<char> {
        self.name@
    }
}

impl<T> Key<T> {
    /// Construct a new `Key` with the given `name`.
    pub fn new(name: &'static str) -> (k: Key<T>)
        ensures
            k@ == name@,
    {
        Key { name, marker: PhantomData }
    }

    /// The string name of this key.
    pub fn name(&self) -> (n: &'static str)
        ensures
            n@ == self@,
    {
        self.name
    }

    /// Renders the key for diagnostics, as `Key("<name>")`.
    pub fn debug_string(&self) -> (s: String)
        ensures
            s@ == "Key(\""@ + self@ + "\")"@,
    {
        let mut s = String::from_str("Key(\"");
        s.append(self.name);
        s.append("\")");
        proof {
            assert(s@ =~= "Key(\""@ + self@ + "\")"@);
        }
        s
    }
}

impl<T> Clone for Key<T> {
    /// Duplicating a key yields the very same key, whether or not `T` itself
    /// can be duplicated.
    fn clone(&self) -> (k: Self)
        ensures
            k == *self,
    {
        Key { name: self.name, marker: PhantomData }
    }
}

impl<T> Copy for Key<T> {}

impl<T> PartialEq for Key<T> {
    /// Two keys are the same key exactly when their names are equal; the
    /// type parameter plays no role at the value level.
    fn eq(&self, other: &Key<T>) -> bool {
        str_eq(self.name, other.name)
    }
}

impl<T> vstd::std_specs::cmp::PartialEqSpecImpl for Key<T> {
    open spec fn obeys_eq_spec() -> bool {
        true
    }

    open spec fn eq_spec(&self, other: &Key<T>) -> bool {
        self@ == other@
    }
}

} // verus!

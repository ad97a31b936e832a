//! Typed, fallible reads from a parsed configuration document.

use vstd::prelude::*;
use crate::key::Key;
use crate::node::{Node, DocValue, FromNode};
use crate::parse::{doc_view, spec_parse_document, parse_document_exec};
use crate::text::str_eq;

verus! {

/// Why a read or a construction failed. Every failure here is recoverable
/// and reported to the caller; nothing panics.
#[derive(Debug)]
pub enum ConfigError {
    /// The input text is not a well-formed document.
    ParseError,
    /// The named field is absent, though `get` asserts it must exist.
    MissingKeyError(String),
    /// The named field is present but its shape does not convert to the
    /// requested type.
    ConversionError(String),
}

/// The field most recently bound to `name` in the document, if any.
pub open spec fn doc_lookup(fs: Seq<(Seq<char>, DocValue)>, name: Seq<char>) -> Option<DocValue>
    decreases fs.len(),
{
    if fs.len() == 0 {
        None
    } else if fs.last().0 == name {
        Some(fs.last().1)
    } else {
        doc_lookup(fs.drop_last(), name)
    }
}

/// A read-only view of an already-parsed document, queried with typed keys.
///
/// The name-to-type relationship is never assumed: every read re-validates
/// the shape of whatever the document holds under the name, so a missing or
/// wrongly-shaped field is a reported error, never a crash.
pub struct StructuredConfigAccessor {
    fields: Vec<(String, Node)>,
}

impl View for StructuredConfigAccessor {
    type V = Seq<(Seq<char>, DocValue)>;

    /// An accessor is abstractly its field list, in document order.
    closed spec fn view(&self) -> Seq<(Seq<char>, DocValue)> {
        doc_view(self.fields@)
    }
}

impl StructuredConfigAccessor {
    /// Parse `text` into an accessor. Fails with [`ConfigError::ParseError`],
    /// and only then, when `text` is not a well-formed document.
    pub fn from_text(text: &str) -> (r: Result<StructuredConfigAccessor, ConfigError>)
        ensures
            match r {
                Ok(a) => spec_parse_document(text@) == Some(a@),
                Err(e) => e is ParseError && spec_parse_document(text@) is None,
            },
    {
        match parse_document_exec(text) {
            Some(fields) => Ok(StructuredConfigAccessor { fields }),
            None => Err(ConfigError::ParseError),
        }
    }

    /// The node stored under `name`, if any.
    fn lookup_node(&self, name: &str) -> (r: Option<&Node>)
        ensures
            match r {
                Some(nd) => doc_lookup(self@, name@) == Some(nd@),
                None => doc_lookup(self@, name@) is None,
            },
    {
        let mut k = self.fields.len();
        proof {
            assert(self@.take(k as int) =~= self@);
        }
        loop
            invariant
                k <= self.fields@.len(),
                self@ == doc_view(self.fields@),
                doc_lookup(self@, name@) == doc_lookup(self@.take(k as int), name@),
            decreases k,
        {
            if k == 0 {
                proof {
                    assert(self@.take(0) =~= Seq::<(Seq<char>, DocValue)>::empty());
                }
                return None;
            }
            k = k - 1;
            proof {
                assert(self@[k as int] == (self.fields@[k as int].0@, self.fields@[k as int].1@));
                assert(self@.take(k as int + 1).last() == self@[k as int]);
                assert(self@.take(k as int + 1).drop_last() =~= self@.take(k as int));
            }
            if str_eq(self.fields[k].0.as_str(), name) {
                return Some(&self.fields[k].1);
            }
        }
    }

    /// Read the required field named by `key` and convert it to `T`.
    ///
    /// Absence fails with [`ConfigError::MissingKeyError`]; a present field
    /// whose shape does not convert fails with
    /// [`ConfigError::ConversionError`]. Both carry the key's name.
    pub fn get<T: FromNode>(&self, key: Key<T>) -> (r: Result<T, ConfigError>)
        ensures
            match doc_lookup(self@, key@) {
                None => (r matches Err(ConfigError::MissingKeyError(n)) && n@ == key@),
                Some(dv) => {
                    if T::accepts(dv) {
                        r matches Ok(x) && x@ == T::converted(dv)
                    } else {
                        r matches Err(ConfigError::ConversionError(n)) && n@ == key@
                    }
                },
            },
    {
        let name = key.name();
        match self.lookup_node(name) {
            None => Err(ConfigError::MissingKeyError(String::from_str(name))),
            Some(nd) => match T::from_node(nd) {
                Some(x) => Ok(x),
                None => Err(ConfigError::ConversionError(String::from_str(name))),
            },
        }
    }

    /// Read the optional field named by `key`.
    ///
    /// Identical to [`Self::get`], except that absence is a successful
    /// `None`, for fields whose default the caller supplies afterwards.
    pub fn get_opt<T: FromNode>(&self, key: Key<T>) -> (r: Result<Option<T>, ConfigError>)
        ensures
            match doc_lookup(self@, key@) {
                None => (r matches Ok(o) && o is None),
                Some(dv) => {
                    if T::accepts(dv) {
                        r matches Ok(o) && (o matches Some(x) && x@ == T::converted(dv))
                    } else {
                        r matches Err(ConfigError::ConversionError(n)) && n@ == key@
                    }
                },
            },
    {
        let name = key.name();
        match self.lookup_node(name) {
            None => Ok(None),
            Some(nd) => match T::from_node(nd) {
                Some(x) => Ok(Some(x)),
                None => Err(ConfigError::ConversionError(String::from_str(name))),
            },
        }
    }
}

} // verus!

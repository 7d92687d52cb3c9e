//! The small query envelope: raw text plus a parsed form that hosts may lower.

use vstd::prelude::*;

verus! {

/// A host-extensible structured query envelope.
#[derive(Clone, Debug, PartialEq, Eq)]
pub struct PortolanQuery<Scope = (), Filter = ()> {
    /// User-provided raw text.
    pub raw: String,
    /// Parsed query envelope.
    pub parsed: ParsedQuery<Scope, Filter>,
}

/// A minimal parsed query shape.
#[derive(Clone, Debug, PartialEq, Eq)]
pub enum ParsedQuery<Scope = (), Filter = ()> {
    /// Unstructured text query.
    Text {
        /// Free text to match against retrieval sources.
        text: String,
    },
    /// Text query with an explicit scope.
    Scoped {
        /// Host-defined scope token.
        scope: Scope,
        /// Free text constrained by the scope.
        text: String,
    },
    /// Text query with host-defined filters.
    Structured {
        /// Host-defined structured filters.
        filters: Vec<Filter>,
        /// Free text combined with the filters.
        text: String,
    },
}

impl<Scope, Filter> ParsedQuery<Scope, Filter> {
    /// The free text carried by every parsed form.
    pub open spec fn text_spec(&self) -> String {
        match self {
            ParsedQuery::Text { text } => *text,
            ParsedQuery::Scoped { text, .. } => *text,
            ParsedQuery::Structured { text, .. } => *text,
        }
    }
}

/// `String::from` on a string slice: the owned string holds the same text.
pub assume_specification<'a>[ <std::string::String as std::convert::From<&'a str>>::from ](text: &str) -> (r: std::string::String)
    ensures
        r@ == text@,
;

/// `From` of a type into itself (the standard library's blanket impl): the
/// value comes back unchanged.
pub assume_specification<Value>[ <Value as std::convert::From<Value>>::from ](value: Value) -> (r: Value)
    ensures
        r == value,
;

/// Whether `text` becomes `converted` through its `Into<String>` conversion.
/// For a `&str` or a `String` this fixes the text: the specifications above
/// say `String::from` keeps it.
pub open spec fn converts_to<T: Into<String>>(text: T, converted: String) -> bool {
    call_ensures(<T as Into<String>>::into, (text,), converted)
}

impl<Scope, Filter> PortolanQuery<Scope, Filter> {
    /// Create a new query from raw text and a parsed form.
    pub fn new<R: Into<String>>(raw: R, parsed: ParsedQuery<Scope, Filter>) -> (q: Self)
        ensures
            q.parsed == parsed,
            converts_to(raw, q.raw),
    {
        PortolanQuery { raw: raw.into(), parsed }
    }

    /// Create a plain text query: the raw text and the parsed text are equal.
    pub fn text<T: Into<String>>(text: T) -> (q: Self) where Scope: Default, Filter: Default
        ensures
            q.parsed == (ParsedQuery::<Scope, Filter>::Text { text: q.raw }),
            converts_to(text, q.raw),
    {
        let text: String = text.into();
        let raw = text.clone();
        PortolanQuery { raw, parsed: ParsedQuery::Text { text } }
    }

    /// Create a scoped query.
    pub fn scoped<T: Into<String>>(scope: Scope, text: T) -> (q: Self)
        ensures
            q.parsed == (ParsedQuery::<Scope, Filter>::Scoped { scope, text: q.raw }),
            converts_to(text, q.raw),
    {
        let text: String = text.into();
        let raw = text.clone();
        PortolanQuery { raw, parsed: ParsedQuery::Scoped { scope, text } }
    }

    /// Create a structured query with filters.
    pub fn structured<T: Into<String>>(filters: Vec<Filter>, text: T) -> (q: Self)
        ensures
            q.parsed == (ParsedQuery::<Scope, Filter>::Structured { filters, text: q.raw }),
            converts_to(text, q.raw),
    {
        let text: String = text.into();
        let raw = text.clone();
        PortolanQuery { raw, parsed: ParsedQuery::Structured { filters, text } }
    }
}

} // verus!

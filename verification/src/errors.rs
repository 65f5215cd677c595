//! The errors that Ruby code receives: validation errors and execution
//! errors with their locations.
use vstd::prelude::*;

use crate::coercion_error::{CoercionError, clone_strings, strings_view};
use crate::ruby_value::{RubyData, RubyValue, entries_view, lemma_array_view, lemma_value_parts, values_view};
use crate::text::{decimal_string, spec_decimal};

verus! {

/// An error found when a document is validated against a schema.
#[derive(Debug)]
pub struct ValidationError {
    message: String,
}

impl View for ValidationError {
    type V = Seq<char>;

    /// The message.
    closed spec fn view(&self) -> Seq<char> {
        self.message@
    }
}

impl ValidationError {
    pub fn new(message: String) -> (r: ValidationError)
        ensures
            r@ == message@,
    {
        ValidationError { message }
    }

    pub fn message(&self) -> (r: &str)
        ensures
            r@ == self@,
    {
        self.message.as_str()
    }

    /// Whether two errors have the same message.
    pub fn eql(&self, other: &ValidationError) -> (r: bool)
        ensures
            r == (self@ == other@),
    {
        self.message == other.message
    }
}

/// A line and column of a document.
#[derive(Clone, Copy, Debug, PartialEq, Eq)]
pub struct ErrorLocation {
    pub line: usize,
    pub column: usize,
}

/// A Ruby Integer holding an unsigned machine integer.
pub open spec fn spec_integer_of(n: usize) -> RubyData {
    if n <= i64::MAX {
        RubyData::Integer(n as i64)
    } else {
        RubyData::BigInteger { digits: spec_decimal(n as nat), finite_float: true }
    }
}

pub fn integer_of(n: usize) -> (r: RubyValue)
    ensures
        r@ == spec_integer_of(n),
{
    if (n as u64) <= 0x7fff_ffff_ffff_ffffu64 {
        RubyValue::Integer(n as i64)
    } else {
        RubyValue::BigInteger { digits: decimal_string(n as u64), finite_float: true }
    }
}

/// The hash `{"line" => line, "column" => column}`.
pub open spec fn spec_location_hash(loc: ErrorLocation) -> RubyData {
    RubyData::Hash(
        seq![
            (RubyData::String("line"@), spec_integer_of(loc.line)),
            (RubyData::String("column"@), spec_integer_of(loc.column)),
        ],
    )
}

impl ErrorLocation {
    pub fn new(line: usize, column: usize) -> (r: ErrorLocation)
        ensures
            r.line == line,
            r.column == column,
    {
        ErrorLocation { line, column }
    }

    /// The location as a Ruby hash with the keys `line` and `column`.
    pub fn to_h(&self) -> (r: RubyValue)
        ensures
            r@ == spec_location_hash(*self),
    {
        let mut entries: Vec<(RubyValue, RubyValue)> = Vec::new();
        entries.push((RubyValue::String(String::from_str("line")), integer_of(self.line)));
        entries.push((RubyValue::String(String::from_str("column")), integer_of(self.column)));
        proof {
            reveal_strlit("line");
            reveal_strlit("column");
            assert(entries_view(entries@) =~= seq![
                (RubyData::String("line"@), spec_integer_of(self.line)),
                (RubyData::String("column"@), spec_integer_of(self.column)),
            ]);
        }
        let r = RubyValue::Hash(entries);
        proof {
            lemma_value_parts(r);
        }
        r
    }
}

/// The content of an [`ExecutionError`].
pub struct ExecutionErrorView {
    pub message: Seq<char>,
    pub path: Option<Seq<Seq<char>>>,
    pub locations: Option<Seq<ErrorLocation>>,
}

/// An error of the execution of a request, as Ruby code receives it.
#[derive(Debug)]
pub struct ExecutionError {
    message: String,
    path: Option<Vec<String>>,
    locations: Option<Vec<ErrorLocation>>,
}

impl View for ExecutionError {
    type V = ExecutionErrorView;

    closed spec fn view(&self) -> ExecutionErrorView {
        ExecutionErrorView {
            message: self.message@,
            path: match self.path {
                Some(p) => Some(strings_view(p@)),
                None => None,
            },
            locations: match self.locations {
                Some(l) => Some(l@),
                None => None,
            },
        }
    }
}

/// The hash that Ruby code receives for an execution error: its path,
/// its message and, where it has them, its locations.
pub open spec fn spec_execution_error_hash(e: ExecutionErrorView) -> RubyData {
    let path = match e.path {
        None => RubyData::Nil,
        Some(p) => RubyData::Array(p.map_values(|s: Seq<char>| RubyData::String(s))),
    };
    let base = seq![(RubyData::String("path"@), path), (RubyData::String("message"@), RubyData::String(e.message))];
    match e.locations {
        None => RubyData::Hash(base),
        Some(l) => RubyData::Hash(
            base.push(
                (RubyData::String("locations"@), RubyData::Array(l.map_values(|x: ErrorLocation| spec_location_hash(x)))),
            ),
        ),
    }
}

impl ExecutionError {
    pub fn new(message: String, path: Option<Vec<String>>, locations: Option<Vec<ErrorLocation>>) -> (r: ExecutionError)
        ensures
            r@.message == message@,
            r@.path == (match path {
                Some(p) => Some(strings_view(p@)),
                None => None::<Seq<Seq<char>>>,
            }),
            r@.locations == (match locations {
                Some(l) => Some(l@),
                None => None::<Seq<ErrorLocation>>,
            }),
    {
        ExecutionError { message, path, locations }
    }

    pub fn message(&self) -> (r: &str)
        ensures
            r@ == self@.message,
    {
        self.message.as_str()
    }

    /// The path of the field whose execution failed, from the root down.
    pub fn path(&self) -> (r: Option<Vec<String>>)
        ensures
            match r {
                Some(p) => self@.path == Some(strings_view(p@)),
                None => self@.path is None,
            },
    {
        match &self.path {
            Some(p) => Some(clone_strings(p)),
            None => None,
        }
    }

    /// The error as the hash that a GraphQL response holds.
    pub fn to_h(&self) -> (r: RubyValue)
        ensures
            r@ == spec_execution_error_hash(self@),
    {
        let path_value = match &self.path {
            None => RubyValue::Nil,
            Some(p) => {
                let mut items: Vec<RubyValue> = Vec::new();
                let mut i: usize = 0;
                while i < p.len()
                    invariant
                        i <= p.len(),
                        items@.len() == i,
                        forall|j: int| 0 <= j < i ==> #[trigger] items@[j]@ == RubyData::String(p@[j]@),
                    decreases p.len() - i,
                {
                    items.push(RubyValue::String(p[i].clone()));
                    i = i + 1;
                }
                proof {
                    lemma_array_view(items);
                    assert(values_view(items@) =~= strings_view(p@).map_values(|s: Seq<char>| RubyData::String(s)));
                }
                RubyValue::Array(items)
            },
        };
        let mut entries: Vec<(RubyValue, RubyValue)> = Vec::new();
        entries.push((RubyValue::String(String::from_str("path")), path_value));
        entries.push((RubyValue::String(String::from_str("message")), RubyValue::String(self.message.clone())));
        match &self.locations {
            None => {},
            Some(l) => {
                let mut items: Vec<RubyValue> = Vec::new();
                let mut i: usize = 0;
                while i < l.len()
                    invariant
                        i <= l.len(),
                        items@.len() == i,
                        forall|j: int| 0 <= j < i ==> #[trigger] items@[j]@ == spec_location_hash(l@[j]),
                    decreases l.len() - i,
                {
                    items.push(l[i].to_h());
                    i = i + 1;
                }
                proof {
                    lemma_array_view(items);
                    assert(values_view(items@) =~= l@.map_values(|x: ErrorLocation| spec_location_hash(x)));
                }
                entries.push((RubyValue::String(String::from_str("locations")), RubyValue::Array(items)));
            },
        }
        proof {
            reveal_strlit("path");
            reveal_strlit("message");
            reveal_strlit("locations");
            let e = self@;
            let pv = match e.path {
                None => RubyData::Nil,
                Some(p) => RubyData::Array(p.map_values(|s: Seq<char>| RubyData::String(s))),
            };
            let base = seq![(RubyData::String("path"@), pv), (RubyData::String("message"@), RubyData::String(e.message))];
            assert(entries@[0].1@ == pv);
            match e.locations {
                None => {
                    assert(entries_view(entries@) =~= base);
                },
                Some(l) => {
                    assert(entries_view(entries@) =~= base.push(
                        (RubyData::String("locations"@), RubyData::Array(l.map_values(|x: ErrorLocation| spec_location_hash(x)))),
                    ));
                },
            }
        }
        let r = RubyValue::Hash(entries);
        proof {
            lemma_value_parts(r);
        }
        r
    }
}

impl CoercionError {
    /// The execution error that reports this coercion error: its message,
    /// with no path and no locations.
    pub fn into_execution_error(self) -> (r: ExecutionError)
        ensures
            r@.message == self@.0,
            r@.path is None,
            r@.locations is None,
    {
        let m = String::from_str(self.message());
        ExecutionError::new(m, None, None)
    }
}

} // verus!

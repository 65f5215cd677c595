//! Plain values standing for the Ruby objects that the coercion logic reads.
use vstd::prelude::*;

verus! {

/// A Ruby `Float`, either as the IEEE-754 bits of a double that came from
/// Ruby, or as the float that an `Int` value converts to.
#[derive(Clone, Copy, Debug, PartialEq, Eq)]
pub enum RubyFloat {
    Bits(u64),
    FromInteger(i32),
}

/// The exponent field of a double given by its bits.
pub open spec fn float_exponent_field(bits: u64) -> int {
    (bits as int / 0x10_0000_0000_0000) % 0x800
}

/// A float is finite unless all its exponent bits are set.
pub open spec fn spec_float_is_finite(f: RubyFloat) -> bool {
    match f {
        RubyFloat::Bits(bits) => float_exponent_field(bits) != 0x7ff,
        RubyFloat::FromInteger(_) => true,
    }
}

impl RubyFloat {
    pub fn is_finite(&self) -> (r: bool)
        ensures
            r == spec_float_is_finite(*self),
    {
        match self {
            RubyFloat::Bits(bits) => (*bits / 0x10_0000_0000_0000u64) % 0x800 != 0x7ff,
            RubyFloat::FromInteger(_) => true,
        }
    }
}

/// The Ruby values that the coercion logic tells apart.
#[derive(Debug)]
pub enum RubyValue {
    Nil,
    Boolean(bool),
    /// An `Integer` that fits in 64 bits.
    Integer(i64),
    /// An `Integer` outside the 64-bit range, by its decimal numeral;
    /// `finite_float` tells whether Ruby converts it to a finite `Float`.
    BigInteger { digits: String, finite_float: bool },
    Float(RubyFloat),
    String(String),
    Symbol(String),
    Array(Vec<RubyValue>),
    /// A `Hash`, by its entries in iteration order.
    Hash(Vec<(RubyValue, RubyValue)>),
    /// An instance of the Ruby class of an input object type, built from
    /// keyword arguments.
    InputObject { class_name: String, args: Vec<(String, RubyValue)> },
    /// Any other object, by the name of its class and a handle under which
    /// the caller keeps the object itself; `finite_float` tells whether
    /// Ruby's conversion of the object to a `Float` gives a finite number.
    Opaque { class_name: String, handle: u64, finite_float: bool },
}

/// The mathematical content of a [`RubyValue`].
pub enum RubyData {
    Nil,
    Boolean(bool),
    Integer(i64),
    BigInteger { digits: Seq<char>, finite_float: bool },
    Float(RubyFloat),
    String(Seq<char>),
    Symbol(Seq<char>),
    Array(Seq<RubyData>),
    Hash(Seq<(RubyData, RubyData)>),
    InputObject { class_name: Seq<char>, args: Seq<(Seq<char>, RubyData)> },
    Opaque { class_name: Seq<char>, handle: u64, finite_float: bool },
}

/// The contents of a list of Ruby values, element by element.
pub open spec fn view_values(s: Seq<RubyValue>) -> Seq<RubyData>
    decreases s,
{
    if s.len() == 0 {
        Seq::empty()
    } else {
        view_values(s.drop_last()).push(s.last().view())
    }
}

/// The contents of a list of hash entries, entry by entry.
pub open spec fn view_entries(s: Seq<(RubyValue, RubyValue)>) -> Seq<(RubyData, RubyData)>
    decreases s,
{
    if s.len() == 0 {
        Seq::empty()
    } else {
        view_entries(s.drop_last()).push((s.last().0.view(), s.last().1.view()))
    }
}

/// The contents of a list of keyword arguments, argument by argument.
pub open spec fn view_args(s: Seq<(String, RubyValue)>) -> Seq<(Seq<char>, RubyData)>
    decreases s,
{
    if s.len() == 0 {
        Seq::empty()
    } else {
        view_args(s.drop_last()).push((s.last().0@, s.last().1.view()))
    }
}

impl View for RubyValue {
    type V = RubyData;

    open spec fn view(&self) -> RubyData
        decreases self,
    {
        match self {
            RubyValue::Nil => RubyData::Nil,
            RubyValue::Boolean(b) => RubyData::Boolean(*b),
            RubyValue::Integer(i) => RubyData::Integer(*i),
            RubyValue::BigInteger { digits, finite_float } => RubyData::BigInteger { digits: digits@, finite_float: *finite_float },
            RubyValue::Float(f) => RubyData::Float(*f),
            RubyValue::String(s) => RubyData::String(s@),
            RubyValue::Symbol(s) => RubyData::Symbol(s@),
            RubyValue::Array(items) => RubyData::Array(view_values(items@)),
            RubyValue::Hash(entries) => RubyData::Hash(view_entries(entries@)),
            RubyValue::InputObject { class_name, args } => RubyData::InputObject {
                class_name: class_name@,
                args: view_args(args@),
            },
            RubyValue::Opaque { class_name, handle, finite_float } => RubyData::Opaque {
                class_name: class_name@,
                handle: *handle,
                finite_float: *finite_float,
            },
        }
    }
}

/// The contents of a list of Ruby values.
pub open spec fn values_view(v: Seq<RubyValue>) -> Seq<RubyData> {
    v.map_values(|x: RubyValue| x@)
}

/// The contents of a list of hash entries.
pub open spec fn entries_view(v: Seq<(RubyValue, RubyValue)>) -> Seq<(RubyData, RubyData)> {
    v.map_values(|x: (RubyValue, RubyValue)| (x.0@, x.1@))
}

/// The contents of a list of keyword arguments.
pub open spec fn args_view(v: Seq<(String, RubyValue)>) -> Seq<(Seq<char>, RubyData)> {
    v.map_values(|x: (String, RubyValue)| (x.0@, x.1@))
}

pub proof fn lemma_view_values(s: Seq<RubyValue>)
    ensures
        view_values(s) == values_view(s),
    decreases s.len(),
{
    if s.len() > 0 {
        lemma_view_values(s.drop_last());
        assert(view_values(s) == view_values(s.drop_last()).push(s.last()@));
        assert(view_values(s).len() == s.len());
        assert forall|k: int| 0 <= k < s.len() implies view_values(s)[k] == values_view(s)[k] by {
            if k < s.len() - 1 {
                assert(s.drop_last()[k] == s[k]);
            }
        }
        assert(view_values(s) =~= values_view(s));
    } else {
        assert(view_values(s) =~= values_view(s));
    }
}

pub proof fn lemma_view_entries(s: Seq<(RubyValue, RubyValue)>)
    ensures
        view_entries(s) == entries_view(s),
    decreases s.len(),
{
    if s.len() > 0 {
        lemma_view_entries(s.drop_last());
        assert(view_entries(s) == view_entries(s.drop_last()).push((s.last().0@, s.last().1@)));
        assert(view_entries(s).len() == s.len());
        assert forall|k: int| 0 <= k < s.len() implies view_entries(s)[k] == entries_view(s)[k] by {
            if k < s.len() - 1 {
                assert(s.drop_last()[k] == s[k]);
            }
        }
        assert(view_entries(s) =~= entries_view(s));
    } else {
        assert(view_entries(s) =~= entries_view(s));
    }
}

pub proof fn lemma_view_args(s: Seq<(String, RubyValue)>)
    ensures
        view_args(s) == args_view(s),
    decreases s.len(),
{
    if s.len() > 0 {
        lemma_view_args(s.drop_last());
        assert(view_args(s) == view_args(s.drop_last()).push((s.last().0@, s.last().1@)));
        assert(view_args(s).len() == s.len());
        assert forall|k: int| 0 <= k < s.len() implies view_args(s)[k] == args_view(s)[k] by {
            if k < s.len() - 1 {
                assert(s.drop_last()[k] == s[k]);
            }
        }
        assert(view_args(s) =~= args_view(s));
    } else {
        assert(view_args(s) =~= args_view(s));
    }
}

pub proof fn lemma_array_view(items: Vec<RubyValue>)
    ensures
        RubyValue::Array(items)@ == RubyData::Array(values_view(items@)),
{
    lemma_view_values(items@);
}

pub proof fn lemma_input_object_view(class_name: String, args: Vec<(String, RubyValue)>)
    ensures
        (RubyValue::InputObject { class_name, args })@ == (RubyData::InputObject {
            class_name: class_name@,
            args: args_view(args@),
        }),
{
    lemma_view_args(args@);
}

/// The view of an array or hash, element by element, and that each element
/// is smaller than the whole.
pub proof fn lemma_value_parts(value: RubyValue)
    ensures
        value is Array ==> value@ == RubyData::Array(values_view(value->Array_0@)),
        value is Hash ==> value@ == RubyData::Hash(entries_view(value->Hash_0@)),
        value matches RubyValue::InputObject { class_name, args } ==> value@ == (RubyData::InputObject {
            class_name: class_name@,
            args: args_view(args@),
        }),
{
    match value {
        RubyValue::Array(items) => lemma_view_values(items@),
        RubyValue::Hash(entries) => lemma_view_entries(entries@),
        RubyValue::InputObject { class_name, args } => lemma_view_args(args@),
        _ => {},
    }
}

impl RubyValue {
    /// A copy of the value.
    pub fn duplicate(&self) -> (r: RubyValue)
        ensures
            r@ == self@,
        decreases self,
    {
        match self {
            RubyValue::Nil => RubyValue::Nil,
            RubyValue::Boolean(b) => RubyValue::Boolean(*b),
            RubyValue::Integer(i) => RubyValue::Integer(*i),
            RubyValue::BigInteger { digits, finite_float } => RubyValue::BigInteger {
                digits: digits.clone(),
                finite_float: *finite_float,
            },
            RubyValue::Float(f) => RubyValue::Float(*f),
            RubyValue::String(s) => RubyValue::String(s.clone()),
            RubyValue::Symbol(s) => RubyValue::Symbol(s.clone()),
            RubyValue::Array(items) => {
                let mut out: Vec<RubyValue> = Vec::new();
                let mut i: usize = 0;
                proof {
                    assert forall|j: int| 0 <= j < items@.len() implies decreases_to!(*self => items@[j]) by {
                        assert(decreases_to!(*self => *items));
                        assert(decreases_to!(*items => items@));
                        assert(decreases_to!(items@ => items@[j]));
                    }
                }
                while i < items.len()
                    invariant
                        forall|j: int| 0 <= j < items@.len() ==> decreases_to!(*self => items@[j]),
                        i <= items.len(),
                        out@.len() == i,
                        forall|j: int| 0 <= j < i ==> out@[j]@ == items@[j]@,
                    decreases items.len() - i,
                {
                    out.push(items[i].duplicate());
                    i = i + 1;
                }
                proof {
                    lemma_view_values(out@);
                    lemma_view_values(items@);
                    assert(values_view(out@) =~= values_view(items@));
                }
                let r = RubyValue::Array(out);
                r
            },
            RubyValue::Hash(entries) => {
                let mut out: Vec<(RubyValue, RubyValue)> = Vec::new();
                let mut i: usize = 0;
                proof {
                    assert forall|j: int| 0 <= j < entries@.len() implies decreases_to!(*self => entries@[j].0) && decreases_to!(*self => entries@[j].1) by {
                        assert(decreases_to!(*self => *entries));
                        assert(decreases_to!(*entries => entries@));
                        assert(decreases_to!(entries@ => entries@[j]));
                        assert(decreases_to!(entries@[j] => entries@[j].0));
                        assert(decreases_to!(entries@[j] => entries@[j].1));
                    }
                }
                while i < entries.len()
                    invariant
                        forall|j: int| 0 <= j < entries@.len() ==> decreases_to!(*self => entries@[j].0) && decreases_to!(*self => entries@[j].1),
                        i <= entries.len(),
                        out@.len() == i,
                        forall|j: int| 0 <= j < i ==> out@[j].0@ == entries@[j].0@ && out@[j].1@ == entries@[j].1@,
                    decreases entries.len() - i,
                {
                    let k = entries[i].0.duplicate();
                    let v = entries[i].1.duplicate();
                    out.push((k, v));
                    i = i + 1;
                }
                proof {
                    lemma_view_entries(out@);
                    lemma_view_entries(entries@);
                    assert(entries_view(out@) =~= entries_view(entries@));
                }
                let r = RubyValue::Hash(out);
                r
            },
            RubyValue::InputObject { class_name, args } => {
                let mut out: Vec<(String, RubyValue)> = Vec::new();
                let mut i: usize = 0;
                proof {
                    assert forall|j: int| 0 <= j < args@.len() implies decreases_to!(*self => args@[j].1) by {
                        assert(decreases_to!(*self => *args));
                        assert(decreases_to!(*args => args@));
                        assert(decreases_to!(args@ => args@[j]));
                        assert(decreases_to!(args@[j] => args@[j].1));
                    }
                }
                while i < args.len()
                    invariant
                        forall|j: int| 0 <= j < args@.len() ==> decreases_to!(*self => args@[j].1),
                        i <= args.len(),
                        out@.len() == i,
                        forall|j: int| 0 <= j < i ==> out@[j].0@ == args@[j].0@ && out@[j].1@ == args@[j].1@,
                    decreases args.len() - i,
                {
                    let k = args[i].0.clone();
                    let v = args[i].1.duplicate();
                    out.push((k, v));
                    i = i + 1;
                }
                proof {
                    lemma_view_args(out@);
                    lemma_view_args(args@);
                    assert(args_view(out@) =~= args_view(args@));
                }
                let r = RubyValue::InputObject { class_name: class_name.clone(), args: out };
                r
            },
            RubyValue::Opaque { class_name, handle, finite_float } => RubyValue::Opaque {
                class_name: class_name.clone(),
                handle: *handle,
                finite_float: *finite_float,
            },
        }
    }
}

/// The name of a value's kind as user-facing messages show it.
pub open spec fn spec_public_name(v: RubyData) -> Seq<char> {
    match v {
        RubyData::Nil => "null"@,
        RubyData::Integer(_) | RubyData::BigInteger { .. } => "integer"@,
        RubyData::Float(_) => "float"@,
        RubyData::String(_) => "string"@,
        RubyData::Array(_) => "list"@,
        RubyData::Hash(_) => "object"@,
        RubyData::Boolean(_) => "boolean"@,
        _ => "unknown"@,
    }
}

pub fn public_name(value: &RubyValue) -> (r: &'static str)
    ensures
        r@ == spec_public_name(value@),
{
    match value {
        RubyValue::Nil => "null",
        RubyValue::Integer(_) | RubyValue::BigInteger { .. } => "integer",
        RubyValue::Float(_) => "float",
        RubyValue::String(_) => "string",
        RubyValue::Array(_) => "list",
        RubyValue::Hash(_) => "object",
        RubyValue::Boolean(_) => "boolean",
        _ => "unknown",
    }
}

} // verus!

verus! {

/// How Ruby names a value in a conversion error: `nil`, `true` and `false`
/// by themselves, anything else by its class.
pub open spec fn spec_class_desc(v: RubyData) -> Seq<char> {
    match v {
        RubyData::Nil => "nil"@,
        RubyData::Boolean(b) => if b {
            "true"@
        } else {
            "false"@
        },
        RubyData::Integer(_) | RubyData::BigInteger { .. } => "Integer"@,
        RubyData::Float(_) => "Float"@,
        RubyData::String(_) => "String"@,
        RubyData::Symbol(_) => "Symbol"@,
        RubyData::Array(_) => "Array"@,
        RubyData::Hash(_) => "Hash"@,
        RubyData::InputObject { class_name, .. } => class_name,
        RubyData::Opaque { class_name, .. } => class_name,
    }
}

pub fn class_desc(value: &RubyValue) -> (r: &str)
    ensures
        r@ == spec_class_desc(value@),
{
    match value {
        RubyValue::Nil => "nil",
        RubyValue::Boolean(b) => if *b {
            "true"
        } else {
            "false"
        },
        RubyValue::Integer(_) | RubyValue::BigInteger { .. } => "Integer",
        RubyValue::Float(_) => "Float",
        RubyValue::String(_) => "String",
        RubyValue::Symbol(_) => "Symbol",
        RubyValue::Array(_) => "Array",
        RubyValue::Hash(_) => "Hash",
        RubyValue::InputObject { class_name, .. } => class_name.as_str(),
        RubyValue::Opaque { class_name, .. } => class_name.as_str(),
    }
}

/// The name of a value's class, as `rb_obj_classname` gives it.
pub open spec fn spec_class_name(v: RubyData) -> Seq<char> {
    match v {
        RubyData::Nil => "NilClass"@,
        RubyData::Boolean(b) => if b {
            "TrueClass"@
        } else {
            "FalseClass"@
        },
        RubyData::Integer(_) | RubyData::BigInteger { .. } => "Integer"@,
        RubyData::Float(_) => "Float"@,
        RubyData::String(_) => "String"@,
        RubyData::Symbol(_) => "Symbol"@,
        RubyData::Array(_) => "Array"@,
        RubyData::Hash(_) => "Hash"@,
        RubyData::InputObject { class_name, .. } => class_name,
        RubyData::Opaque { class_name, .. } => class_name,
    }
}

pub fn class_name(value: &RubyValue) -> (r: &str)
    ensures
        r@ == spec_class_name(value@),
{
    match value {
        RubyValue::Nil => "NilClass",
        RubyValue::Boolean(b) => if *b {
            "TrueClass"
        } else {
            "FalseClass"
        },
        RubyValue::Integer(_) | RubyValue::BigInteger { .. } => "Integer",
        RubyValue::Float(_) => "Float",
        RubyValue::String(_) => "String",
        RubyValue::Symbol(_) => "Symbol",
        RubyValue::Array(_) => "Array",
        RubyValue::Hash(_) => "Hash",
        RubyValue::InputObject { class_name, .. } => class_name.as_str(),
        RubyValue::Opaque { class_name, .. } => class_name.as_str(),
    }
}

} // verus!

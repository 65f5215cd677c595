//! Plain values standing for the values written in a GraphQL document.
use vstd::prelude::*;
use bluejay_core::IntegerValue;

verus! {

/// The kinds of GraphQL values, as the parser reads them.
#[derive(Debug)]
pub enum ParserValueKind {
    Variable(String),
    /// An integer, by its literal as written: `-?(0|[1-9][0-9]*)`.
    Integer(String),
    /// A float, by the IEEE-754 bits of the double it reads as.
    Float(u64),
    String(String),
    Boolean(bool),
    Null,
    Enum(String),
    List(Vec<ParserValue>),
    Object(Vec<(String, ParserValue)>),
}

/// A value as written, with the text that `bluejay_printer` prints for it.
#[derive(Debug)]
pub struct ParserValue {
    pub kind: ParserValueKind,
    pub display: String,
}

pub enum PKind {
    Variable(Seq<char>),
    Integer(Seq<char>),
    Float(u64),
    String(Seq<char>),
    Boolean(bool),
    Null,
    Enum(Seq<char>),
    List(Seq<PData>),
    Object(Seq<(Seq<char>, PData)>),
}

/// The content of a [`ParserValue`].
pub struct PData {
    pub kind: PKind,
    pub display: Seq<char>,
}

pub open spec fn view_pvalues(s: Seq<ParserValue>) -> Seq<PData>
    decreases s,
{
    if s.len() == 0 {
        Seq::empty()
    } else {
        view_pvalues(s.drop_last()).push(s.last().view())
    }
}

pub open spec fn view_pfields(s: Seq<(String, ParserValue)>) -> Seq<(Seq<char>, PData)>
    decreases s,
{
    if s.len() == 0 {
        Seq::empty()
    } else {
        view_pfields(s.drop_last()).push((s.last().0@, s.last().1.view()))
    }
}

impl View for ParserValue {
    type V = PData;

    open spec fn view(&self) -> PData
        decreases self,
    {
        PData {
            kind: match &self.kind {
                ParserValueKind::Variable(n) => PKind::Variable(n@),
                ParserValueKind::Integer(i) => PKind::Integer(i@),
                ParserValueKind::Float(f) => PKind::Float(*f),
                ParserValueKind::String(s) => PKind::String(s@),
                ParserValueKind::Boolean(b) => PKind::Boolean(*b),
                ParserValueKind::Null => PKind::Null,
                ParserValueKind::Enum(e) => PKind::Enum(e@),
                ParserValueKind::List(l) => PKind::List(view_pvalues(l@)),
                ParserValueKind::Object(o) => PKind::Object(view_pfields(o@)),
            },
            display: self.display@,
        }
    }
}

pub open spec fn pvalues_view(v: Seq<ParserValue>) -> Seq<PData> {
    v.map_values(|x: ParserValue| x@)
}

pub open spec fn pfields_view(v: Seq<(String, ParserValue)>) -> Seq<(Seq<char>, PData)> {
    v.map_values(|x: (String, ParserValue)| (x.0@, x.1@))
}

pub proof fn lemma_view_pvalues(s: Seq<ParserValue>)
    ensures
        view_pvalues(s) == pvalues_view(s),
    decreases s.len(),
{
    if s.len() > 0 {
        lemma_view_pvalues(s.drop_last());
        assert(view_pvalues(s) == view_pvalues(s.drop_last()).push(s.last()@));
        assert(view_pvalues(s).len() == s.len());
        assert forall|k: int| 0 <= k < s.len() implies view_pvalues(s)[k] == pvalues_view(s)[k] by {
            if k < s.len() - 1 {
                assert(s.drop_last()[k] == s[k]);
            }
        }
    }
    assert(view_pvalues(s) =~= pvalues_view(s));
}

pub proof fn lemma_view_pfields(s: Seq<(String, ParserValue)>)
    ensures
        view_pfields(s) == pfields_view(s),
    decreases s.len(),
{
    if s.len() > 0 {
        lemma_view_pfields(s.drop_last());
        assert(view_pfields(s) == view_pfields(s.drop_last()).push((s.last().0@, s.last().1@)));
        assert(view_pfields(s).len() == s.len());
        assert forall|k: int| 0 <= k < s.len() implies view_pfields(s)[k] == pfields_view(s)[k] by {
            if k < s.len() - 1 {
                assert(s.drop_last()[k] == s[k]);
            }
        }
    }
    assert(view_pfields(s) =~= pfields_view(s));
}

/// The view of a list or object value, element by element.
pub proof fn lemma_pvalue_parts(v: ParserValue)
    ensures
        v.kind matches ParserValueKind::List(l) ==> v@.kind == PKind::List(pvalues_view(l@)),
        v.kind matches ParserValueKind::Object(o) ==> v@.kind == PKind::Object(pfields_view(o@)),
{
    match &v.kind {
        ParserValueKind::List(l) => lemma_view_pvalues(l@),
        ParserValueKind::Object(o) => lemma_view_pfields(o@),
        _ => {},
    }
}

/// The value of a string of decimal digits.
pub open spec fn digits_value(d: Seq<char>) -> int
    decreases d.len(),
{
    if d.len() == 0 {
        0
    } else {
        digits_value(d.drop_last()) * 10 + (d.last() as int - '0' as int)
    }
}

/// The digits of an integer literal, without its sign.
pub open spec fn literal_digits(lit: Seq<char>) -> Seq<char> {
    if lit.len() > 0 && lit[0] == '-' {
        lit.drop_first()
    } else {
        lit
    }
}

/// Whether a text is a GraphQL integer literal: `-?(0|[1-9][0-9]*)`.
pub open spec fn is_int_literal(lit: Seq<char>) -> bool {
    let d = literal_digits(lit);
    &&& d.len() > 0
    &&& forall|i: int| 0 <= i < d.len() ==> '0' <= #[trigger] d[i] <= '9'
    &&& d[0] == '0' ==> d.len() == 1
}

/// The number an integer literal stands for.
pub open spec fn literal_value(lit: Seq<char>) -> int {
    if lit.len() > 0 && lit[0] == '-' {
        -digits_value(lit.drop_first())
    } else {
        digits_value(lit)
    }
}

/// The 32-bit integer an integer literal stands for, where it is a literal
/// whose number fits in 32 signed bits.
pub open spec fn spec_literal_i32(lit: Seq<char>) -> Option<i32> {
    if is_int_literal(lit) && -0x8000_0000 <= literal_value(lit) <= 0x7fff_ffff {
        Some(literal_value(lit) as i32)
    } else {
        None
    }
}

/// Calls `bluejay_core`'s `IntegerValue::try_from`, which accepts exactly
/// the texts of the grammar `-?(0|[1-9][0-9]*)`, and then
/// `IntegerValue::as_i32`, which gives the number where it fits in 32
/// signed bits.
#[verifier::external_body]
pub fn literal_i32(lit: &str) -> (r: Option<i32>)
    ensures
        r == spec_literal_i32(lit@),
{
    match IntegerValue::try_from(lit) {
        Ok(i) => i.as_i32(),
        Err(_) => None,
    }
}

/// Whether every integer written in a value fits in 32 signed bits.
pub open spec fn pdata_ints_fit(v: PData) -> bool
    decreases v, 1nat, 0nat,
{
    match v.kind {
        PKind::Integer(lit) => spec_literal_i32(lit) is Some,
        PKind::List(l) => pdata_items_fit(v, l.len()),
        PKind::Object(o) => pdata_fields_fit(v, o.len()),
        _ => true,
    }
}

/// Whether the integers of the first `n` elements of a list value fit.
pub open spec fn pdata_items_fit(v: PData, n: nat) -> bool
    decreases v, 0nat, n,
{
    match v.kind {
        PKind::List(l) => n == 0 || n > l.len() || (pdata_items_fit(v, (n - 1) as nat) && pdata_ints_fit(l[n - 1])),
        _ => true,
    }
}

/// Whether the integers of the first `n` entries of an object value fit.
pub open spec fn pdata_fields_fit(v: PData, n: nat) -> bool
    decreases v, 0nat, n,
{
    match v.kind {
        PKind::Object(o) => n == 0 || n > o.len() || (pdata_fields_fit(v, (n - 1) as nat) && pdata_ints_fit(o[n - 1].1)),
        _ => true,
    }
}

/// Whether every integer written in a value fits in 32 signed bits.
pub fn ints_fit(value: &ParserValue) -> (r: bool)
    ensures
        r == pdata_ints_fit(value@),
    decreases value,
{
    match &value.kind {
        ParserValueKind::Integer(lit) => literal_i32(lit.as_str()).is_some(),
        ParserValueKind::List(l) => {
            proof {
                lemma_pvalue_parts(*value);
            }
            let mut i: usize = 0;
            while i < l.len()
                invariant
                    i <= l.len(),
                    value.kind == ParserValueKind::List(*l),
                    value@.kind == PKind::List(pvalues_view(l@)),
                    pdata_items_fit(value@, i as nat),
                decreases l.len() - i,
            {
                proof {
                    assert(decreases_to!(*value => value.kind));
                    assert(decreases_to!(value.kind => *l));
                    assert(pvalues_view(l@)[i as int] == l@[i as int]@);
                }
                if !ints_fit(&l[i]) {
                    proof {
                        lemma_items_fit_stop(value@, (i + 1) as nat, l@.len());
                    }
                    return false;
                }
                i = i + 1;
            }
            true
        },
        ParserValueKind::Object(o) => {
            proof {
                lemma_pvalue_parts(*value);
            }
            let mut i: usize = 0;
            while i < o.len()
                invariant
                    i <= o.len(),
                    value.kind == ParserValueKind::Object(*o),
                    value@.kind == PKind::Object(pfields_view(o@)),
                    pdata_fields_fit(value@, i as nat),
                decreases o.len() - i,
            {
                proof {
                    assert(decreases_to!(*value => value.kind));
                    assert(decreases_to!(value.kind => *o));
                    assert(decreases_to!(o@[i as int] => o@[i as int].1));
                    assert(pfields_view(o@)[i as int] == (o@[i as int].0@, o@[i as int].1@));
                }
                if !ints_fit(&o[i].1) {
                    proof {
                        lemma_fields_fit_stop(value@, (i + 1) as nat, o@.len());
                    }
                    return false;
                }
                i = i + 1;
            }
            true
        },
        _ => true,
    }
}

/// Once an element's integers do not fit, no longer prefix fits.
proof fn lemma_items_fit_stop(v: PData, n: nat, m: nat)
    requires
        v.kind is List,
        0 < n <= m <= v.kind->List_0.len(),
        !pdata_items_fit(v, n),
    ensures
        !pdata_items_fit(v, m),
    decreases m - n,
{
    if n < m {
        lemma_items_fit_stop(v, n, (m - 1) as nat);
    }
}

/// Once an entry's integers do not fit, no longer prefix fits.
proof fn lemma_fields_fit_stop(v: PData, n: nat, m: nat)
    requires
        v.kind is Object,
        0 < n <= m <= v.kind->Object_0.len(),
        !pdata_fields_fit(v, n),
    ensures
        !pdata_fields_fit(v, m),
    decreases m - n,
{
    if n < m {
        lemma_fields_fit_stop(v, n, (m - 1) as nat);
    }
}

/// The text that `bluejay_printer` prints for a value of this kind.
pub uninterp spec fn printed_value(kind: PKind) -> Seq<char>;

/// Whether a value's text, and that of every value written inside it, is
/// what the printer prints for it.
pub open spec fn pdata_printed(v: PData) -> bool
    decreases v, 1nat, 0nat,
{
    &&& v.display == printed_value(v.kind)
    &&& match v.kind {
        PKind::List(l) => pdata_items_printed(v, l.len()),
        PKind::Object(o) => pdata_fields_printed(v, o.len()),
        _ => true,
    }
}

pub open spec fn pdata_items_printed(v: PData, n: nat) -> bool
    decreases v, 0nat, n,
{
    match v.kind {
        PKind::List(l) => n == 0 || n > l.len() || (pdata_items_printed(v, (n - 1) as nat) && pdata_printed(l[n - 1])),
        _ => true,
    }
}

pub open spec fn pdata_fields_printed(v: PData, n: nat) -> bool
    decreases v, 0nat, n,
{
    match v.kind {
        PKind::Object(o) => n == 0 || n > o.len() || (pdata_fields_printed(v, (n - 1) as nat) && pdata_printed(o[n - 1].1)),
        _ => true,
    }
}

} // verus!

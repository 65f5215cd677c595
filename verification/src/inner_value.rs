//! The GraphQL value that a coerced input stands for, kept beside its Ruby
//! value: the value as GraphQL tools see it (to print a default, or to pass
//! an argument to a directive).  It is built from a Ruby value kind for
//! kind; an enum's value is an enum value.
use vstd::prelude::*;

use crate::coercion_error::{CoercionError, CoercionErrorView, errors_view, strings_view};
use crate::input_coercion::{
    Coerced, CoercedView, CoercionFailure, FailureView, ScalarOutcome, coerce_input_object, spec_coerce,
    spec_coerce_input_object,
};
use crate::input_schema::{BaseInputType, InputSchema, InputType, schema_wf, type_depth};
use crate::ruby_value::{
    RubyData, RubyFloat, RubyValue, args_view, entries_view, lemma_value_parts, values_view, class_desc,
};
use crate::text::cat4;

verus! {

/// A GraphQL value built from a Ruby value.
#[derive(Debug)]
pub enum InnerValue {
    Null,
    Boolean(bool),
    Integer(i64),
    Float(RubyFloat),
    String(String),
    Enum(String),
    List(Vec<InnerValue>),
    Object(Vec<(String, InnerValue)>),
}

/// The content of an [`InnerValue`].
pub enum InnerData {
    Null,
    Boolean(bool),
    Integer(i64),
    Float(RubyFloat),
    String(Seq<char>),
    Enum(Seq<char>),
    List(Seq<InnerData>),
    Object(Seq<(Seq<char>, InnerData)>),
}

pub open spec fn view_inners(s: Seq<InnerValue>) -> Seq<InnerData>
    decreases s,
{
    if s.len() == 0 {
        Seq::empty()
    } else {
        view_inners(s.drop_last()).push(s.last().view())
    }
}

pub open spec fn view_inner_fields(s: Seq<(String, InnerValue)>) -> Seq<(Seq<char>, InnerData)>
    decreases s,
{
    if s.len() == 0 {
        Seq::empty()
    } else {
        view_inner_fields(s.drop_last()).push((s.last().0@, s.last().1.view()))
    }
}

impl View for InnerValue {
    type V = InnerData;

    open spec fn view(&self) -> InnerData
        decreases self,
    {
        match self {
            InnerValue::Null => InnerData::Null,
            InnerValue::Boolean(b) => InnerData::Boolean(*b),
            InnerValue::Integer(i) => InnerData::Integer(*i),
            InnerValue::Float(f) => InnerData::Float(*f),
            InnerValue::String(s) => InnerData::String(s@),
            InnerValue::Enum(e) => InnerData::Enum(e@),
            InnerValue::List(l) => InnerData::List(view_inners(l@)),
            InnerValue::Object(o) => InnerData::Object(view_inner_fields(o@)),
        }
    }
}

pub open spec fn inners_view(v: Seq<InnerValue>) -> Seq<InnerData> {
    v.map_values(|x: InnerValue| x@)
}

pub open spec fn inner_fields_view(v: Seq<(String, InnerValue)>) -> Seq<(Seq<char>, InnerData)> {
    v.map_values(|x: (String, InnerValue)| (x.0@, x.1@))
}

proof fn lemma_view_inners(s: Seq<InnerValue>)
    ensures
        view_inners(s) == inners_view(s),
    decreases s.len(),
{
    if s.len() > 0 {
        lemma_view_inners(s.drop_last());
        assert(view_inners(s) == view_inners(s.drop_last()).push(s.last()@));
        assert(view_inners(s).len() == s.len());
        assert forall|k: int| 0 <= k < s.len() implies view_inners(s)[k] == inners_view(s)[k] by {
            if k < s.len() - 1 {
                assert(s.drop_last()[k] == s[k]);
            }
        }
    }
    assert(view_inners(s) =~= inners_view(s));
}

proof fn lemma_view_inner_fields(s: Seq<(String, InnerValue)>)
    ensures
        view_inner_fields(s) == inner_fields_view(s),
    decreases s.len(),
{
    if s.len() > 0 {
        lemma_view_inner_fields(s.drop_last());
        assert(view_inner_fields(s) == view_inner_fields(s.drop_last()).push((s.last().0@, s.last().1@)));
        assert(view_inner_fields(s).len() == s.len());
        assert forall|k: int| 0 <= k < s.len() implies view_inner_fields(s)[k] == inner_fields_view(s)[k] by {
            if k < s.len() - 1 {
                assert(s.drop_last()[k] == s[k]);
            }
        }
    }
    assert(view_inner_fields(s) =~= inner_fields_view(s));
}

/// The GraphQL value a Ruby value stands for, kind for kind: `nil`,
/// booleans, integers, floats and strings as themselves, an array as a
/// list, a hash with string keys and an input object as an object.  A
/// Ruby value of another kind (a symbol, an integer outside 64 bits, a
/// hash key that is not a string, any other object) has none: the first
/// such value met, in order, is given instead.
pub open spec fn spec_inner_of(v: RubyData) -> Result<InnerData, RubyData>
    decreases v, 1nat, 0nat,
{
    match v {
        RubyData::Nil => Ok(InnerData::Null),
        RubyData::Boolean(b) => Ok(InnerData::Boolean(b)),
        RubyData::Integer(i) => Ok(InnerData::Integer(i)),
        RubyData::Float(f) => Ok(InnerData::Float(f)),
        RubyData::String(s) => Ok(InnerData::String(s)),
        RubyData::Array(items) => match spec_inner_items(v, items.len()) {
            Ok(l) => Ok(InnerData::List(l)),
            Err(b) => Err(b),
        },
        RubyData::Hash(entries) => match spec_inner_entries(v, entries.len()) {
            Ok(o) => Ok(InnerData::Object(o)),
            Err(b) => Err(b),
        },
        RubyData::InputObject { args, .. } => match spec_inner_args(v, args.len()) {
            Ok(o) => Ok(InnerData::Object(o)),
            Err(b) => Err(b),
        },
        _ => Err(v),
    }
}

/// The GraphQL values of the first `n` elements of an array.
pub open spec fn spec_inner_items(v: RubyData, n: nat) -> Result<Seq<InnerData>, RubyData>
    decreases v, 0nat, n,
{
    match v {
        RubyData::Array(items) => if n == 0 || n > items.len() {
            Ok(Seq::empty())
        } else {
            match spec_inner_items(v, (n - 1) as nat) {
                Err(b) => Err(b),
                Ok(l) => match spec_inner_of(items[n - 1]) {
                    Ok(x) => Ok(l.push(x)),
                    Err(b) => Err(b),
                },
            }
        },
        _ => Ok(Seq::empty()),
    }
}

/// The GraphQL fields of the first `n` entries of a hash.
pub open spec fn spec_inner_entries(v: RubyData, n: nat) -> Result<Seq<(Seq<char>, InnerData)>, RubyData>
    decreases v, 0nat, n,
{
    match v {
        RubyData::Hash(entries) => if n == 0 || n > entries.len() {
            Ok(Seq::empty())
        } else {
            match spec_inner_entries(v, (n - 1) as nat) {
                Err(b) => Err(b),
                Ok(o) => match entries[n - 1].0 {
                    RubyData::String(k) => match spec_inner_of(entries[n - 1].1) {
                        Ok(x) => Ok(o.push((k, x))),
                        Err(b) => Err(b),
                    },
                    key => Err(key),
                },
            }
        },
        _ => Ok(Seq::empty()),
    }
}

/// The GraphQL fields of the first `n` arguments of an input object.
pub open spec fn spec_inner_args(v: RubyData, n: nat) -> Result<Seq<(Seq<char>, InnerData)>, RubyData>
    decreases v, 0nat, n,
{
    match v {
        RubyData::InputObject { args, .. } => if n == 0 || n > args.len() {
            Ok(Seq::empty())
        } else {
            match spec_inner_args(v, (n - 1) as nat) {
                Err(b) => Err(b),
                Ok(o) => match spec_inner_of(args[n - 1].1) {
                    Ok(x) => Ok(o.push((args[n - 1].0, x))),
                    Err(b) => Err(b),
                },
            }
        },
        _ => Ok(Seq::empty()),
    }
}

/// What Ruby reports for a value that has no GraphQL value.
pub open spec fn no_value_message(b: RubyData) -> Seq<char> {
    crate::input_coercion::type_error_message(b, "Value"@)
}

fn no_value_error(value: &RubyValue) -> (r: String)
    ensures
        r@ == no_value_message(value@),
{
    cat4("no implicit conversion of ", class_desc(value), " into ", "Value")
}

/// Builds the GraphQL value a Ruby value stands for, or the message of
/// the error for the first part of it that has none.
pub fn inner_of(value: &RubyValue) -> (r: Result<InnerValue, String>)
    ensures
        match r {
            Ok(i) => spec_inner_of(value@) == Ok::<InnerData, RubyData>(i@),
            Err(m) => spec_inner_of(value@) matches Err(b) && m@ == no_value_message(b),
        },
    decreases value,
{
    proof {
        lemma_value_parts(*value);
    }
    match value {
        RubyValue::Nil => Ok(InnerValue::Null),
        RubyValue::Boolean(b) => Ok(InnerValue::Boolean(*b)),
        RubyValue::Integer(i) => Ok(InnerValue::Integer(*i)),
        RubyValue::Float(f) => Ok(InnerValue::Float(*f)),
        RubyValue::String(s) => Ok(InnerValue::String(s.clone())),
        RubyValue::Array(items) => {
            let mut out: Vec<InnerValue> = Vec::new();
            let mut i: usize = 0;
            proof {
                assert(inners_view(out@) =~= Seq::<InnerData>::empty());
                assert forall|j: int| 0 <= j < items@.len() implies decreases_to!(*value => items@[j]) by {
                    assert(decreases_to!(*value => *items));
                    assert(decreases_to!(*items => items@));
                    assert(decreases_to!(items@ => items@[j]));
                }
            }
            while i < items.len()
                invariant
                    i <= items.len(),
                    forall|j: int| 0 <= j < items@.len() ==> decreases_to!(*value => items@[j]),
                    value@ == RubyData::Array(values_view(items@)),
                    spec_inner_items(value@, i as nat) == Ok::<Seq<InnerData>, RubyData>(inners_view(out@)),
                decreases items.len() - i,
            {
                match inner_of(&items[i]) {
                    Ok(x) => {
                        proof {
                            assert(inners_view(out@.push(x)) =~= inners_view(out@).push(x@));
                        }
                        out.push(x);
                    },
                    Err(m) => {
                        proof {
                            lemma_inner_items_stop(value@, (i + 1) as nat, items@.len());
                        }
                        return Err(m);
                    },
                }
                i = i + 1;
            }
            proof {
                lemma_view_inners(out@);
            }
            Ok(InnerValue::List(out))
        },
        RubyValue::Hash(entries) => {
            let mut out: Vec<(String, InnerValue)> = Vec::new();
            let mut i: usize = 0;
            proof {
                assert(inner_fields_view(out@) =~= Seq::<(Seq<char>, InnerData)>::empty());
                assert forall|j: int| 0 <= j < entries@.len() implies decreases_to!(*value => entries@[j].1) by {
                    assert(decreases_to!(*value => *entries));
                    assert(decreases_to!(*entries => entries@));
                    assert(decreases_to!(entries@ => entries@[j]));
                    assert(decreases_to!(entries@[j] => entries@[j].1));
                }
            }
            while i < entries.len()
                invariant
                    i <= entries.len(),
                    forall|j: int| 0 <= j < entries@.len() ==> decreases_to!(*value => entries@[j].1),
                    value@ == RubyData::Hash(entries_view(entries@)),
                    spec_inner_entries(value@, i as nat) == Ok::<Seq<(Seq<char>, InnerData)>, RubyData>(
                        inner_fields_view(out@),
                    ),
                decreases entries.len() - i,
            {
                match &entries[i].0 {
                    RubyValue::String(k) => match inner_of(&entries[i].1) {
                        Ok(x) => {
                            let key = k.clone();
                            proof {
                                assert(inner_fields_view(out@.push((key, x))) =~= inner_fields_view(out@).push((key@, x@)));
                            }
                            out.push((key, x));
                        },
                        Err(m) => {
                            proof {
                                lemma_inner_entries_stop(value@, (i + 1) as nat, entries@.len());
                            }
                            return Err(m);
                        },
                    },
                    key => {
                        let m = no_value_error(key);
                        proof {
                            lemma_inner_entries_stop(value@, (i + 1) as nat, entries@.len());
                        }
                        return Err(m);
                    },
                }
                i = i + 1;
            }
            proof {
                lemma_view_inner_fields(out@);
            }
            Ok(InnerValue::Object(out))
        },
        RubyValue::InputObject { class_name, args } => {
            let mut out: Vec<(String, InnerValue)> = Vec::new();
            let mut i: usize = 0;
            proof {
                assert(inner_fields_view(out@) =~= Seq::<(Seq<char>, InnerData)>::empty());
                assert forall|j: int| 0 <= j < args@.len() implies decreases_to!(*value => args@[j].1) by {
                    assert(decreases_to!(*value => *args));
                    assert(decreases_to!(*args => args@));
                    assert(decreases_to!(args@ => args@[j]));
                    assert(decreases_to!(args@[j] => args@[j].1));
                }
            }
            while i < args.len()
                invariant
                    i <= args.len(),
                    forall|j: int| 0 <= j < args@.len() ==> decreases_to!(*value => args@[j].1),
                    value@ == (RubyData::InputObject { class_name: class_name@, args: args_view(args@) }),
                    spec_inner_args(value@, i as nat) == Ok::<Seq<(Seq<char>, InnerData)>, RubyData>(
                        inner_fields_view(out@),
                    ),
                decreases args.len() - i,
            {
                match inner_of(&args[i].1) {
                    Ok(x) => {
                        let key = args[i].0.clone();
                        proof {
                            assert(inner_fields_view(out@.push((key, x))) =~= inner_fields_view(out@).push((key@, x@)));
                        }
                        out.push((key, x));
                    },
                    Err(m) => {
                        proof {
                            lemma_inner_args_stop(value@, (i + 1) as nat, args@.len());
                        }
                        return Err(m);
                    },
                }
                i = i + 1;
            }
            proof {
                lemma_view_inner_fields(out@);
            }
            Ok(InnerValue::Object(out))
        },
        _ => Err(no_value_error(value)),
    }
}

proof fn lemma_inner_items_stop(v: RubyData, n: nat, m: nat)
    requires
        v is Array,
        0 < n <= m <= v->Array_0.len(),
        spec_inner_items(v, n) is Err,
    ensures
        spec_inner_items(v, m) == spec_inner_items(v, n),
    decreases m - n,
{
    if n < m {
        lemma_inner_items_stop(v, n, (m - 1) as nat);
    }
}

proof fn lemma_inner_entries_stop(v: RubyData, n: nat, m: nat)
    requires
        v is Hash,
        0 < n <= m <= v->Hash_0.len(),
        spec_inner_entries(v, n) is Err,
    ensures
        spec_inner_entries(v, m) == spec_inner_entries(v, n),
    decreases m - n,
{
    if n < m {
        lemma_inner_entries_stop(v, n, (m - 1) as nat);
    }
}

proof fn lemma_inner_args_stop(v: RubyData, n: nat, m: nat)
    requires
        v is InputObject,
        0 < n <= m <= v->InputObject_args.len(),
        spec_inner_args(v, n) is Err,
    ensures
        spec_inner_args(v, m) == spec_inner_args(v, n),
    decreases m - n,
{
    if n < m {
        lemma_inner_args_stop(v, n, (m - 1) as nat);
    }
}

/// The GraphQL value that goes beside a value `x` coerced from the Ruby
/// value `v` to the type `ty`: `null` for `nil`; for a built-in scalar, the
/// value of `x`; for an enum, the enum value `x` names; for a custom scalar
/// or an input object, the value of `v` as given; for a list, the list of
/// its elements' values, where a value that is not an array stands for a
/// one-element list at every depth.
pub open spec fn spec_wrapped_inner(ty: InputType, v: RubyData, x: RubyData) -> Result<InnerData, RubyData>
    decreases type_depth(ty), 1nat, 0nat,
{
    if v is Nil {
        Ok(InnerData::Null)
    } else {
        match ty {
            InputType::Base(b, _) => match b {
                BaseInputType::Enum(_) => match x {
                    RubyData::String(s) => Ok(InnerData::Enum(s)),
                    _ => spec_inner_of(x),
                },
                BaseInputType::BuiltinScalar(_) => spec_inner_of(x),
                _ => spec_inner_of(v),
            },
            InputType::List(inner, _) => match (v, x) {
                (RubyData::Array(vs), RubyData::Array(xs)) => match spec_wrapped_items(
                    *inner,
                    vs,
                    xs,
                    if vs.len() <= xs.len() {
                        vs.len()
                    } else {
                        xs.len()
                    },
                ) {
                    Ok(l) => Ok(InnerData::List(l)),
                    Err(b) => Err(b),
                },
                (_, RubyData::Array(xs)) => if xs.len() > 0 {
                    match spec_wrapped_inner(*inner, v, xs[0]) {
                        Ok(i) => Ok(InnerData::List(seq![i])),
                        Err(b) => Err(b),
                    }
                } else {
                    Ok(InnerData::List(Seq::empty()))
                },
                _ => spec_inner_of(x),
            },
        }
    }
}

/// The GraphQL values of the first `n` elements of a list.
pub open spec fn spec_wrapped_items(inner: InputType, vs: Seq<RubyData>, xs: Seq<RubyData>, n: nat) -> Result<
    Seq<InnerData>,
    RubyData,
>
    decreases type_depth(inner) + 1, 0nat, n,
{
    if n == 0 || n > vs.len() || n > xs.len() {
        Ok(Seq::empty())
    } else {
        match spec_wrapped_items(inner, vs, xs, (n - 1) as nat) {
            Err(b) => Err(b),
            Ok(l) => match spec_wrapped_inner(inner, vs[n - 1], xs[n - 1]) {
                Ok(i) => Ok(l.push(i)),
                Err(b) => Err(b),
            },
        }
    }
}

proof fn lemma_wrapped_items_stop(inner: InputType, vs: Seq<RubyData>, xs: Seq<RubyData>, n: nat, m: nat)
    requires
        0 < n <= m <= vs.len(),
        m <= xs.len(),
        spec_wrapped_items(inner, vs, xs, n) is Err,
    ensures
        spec_wrapped_items(inner, vs, xs, m) == spec_wrapped_items(inner, vs, xs, n),
    decreases m - n,
{
    if n < m {
        lemma_wrapped_items_stop(inner, vs, xs, n, (m - 1) as nat);
    }
}

/// Builds the GraphQL value that goes beside `x`, coerced from `v` to `ty`.
pub fn wrapped_inner(ty: &InputType, v: &RubyValue, x: &RubyValue) -> (r: Result<InnerValue, String>)
    ensures
        match r {
            Ok(i) => spec_wrapped_inner(*ty, v@, x@) == Ok::<InnerData, RubyData>(i@),
            Err(m) => spec_wrapped_inner(*ty, v@, x@) matches Err(b) && m@ == no_value_message(b),
        },
    decreases type_depth(*ty),
{
    if let RubyValue::Nil = v {
        return Ok(InnerValue::Null);
    }
    proof {
        lemma_value_parts(*v);
        lemma_value_parts(*x);
    }
    match ty {
        InputType::Base(b, _) => match b {
            BaseInputType::Enum(_) => match x {
                RubyValue::String(s) => Ok(InnerValue::Enum(s.clone())),
                _ => inner_of(x),
            },
            BaseInputType::BuiltinScalar(_) => inner_of(x),
            _ => inner_of(v),
        },
        InputType::List(inner, _) => match (v, x) {
            (RubyValue::Array(vs), RubyValue::Array(xs)) => {
                let n = if vs.len() <= xs.len() {
                    vs.len()
                } else {
                    xs.len()
                };
                let ghost vv = values_view(vs@);
                let ghost xv = values_view(xs@);
                let mut out: Vec<InnerValue> = Vec::new();
                let mut i: usize = 0;
                proof {
                    assert(inners_view(out@) =~= Seq::<InnerData>::empty());
                }
                while i < n
                    invariant
                        i <= n,
                        n <= vs@.len(),
                        n <= xs@.len(),
                        vv == values_view(vs@),
                        xv == values_view(xs@),
                        v@ == RubyData::Array(vv),
                        x@ == RubyData::Array(xv),
                        *ty == InputType::List(*inner, ty->List_1),
                        n == (if vs@.len() <= xs@.len() { vs@.len() } else { xs@.len() }),
                        type_depth(*ty) == type_depth(**inner) + 1,
                        spec_wrapped_items(**inner, vv, xv, i as nat) == Ok::<Seq<InnerData>, RubyData>(
                            inners_view(out@),
                        ),
                    decreases n - i,
                {
                    let r = wrapped_inner(inner, &vs[i], &xs[i]);
                    proof {
                        assert(vv[i as int] == vs@[i as int]@);
                        assert(xv[i as int] == xs@[i as int]@);
                    }
                    match r {
                        Ok(y) => {
                            proof {
                                assert(inners_view(out@.push(y)) =~= inners_view(out@).push(y@));
                            }
                            out.push(y);
                        },
                        Err(m) => {
                            proof {
                                lemma_wrapped_items_stop(**inner, vv, xv, (i + 1) as nat, n as nat);
                            }
                            return Err(m);
                        },
                    }
                    i = i + 1;
                }
                proof {
                    lemma_view_inners(out@);
                }
                Ok(InnerValue::List(out))
            },
            (_, RubyValue::Array(xs)) => {
                if xs.len() > 0 {
                    proof {
                        assert(values_view(xs@)[0] == xs@[0]@);
                    }
                    match wrapped_inner(inner, v, &xs[0]) {
                        Ok(y) => {
                            let mut out: Vec<InnerValue> = Vec::new();
                            out.push(y);
                            proof {
                                assert(inners_view(out@) =~= seq![y@]);
                                lemma_view_inners(out@);
                            }
                            Ok(InnerValue::List(out))
                        },
                        Err(m) => Err(m),
                    }
                } else {
                    let out: Vec<InnerValue> = Vec::new();
                    proof {
                        assert(inners_view(out@) =~= Seq::<InnerData>::empty());
                        lemma_view_inners(out@);
                    }
                    Ok(InnerValue::List(out))
                }
            },
            _ => inner_of(x),
        },
    }
}

/// A coercion's result with the GraphQL value beside the coerced value.
pub type Wrapped = Result<Result<(RubyValue, InnerValue), Vec<CoercionError>>, CoercionFailure>;

pub type WrappedView = Result<Result<(RubyData, InnerData), Seq<CoercionErrorView>>, FailureView>;

pub open spec fn wrapped_view(r: Wrapped) -> WrappedView {
    match r {
        Ok(Ok((x, i))) => Ok(Ok((x@, i@))),
        Ok(Err(es)) => Ok(Err(errors_view(es@))),
        Err(f) => Err(f@),
    }
}

/// A coercion's result with the GraphQL value that `inner` gives for its
/// coerced value; where there is none, Ruby's error for the value that has
/// none ends the coercion.
pub open spec fn with_inner(r: CoercedView, inner: spec_fn(RubyData) -> Result<InnerData, RubyData>) -> WrappedView {
    match r {
        Ok(Ok(x)) => match inner(x) {
            Ok(i) => Ok(Ok((x, i))),
            Err(b) => Err(FailureView::RubyError(no_value_message(b))),
        },
        Ok(Err(es)) => Ok(Err(es)),
        Err(f) => Err(f),
    }
}

/// The coercion of a Ruby value given for an input object's field or for a
/// default, with the GraphQL value beside the coerced one.
pub open spec fn spec_coerce_wrapped(
    schema: InputSchema,
    ty: InputType,
    v: RubyData,
    path: Seq<Seq<char>>,
    outcomes: Seq<ScalarOutcome>,
) -> WrappedView {
    with_inner(spec_coerce(schema, ty, v, path, true, true, outcomes), |x: RubyData| spec_wrapped_inner(ty, v, x))
}

/// The coercion of a Ruby value to the input object type `idx`, with the
/// GraphQL value of the value as given beside the coerced one.
pub open spec fn spec_coerce_input_object_wrapped(
    schema: InputSchema,
    idx: usize,
    v: RubyData,
    path: Seq<Seq<char>>,
    outcomes: Seq<ScalarOutcome>,
) -> WrappedView {
    with_inner(spec_coerce_input_object(schema, idx, v, path, outcomes), |x: RubyData| spec_inner_of(v))
}

pub(crate) fn add_inner(r: Coerced, inner: Result<InnerValue, String>) -> (w: Wrapped)
    ensures
        match r {
            Ok(Ok(x)) => match inner {
                Ok(i) => wrapped_view(w) == Ok::<Result<(RubyData, InnerData), Seq<CoercionErrorView>>, FailureView>(
                    Ok((x@, i@)),
                ),
                Err(m) => wrapped_view(w) == Err::<Result<(RubyData, InnerData), Seq<CoercionErrorView>>, FailureView>(
                    FailureView::RubyError(m@),
                ),
            },
            Ok(Err(es)) => wrapped_view(w) == Ok::<Result<(RubyData, InnerData), Seq<CoercionErrorView>>, FailureView>(
                Err(errors_view(es@)),
            ),
            Err(f) => wrapped_view(w) == Err::<Result<(RubyData, InnerData), Seq<CoercionErrorView>>, FailureView>(f@),
        },
{
    match r {
        Ok(Ok(x)) => match inner {
            Ok(i) => Ok(Ok((x, i))),
            Err(m) => Err(CoercionFailure::RubyError(m)),
        },
        Ok(Err(es)) => Ok(Err(es)),
        Err(f) => Err(f),
    }
}

/// Coerces a Ruby value to the input object type `idx`, and builds the
/// GraphQL value of the value as given, which goes beside the coerced one.
pub fn coerce_input_object_wrapped(
    schema: &InputSchema,
    idx: usize,
    value: &RubyValue,
    path: &Vec<String>,
    outcomes: &Vec<ScalarOutcome>,
) -> (r: Wrapped)
    requires
        schema_wf(*schema),
        idx < schema.input_objects@.len(),
    ensures
        wrapped_view(r) == spec_coerce_input_object_wrapped(*schema, idx, value@, strings_view(path@), outcomes@),
{
    let c = coerce_input_object(schema, idx, value, path, outcomes);
    let inner = match &c {
        Ok(Ok(_)) => inner_of(value),
        _ => Ok(InnerValue::Null),
    };
    add_inner(c, inner)
}

} // verus!

//! A persistent path of keys and indices: appending shares the parent path
//! instead of copying it.
use vstd::prelude::*;
use std::rc::Rc;

use crate::text::{decimal_string, spec_decimal};

verus! {

/// One step of a path: a key of an object or an index of a list.
#[derive(Clone, Copy, Debug)]
pub enum PathElement<'a> {
    Key(&'a str),
    Index(usize),
}

/// The content of a [`PathElement`].
pub enum ElementView {
    Key(Seq<char>),
    Index(usize),
}

impl<'a> View for PathElement<'a> {
    type V = ElementView;

    open spec fn view(&self) -> ElementView {
        match self {
            PathElement::Key(s) => ElementView::Key(s@),
            PathElement::Index(i) => ElementView::Index(*i),
        }
    }
}

/// How `Display` writes an element: a key as itself, an index as its
/// decimal numeral.
pub open spec fn spec_render(e: ElementView) -> Seq<char> {
    match e {
        ElementView::Key(s) => s,
        ElementView::Index(i) => spec_decimal(i as nat),
    }
}

impl<'a> PathElement<'a> {
    /// The element as `Display` writes it.
    pub fn to_string(&self) -> (r: String)
        ensures
            r@ == spec_render(self@),
    {
        match self {
            PathElement::Key(s) => String::from_str(s),
            PathElement::Index(i) => decimal_string(*i as u64),
        }
    }
}

struct PathInner<'a> {
    element: PathElement<'a>,
    parent: Option<Rc<PathInner<'a>>>,
}

/// The elements of a chain of nodes, from the root down to this node.
spec fn chain_view<'a>(inner: PathInner<'a>) -> Seq<ElementView>
    decreases inner,
{
    match inner.parent {
        None => seq![inner.element@],
        Some(p) => chain_view(*p).push(inner.element@),
    }
}

spec fn opt_chain_view<'a>(o: Option<Rc<PathInner<'a>>>) -> Seq<ElementView> {
    match o {
        None => Seq::empty(),
        Some(inner) => chain_view(*inner),
    }
}

/// The rendered elements of a chain, from this node up to the root.
spec fn leaf_first<'a>(o: Option<Rc<PathInner<'a>>>) -> Seq<Seq<char>>
    decreases o,
{
    match o {
        None => Seq::empty(),
        Some(inner) => seq![spec_render(inner.element@)] + leaf_first(inner.parent),
    }
}

/// The texts of a list of strings.
pub open spec fn texts(v: Seq<String>) -> Seq<Seq<char>> {
    v.map_values(|s: String| s@)
}

/// The rendered elements of a path from its last element back to the root.
pub open spec fn rendered_reversed(s: Seq<ElementView>) -> Seq<Seq<char>>
    decreases s.len(),
{
    if s.len() == 0 {
        Seq::empty()
    } else {
        seq![spec_render(s.last())] + rendered_reversed(s.drop_last())
    }
}

/// The parent chain of the node that a chain starts with.
spec fn parent_chain<'a>(o: Option<Rc<PathInner<'a>>>) -> Option<Rc<PathInner<'a>>> {
    match o {
        None => None,
        Some(inner) => inner.parent,
    }
}

proof fn lemma_leaf_first<'a>(o: Option<Rc<PathInner<'a>>>)
    ensures
        leaf_first(o) == rendered_reversed(opt_chain_view(o)),
    decreases o,
{
    if o is Some {
        let parent = parent_chain(o);
        assert(decreases_to!(o => parent));
        lemma_leaf_first(parent);
        let s = opt_chain_view(o);
        assert(s.drop_last() =~= opt_chain_view(parent));
    }
}

/// A path, empty or ending in an element whose parent path it shares.
#[derive(Clone)]
pub struct Path<'a>(Option<Rc<PathInner<'a>>>);

impl<'a> View for Path<'a> {
    type V = Seq<ElementView>;

    /// The elements from the root down.
    closed spec fn view(&self) -> Seq<ElementView> {
        opt_chain_view(self.0)
    }
}

impl<'a> Default for Path<'a> {
    fn default() -> (r: Self)
        ensures
            r@ == Seq::<ElementView>::empty(),
    {
        Path(None)
    }
}

impl<'a> Path<'a> {
    /// The path of one element.
    pub fn new(element: PathElement<'a>) -> (r: Self)
        ensures
            r@ == seq![element@],
    {
        Path(Some(Rc::new(PathInner { element, parent: None })))
    }

    /// The path extended by one element; `self` is left as it is.
    pub fn append(&self, element: PathElement<'a>) -> (r: Self)
        ensures
            r@ == self@.push(element@),
    {
        match &self.0 {
            Some(inner) => Path(Some(Rc::new(PathInner { element, parent: Some(inner.clone()) }))),
            None => Path(Some(Rc::new(PathInner { element, parent: None }))),
        }
    }

    /// The elements as `Display` writes them, from the last one back to the
    /// root, the order in which the path yields them.
    pub fn to_vec(&self) -> (r: Vec<String>)
        ensures
            texts(r@) == rendered_reversed(self@),
    {
        let mut out: Vec<String> = Vec::new();
        let mut cur: &Option<Rc<PathInner<'a>>> = &self.0;
        proof {
            lemma_leaf_first(self.0);
            assert(texts(out@) + leaf_first(*cur) =~= leaf_first(self.0));
        }
        loop
            invariant
                texts(out@) + leaf_first(*cur) == leaf_first(self.0),
            decreases *cur,
        {
            match cur {
                None => {
                    proof {
                        assert(texts(out@) =~= leaf_first(self.0));
                        lemma_leaf_first(self.0);
                    }
                    return out;
                },
                Some(inner) => {
                    let s = inner.element.to_string();
                    proof {
                        assert(texts(out@.push(s)) =~= texts(out@).push(s@));
                        assert(texts(out@.push(s)) + leaf_first(inner.parent) =~= texts(out@) + leaf_first(*cur));
                    }
                    out.push(s);
                    cur = &inner.parent;
                },
            }
        }
    }
}

} // verus!

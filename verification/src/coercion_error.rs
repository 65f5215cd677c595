//! The error reported for an input value that does not coerce to its type.
use vstd::prelude::*;

verus! {

/// The content of a coercion error: its message and the path of the value.
pub type CoercionErrorView = (Seq<char>, Seq<Seq<char>>);

/// The texts of a list of strings.
pub open spec fn strings_view(v: Seq<String>) -> Seq<Seq<char>> {
    v.map_values(|s: String| s@)
}

/// A copy of a list of strings.
pub fn clone_strings(v: &Vec<String>) -> (r: Vec<String>)
    ensures
        strings_view(r@) == strings_view(v@),
{
    let mut out: Vec<String> = Vec::new();
    let mut i: usize = 0;
    while i < v.len()
        invariant
            i <= v.len(),
            out@.len() == i,
            forall|j: int| 0 <= j < i ==> out@[j]@ == v@[j]@,
        decreases v.len() - i,
    {
        out.push(v[i].clone());
        i = i + 1;
    }
    proof {
        assert(strings_view(out@) =~= strings_view(v@));
    }
    out
}

/// An input value that could not be coerced, with the reason and the path
/// of the value inside the whole input.
#[derive(Debug)]
pub struct CoercionError {
    message: String,
    path: Vec<String>,
}

impl View for CoercionError {
    type V = CoercionErrorView;

    closed spec fn view(&self) -> CoercionErrorView {
        (self.message@, strings_view(self.path@))
    }
}

impl CoercionError {
    pub fn new(message: String, path: Vec<String>) -> (r: CoercionError)
        ensures
            r@ == (message@, strings_view(path@)),
    {
        CoercionError { message, path }
    }

    pub fn message(&self) -> (r: &str)
        ensures
            r@ == self@.0,
    {
        self.message.as_str()
    }

    /// The path of the value, from the root down.
    pub fn path(&self) -> (r: Vec<String>)
        ensures
            strings_view(r@) == self@.1,
    {
        clone_strings(&self.path)
    }

    /// Whether two errors have the same message and path.
    pub fn eql(&self, other: &CoercionError) -> (r: bool)
        ensures
            r == (self@ == other@),
    {
        if self.message != other.message || self.path.len() != other.path.len() {
            proof {
                if self@ == other@ {
                    assert(strings_view(self.path@).len() == self.path@.len());
                }
            }
            return false;
        }
        let mut i: usize = 0;
        while i < self.path.len()
            invariant
                i <= self.path.len(),
                self.path.len() == other.path.len(),
                forall|j: int| 0 <= j < i ==> self.path@[j]@ == other.path@[j]@,
            decreases self.path.len() - i,
        {
            if self.path[i] != other.path[i] {
                proof {
                    assert(strings_view(self.path@)[i as int] != strings_view(other.path@)[i as int]);
                }
                return false;
            }
            i = i + 1;
        }
        proof {
            assert(strings_view(self.path@) =~= strings_view(other.path@));
        }
        true
    }

    /// A copy of the error.
    pub fn duplicate(&self) -> (r: CoercionError)
        ensures
            r@ == self@,
    {
        CoercionError { message: self.message.clone(), path: clone_strings(&self.path) }
    }
}

/// The contents of a list of coercion errors.
pub open spec fn errors_view(v: Seq<CoercionError>) -> Seq<CoercionErrorView> {
    v.map_values(|e: CoercionError| e@)
}

} // verus!

//! The warden that decides which definitions a request can see: the
//! answers of visibility checks are kept by cache key, and the first error
//! that a check reports is the one the request fails with.
use vstd::prelude::*;

use crate::text::str_eq;

verus! {

/// The state of a warden: the visibility answers by cache key, and the
/// first error reported, if any.
pub struct WardenView {
    pub cache: Seq<(Seq<char>, bool)>,
    pub error: Option<Seq<char>>,
}

/// What the warden decides about a definition: whether it is visible, or
/// that Ruby's `visible?` is to be asked for the definition's cache key.
#[derive(Debug)]
pub enum VisibilityAction {
    Decided(bool),
    AskVisible(String),
}

/// Decides visibility for one request.
#[derive(Debug)]
pub struct Warden {
    cache: Vec<(String, bool)>,
    visibility_error: Option<String>,
}

/// The answer kept for a cache key: the first one stored under it.
pub open spec fn cache_lookup(cache: Seq<(Seq<char>, bool)>, key: Seq<char>, k: int) -> Option<bool>
    decreases cache.len() - k,
{
    if k < 0 || k >= cache.len() {
        None
    } else if cache[k].0 == key {
        Some(cache[k].1)
    } else {
        cache_lookup(cache, key, k + 1)
    }
}

/// The error a warden holds after an error is reported: the one it held,
/// or the new one.
pub open spec fn after_report(held: Option<Seq<char>>, error: Seq<char>) -> Option<Seq<char>> {
    match held {
        Some(e) => Some(e),
        None => Some(error),
    }
}

impl View for Warden {
    type V = WardenView;

    closed spec fn view(&self) -> WardenView {
        WardenView {
            cache: self.cache@.map_values(|e: (String, bool)| (e.0@, e.1)),
            error: match self.visibility_error {
                Some(e) => Some(e@),
                None => None,
            },
        }
    }
}

impl Warden {
    /// A warden with no answers and no error.
    pub fn new() -> (r: Warden)
        ensures
            r@.cache == Seq::<(Seq<char>, bool)>::empty(),
            r@.error is None,
    {
        let r = Warden { cache: Vec::new(), visibility_error: None };
        proof {
            assert(r@.cache =~= Seq::<(Seq<char>, bool)>::empty());
        }
        r
    }

    /// Records an error; the first one reported is kept.
    pub fn report_error(&mut self, error: String)
        ensures
            final(self)@.cache == old(self)@.cache,
            final(self)@.error == after_report(old(self)@.error, error@),
    {
        if self.visibility_error.is_none() {
            self.visibility_error = Some(error);
        }
    }

    /// The error reported first, which is taken: the warden has none after.
    pub fn to_result(&mut self) -> (r: Result<(), String>)
        ensures
            match r {
                Ok(()) => old(self)@.error is None,
                Err(e) => old(self)@.error == Some(e@),
            },
            final(self)@.cache == old(self)@.cache,
            final(self)@.error is None,
    {
        match self.visibility_error.take() {
            Some(e) => Err(e),
            None => Ok(()),
        }
    }

    /// The answer kept for a cache key.
    pub fn cached(&self, key: &str) -> (r: Option<bool>)
        ensures
            r == cache_lookup(self@.cache, key@, 0),
    {
        let ghost cv = self@.cache;
        let mut k: usize = 0;
        while k < self.cache.len()
            invariant
                k <= self.cache@.len(),
                cv == self@.cache,
                cv.len() == self.cache@.len(),
                cache_lookup(cv, key@, 0) == cache_lookup(cv, key@, k as int),
            decreases self.cache@.len() - k,
        {
            proof {
                assert(cv[k as int] == (self.cache@[k as int].0@, self.cache@[k as int].1));
            }
            if str_eq(self.cache[k].0.as_str(), key) {
                return Some(self.cache[k].1);
            }
            k = k + 1;
        }
        None
    }

    /// Takes in the outcome of a visibility check for a cache key that has
    /// no answer yet: an answer is kept and returned; an error is reported,
    /// and the definition counts as not visible.
    pub fn record_visibility(&mut self, key: String, outcome: Result<bool, String>) -> (r: bool)
        ensures
            match outcome {
                Ok(b) => {
                    &&& r == b
                    &&& final(self)@.cache == old(self)@.cache.push((key@, b))
                    &&& final(self)@.error == old(self)@.error
                },
                Err(e) => {
                    &&& !r
                    &&& final(self)@.cache == old(self)@.cache
                    &&& final(self)@.error == after_report(old(self)@.error, e@)
                },
            },
    {
        match outcome {
            Ok(b) => {
                let ghost before = self@.cache;
                let ghost kv = key@;
                self.cache.push((key, b));
                proof {
                    assert(self@.cache =~= before.push((kv, b)));
                }
                b
            },
            Err(e) => {
                self.report_error(e);
                false
            },
        }
    }

    /// A definition whose cache key could not be computed counts as not
    /// visible, and the error is reported.
    pub fn cache_key_failed(&mut self, error: String) -> (r: bool)
        ensures
            !r,
            final(self)@.cache == old(self)@.cache,
            final(self)@.error == after_report(old(self)@.error, error@),
    {
        self.report_error(error);
        false
    }

    /// The first step of deciding a definition's visibility, given what
    /// asking the definition's visibility for its cache key gave: `None`
    /// where the definition has no visibility, which is then visible with no
    /// call made; an error, which is reported and makes the definition not
    /// visible; or the key, whose kept answer decides, and where there is
    /// none, `visible?` is to be asked (and its outcome taken in by
    /// [`Warden::record_visibility`]).
    pub fn evaluate_visibility(&mut self, cache_key: Option<Result<String, String>>) -> (r: VisibilityAction)
        ensures
            match cache_key {
                None => r == VisibilityAction::Decided(true) && final(self)@ == old(self)@,
                Some(Err(e)) => {
                    &&& r == VisibilityAction::Decided(false)
                    &&& final(self)@.cache == old(self)@.cache
                    &&& final(self)@.error == after_report(old(self)@.error, e@)
                },
                Some(Ok(k)) => final(self)@ == old(self)@ && match cache_lookup(old(self)@.cache, k@, 0) {
                    Some(b) => r == VisibilityAction::Decided(b),
                    None => r matches VisibilityAction::AskVisible(a) && a@ == k@,
                },
            },
    {
        match cache_key {
            None => VisibilityAction::Decided(true),
            Some(Err(e)) => VisibilityAction::Decided(self.cache_key_failed(e)),
            Some(Ok(k)) => match self.cached(k.as_str()) {
                Some(b) => VisibilityAction::Decided(b),
                None => VisibilityAction::AskVisible(k),
            },
        }
    }
}

/// Once `visible?` has answered for a cache key that had no answer, the
/// answer is kept: a later definition with the same key is decided by it,
/// so `visible?` is asked at most once per key.
pub proof fn law_visibility_asked_once(cache: Seq<(Seq<char>, bool)>, key: Seq<char>, answer: bool)
    requires
        cache_lookup(cache, key, 0) is None,
    ensures
        cache_lookup(cache.push((key, answer)), key, 0) == Some(answer),
{
    lemma_lookup_push(cache, key, answer, 0);
}

/// Keeping an answer for another key leaves a key's answer as it was.
pub proof fn law_visibility_answers_kept(cache: Seq<(Seq<char>, bool)>, key: Seq<char>, other: Seq<char>, answer: bool)
    requires
        cache_lookup(cache, key, 0) is Some,
    ensures
        cache_lookup(cache.push((other, answer)), key, 0) == cache_lookup(cache, key, 0),
{
    lemma_lookup_push_found(cache, key, other, answer, 0);
}

proof fn lemma_lookup_push(cache: Seq<(Seq<char>, bool)>, key: Seq<char>, answer: bool, k: int)
    requires
        0 <= k <= cache.len(),
        cache_lookup(cache, key, k) is None,
    ensures
        cache_lookup(cache.push((key, answer)), key, k) == Some(answer),
    decreases cache.len() - k,
{
    if k < cache.len() {
        assert(cache.push((key, answer))[k] == cache[k]);
        lemma_lookup_push(cache, key, answer, k + 1);
    }
}

proof fn lemma_lookup_push_found(cache: Seq<(Seq<char>, bool)>, key: Seq<char>, other: Seq<char>, answer: bool, k: int)
    requires
        0 <= k <= cache.len(),
        cache_lookup(cache, key, k) is Some,
    ensures
        cache_lookup(cache.push((other, answer)), key, k) == cache_lookup(cache, key, k),
    decreases cache.len() - k,
{
    if k < cache.len() {
        assert(cache.push((other, answer))[k] == cache[k]);
        if cache[k].0 != key {
            lemma_lookup_push_found(cache, key, other, answer, k + 1);
        }
    }
}

} // verus!

//! Reading a variable's declared type from the text of a document that
//! follows the variable's name: `: [Name!]!` and the like, with the
//! characters GraphQL ignores between tokens (white space, line ends,
//! commas, the byte order mark, and comments from `#` to the end of the
//! line).
use vstd::prelude::*;

use crate::input_schema::DeclaredType;

verus! {

/// A declared type as a mathematical value.
pub enum TypeView {
    Named(Seq<char>, bool),
    List(Box<TypeView>, bool),
}

pub open spec fn declared_view(t: DeclaredType) -> TypeView
    decreases t,
{
    match t {
        DeclaredType::Named(n, r) => TypeView::Named(n@, r),
        DeclaredType::List(inner, r) => TypeView::List(Box::new(declared_view(*inner)), r),
    }
}

/// Characters that GraphQL ignores between tokens.
pub open spec fn is_ignored(c: char) -> bool {
    c == ' ' || c == '\t' || c == '\n' || c == '\r' || c == ',' || c == '\u{feff}'
}

pub open spec fn is_name_start(c: char) -> bool {
    c == '_' || ('a' <= c && c <= 'z') || ('A' <= c && c <= 'Z')
}

pub open spec fn is_name_char(c: char) -> bool {
    is_name_start(c) || ('0' <= c && c <= '9')
}

/// The position of the first token at or after `i`.
pub open spec fn skip_ignored(s: Seq<char>, i: int) -> int
    decreases s.len() - i,
{
    if i < 0 || i >= s.len() {
        i
    } else if is_ignored(s[i]) {
        skip_ignored(s, i + 1)
    } else if s[i] == '#' {
        skip_comment(s, i + 1)
    } else {
        i
    }
}

/// The position of the first token after a comment that reaches `i`.
pub open spec fn skip_comment(s: Seq<char>, i: int) -> int
    decreases s.len() - i,
{
    if i < 0 || i >= s.len() {
        i
    } else if s[i] == '\n' || s[i] == '\r' {
        skip_ignored(s, i + 1)
    } else {
        skip_comment(s, i + 1)
    }
}

/// The end of the name that starts at `i`.
pub open spec fn name_end(s: Seq<char>, i: int) -> int
    decreases s.len() - i,
{
    if 0 <= i < s.len() && is_name_char(s[i]) {
        name_end(s, i + 1)
    } else {
        i
    }
}

pub open spec fn set_required(t: TypeView) -> TypeView {
    match t {
        TypeView::Named(n, _) => TypeView::Named(n, true),
        TypeView::List(b, _) => TypeView::List(b, true),
    }
}

/// A type read up to `k`, with the `!` that may follow it.
pub open spec fn with_bang(s: Seq<char>, k: int, t: TypeView) -> (TypeView, int) {
    let m = skip_ignored(s, k);
    if 0 <= m < s.len() && s[m] == '!' {
        (set_required(t), m + 1)
    } else {
        (t, k)
    }
}

pub proof fn lemma_skip_bounds(s: Seq<char>, i: int)
    requires
        0 <= i <= s.len(),
    ensures
        i <= skip_ignored(s, i) <= s.len(),
        i <= skip_comment(s, i) <= s.len(),
    decreases s.len() - i,
{
    if i < s.len() {
        lemma_skip_bounds(s, i + 1);
    }
}

pub proof fn lemma_name_end_bounds(s: Seq<char>, i: int)
    requires
        0 <= i <= s.len(),
    ensures
        i <= name_end(s, i) <= s.len(),
    decreases s.len() - i,
{
    if i < s.len() {
        lemma_name_end_bounds(s, i + 1);
    }
}

/// The type written at `i` and the position after it: a name, or a type
/// in brackets, either followed by `!` where it is required.
pub open spec fn spec_type_at(s: Seq<char>, i: int) -> Option<(TypeView, int)>
    decreases s.len() - i,
{
    let j = skip_ignored(s, i);
    if 0 <= i <= s.len() && 0 <= j < s.len() && s[j] == '[' {
        proof {
            lemma_skip_bounds(s, i);
        }
        match spec_type_at(s, j + 1) {
            Some((inner, k)) => {
                let m = skip_ignored(s, k);
                if 0 <= m < s.len() && s[m] == ']' {
                    Some(with_bang(s, m + 1, TypeView::List(Box::new(inner), false)))
                } else {
                    None
                }
            },
            None => None,
        }
    } else if 0 <= j < s.len() && is_name_start(s[j]) {
        let e = name_end(s, j);
        Some(with_bang(s, e, TypeView::Named(s.subrange(j, e), false)))
    } else {
        None
    }
}

/// The type declared by the text that follows a variable's name: a colon,
/// then the type.
pub open spec fn spec_declared_type(src: Seq<char>) -> Option<TypeView> {
    let j = skip_ignored(src, 0);
    if 0 <= j < src.len() && src[j] == ':' {
        match spec_type_at(src, j + 1) {
            Some((t, _)) => Some(t),
            None => None,
        }
    } else {
        None
    }
}

fn is_ignored_char(c: char) -> (r: bool)
    ensures
        r == is_ignored(c),
{
    c == ' ' || c == '\t' || c == '\n' || c == '\r' || c == ',' || c == '\u{feff}'
}

fn is_name_start_char(c: char) -> (r: bool)
    ensures
        r == is_name_start(c),
{
    c == '_' || ('a' <= c && c <= 'z') || ('A' <= c && c <= 'Z')
}

fn skip(s: &str, n: usize, i: usize) -> (r: usize)
    requires
        n == s@.len(),
        i <= n,
    ensures
        r == skip_ignored(s@, i as int),
        i <= r <= n,
{
    let mut k = i;
    while k < n
        invariant
            n == s@.len(),
            i <= k <= n,
            skip_ignored(s@, k as int) == skip_ignored(s@, i as int),
        decreases n - k,
    {
        let c = s.get_char(k);
        if is_ignored_char(c) {
            k = k + 1;
        } else if c == '#' {
            let ghost k0 = k;
            k = k + 1;
            while k < n && s.get_char(k) != '\n' && s.get_char(k) != '\r'
                invariant
                    n == s@.len(),
                    i <= k <= n,
                    k0 < k,
                    skip_comment(s@, k as int) == skip_ignored(s@, i as int),
                decreases n - k,
            {
                k = k + 1;
            }
            if k == n {
                return k;
            }
            k = k + 1;
        } else {
            return k;
        }
    }
    k
}

fn name_end_at(s: &str, n: usize, i: usize) -> (r: usize)
    requires
        n == s@.len(),
        i <= n,
    ensures
        r == name_end(s@, i as int),
        i <= r <= n,
{
    let mut k = i;
    while k < n
        invariant
            n == s@.len(),
            i <= k <= n,
            name_end(s@, k as int) == name_end(s@, i as int),
        decreases n - k,
    {
        let c = s.get_char(k);
        if is_name_start_char(c) || ('0' <= c && c <= '9') {
            k = k + 1;
        } else {
            return k;
        }
    }
    k
}

fn bang(s: &str, n: usize, k: usize, t: DeclaredType) -> (r: (DeclaredType, usize))
    requires
        n == s@.len(),
        k <= n,
    ensures
        with_bang(s@, k as int, declared_view(t)) == (declared_view(r.0), r.1 as int),
        r.1 <= n,
{
    let m = skip(s, n, k);
    if m < n && s.get_char(m) == '!' {
        let t = match t {
            DeclaredType::Named(name, _) => DeclaredType::Named(name, true),
            DeclaredType::List(inner, _) => DeclaredType::List(inner, true),
        };
        (t, m + 1)
    } else {
        (t, k)
    }
}

fn type_at(s: &str, n: usize, i: usize) -> (r: Option<(DeclaredType, usize)>)
    requires
        n == s@.len(),
        i <= n,
    ensures
        match r {
            Some((t, k)) => spec_type_at(s@, i as int) == Some((declared_view(t), k as int)) && k <= n,
            None => spec_type_at(s@, i as int) is None,
        },
    decreases n - i,
{
    let j = skip(s, n, i);
    if j < n && s.get_char(j) == '[' {
        match type_at(s, n, j + 1) {
            Some((inner, k)) => {
                let m = skip(s, n, k);
                if m < n && s.get_char(m) == ']' {
                    proof {
                        assert(declared_view(DeclaredType::List(Box::new(inner), false)) == TypeView::List(
                            Box::new(declared_view(inner)),
                            false,
                        ));
                    }
                    Some(bang(s, n, m + 1, DeclaredType::List(Box::new(inner), false)))
                } else {
                    None
                }
            },
            None => None,
        }
    } else if j < n && is_name_start_char(s.get_char(j)) {
        let e = name_end_at(s, n, j);
        let name = String::from_str(s.substring_char(j, e));
        Some(bang(s, n, e, DeclaredType::Named(name, false)))
    } else {
        None
    }
}

/// Reads the type declared by the text that follows a variable's name.
pub fn declared_type(src: &str) -> (r: Option<DeclaredType>)
    ensures
        match r {
            Some(t) => spec_declared_type(src@) == Some(declared_view(t)),
            None => spec_declared_type(src@) is None,
        },
{
    let n = src.unicode_len();
    let j = skip(src, n, 0);
    if j < n && src.get_char(j) == ':' {
        match type_at(src, n, j + 1) {
            Some((t, _)) => Some(t),
            None => None,
        }
    } else {
        None
    }
}

} // verus!

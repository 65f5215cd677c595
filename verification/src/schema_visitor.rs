//! Gathering the definitions that a schema contains: every type and
//! directive definition reachable from its root types, each name taken by
//! one definition only.
//!
//! The definitions themselves live in Ruby, so the walk is driven from
//! outside: the visitor hands out the next item to look at, and is told
//! what that item is (its name, its Ruby class, what it refers to).  The
//! visitor decides what is registered, what is visited next, and when two
//! classes claim one type name.
use vstd::prelude::*;

use crate::text::{cat2, cat5, str_eq};

verus! {

/// Strict lexicographic order of names, character by character (the order
/// of Rust's `String`s).
pub open spec fn name_lt(a: Seq<char>, b: Seq<char>) -> bool
    decreases a.len(),
{
    if b.len() == 0 {
        false
    } else if a.len() == 0 {
        true
    } else if a[0] != b[0] {
        a[0] < b[0]
    } else {
        name_lt(a.drop_first(), b.drop_first())
    }
}

/// No name is before itself.
pub proof fn lemma_name_lt_irreflexive(a: Seq<char>)
    ensures
        !name_lt(a, a),
    decreases a.len(),
{
    if a.len() > 0 {
        lemma_name_lt_irreflexive(a.drop_first());
    }
}

/// Of two different names, one is before the other.
pub proof fn lemma_name_lt_total(a: Seq<char>, b: Seq<char>)
    requires
        a != b,
    ensures
        name_lt(a, b) || name_lt(b, a),
    decreases a.len(),
{
    if a.len() > 0 && b.len() > 0 && a[0] == b[0] {
        if a.drop_first() == b.drop_first() {
            assert(a =~= seq![a[0]] + a.drop_first());
            assert(b =~= seq![b[0]] + b.drop_first());
        }
        lemma_name_lt_total(a.drop_first(), b.drop_first());
    } else if a.len() == 0 && b.len() == 0 {
        assert(a =~= b);
    } else if a.len() > 0 && b.len() > 0 {
        assert(a[0] != b[0]);
    }
}

/// Of two names, at most one is before the other.
pub proof fn lemma_name_lt_asymmetric(a: Seq<char>, b: Seq<char>)
    ensures
        !(name_lt(a, b) && name_lt(b, a)),
    decreases a.len(),
{
    if a.len() > 0 && b.len() > 0 && a[0] == b[0] {
        lemma_name_lt_asymmetric(a.drop_first(), b.drop_first());
    }
}

/// The order of names is transitive.
pub proof fn lemma_name_lt_transitive(a: Seq<char>, b: Seq<char>, c: Seq<char>)
    requires
        name_lt(a, b),
        name_lt(b, c),
    ensures
        name_lt(a, c),
    decreases a.len(),
{
    if a.len() > 0 && b.len() > 0 && c.len() > 0 && a[0] == b[0] && b[0] == c[0] {
        lemma_name_lt_transitive(a.drop_first(), b.drop_first(), c.drop_first());
    }
}

/// Whether the name `a` comes before the name `b`.
pub fn str_lt(a: &str, b: &str) -> (r: bool)
    ensures
        r == name_lt(a@, b@),
{
    let n = a.unicode_len();
    let m = b.unicode_len();
    let mut i: usize = 0;
    assert(a@.skip(0) =~= a@);
    assert(b@.skip(0) =~= b@);
    while i < n && i < m
        invariant
            i <= n,
            i <= m,
            n == a@.len(),
            m == b@.len(),
            name_lt(a@, b@) == name_lt(a@.skip(i as int), b@.skip(i as int)),
        decreases n - i,
    {
        let x = a.get_char(i);
        let y = b.get_char(i);
        assert(a@.skip(i as int)[0] == x);
        assert(b@.skip(i as int)[0] == y);
        if x != y {
            return x < y;
        }
        assert(a@.skip(i as int).drop_first() =~= a@.skip(i + 1));
        assert(b@.skip(i as int).drop_first() =~= b@.skip(i + 1));
        i = i + 1;
    }
    i < m
}

/// A definition that the schema contains: its GraphQL name, the Ruby value
/// that identifies it, and the name of its Ruby class.
#[derive(Debug)]
pub struct RegisteredDefinition {
    pub name: String,
    pub handle: u64,
    pub class_name: String,
}

/// Definitions ordered by name, no name twice.
pub open spec fn names_sorted(d: Seq<RegisteredDefinition>) -> bool {
    forall|i: int, j: int| 0 <= i < j < d.len() ==> name_lt(#[trigger] d[i].name@, #[trigger] d[j].name@)
}

/// Whether one of the definitions has the name.
pub open spec fn has_name(d: Seq<RegisteredDefinition>, name: Seq<char>) -> bool {
    exists|k: int| 0 <= k < d.len() && #[trigger] d[k].name@ == name
}

/// Where a name stands among sorted definitions: how many come before it,
/// and whether the next one has it.
fn locate(d: &Vec<RegisteredDefinition>, name: &str) -> (r: (usize, bool))
    requires
        names_sorted(d@),
    ensures
        r.0 <= d@.len(),
        forall|j: int| 0 <= j < r.0 ==> name_lt(#[trigger] d@[j].name@, name@),
        r.1 ==> r.0 < d@.len() && d@[r.0 as int].name@ == name@,
        !r.1 ==> forall|j: int| r.0 <= j < d@.len() ==> name_lt(name@, #[trigger] d@[j].name@),
{
    let mut k: usize = 0;
    while k < d.len()
        invariant
            names_sorted(d@),
            k <= d@.len(),
            forall|j: int| 0 <= j < k ==> name_lt(#[trigger] d@[j].name@, name@),
        decreases d@.len() - k,
    {
        if !str_lt(d[k].name.as_str(), name) {
            let found = str_eq(d[k].name.as_str(), name);
            proof {
                if !found {
                    lemma_name_lt_total(d@[k as int].name@, name@);
                    assert forall|j: int| k <= j < d@.len() implies name_lt(name@, #[trigger] d@[j].name@) by {
                        if j > k {
                            assert(name_lt(d@[k as int].name@, d@[j].name@));
                            lemma_name_lt_transitive(name@, d@[k as int].name@, d@[j].name@);
                        }
                    }
                }
            }
            return (k, found);
        }
        k = k + 1;
    }
    (k, false)
}

/// Inserting a definition where [`locate`] put its name keeps the order.
proof fn lemma_insert_sorted(d: Seq<RegisteredDefinition>, p: int, e: RegisteredDefinition)
    requires
        names_sorted(d),
        0 <= p <= d.len(),
        forall|j: int| 0 <= j < p ==> name_lt(#[trigger] d[j].name@, e.name@),
        forall|j: int| p <= j < d.len() ==> name_lt(e.name@, #[trigger] d[j].name@),
    ensures
        names_sorted(d.insert(p, e)),
{
    let n = d.insert(p, e);
    assert forall|i: int, j: int| 0 <= i < j < n.len() implies name_lt(#[trigger] n[i].name@, #[trigger] n[j].name@) by {
        if j < p {
            assert(n[i] == d[i] && n[j] == d[j]);
        } else if j == p {
            assert(n[i] == d[i] && n[j] == e);
        } else if i < p {
            assert(n[i] == d[i] && n[j] == d[j - 1]);
            lemma_name_lt_transitive(d[i].name@, e.name@, d[j - 1].name@);
        } else if i == p {
            assert(n[i] == e && n[j] == d[j - 1]);
        } else {
            assert(n[i] == d[i - 1] && n[j] == d[j - 1]);
        }
    }
}

/// Something that a definition refers to and that the walk must look at:
/// a type or a directive definition, by the Ruby value of its definition.
#[derive(Clone, Copy, Debug, PartialEq, Eq, Structural)]
pub enum SchemaItem {
    Type(u64),
    Directive(u64),
}

/// The message for two Ruby classes that define one type name.
pub open spec fn spec_conflict_message(name: Seq<char>, first: Seq<char>, second: Seq<char>) -> Seq<char> {
    "GraphQL type name `"@ + name + "` is used in multiple classes: "@ + first + " and "@ + second
}

/// The walk over a schema's definitions: what has been registered so far,
/// by name, and the items still to look at (the last one next).
#[derive(Debug)]
pub struct SchemaVisitor {
    pub types: Vec<RegisteredDefinition>,
    pub directives: Vec<RegisteredDefinition>,
    pub pending: Vec<SchemaItem>,
}

impl SchemaVisitor {
    /// Both registries ordered by name, with no name twice.
    pub open spec fn wf(&self) -> bool {
        names_sorted(self.types@) && names_sorted(self.directives@)
    }

    /// A walk that starts from `roots`, the first of them first.
    pub fn new(roots: &Vec<SchemaItem>) -> (r: SchemaVisitor)
        ensures
            r.wf(),
            r.types@.len() == 0,
            r.directives@.len() == 0,
            r.pending@ == roots@.reverse(),
    {
        let mut pending: Vec<SchemaItem> = Vec::new();
        push_reversed(&mut pending, roots);
        SchemaVisitor { types: Vec::new(), directives: Vec::new(), pending }
    }

    /// The next item to look at, taken off the walk; none once the walk is
    /// done.
    pub fn next_item(&mut self) -> (r: Option<SchemaItem>)
        ensures
            old(self).pending@.len() == 0 ==> r is None && final(self).pending@ == old(self).pending@,
            old(self).pending@.len() > 0 ==> r == Some(old(self).pending@.last())
                && final(self).pending@ == old(self).pending@.drop_last(),
            final(self).types == old(self).types,
            final(self).directives == old(self).directives,
    {
        self.pending.pop()
    }

    /// Registers the type that `handle` defines, under `name`, with the
    /// items it refers to, in order, still to be looked at.  A name that is
    /// already registered for the same definition changes nothing
    /// (`Ok(false)`); one registered for another definition is refused,
    /// naming both Ruby classes.
    pub fn visit_type(
        &mut self,
        handle: u64,
        name: String,
        class_name: String,
        references: &Vec<SchemaItem>,
    ) -> (r: Result<bool, String>)
        requires
            old(self).wf(),
        ensures
            final(self).wf(),
            match r {
                Ok(true) => {
                    &&& !has_name(old(self).types@, name@)
                    &&& exists|p: int|
                        0 <= p <= old(self).types@.len() && final(self).types@ == old(self).types@.insert(
                            p,
                            RegisteredDefinition { name, handle, class_name },
                        )
                    &&& final(self).pending@ == old(self).pending@ + references@.reverse()
                    &&& final(self).directives == old(self).directives
                },
                Ok(false) => {
                    &&& exists|k: int|
                        0 <= k < old(self).types@.len() && #[trigger] old(self).types@[k].name@ == name@
                            && old(self).types@[k].handle == handle
                    &&& *final(self) == *old(self)
                },
                Err(message) => {
                    &&& exists|k: int|
                        0 <= k < old(self).types@.len() && #[trigger] old(self).types@[k].name@ == name@
                            && old(self).types@[k].handle != handle && message@ == spec_conflict_message(
                            name@,
                            old(self).types@[k].class_name@,
                            class_name@,
                        )
                    &&& *final(self) == *old(self)
                },
            },
    {
        let (p, found) = locate(&self.types, name.as_str());
        if found {
            let existing = &self.types[p];
            if existing.handle == handle {
                return Ok(false);
            }
            let message = cat5(
                "GraphQL type name `",
                name.as_str(),
                "` is used in multiple classes: ",
                existing.class_name.as_str(),
                " and ",
            );
            let message = cat2(message.as_str(), class_name.as_str());
            proof {
                reveal_strlit("GraphQL type name `");
                reveal_strlit("` is used in multiple classes: ");
                reveal_strlit(" and ");
            }
            return Err(message);
        }
        proof {
            if has_name(self.types@, name@) {
                let k = choose|k: int| 0 <= k < self.types@.len() && #[trigger] self.types@[k].name@ == name@;
                if k < p {
                    assert(name_lt(self.types@[k].name@, name@));
                } else {
                    assert(name_lt(name@, self.types@[k].name@));
                }
                lemma_name_lt_irreflexive(name@);
            }
        }
        let ghost entry = RegisteredDefinition { name, handle, class_name };
        proof {
            lemma_insert_sorted(self.types@, p as int, entry);
        }
        self.types.insert(p, RegisteredDefinition { name, handle, class_name });
        push_reversed(&mut self.pending, references);
        Ok(true)
    }

    /// Registers the directive definition that `handle` defines under
    /// `name`, unless a definition of that name is registered already (the
    /// first one met keeps the name).  Says whether it registered.
    pub fn visit_directive(&mut self, handle: u64, name: String, class_name: String) -> (r: bool)
        requires
            old(self).wf(),
        ensures
            final(self).wf(),
            r == !has_name(old(self).directives@, name@),
            r ==> exists|p: int|
                0 <= p <= old(self).directives@.len() && final(self).directives@ == old(
                    self,
                ).directives@.insert(p, RegisteredDefinition { name, handle, class_name }),
            !r ==> final(self).directives == old(self).directives,
            final(self).types == old(self).types,
            final(self).pending == old(self).pending,
    {
        let (p, found) = locate(&self.directives, name.as_str());
        if found {
            return false;
        }
        proof {
            if has_name(self.directives@, name@) {
                let k = choose|k: int|
                    0 <= k < self.directives@.len() && #[trigger] self.directives@[k].name@ == name@;
                if k < p {
                    assert(name_lt(self.directives@[k].name@, name@));
                } else {
                    assert(name_lt(name@, self.directives@[k].name@));
                }
                lemma_name_lt_irreflexive(name@);
            }
        }
        let ghost entry = RegisteredDefinition { name, handle, class_name };
        proof {
            lemma_insert_sorted(self.directives@, p as int, entry);
        }
        self.directives.insert(p, RegisteredDefinition { name, handle, class_name });
        true
    }
}

/// Pushes the items onto the stack, the last first, so that the first
/// comes off the stack first.
fn push_reversed(stack: &mut Vec<SchemaItem>, items: &Vec<SchemaItem>)
    ensures
        final(stack)@ == old(stack)@ + items@.reverse(),
{
    let ghost base = stack@;
    let n = items.len();
    let mut k: usize = n;
    while k > 0
        invariant
            k <= n,
            n == items@.len(),
            stack@ == base + Seq::new((n - k) as nat, |j: int| items@[n - 1 - j]),
        decreases k,
    {
        k = k - 1;
        stack.push(items[k]);
        assert(stack@ =~= base + Seq::new((n - k) as nat, |j: int| items@[n - 1 - j]));
    }
    assert(items@.reverse() =~= Seq::new(n as nat, |j: int| items@[n - 1 - j]));
}

} // verus!

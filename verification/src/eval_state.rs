//! The evaluator's own state: nested local scopes of values, types and
//! mutability, the generic substitutions in force, and the control-flow flags
//! of `return`, `break` and `continue`.

use vstd::prelude::*;
use crate::types::{TypeId, SymbolId};
use crate::value::ConstValue;

verus! {

#[derive(Clone, Copy, Debug, PartialEq, Eq, Structural)]
pub struct ConstEvalError;

#[derive(Clone, Copy, Debug, PartialEq, Eq, Structural)]
pub enum LoopControl {
    Break,
    Continue,
}

#[derive(Clone, Copy, Debug, PartialEq, Eq, Structural)]
pub enum ConstGenericValue {
    Int(i128),
    Bool(bool),
}

/// The value of a const generic argument.
#[derive(Clone, Copy, Debug, PartialEq, Eq, Structural)]
pub enum ConstGeneric {
    Value { ty: TypeId, value: ConstGenericValue },
    Param(SymbolId),
    Error,
}

#[derive(Clone, Copy, Debug, PartialEq, Eq, Structural)]
pub enum GenericArg {
    Type(TypeId),
    Const(ConstGeneric),
}

/// The first entry for `name` in `s`.
pub open spec fn find_entry<V>(s: Seq<(SymbolId, V)>, name: SymbolId) -> Option<V>
    decreases s.len(),
{
    if s.len() == 0 {
        None
    } else if s[0].0 == name {
        Some(s[0].1)
    } else {
        find_entry(s.drop_first(), name)
    }
}

/// The index of the innermost scope of `scopes[..n]` that binds `name`.
pub open spec fn slot_of<V>(scopes: Seq<Seq<(SymbolId, V)>>, name: SymbolId, n: int) -> Option<
    int,
>
    decreases n,
{
    if n <= 0 {
        None
    } else if find_entry(scopes[n - 1], name) is Some {
        Some(n - 1)
    } else {
        slot_of(scopes, name, n - 1)
    }
}

/// The innermost binding of `name`.
pub open spec fn lookup_scopes<V>(scopes: Seq<Seq<(SymbolId, V)>>, name: SymbolId) -> Option<V> {
    match slot_of(scopes, name, scopes.len() as int) {
        Some(i) => find_entry(scopes[i], name),
        None => None,
    }
}

/// `s` with `name` bound to `v`: the first entry replaced, or one appended.
pub open spec fn set_entry<V>(s: Seq<(SymbolId, V)>, name: SymbolId, v: V) -> Seq<(SymbolId, V)>
    decreases s.len(),
{
    if s.len() == 0 {
        seq![(name, v)]
    } else if s[0].0 == name {
        s.update(0, (name, v))
    } else {
        seq![s[0]] + set_entry(s.drop_first(), name, v)
    }
}

/// Binding `name` in the innermost scope, opening one where there is none.
pub open spec fn define_in<V>(scopes: Seq<Seq<(SymbolId, V)>>, name: SymbolId, v: V) -> Seq<
    Seq<(SymbolId, V)>,
> {
    if scopes.len() == 0 {
        seq![seq![(name, v)]]
    } else {
        scopes.update(scopes.len() - 1, set_entry(scopes.last(), name, v))
    }
}

pub proof fn lemma_set_entry_find<V>(s: Seq<(SymbolId, V)>, name: SymbolId, v: V, other: SymbolId)
    ensures
        find_entry(set_entry(s, name, v), name) == Some(v),
        other != name ==> find_entry(set_entry(s, name, v), other) == find_entry(s, other),
    decreases s.len(),
{
    let t = set_entry(s, name, v);
    if s.len() == 0 {
        assert(t.drop_first() =~= Seq::<(SymbolId, V)>::empty());
        assert(find_entry(t.drop_first(), other) is None);
    } else if s[0].0 == name {
        assert(t.drop_first() =~= s.drop_first());
        assert(other != name ==> find_entry(t, other) == find_entry(t.drop_first(), other));
    } else {
        lemma_set_entry_find(s.drop_first(), name, v, other);
        assert((seq![s[0]] + set_entry(s.drop_first(), name, v)).drop_first() =~= set_entry(
            s.drop_first(),
            name,
            v,
        ));
    }
}

pub fn find_in_scope<V>(s: &Vec<(SymbolId, V)>, name: SymbolId) -> (r: Option<usize>)
    ensures
        r matches Some(i) ==> i < s@.len() && s@[i as int].0 == name && find_entry(s@, name)
            == Some(s@[i as int].1) && forall|j: int| 0 <= j < i ==> s@[j].0 != name,
        r is None ==> find_entry(s@, name) is None,
{
    let mut i: usize = 0;
    assert(s@.subrange(0, s@.len() as int) =~= s@);
    while i < s.len()
        invariant
            i <= s@.len(),
            forall|j: int| 0 <= j < i ==> s@[j].0 != name,
            find_entry(s@, name) == find_entry(s@.subrange(i as int, s@.len() as int), name),
        decreases s@.len() - i,
    {
        let ghost rest = s@.subrange(i as int, s@.len() as int);
        assert(rest.drop_first() =~= s@.subrange(i + 1, s@.len() as int));
        if s[i].0 == name {
            return Some(i);
        }
        i = i + 1;
    }
    assert(s@.subrange(i as int, s@.len() as int).len() == 0);
    None
}

fn find_slot<V>(scopes: &Vec<Vec<(SymbolId, V)>>, name: SymbolId) -> (r: Option<(usize, usize)>)
    ensures
        r matches Some((si, ei)) ==> slot_of(scopes_view(scopes@), name, scopes@.len() as int)
            == Some(si as int) && si < scopes@.len() && ei < scopes@[si as int]@.len()
            && scopes@[si as int]@[ei as int].0 == name && lookup_scopes(scopes_view(scopes@), name)
            == Some(scopes@[si as int]@[ei as int].1),
        r is None ==> slot_of(scopes_view(scopes@), name, scopes@.len() as int) is None,
{
    let ghost sv = scopes_view(scopes@);
    let mut n: usize = scopes.len();
    while n > 0
        invariant
            n <= scopes@.len(),
            sv == scopes_view(scopes@),
            slot_of(sv, name, scopes@.len() as int) == slot_of(sv, name, n as int),
        decreases n,
    {
        match find_in_scope(&scopes[n - 1], name) {
            Some(ei) => {
                return Some((n - 1, ei));
            },
            None => {},
        }
        n = n - 1;
    }
    None
}

pub open spec fn scopes_view<V>(s: Seq<Vec<(SymbolId, V)>>) -> Seq<Seq<(SymbolId, V)>> {
    s.map_values(|v: Vec<(SymbolId, V)>| v@)
}

fn set_in_scope<V>(s: &mut Vec<(SymbolId, V)>, name: SymbolId, v: V)
    ensures
        final(s)@ == set_entry(old(s)@, name, v),
{
    match find_in_scope(s, name) {
        Some(i) => {
            proof {
                lemma_set_entry_first(old(s)@, name, v, i as int);
            }
            s.set(i, (name, v));
        },
        None => {
            proof {
                lemma_set_entry_absent(old(s)@, name, v);
            }
            s.push((name, v));
        },
    }
}

/// The scope `slot_of` finds is one of the first `n`, and it binds the name.
pub proof fn lemma_slot_of_range<V>(scopes: Seq<Seq<(SymbolId, V)>>, name: SymbolId, n: int)
    ensures
        slot_of(scopes, name, n) matches Some(i) ==> 0 <= i < n && find_entry(scopes[i], name) is Some,
    decreases n,
{
    if n > 0 && find_entry(scopes[n - 1], name) is None {
        lemma_slot_of_range(scopes, name, n - 1);
    }
}

/// Binding one name in the innermost scope leaves what other names read.
pub proof fn lemma_define_in_other<V>(scopes: Seq<Seq<(SymbolId, V)>>, name: SymbolId, v: V, other: SymbolId)
    requires
        other != name,
        lookup_scopes(scopes, other) is Some,
    ensures
        lookup_scopes(define_in(scopes, name, v), other) == lookup_scopes(scopes, other),
{
    let t = define_in(scopes, name, v);
    let n = scopes.len() as int;
    lemma_slot_of_range(scopes, other, n);
    lemma_set_entry_find(scopes.last(), name, v, other);
    lemma_slot_same(scopes, t, other, n);
}

/// `slot_of` reads two scope lists alike where each scope binds the name alike.
proof fn lemma_slot_same<V>(a: Seq<Seq<(SymbolId, V)>>, b: Seq<Seq<(SymbolId, V)>>, name: SymbolId, n: int)
    requires
        n <= a.len(),
        n <= b.len(),
        forall|i: int| 0 <= i < n ==> find_entry(#[trigger] a[i], name) == find_entry(b[i], name),
    ensures
        slot_of(a, name, n) == slot_of(b, name, n),
        slot_of(a, name, n) matches Some(i) ==> find_entry(a[i], name) == find_entry(b[i], name),
    decreases n,
{
    if n > 0 {
        lemma_slot_same(a, b, name, n - 1);
    }
}

/// A name bound by `define_in` reads back as the value it was bound to.
pub proof fn lemma_define_in_lookup<V>(scopes: Seq<Seq<(SymbolId, V)>>, name: SymbolId, v: V)
    ensures
        lookup_scopes(define_in(scopes, name, v), name) == Some(v),
{
    let t = define_in(scopes, name, v);
    if scopes.len() == 0 {
        assert(find_entry(t[0], name) == Some(v));
        assert(slot_of(t, name, 1) == Some(0int));
    } else {
        lemma_set_entry_find(scopes.last(), name, v, name);
        assert(t[t.len() - 1] == set_entry(scopes.last(), name, v));
        assert(slot_of(t, name, t.len() as int) == Some(t.len() - 1));
    }
}

proof fn lemma_set_entry_absent<V>(s: Seq<(SymbolId, V)>, name: SymbolId, v: V)
    requires
        find_entry(s, name) is None,
    ensures
        set_entry(s, name, v) == s.push((name, v)),
    decreases s.len(),
{
    if s.len() > 0 {
        lemma_set_entry_absent(s.drop_first(), name, v);
        assert(seq![s[0]] + s.drop_first().push((name, v)) =~= s.push((name, v)));
    } else {
        assert(seq![(name, v)] =~= s.push((name, v)));
    }
}

proof fn lemma_set_entry_first<V>(s: Seq<(SymbolId, V)>, name: SymbolId, v: V, i: int)
    requires
        0 <= i < s.len(),
        s[i].0 == name,
        find_entry(s, name) == Some(s[i].1),
        forall|j: int| 0 <= j < i ==> s[j].0 != name,
    ensures
        set_entry(s, name, v) == s.update(i, (name, v)),
    decreases s.len(),
{
    if i == 0 {
    } else {
        assert forall|j: int| 0 <= j < i - 1 implies s.drop_first()[j].0 != name by {
            assert(s.drop_first()[j] == s[j + 1]);
        }
        lemma_set_entry_first(s.drop_first(), name, v, i - 1);
        assert(seq![s[0]] + s.drop_first().update(i - 1, (name, v)) =~= s.update(i, (name, v)));
    }
}

pub struct ConstEvalCore {
    values: Vec<Vec<(SymbolId, ConstValue)>>,
    local_types: Vec<Vec<(SymbolId, TypeId)>>,
    mutability: Vec<Vec<(SymbolId, bool)>>,
    type_substs: Vec<Vec<(SymbolId, GenericArg)>>,
    return_value: Option<ConstValue>,
    loop_control: Option<LoopControl>,
    loop_depth: usize,
    function_depth: usize,
    return_types: Vec<TypeId>,
    expected_types: Vec<TypeId>,
    allow_non_const_calls: bool,
}

impl ConstEvalCore {
    pub closed spec fn values(self) -> Seq<Seq<(SymbolId, ConstValue)>> {
        scopes_view(self.values@)
    }

    pub closed spec fn local_types(self) -> Seq<Seq<(SymbolId, TypeId)>> {
        scopes_view(self.local_types@)
    }

    pub closed spec fn mutability(self) -> Seq<Seq<(SymbolId, bool)>> {
        scopes_view(self.mutability@)
    }

    pub closed spec fn substs(self) -> Seq<Seq<(SymbolId, GenericArg)>> {
        scopes_view(self.type_substs@)
    }

    pub closed spec fn returned(self) -> Option<ConstValue> {
        self.return_value
    }

    pub closed spec fn control(self) -> Option<LoopControl> {
        self.loop_control
    }

    pub closed spec fn loops(self) -> nat {
        self.loop_depth as nat
    }

    pub closed spec fn functions(self) -> nat {
        self.function_depth as nat
    }

    pub closed spec fn return_tys(self) -> Seq<TypeId> {
        self.return_types@
    }

    pub closed spec fn expected(self) -> Seq<TypeId> {
        self.expected_types@
    }

    pub closed spec fn non_const_calls(self) -> bool {
        self.allow_non_const_calls
    }

    /// The three scope stacks have the same depth.
    pub open spec fn wf(self) -> bool {
        &&& self.local_types().len() == self.values().len()
        &&& self.mutability().len() == self.values().len()
    }

    pub fn new() -> (r: Self)
        ensures
            r.wf(),
            r.values().len() == 0,
            r.substs().len() == 0,
            r.returned() is None,
            r.control() is None,
            r.loops() == 0,
            r.functions() == 0,
            r.expected().len() == 0,
            r.return_tys().len() == 0,
            !r.non_const_calls(),
    {
        let r = ConstEvalCore {
            values: Vec::new(),
            local_types: Vec::new(),
            mutability: Vec::new(),
            type_substs: Vec::new(),
            return_value: None,
            loop_control: None,
            loop_depth: 0,
            function_depth: 0,
            return_types: Vec::new(),
            expected_types: Vec::new(),
            allow_non_const_calls: false,
        };
        assert(r.values() =~= Seq::empty());
        assert(r.local_types() =~= Seq::empty());
        assert(r.mutability() =~= Seq::empty());
        assert(r.substs() =~= Seq::empty());
        r
    }

    pub fn set_allow_non_const_calls(&mut self, allow: bool)
        ensures
            final(self).non_const_calls() == allow,
            final(self).values() == old(self).values(),
            final(self).local_types() == old(self).local_types(),
            final(self).mutability() == old(self).mutability(),
            final(self).substs() == old(self).substs(),
    {
        self.allow_non_const_calls = allow;
    }

    pub fn allows_non_const_calls(&self) -> (r: bool)
        ensures
            r == self.non_const_calls(),
    {
        self.allow_non_const_calls
    }

    pub fn push_local_scope(&mut self)
        requires
            old(self).wf(),
        ensures
            final(self).wf(),
            final(self).values() == old(self).values().push(Seq::empty()),
            final(self).local_types() == old(self).local_types().push(Seq::empty()),
            final(self).mutability() == old(self).mutability().push(Seq::empty()),
            final(self).substs() == old(self).substs(),
            final(self).returned() == old(self).returned(),
            final(self).control() == old(self).control(),
            final(self).loops() == old(self).loops(),
            final(self).functions() == old(self).functions(),
            final(self).return_tys() == old(self).return_tys(),
            final(self).expected() == old(self).expected(),
            final(self).non_const_calls() == old(self).non_const_calls(),
    {
        self.values.push(Vec::new());
        self.local_types.push(Vec::new());
        self.mutability.push(Vec::new());
        assert(self.values() =~= old(self).values().push(Seq::empty()));
        assert(self.local_types() =~= old(self).local_types().push(Seq::empty()));
        assert(self.mutability() =~= old(self).mutability().push(Seq::empty()));
    }

    pub fn pop_local_scope(&mut self)
        requires
            old(self).wf(),
        ensures
            final(self).wf(),
            final(self).values() == (if old(self).values().len() == 0 {
                old(self).values()
            } else {
                old(self).values().drop_last()
            }),
            final(self).local_types() == (if old(self).local_types().len() == 0 {
                old(self).local_types()
            } else {
                old(self).local_types().drop_last()
            }),
            final(self).mutability() == (if old(self).mutability().len() == 0 {
                old(self).mutability()
            } else {
                old(self).mutability().drop_last()
            }),
            final(self).substs() == old(self).substs(),
            final(self).returned() == old(self).returned(),
            final(self).control() == old(self).control(),
            final(self).loops() == old(self).loops(),
            final(self).functions() == old(self).functions(),
            final(self).return_tys() == old(self).return_tys(),
            final(self).expected() == old(self).expected(),
            final(self).non_const_calls() == old(self).non_const_calls(),
    {
        let _ = self.values.pop();
        let _ = self.local_types.pop();
        let _ = self.mutability.pop();
        assert(self.values() =~= (if old(self).values().len() == 0 {
            old(self).values()
        } else {
            old(self).values().drop_last()
        }));
        assert(self.local_types() =~= (if old(self).local_types().len() == 0 {
            old(self).local_types()
        } else {
            old(self).local_types().drop_last()
        }));
        assert(self.mutability() =~= (if old(self).mutability().len() == 0 {
            old(self).mutability()
        } else {
            old(self).mutability().drop_last()
        }));
    }

    pub fn define_local(&mut self, name: SymbolId, value: ConstValue)
        requires
            old(self).wf(),
        ensures
            final(self).wf(),
            old(self).values().len() > 0 ==> final(self).values() == define_in(
                old(self).values(),
                name,
                value,
            ) && final(self).local_types() == old(self).local_types() && final(self).mutability()
                == old(self).mutability(),
            old(self).values().len() == 0 ==> final(self).values() == define_in(
                old(self).values(),
                name,
                value,
            ) && final(self).local_types() == seq![Seq::<(SymbolId, TypeId)>::empty()]
                && final(self).mutability() == seq![Seq::<(SymbolId, bool)>::empty()],
            lookup_scopes(final(self).values(), name) == Some(value),
            final(self).substs() == old(self).substs(),
            final(self).returned() == old(self).returned(),
            final(self).control() == old(self).control(),
            final(self).loops() == old(self).loops(),
            final(self).functions() == old(self).functions(),
            final(self).return_tys() == old(self).return_tys(),
            final(self).expected() == old(self).expected(),
            final(self).non_const_calls() == old(self).non_const_calls(),
    {
        if self.values.len() == 0 {
            self.push_local_scope();
        }
        let ghost before = self.values();
        let mut last = self.values.pop().unwrap();
        set_in_scope(&mut last, name, value);
        self.values.push(last);
        proof {
            assert(self.values() =~= define_in(before, name, value));
            lemma_set_entry_find(before.last(), name, value, name);
            assert(slot_of(self.values(), name, self.values().len() as int) == Some(
                self.values().len() - 1,
            ));
        }
    }

    pub fn define_local_type(&mut self, name: SymbolId, ty: TypeId)
        requires
            old(self).wf(),
        ensures
            final(self).wf(),
            old(self).values().len() > 0 ==> final(self).local_types() == define_in(
                old(self).local_types(),
                name,
                ty,
            ) && final(self).values() == old(self).values() && final(self).mutability()
                == old(self).mutability(),
            old(self).values().len() == 0 ==> final(self).local_types() == define_in(
                old(self).local_types(),
                name,
                ty,
            ) && final(self).values() == seq![Seq::<(SymbolId, ConstValue)>::empty()]
                && final(self).mutability() == seq![Seq::<(SymbolId, bool)>::empty()],
            final(self).substs() == old(self).substs(),
            final(self).returned() == old(self).returned(),
            final(self).control() == old(self).control(),
            final(self).loops() == old(self).loops(),
            final(self).functions() == old(self).functions(),
            final(self).return_tys() == old(self).return_tys(),
            final(self).expected() == old(self).expected(),
            final(self).non_const_calls() == old(self).non_const_calls(),
    {
        if self.values.len() == 0 {
            self.push_local_scope();
        }
        let ghost before = self.local_types();
        let mut last = self.local_types.pop().unwrap();
        set_in_scope(&mut last, name, ty);
        self.local_types.push(last);
        assert(self.local_types() =~= define_in(before, name, ty));
    }

    pub fn define_local_mutability(&mut self, name: SymbolId, is_mut: bool)
        requires
            old(self).wf(),
        ensures
            final(self).wf(),
            old(self).values().len() > 0 ==> final(self).mutability() == define_in(
                old(self).mutability(),
                name,
                is_mut,
            ) && final(self).values() == old(self).values() && final(self).local_types()
                == old(self).local_types(),
            old(self).values().len() == 0 ==> final(self).mutability() == define_in(
                old(self).mutability(),
                name,
                is_mut,
            ) && final(self).values() == seq![Seq::<(SymbolId, ConstValue)>::empty()]
                && final(self).local_types() == seq![Seq::<(SymbolId, TypeId)>::empty()],
            final(self).substs() == old(self).substs(),
            final(self).returned() == old(self).returned(),
            final(self).control() == old(self).control(),
            final(self).loops() == old(self).loops(),
            final(self).functions() == old(self).functions(),
            final(self).return_tys() == old(self).return_tys(),
            final(self).expected() == old(self).expected(),
            final(self).non_const_calls() == old(self).non_const_calls(),
    {
        if self.values.len() == 0 {
            self.push_local_scope();
        }
        let ghost before = self.mutability();
        let mut last = self.mutability.pop().unwrap();
        set_in_scope(&mut last, name, is_mut);
        self.mutability.push(last);
        assert(self.mutability() =~= define_in(before, name, is_mut));
    }

    pub fn lookup_local(&self, name: SymbolId) -> (r: Option<ConstValue>)
        ensures
            r == lookup_scopes(self.values(), name),
    {
        match find_slot(&self.values, name) {
            Some((si, ei)) => Some(self.values[si][ei].1.copy()),
            None => None,
        }
    }

    /// Index of the innermost scope binding `name`.
    pub fn lookup_local_slot(&self, name: SymbolId) -> (r: Option<usize>)
        ensures
            r matches Some(i) ==> slot_of(self.values(), name, self.values().len() as int) == Some(
                i as int,
            ),
            r is None ==> slot_of(self.values(), name, self.values().len() as int) is None,
    {
        match find_slot(&self.values, name) {
            Some((si, _)) => Some(si),
            None => None,
        }
    }

    pub fn lookup_local_at(&self, scope_idx: usize, name: SymbolId) -> (r: Option<ConstValue>)
        ensures
            scope_idx < self.values().len() ==> r == find_entry(self.values()[scope_idx as int], name),
            scope_idx >= self.values().len() ==> r is None,
    {
        if scope_idx >= self.values.len() {
            return None;
        }
        match find_in_scope(&self.values[scope_idx], name) {
            Some(ei) => Some(self.values[scope_idx][ei].1.copy()),
            None => None,
        }
    }

    pub fn lookup_local_type(&self, name: SymbolId) -> (r: Option<TypeId>)
        ensures
            r == lookup_scopes(self.local_types(), name),
    {
        match find_slot(&self.local_types, name) {
            Some((si, ei)) => Some(self.local_types[si][ei].1),
            None => None,
        }
    }

    pub fn lookup_local_mutability_at(&self, scope_idx: usize, name: SymbolId) -> (r: Option<bool>)
        ensures
            scope_idx < self.mutability().len() ==> r == find_entry(
                self.mutability()[scope_idx as int],
                name,
            ),
            scope_idx >= self.mutability().len() ==> r is None,
    {
        if scope_idx >= self.mutability.len() {
            return None;
        }
        match find_in_scope(&self.mutability[scope_idx], name) {
            Some(ei) => Some(self.mutability[scope_idx][ei].1),
            None => None,
        }
    }

    /// Overwrites an existing binding of `name` in scope `scope_idx`; false
    /// where there is none.
    pub fn assign_local_at(&mut self, scope_idx: usize, name: SymbolId, value: ConstValue) -> (r:
        bool)
        requires
            old(self).wf(),
        ensures
            final(self).wf(),
            r == (scope_idx < old(self).values().len() && find_entry(
                old(self).values()[scope_idx as int],
                name,
            ) is Some),
            r ==> final(self).values() == old(self).values().update(
                scope_idx as int,
                set_entry(old(self).values()[scope_idx as int], name, value),
            ),
            !r ==> final(self).values() == old(self).values(),
            final(self).local_types() == old(self).local_types(),
            final(self).mutability() == old(self).mutability(),
            final(self).substs() == old(self).substs(),
            final(self).returned() == old(self).returned(),
            final(self).control() == old(self).control(),
            final(self).loops() == old(self).loops(),
            final(self).functions() == old(self).functions(),
            final(self).return_tys() == old(self).return_tys(),
            final(self).expected() == old(self).expected(),
            final(self).non_const_calls() == old(self).non_const_calls(),
    {
        if scope_idx >= self.values.len() {
            return false;
        }
        match find_in_scope(&self.values[scope_idx], name) {
            Some(_) => {
                let ghost before = self.values();
                let mut scopes = Vec::new();
                std::mem::swap(&mut scopes, &mut self.values);
                let mut scope = scopes.remove(scope_idx);
                set_in_scope(&mut scope, name, value);
                scopes.insert(scope_idx, scope);
                self.values = scopes;
                assert(self.values() =~= before.update(
                    scope_idx as int,
                    set_entry(before[scope_idx as int], name, value),
                ));
                true
            },
            None => false,
        }
    }

    pub fn push_type_subst(&mut self, map: Vec<(SymbolId, GenericArg)>)
        ensures
            final(self).substs() == old(self).substs().push(map@),
            final(self).values() == old(self).values(),
            final(self).local_types() == old(self).local_types(),
            final(self).mutability() == old(self).mutability(),
            final(self).returned() == old(self).returned(),
            final(self).control() == old(self).control(),
            final(self).loops() == old(self).loops(),
            final(self).functions() == old(self).functions(),
            final(self).return_tys() == old(self).return_tys(),
            final(self).expected() == old(self).expected(),
            final(self).non_const_calls() == old(self).non_const_calls(),
    {
        self.type_substs.push(map);
        assert(self.substs() =~= old(self).substs().push(map@));
    }

    pub fn pop_type_subst(&mut self)
        ensures
            final(self).substs() == (if old(self).substs().len() == 0 {
                old(self).substs()
            } else {
                old(self).substs().drop_last()
            }),
            final(self).values() == old(self).values(),
            final(self).local_types() == old(self).local_types(),
            final(self).mutability() == old(self).mutability(),
            final(self).returned() == old(self).returned(),
            final(self).control() == old(self).control(),
            final(self).loops() == old(self).loops(),
            final(self).functions() == old(self).functions(),
            final(self).return_tys() == old(self).return_tys(),
            final(self).expected() == old(self).expected(),
            final(self).non_const_calls() == old(self).non_const_calls(),
    {
        let _ = self.type_substs.pop();
        assert(self.substs() =~= (if old(self).substs().len() == 0 {
            old(self).substs()
        } else {
            old(self).substs().drop_last()
        }));
    }

    /// The argument bound to generic parameter `name`, innermost map first.
    pub fn lookup_subst(&self, name: SymbolId) -> (r: Option<GenericArg>)
        ensures
            r == lookup_scopes(self.substs(), name),
    {
        match find_slot(&self.type_substs, name) {
            Some((si, ei)) => Some(self.type_substs[si][ei].1),
            None => None,
        }
    }

    pub fn has_return_value(&self) -> (r: bool)
        ensures
            r == self.returned() is Some,
    {
        self.return_value.is_some()
    }

    pub fn set_return_value(&mut self, v: ConstValue)
        ensures
            final(self).returned() == Some(v),
            final(self).values() == old(self).values(),
            final(self).local_types() == old(self).local_types(),
            final(self).mutability() == old(self).mutability(),
            final(self).substs() == old(self).substs(),
            final(self).control() == old(self).control(),
            final(self).loops() == old(self).loops(),
            final(self).functions() == old(self).functions(),
            final(self).return_tys() == old(self).return_tys(),
            final(self).expected() == old(self).expected(),
            final(self).non_const_calls() == old(self).non_const_calls(),
    {
        self.return_value = Some(v);
    }

    pub fn take_return_value(&mut self) -> (r: Option<ConstValue>)
        ensures
            r == old(self).returned(),
            final(self).returned() is None,
            final(self).values() == old(self).values(),
            final(self).local_types() == old(self).local_types(),
            final(self).mutability() == old(self).mutability(),
            final(self).substs() == old(self).substs(),
            final(self).control() == old(self).control(),
            final(self).loops() == old(self).loops(),
            final(self).functions() == old(self).functions(),
            final(self).return_tys() == old(self).return_tys(),
            final(self).expected() == old(self).expected(),
            final(self).non_const_calls() == old(self).non_const_calls(),
    {
        self.return_value.take()
    }

    pub fn restore_return_value(&mut self, v: Option<ConstValue>)
        ensures
            final(self).returned() == v,
            final(self).values() == old(self).values(),
            final(self).local_types() == old(self).local_types(),
            final(self).mutability() == old(self).mutability(),
            final(self).substs() == old(self).substs(),
            final(self).control() == old(self).control(),
            final(self).loops() == old(self).loops(),
            final(self).functions() == old(self).functions(),
            final(self).return_tys() == old(self).return_tys(),
            final(self).expected() == old(self).expected(),
            final(self).non_const_calls() == old(self).non_const_calls(),
    {
        self.return_value = v;
    }

    pub fn loop_control(&self) -> (r: Option<LoopControl>)
        ensures
            r == self.control(),
    {
        self.loop_control
    }

    pub fn set_loop_control(&mut self, c: Option<LoopControl>)
        ensures
            final(self).control() == c,
            final(self).values() == old(self).values(),
            final(self).local_types() == old(self).local_types(),
            final(self).mutability() == old(self).mutability(),
            final(self).substs() == old(self).substs(),
            final(self).returned() == old(self).returned(),
            final(self).loops() == old(self).loops(),
            final(self).functions() == old(self).functions(),
            final(self).return_tys() == old(self).return_tys(),
            final(self).expected() == old(self).expected(),
            final(self).non_const_calls() == old(self).non_const_calls(),
    {
        self.loop_control = c;
    }

    pub fn in_loop(&self) -> (r: bool)
        ensures
            r == (self.loops() > 0),
    {
        self.loop_depth > 0
    }

    pub fn in_function(&self) -> (r: bool)
        ensures
            r == (self.functions() > 0),
    {
        self.function_depth > 0
    }

    pub fn current_function_depth(&self) -> (r: usize)
        ensures
            r == self.functions(),
    {
        self.function_depth
    }

    /// Sets the loop nesting depth, returning the previous one.
    pub fn replace_loop_depth(&mut self, depth: usize) -> (r: usize)
        ensures
            r == old(self).loops(),
            final(self).loops() == depth,
            final(self).values() == old(self).values(),
            final(self).local_types() == old(self).local_types(),
            final(self).mutability() == old(self).mutability(),
            final(self).substs() == old(self).substs(),
            final(self).returned() == old(self).returned(),
            final(self).control() == old(self).control(),
            final(self).functions() == old(self).functions(),
            final(self).return_tys() == old(self).return_tys(),
            final(self).expected() == old(self).expected(),
            final(self).non_const_calls() == old(self).non_const_calls(),
    {
        let r = self.loop_depth;
        self.loop_depth = depth;
        r
    }

    /// Sets the function nesting depth, returning the previous one.
    pub fn replace_function_depth(&mut self, depth: usize) -> (r: usize)
        ensures
            r == old(self).functions(),
            final(self).functions() == depth,
            final(self).values() == old(self).values(),
            final(self).local_types() == old(self).local_types(),
            final(self).mutability() == old(self).mutability(),
            final(self).substs() == old(self).substs(),
            final(self).returned() == old(self).returned(),
            final(self).control() == old(self).control(),
            final(self).loops() == old(self).loops(),
            final(self).return_tys() == old(self).return_tys(),
            final(self).expected() == old(self).expected(),
            final(self).non_const_calls() == old(self).non_const_calls(),
    {
        let r = self.function_depth;
        self.function_depth = depth;
        r
    }

    pub fn push_return_type(&mut self, ty: TypeId)
        ensures
            final(self).return_tys() == old(self).return_tys().push(ty),
            final(self).values() == old(self).values(),
            final(self).local_types() == old(self).local_types(),
            final(self).mutability() == old(self).mutability(),
            final(self).substs() == old(self).substs(),
            final(self).returned() == old(self).returned(),
            final(self).control() == old(self).control(),
            final(self).loops() == old(self).loops(),
            final(self).functions() == old(self).functions(),
            final(self).expected() == old(self).expected(),
            final(self).non_const_calls() == old(self).non_const_calls(),
    {
        self.return_types.push(ty);
    }

    pub fn pop_return_type(&mut self)
        ensures
            final(self).return_tys() == (if old(self).return_tys().len() == 0 {
                old(self).return_tys()
            } else {
                old(self).return_tys().drop_last()
            }),
            final(self).values() == old(self).values(),
            final(self).local_types() == old(self).local_types(),
            final(self).mutability() == old(self).mutability(),
            final(self).substs() == old(self).substs(),
            final(self).returned() == old(self).returned(),
            final(self).control() == old(self).control(),
            final(self).loops() == old(self).loops(),
            final(self).functions() == old(self).functions(),
            final(self).expected() == old(self).expected(),
            final(self).non_const_calls() == old(self).non_const_calls(),
    {
        let _ = self.return_types.pop();
    }

    /// The declared return type of the innermost function being evaluated.
    pub fn current_return_type(&self) -> (r: Option<TypeId>)
        ensures
            r == (if self.return_tys().len() == 0 {
                None
            } else {
                Some(self.return_tys().last())
            }),
    {
        if self.return_types.len() == 0 {
            None
        } else {
            Some(self.return_types[self.return_types.len() - 1])
        }
    }

    pub fn push_expected_type(&mut self, ty: TypeId)
        ensures
            final(self).expected() == old(self).expected().push(ty),
            final(self).values() == old(self).values(),
            final(self).local_types() == old(self).local_types(),
            final(self).mutability() == old(self).mutability(),
            final(self).substs() == old(self).substs(),
            final(self).returned() == old(self).returned(),
            final(self).control() == old(self).control(),
            final(self).loops() == old(self).loops(),
            final(self).functions() == old(self).functions(),
            final(self).return_tys() == old(self).return_tys(),
            final(self).non_const_calls() == old(self).non_const_calls(),
    {
        self.expected_types.push(ty);
    }

    pub fn pop_expected_type(&mut self)
        ensures
            final(self).expected() == (if old(self).expected().len() == 0 {
                old(self).expected()
            } else {
                old(self).expected().drop_last()
            }),
            final(self).values() == old(self).values(),
            final(self).local_types() == old(self).local_types(),
            final(self).mutability() == old(self).mutability(),
            final(self).substs() == old(self).substs(),
            final(self).returned() == old(self).returned(),
            final(self).control() == old(self).control(),
            final(self).loops() == old(self).loops(),
            final(self).functions() == old(self).functions(),
            final(self).return_tys() == old(self).return_tys(),
            final(self).non_const_calls() == old(self).non_const_calls(),
    {
        let _ = self.expected_types.pop();
    }

    pub fn current_expected_type(&self) -> (r: Option<TypeId>)
        ensures
            r == (if self.expected().len() == 0 {
                None
            } else {
                Some(self.expected().last())
            }),
    {
        if self.expected_types.len() == 0 {
            None
        } else {
            Some(self.expected_types[self.expected_types.len() - 1])
        }
    }
}

} // verus!

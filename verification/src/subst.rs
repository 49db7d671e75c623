//! Substitution of generic parameters in types: every `Param(name)` bound by
//! the map is replaced by the type it stands for, and the types built on it
//! are interned anew.

use vstd::prelude::*;
use crate::types::{TypeId, SymbolId, TypeKind, TypeRegistry, children_below, ids_below, same_kind};
use crate::eval_state::{find_entry, find_in_scope};

verus! {

/// The component types of `k`, in order; lists are flattened, a function's
/// return type comes last. Aliases and leaves have none.
pub open spec fn children(k: TypeKind) -> Seq<TypeId> {
    match k {
        TypeKind::Pointer { elem, .. } | TypeKind::VolatilePtr { elem, .. } | TypeKind::Slice {
            elem,
            ..
        } | TypeKind::Array { elem, .. } | TypeKind::ArrayInfer { elem, .. } | TypeKind::Simd {
            elem,
            ..
        } => seq![elem],
        TypeKind::Def(_, args) | TypeKind::Enum(_, args) | TypeKind::TraitObject(_, args)
        | TypeKind::FnDef(_, args) => args@,
        TypeKind::Function { params, ret, .. } | TypeKind::ClosureInterface { params, ret } => params@.push(
            ret,
        ),
        TypeKind::AnonymousState { captures, params, ret } => captures@ + params@.push(ret),
        _ => Seq::empty(),
    }
}

/// `a` and `b` are the same type constructor with the same non-type
/// attributes and lists of the same lengths.
pub open spec fn same_head(a: TypeKind, b: TypeKind) -> bool {
    match (a, b) {
        (TypeKind::Pointer { is_mut: m1, .. }, TypeKind::Pointer { is_mut: m2, .. }) => m1 == m2,
        (TypeKind::VolatilePtr { is_mut: m1, .. }, TypeKind::VolatilePtr { is_mut: m2, .. }) => m1 == m2,
        (TypeKind::Slice { is_mut: m1, .. }, TypeKind::Slice { is_mut: m2, .. }) => m1 == m2,
        (TypeKind::Array { is_mut: m1, len: l1, .. }, TypeKind::Array { is_mut: m2, len: l2, .. }) => m1 == m2
            && l1 == l2,
        (TypeKind::ArrayInfer { is_mut: m1, .. }, TypeKind::ArrayInfer { is_mut: m2, .. }) => m1 == m2,
        (TypeKind::Simd { lanes: l1, .. }, TypeKind::Simd { lanes: l2, .. }) => l1 == l2,
        (TypeKind::Def(d1, a1), TypeKind::Def(d2, a2)) => d1 == d2 && a1@.len() == a2@.len(),
        (TypeKind::Enum(d1, a1), TypeKind::Enum(d2, a2)) => d1 == d2 && a1@.len() == a2@.len(),
        (TypeKind::TraitObject(d1, a1), TypeKind::TraitObject(d2, a2)) => d1 == d2 && a1@.len()
            == a2@.len(),
        (TypeKind::FnDef(d1, a1), TypeKind::FnDef(d2, a2)) => d1 == d2 && a1@.len() == a2@.len(),
        (
            TypeKind::Function { params: p1, is_variadic: v1, .. },
            TypeKind::Function { params: p2, is_variadic: v2, .. },
        ) => v1 == v2 && p1@.len() == p2@.len(),
        (TypeKind::ClosureInterface { params: p1, .. }, TypeKind::ClosureInterface { params: p2, .. }) => p1@.len()
            == p2@.len(),
        (
            TypeKind::AnonymousState { captures: c1, params: p1, .. },
            TypeKind::AnonymousState { captures: c2, params: p2, .. },
        ) => c1@.len() == c2@.len() && p1@.len() == p2@.len(),
        _ => false,
    }
}

/// `r` is `t` with the parameters bound in `map` replaced: a parameter by
/// its binding, an alias by the substitution of what it names, a type built
/// on others by a type of the same constructor built on their substitutions.
pub open spec fn subst_rel(types: TypeRegistry, map: Seq<(SymbolId, TypeId)>, t: TypeId, r: TypeId) -> bool
    decreases t,
{
    if !types.valid(t) {
        r == t
    } else {
        match types.kind(t) {
            TypeKind::Param(n) => r == (match find_entry(map, n) {
                Some(x) => x,
                None => t,
            }),
            TypeKind::Alias(_, target) => target < t && ((r == t && subst_rel(types, map, target, target))
                || subst_rel(types, map, target, r)),
            _ => {
                let cs = children(types.kind(t));
                if cs.len() == 0 {
                    r == t
                } else {
                    &&& types.valid(r)
                    &&& same_head(types.kind(r), types.kind(t))
                    &&& children(types.kind(r)).len() == cs.len()
                    &&& forall|i: int|
                        #![trigger children(types.kind(t))[i]]
                        #![trigger children(types.kind(r))[i]]
                        0 <= i < cs.len() ==> children(types.kind(t))[i] < t && subst_rel(
                            types,
                            map,
                            children(types.kind(t))[i],
                            children(types.kind(r))[i],
                        )
                }
            },
        }
    }
}

/// The component types of a kind are below `b` exactly where the kind's
/// children are.
pub proof fn lemma_children_below(k: TypeKind, b: int)
    ensures
        !(k is Alias) ==> (children_below(k, b) <==> (forall|i: int|
            0 <= i < children(k).len() ==> #[trigger] children(k)[i] < b)),
{
    match k {
        TypeKind::Def(_, args) => lemma_ids_children(k, args@, b),
        TypeKind::Enum(_, args) => lemma_ids_children(k, args@, b),
        TypeKind::TraitObject(_, args) => lemma_ids_children(k, args@, b),
        TypeKind::FnDef(_, args) => lemma_ids_children(k, args@, b),
        TypeKind::Pointer { elem, .. } => {
            lemma_ids_one(elem, b);
            lemma_ids_children(k, seq![elem], b);
        },
        TypeKind::VolatilePtr { elem, .. } => {
            lemma_ids_one(elem, b);
            lemma_ids_children(k, seq![elem], b);
        },
        TypeKind::Slice { elem, .. } => {
            lemma_ids_one(elem, b);
            lemma_ids_children(k, seq![elem], b);
        },
        TypeKind::Array { elem, .. } => {
            lemma_ids_one(elem, b);
            lemma_ids_children(k, seq![elem], b);
        },
        TypeKind::ArrayInfer { elem, .. } => {
            lemma_ids_one(elem, b);
            lemma_ids_children(k, seq![elem], b);
        },
        TypeKind::Simd { elem, .. } => {
            lemma_ids_one(elem, b);
            lemma_ids_children(k, seq![elem], b);
        },
        TypeKind::Function { params, ret, .. } => {
            lemma_ids_push(params@, ret, b);
            lemma_ids_children(k, params@.push(ret), b);
        },
        TypeKind::ClosureInterface { params, ret } => {
            lemma_ids_push(params@, ret, b);
            lemma_ids_children(k, params@.push(ret), b);
        },
        TypeKind::AnonymousState { captures, params, ret } => {
            lemma_ids_push(params@, ret, b);
            lemma_ids_concat(captures@, params@.push(ret), b);
            lemma_ids_children(k, captures@ + params@.push(ret), b);
        },
        _ => {},
    }
}

proof fn lemma_ids_one(x: TypeId, b: int)
    ensures
        ids_below(seq![x], b) == (x < b),
{
    assert(seq![x][0] == x);
}

proof fn lemma_ids_push(ids: Seq<TypeId>, x: TypeId, b: int)
    ensures
        ids_below(ids.push(x), b) == (ids_below(ids, b) && x < b),
{
    if ids_below(ids.push(x), b) {
        assert(ids.push(x)[ids.len() as int] == x);
        assert forall|i: int| 0 <= i < ids.len() implies #[trigger] ids[i] < b by {
            assert(ids.push(x)[i] == ids[i]);
        }
    }
    if ids_below(ids, b) && x < b {
        assert forall|i: int| 0 <= i < ids.push(x).len() implies #[trigger] ids.push(x)[i] < b by {
            if i < ids.len() {
                assert(ids.push(x)[i] == ids[i]);
            }
        }
    }
}

proof fn lemma_ids_concat(a: Seq<TypeId>, c: Seq<TypeId>, b: int)
    ensures
        ids_below(a + c, b) == (ids_below(a, b) && ids_below(c, b)),
{
    if ids_below(a + c, b) {
        assert forall|i: int| 0 <= i < a.len() implies #[trigger] a[i] < b by {
            assert((a + c)[i] == a[i]);
        }
        assert forall|i: int| 0 <= i < c.len() implies #[trigger] c[i] < b by {
            assert((a + c)[a.len() + i] == c[i]);
        }
    }
    if ids_below(a, b) && ids_below(c, b) {
        assert forall|i: int| 0 <= i < (a + c).len() implies #[trigger] (a + c)[i] < b by {
            if i < a.len() {
                assert((a + c)[i] == a[i]);
            } else {
                assert((a + c)[i] == c[i - a.len()]);
            }
        }
    }
}

proof fn lemma_ids_children(k: TypeKind, args: Seq<TypeId>, b: int)
    requires
        children(k) == args,
        children_below(k, b) == ids_below(args, b),
    ensures
        children_below(k, b) <==> (forall|i: int| 0 <= i < children(k).len() ==> #[trigger] children(k)[i] < b),
{
    if children_below(k, b) {
        assert forall|i: int| 0 <= i < children(k).len() implies #[trigger] children(k)[i] < b by {
            assert(args[i] < b);
        }
    }
    if forall|i: int| 0 <= i < children(k).len() ==> #[trigger] children(k)[i] < b {
        assert forall|i: int| 0 <= i < args.len() implies #[trigger] args[i] < b by {
            assert(children(k)[i] < b);
        }
        assert(ids_below(args, b));
    }
}

/// A type of a registry keeps its kind as the registry grows.
pub proof fn lemma_prefix_kind(t1: TypeRegistry, t2: TypeRegistry, x: TypeId)
    requires
        t1.kinds().is_prefix_of(t2.kinds()),
        t1.valid(x),
    ensures
        t2.valid(x),
        t2.kind(x) == t1.kind(x),
{
    assert(t1.kinds()[x as int] == t2.kinds().subrange(0, t1.kinds().len() as int)[x as int]);
}

/// Substitution results stay what they are as the registry grows.
pub proof fn lemma_subst_grow(
    t1: TypeRegistry,
    t2: TypeRegistry,
    map: Seq<(SymbolId, TypeId)>,
    t: TypeId,
    r: TypeId,
)
    requires
        t1.kinds().is_prefix_of(t2.kinds()),
        t1.valid(t),
        subst_rel(t1, map, t, r),
    ensures
        subst_rel(t2, map, t, r),
    decreases t,
{
    lemma_prefix_kind(t1, t2, t);
    match t1.kind(t) {
        TypeKind::Param(_) => {},
        TypeKind::Alias(_, target) => {
            if r == t && subst_rel(t1, map, target, target) {
                lemma_subst_grow(t1, t2, map, target, target);
            } else {
                lemma_subst_grow(t1, t2, map, target, r);
            }
        },
        _ => {
            let cs = children(t1.kind(t));
            if cs.len() > 0 {
                assert(t1.valid(r));
                assert(same_head(t1.kind(r), t1.kind(t)));
                assert(forall|i: int| 0 <= i < cs.len() ==> cs[i] < t);
                lemma_prefix_kind(t1, t2, r);
                let d1 = children(t1.kind(r));
                let d2 = children(t2.kind(r));
                assert(d1 == d2);
                assert(children(t2.kind(t)) == cs);
                assert forall|i: int| 0 <= i < cs.len() implies cs[i] < t && subst_rel(
                    t2,
                    map,
                    cs[i],
                    #[trigger] d2[i],
                ) by {
                    assert(cs[i] < t && subst_rel(t1, map, cs[i], d1[i]));
                    lemma_subst_grow(t1, t2, map, cs[i], d1[i]);
                }
                assert(subst_rel(t2, map, t, r));
            }
        },
    }
}

/// With nothing to substitute, every type of the registry is its own
/// substitution.
pub proof fn lemma_subst_empty(types: TypeRegistry, t: TypeId)
    requires
        types.wf(),
    ensures
        subst_rel(types, Seq::empty(), t, t),
    decreases t,
{
    if types.valid(t) {
        assert(children_below(types.kinds()[t as int], t as int));
        lemma_children_below(types.kind(t), t as int);
        match types.kind(t) {
            TypeKind::Param(_) => {},
            TypeKind::Alias(_, target) => {
                lemma_subst_empty(types, target);
            },
            _ => {
                let cs = children(types.kind(t));
                if cs.len() > 0 {
                    lemma_same_kind_refl_head(types.kind(t));
                    assert forall|i: int| 0 <= i < cs.len() implies cs[i] < t && subst_rel(
                        types,
                        Seq::empty(),
                        cs[i],
                        #[trigger] children(types.kind(t))[i],
                    ) by {
                        lemma_subst_empty(types, cs[i]);
                    }
                }
            },
        }
    }
}

/// Equal kinds have the same head and the same children.
pub proof fn lemma_same_kind_head(x: TypeKind, y: TypeKind, z: TypeKind)
    requires
        same_kind(x, y),
    ensures
        children(x) == children(y),
        same_head(y, z) ==> same_head(x, z),
{
}

/// Every type `map` binds a parameter to is in the registry.
pub open spec fn map_valid(types: TypeRegistry, map: Seq<(SymbolId, TypeId)>) -> bool {
    forall|j: int| 0 <= j < map.len() ==> types.valid(#[trigger] map[j].1)
}

/// Decides `map_valid`.
pub fn map_in_registry(types: &TypeRegistry, map: &Vec<(SymbolId, TypeId)>) -> (r: bool)
    ensures
        r == map_valid(*types, map@),
{
    let mut i: usize = 0;
    while i < map.len()
        invariant
            i <= map@.len(),
            forall|j: int| 0 <= j < i ==> types.valid(#[trigger] map@[j].1),
        decreases map@.len() - i,
    {
        if (map[i].1 as usize) >= types.num_types() {
            return false;
        }
        i = i + 1;
    }
    true
}

/// A copy of `v`.
pub fn copy_ids(v: &Vec<TypeId>) -> (r: Vec<TypeId>)
    ensures
        r@ == v@,
{
    let mut r: Vec<TypeId> = Vec::new();
    let mut i: usize = 0;
    while i < v.len()
        invariant
            i <= v@.len(),
            r@ == v@.subrange(0, i as int),
        decreases v@.len() - i,
    {
        r.push(v[i]);
        i = i + 1;
        assert(r@ =~= v@.subrange(0, i as int));
    }
    assert(r@ =~= v@);
    r
}

/// The ids `v[lo..hi]`.
fn slice_ids(v: &Vec<TypeId>, lo: usize, hi: usize) -> (r: Vec<TypeId>)
    requires
        lo <= hi <= v@.len(),
    ensures
        r@ == v@.subrange(lo as int, hi as int),
{
    let mut r: Vec<TypeId> = Vec::new();
    let mut i: usize = lo;
    while i < hi
        invariant
            lo <= i <= hi,
            hi <= v@.len(),
            r@ == v@.subrange(lo as int, i as int),
        decreases hi - i,
    {
        r.push(v[i]);
        i = i + 1;
        assert(r@ =~= v@.subrange(lo as int, i as int));
    }
    r
}

/// The children of `k`, as a vector.
pub fn children_of(k: &TypeKind) -> (r: Vec<TypeId>)
    ensures
        r@ == children(*k),
{
    match k {
        TypeKind::Pointer { elem, .. } | TypeKind::VolatilePtr { elem, .. } | TypeKind::Slice {
            elem,
            ..
        } | TypeKind::Array { elem, .. } | TypeKind::ArrayInfer { elem, .. } | TypeKind::Simd {
            elem,
            ..
        } => {
            let mut r: Vec<TypeId> = Vec::new();
            r.push(*elem);
            assert(r@ =~= seq![*elem]);
            r
        },
        TypeKind::Def(_, args) | TypeKind::Enum(_, args) | TypeKind::TraitObject(_, args)
        | TypeKind::FnDef(_, args) => copy_ids(args),
        TypeKind::Function { params, ret, .. } | TypeKind::ClosureInterface { params, ret } => {
            let mut r = copy_ids(params);
            r.push(*ret);
            r
        },
        TypeKind::AnonymousState { captures, params, ret } => {
            let mut r = copy_ids(captures);
            let mut i: usize = 0;
            while i < params.len()
                invariant
                    i <= params@.len(),
                    r@ == captures@ + params@.subrange(0, i as int),
                decreases params@.len() - i,
            {
                r.push(params[i]);
                i = i + 1;
                assert(r@ =~= captures@ + params@.subrange(0, i as int));
            }
            r.push(*ret);
            assert(r@ =~= captures@ + params@.push(*ret));
            r
        },
        _ => {
            let r: Vec<TypeId> = Vec::new();
            assert(r@ =~= Seq::<TypeId>::empty());
            r
        },
    }
}

/// A copy of `k`.
pub fn copy_kind(k: &TypeKind) -> (r: TypeKind)
    ensures
        same_kind(r, *k),
{
    match k {
        TypeKind::Error => TypeKind::Error,
        TypeKind::Primitive(p) => TypeKind::Primitive(*p),
        TypeKind::Pointer { is_mut, elem } => TypeKind::Pointer { is_mut: *is_mut, elem: *elem },
        TypeKind::VolatilePtr { is_mut, elem } => TypeKind::VolatilePtr { is_mut: *is_mut, elem: *elem },
        TypeKind::Slice { is_mut, elem } => TypeKind::Slice { is_mut: *is_mut, elem: *elem },
        TypeKind::Array { is_mut, elem, len } => TypeKind::Array { is_mut: *is_mut, elem: *elem, len: *len },
        TypeKind::ArrayInfer { is_mut, elem } => TypeKind::ArrayInfer { is_mut: *is_mut, elem: *elem },
        TypeKind::Simd { elem, lanes } => TypeKind::Simd { elem: *elem, lanes: *lanes },
        TypeKind::Alias(s, t) => TypeKind::Alias(*s, *t),
        TypeKind::Param(s) => TypeKind::Param(*s),
        TypeKind::TypeVar(v) => TypeKind::TypeVar(*v),
        TypeKind::Module(d) => TypeKind::Module(*d),
        TypeKind::Def(d, a) => TypeKind::Def(*d, copy_ids(a)),
        TypeKind::Enum(d, a) => TypeKind::Enum(*d, copy_ids(a)),
        TypeKind::TraitObject(d, a) => TypeKind::TraitObject(*d, copy_ids(a)),
        TypeKind::FnDef(d, a) => TypeKind::FnDef(*d, copy_ids(a)),
        TypeKind::Function { params, ret, is_variadic } => TypeKind::Function {
            params: copy_ids(params),
            ret: *ret,
            is_variadic: *is_variadic,
        },
        TypeKind::ClosureInterface { params, ret } => TypeKind::ClosureInterface {
            params: copy_ids(params),
            ret: *ret,
        },
        TypeKind::AnonymousState { captures, params, ret } => TypeKind::AnonymousState {
            captures: copy_ids(captures),
            params: copy_ids(params),
            ret: *ret,
        },
    }
}

/// `k` with its children replaced by `cs`, in order.
pub fn rebuild(k: &TypeKind, cs: &Vec<TypeId>) -> (r: TypeKind)
    requires
        cs@.len() == children(*k).len(),
        children(*k).len() > 0,
    ensures
        same_head(r, *k),
        children(r) == cs@,
{
    match k {
        TypeKind::Pointer { is_mut, .. } => TypeKind::Pointer { is_mut: *is_mut, elem: cs[0] },
        TypeKind::VolatilePtr { is_mut, .. } => TypeKind::VolatilePtr { is_mut: *is_mut, elem: cs[0] },
        TypeKind::Slice { is_mut, .. } => TypeKind::Slice { is_mut: *is_mut, elem: cs[0] },
        TypeKind::Array { is_mut, len, .. } => TypeKind::Array { is_mut: *is_mut, elem: cs[0], len: *len },
        TypeKind::ArrayInfer { is_mut, .. } => TypeKind::ArrayInfer { is_mut: *is_mut, elem: cs[0] },
        TypeKind::Simd { lanes, .. } => TypeKind::Simd { elem: cs[0], lanes: *lanes },
        TypeKind::Def(d, _) => TypeKind::Def(*d, copy_ids(cs)),
        TypeKind::Enum(d, _) => TypeKind::Enum(*d, copy_ids(cs)),
        TypeKind::TraitObject(d, _) => TypeKind::TraitObject(*d, copy_ids(cs)),
        TypeKind::FnDef(d, _) => TypeKind::FnDef(*d, copy_ids(cs)),
        TypeKind::Function { is_variadic, .. } => {
            let n = cs.len() - 1;
            let ps = slice_ids(cs, 0, n);
            assert(ps@.push(cs@[n as int]) =~= cs@);
            TypeKind::Function { params: ps, ret: cs[n], is_variadic: *is_variadic }
        },
        TypeKind::ClosureInterface { .. } => {
            let n = cs.len() - 1;
            let ps = slice_ids(cs, 0, n);
            assert(ps@.push(cs@[n as int]) =~= cs@);
            TypeKind::ClosureInterface { params: ps, ret: cs[n] }
        },
        TypeKind::AnonymousState { captures, params, .. } => {
            let cl = captures.len();
            let pl = params.len();
            let n = cs.len() - 1;
            let c2 = slice_ids(cs, 0, cl);
            let p2 = slice_ids(cs, cl, n);
            assert(c2@ + p2@.push(cs@[n as int]) =~= cs@);
            TypeKind::AnonymousState { captures: c2, params: p2, ret: cs[n] }
        },
        _ => {
            assert(false);
            TypeKind::Error
        },
    }
}

impl TypeRegistry {
    /// Interns `k` where the registry has room for one more type.
    pub fn intern_checked(&mut self, k: TypeKind) -> (r: Option<TypeId>)
        requires
            old(self).wf(),
            children_below(k, old(self).len() as int),
        ensures
            final(self).wf(),
            final(self).ptr_bytes() == old(self).ptr_bytes(),
            old(self).kinds().is_prefix_of(final(self).kinds()),
            r matches Some(x) ==> final(self).valid(x) && same_kind(final(self).kind(x), k),
            r matches Some(x) ==> forall|j: int| 0 <= j < x ==> !same_kind(#[trigger] final(self).kinds()[j], k),
            r is None <==> old(self).len() >= u32::MAX,
            r is None ==> final(self).kinds() == old(self).kinds(),
    {
        if self.num_types() >= 0xffff_ffffusize {
            assert(old(self).kinds().is_prefix_of(self.kinds()));
            return None;
        }
        Some(self.intern(k))
    }

    /// Substitutes the parameters bound in `map` throughout `t`; `None` where
    /// the registry runs out of type ids on the way.
    pub fn substitute(&mut self, map: &Vec<(SymbolId, TypeId)>, t: TypeId) -> (r: Option<TypeId>)
        requires
            old(self).wf(),
            map_valid(*old(self), map@),
        ensures
            final(self).wf(),
            final(self).ptr_bytes() == old(self).ptr_bytes(),
            old(self).kinds().is_prefix_of(final(self).kinds()),
            r matches Some(x) ==> subst_rel(*final(self), map@, t, x),
            r matches Some(x) ==> (old(self).valid(t) ==> final(self).valid(x)),
            r is None ==> final(self).len() >= u32::MAX,
            map@.len() == 0 ==> r == Some(t),
        decreases t,
    {
        if (t as usize) >= self.num_types() {
            return Some(t);
        }
        proof {
            assert(children_below(self.kinds()[t as int], t as int));
            lemma_children_below(self.kind(t), t as int);
        }
        let (param, alias) = match self.get(t) {
            TypeKind::Param(n) => (Some(*n), None),
            TypeKind::Alias(_, target) => (None, Some(*target)),
            _ => (None, None),
        };
        if let Some(n) = param {
            return match find_in_scope(map, n) {
                Some(i) => Some(map[i].1),
                None => Some(t),
            };
        }
        if let Some(target) = alias {
            let r = self.substitute(map, target);
            return match r {
                Some(x) => if x == target {
                    Some(t)
                } else {
                    Some(x)
                },
                None => None,
            };
        }
        let cs = children_of(self.get(t));
        if cs.len() == 0 {
            return Some(t);
        }
        let ghost t0 = *self;
        let ghost k = self.kind(t);
        let mut out: Vec<TypeId> = Vec::new();
        let mut changed = false;
        let mut i: usize = 0;
        while i < cs.len()
            invariant
                self.wf(),
                t0.wf(),
                t0.valid(t),
                map_valid(*self, map@),
                k == t0.kind(t),
                cs@ == children(k),
                forall|j: int| 0 <= j < cs@.len() ==> #[trigger] cs@[j] < t,
                self.ptr_bytes() == old(self).ptr_bytes(),
                old(self).kinds() == t0.kinds(),
                t0.kinds().is_prefix_of(self.kinds()),
                i <= cs@.len(),
                out@.len() == i,
                forall|j: int| 0 <= j < i ==> subst_rel(*self, map@, cs@[j], #[trigger] out@[j]),
                forall|j: int| 0 <= j < i ==> self.valid(#[trigger] out@[j]),
                changed <==> exists|j: int| 0 <= j < i && #[trigger] out@[j] != cs@[j],
                map@.len() == 0 ==> !changed,
            decreases cs@.len() - i,
        {
            let ghost before = *self;
            let x = match self.substitute(map, cs[i]) {
                Some(x) => x,
                None => {
                    return None;
                },
            };
            proof {
                assert forall|j: int| 0 <= j < i implies subst_rel(*self, map@, cs@[j], #[trigger] out@[j]) by {
                    lemma_subst_grow(before, *self, map@, cs@[j], out@[j]);
                }
                assert forall|j: int| 0 <= j < i implies self.valid(#[trigger] out@[j]) by {
                    assert(before.valid(out@[j]));
                }
            }
            if x != cs[i] {
                changed = true;
            }
            let ghost prev = out@;
            out.push(x);
            proof {
                assert(out@[i as int] == x);
                assert(forall|j: int| 0 <= j < i ==> out@[j] == prev[j]);
            }
            i = i + 1;
        }
        if !changed {
            proof {
                assert(self.kind(t) == k);
                assert(out@ =~= cs@);
                lemma_same_kind_refl_head(k);
            }
            return Some(t);
        }
        let nk = rebuild(self.get(t), &out);
        proof {
            assert(children(nk) == out@);
            lemma_children_below(nk, self.len() as int);
        }
        let ghost before = *self;
        let r = self.intern_checked(nk);
        match r {
            Some(x) => {
                proof {
                    lemma_same_kind_head(self.kind(x), nk, k);
                    assert forall|j: int| 0 <= j < cs@.len() implies cs@[j] < t && subst_rel(
                        *self,
                        map@,
                        cs@[j],
                        #[trigger] children(self.kind(x))[j],
                    ) by {
                        lemma_subst_grow(before, *self, map@, cs@[j], out@[j]);
                    }
                    assert(self.kind(t) == k);
                }
                Some(x)
            },
            None => None,
        }
    }
}

/// Every constructor has its own head.
pub proof fn lemma_same_kind_refl_head(k: TypeKind)
    requires
        children(k).len() > 0,
    ensures
        same_head(k, k),
{
}

} // verus!

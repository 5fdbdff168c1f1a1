use vstd::prelude::*;

use crate::hir::{lemma_models, model, models, ResolvedType, TypeModel, TypeParamId};

verus! {

/// The type bound to parameter `id` by the first `n` (parameter, type)
/// pairs; a later pair for the same parameter overrides an earlier one.
pub open spec fn bound_upto(params: Seq<TypeParamId>, args: Seq<TypeModel>, n: int, id: u32) -> Option<TypeModel>
    decreases n,
{
    if n <= 0 {
        None
    } else if params[n - 1].0 == id {
        Some(args[n - 1])
    } else {
        bound_upto(params, args, n - 1, id)
    }
}

/// `t` with every bound type parameter replaced by the type it is bound
/// to, where `lookup` gives the binding of each parameter.
pub open spec fn subst_model(lookup: spec_fn(u32) -> Option<TypeModel>, t: TypeModel) -> TypeModel
    decreases t,
{
    match t {
        TypeModel::TypeParam(id) => match lookup(id) {
            Some(b) => b,
            None => TypeModel::TypeParam(id),
        },
        TypeModel::Struct(id, args) => TypeModel::Struct(id, subst_models(lookup, args)),
        TypeModel::Interface(id, args) => TypeModel::Interface(id, subst_models(lookup, args)),
        TypeModel::Union(parts) => TypeModel::Union(subst_models(lookup, parts)),
        TypeModel::Function(params, ret) => TypeModel::Function(
            subst_models(lookup, params),
            Box::new(subst_model(lookup, *ret)),
        ),
        TypeModel::Primitive(p) => TypeModel::Primitive(p),
        TypeModel::Null => TypeModel::Null,
    }
}

/// `subst_model` applied to each element.
pub open spec fn subst_models(lookup: spec_fn(u32) -> Option<TypeModel>, s: Seq<TypeModel>) -> Seq<TypeModel>
    decreases s,
{
    if s.len() == 0 {
        Seq::empty()
    } else {
        subst_models(lookup, s.drop_last()).push(subst_model(lookup, s.last()))
    }
}

proof fn lemma_subst_models(lookup: spec_fn(u32) -> Option<TypeModel>, s: Seq<TypeModel>)
    ensures
        subst_models(lookup, s).len() == s.len(),
        forall|i: int| 0 <= i < s.len() ==> #[trigger] subst_models(lookup, s)[i] == subst_model(lookup, s[i]),
    decreases s.len(),
{
    if s.len() > 0 {
        lemma_subst_models(lookup, s.drop_last());
    }
}

/// `base` with parameter `from[k]` bound to the type parameter `to[k]`
/// as well, for each `k < n`; a later pair wins over an earlier one and
/// over `base`.
pub open spec fn rename_params(
    base: spec_fn(u32) -> Option<TypeModel>,
    from: Seq<TypeParamId>,
    to: Seq<TypeParamId>,
    n: int,
) -> spec_fn(u32) -> Option<TypeModel>
    decreases n,
{
    if n <= 0 {
        base
    } else {
        let prev = rename_params(base, from, to, n - 1);
        |id: u32|
            if id == from[n - 1].0 {
                Some(TypeModel::TypeParam(to[n - 1].0))
            } else {
                prev(id)
            }
    }
}

/// Bindings depend only on the pairs they read.
proof fn lemma_bound_upto_agree(
    p1: Seq<TypeParamId>,
    a1: Seq<TypeModel>,
    p2: Seq<TypeParamId>,
    a2: Seq<TypeModel>,
    n: int,
    id: u32,
)
    requires
        0 <= n,
        n <= p1.len(),
        n <= a1.len(),
        n <= p2.len(),
        n <= a2.len(),
        forall|k: int| 0 <= k < n ==> p1[k] == p2[k] && a1[k] == a2[k],
    ensures
        bound_upto(p1, a1, n, id) == bound_upto(p2, a2, n, id),
    decreases n,
{
    if n > 0 {
        lemma_bound_upto_agree(p1, a1, p2, a2, n - 1, id);
    }
}

/// Pairs appended after the first `n` rename parameters over what the first
/// `n` pairs bind.
proof fn lemma_renamed(
    p: Seq<TypeParamId>,
    a: Seq<TypeModel>,
    p0: Seq<TypeParamId>,
    a0: Seq<TypeModel>,
    from: Seq<TypeParamId>,
    to: Seq<TypeParamId>,
    n: int,
    k: int,
    id: u32,
    base: spec_fn(u32) -> Option<TypeModel>,
)
    requires
        0 <= n,
        0 <= k <= from.len(),
        k <= to.len(),
        n <= p0.len(),
        n <= a0.len(),
        p.len() >= n + k,
        a.len() >= n + k,
        forall|j: int| 0 <= j < n ==> p[j] == p0[j] && a[j] == a0[j],
        forall|j: int| 0 <= j < k ==> #[trigger] p[n + j] == from[j],
        forall|j: int| 0 <= j < k ==> #[trigger] a[n + j] == TypeModel::TypeParam(to[j].0),
        forall|x: u32| #[trigger] base(x) == bound_upto(p0, a0, n, x),
    ensures
        bound_upto(p, a, n + k, id) == rename_params(base, from, to, k)(id),
    decreases k,
{
    if k == 0 {
        lemma_bound_upto_agree(p, a, p0, a0, n, id);
    } else {
        lemma_renamed(p, a, p0, a0, from, to, n, k - 1, id, base);
        assert(p[n + k - 1] == from[k - 1]);
        assert(a[n + k - 1] == TypeModel::TypeParam(to[k - 1].0));
    }
}

/// A substitution of concrete types for type parameters: parameter `i`
/// is bound to argument `i`.
#[derive(Debug, Clone)]
pub struct Subst {
    params: Vec<TypeParamId>,
    args: Vec<ResolvedType>,
}

impl Subst {
    /// Number of (parameter, argument) pairs.
    pub closed spec fn len(&self) -> int {
        if self.params@.len() < self.args@.len() {
            self.params@.len() as int
        } else {
            self.args@.len() as int
        }
    }

    /// The type that parameter `id` is bound to, if any.
    pub closed spec fn binding(&self, id: u32) -> Option<TypeModel> {
        bound_upto(self.params@, models(self.args@), self.len(), id)
    }

    /// The binding of each parameter.
    pub open spec fn lookup(&self) -> spec_fn(u32) -> Option<TypeModel> {
        |id: u32| self.binding(id)
    }

    /// Binds each parameter to the argument at the same position; extra
    /// parameters or arguments are ignored, and a parameter listed twice
    /// keeps its last binding.
    pub fn new(params: Vec<TypeParamId>, args: Vec<ResolvedType>) -> (r: Self)
        ensures
            forall|id: u32| #[trigger] r.binding(id) == bound_upto(
                params@,
                models(args@),
                if params@.len() < args@.len() {
                    params@.len() as int
                } else {
                    args@.len() as int
                },
                id,
            ),
    {
        Subst { params, args }
    }

    /// The binding of `id`, copied.
    fn find(&self, id: TypeParamId) -> (r: Option<ResolvedType>)
        ensures
            match r {
                Some(t) => self.binding(id.0) == Some(model(t)),
                None => self.binding(id.0) is None,
            },
    {
        let n = if self.params.len() < self.args.len() {
            self.params.len()
        } else {
            self.args.len()
        };
        proof {
            lemma_models(self.args@);
        }
        let mut i = n;
        while i > 0
            invariant
                i <= n,
                n == self.len(),
                n <= self.params@.len(),
                n <= self.args@.len(),
                models(self.args@).len() == self.args@.len(),
                forall|k: int| 0 <= k < self.args@.len() ==> #[trigger] models(self.args@)[k] == model(self.args@[k]),
                bound_upto(self.params@, models(self.args@), i as int, id.0) == self.binding(id.0),
            decreases i,
        {
            if self.params[i - 1].0 == id.0 {
                return Some(self.args[i - 1].clone());
            }
            i = i - 1;
        }
        None
    }

    /// This substitution with each parameter `from[k]` bound to the type
    /// parameter `to[k]` as well (pairs beyond the shorter list ignored).
    pub fn renamed(&self, from: &[TypeParamId], to: &[TypeParamId]) -> (r: Subst)
        ensures
            forall|id: u32| #[trigger] r.binding(id) == rename_params(
                self.lookup(),
                from@,
                to@,
                if from@.len() < to@.len() {
                    from@.len() as int
                } else {
                    to@.len() as int
                },
            )(id),
    {
        let n = if self.params.len() < self.args.len() {
            self.params.len()
        } else {
            self.args.len()
        };
        let m = if from.len() < to.len() {
            from.len()
        } else {
            to.len()
        };
        let mut params: Vec<TypeParamId> = Vec::new();
        let mut args: Vec<ResolvedType> = Vec::new();
        let mut i: usize = 0;
        proof {
            lemma_models(self.args@);
        }
        while i < n
            invariant
                i <= n,
                n == self.len(),
                n <= self.params@.len(),
                n <= self.args@.len(),
                params@ == self.params@.subrange(0, i as int),
                args@.len() == i,
                forall|k: int| 0 <= k < i ==> model(#[trigger] args@[k]) == model(self.args@[k]),
            decreases n - i,
        {
            params.push(self.params[i]);
            args.push(self.args[i].clone());
            i = i + 1;
        }
        let mut k: usize = 0;
        while k < m
            invariant
                k <= m,
                m <= from@.len(),
                m <= to@.len(),
                n == self.len(),
                n <= self.params@.len(),
                n <= self.args@.len(),
                params@.len() == n + k,
                args@.len() == n + k,
                params@.subrange(0, n as int) == self.params@.subrange(0, n as int),
                forall|j: int| 0 <= j < n ==> model(#[trigger] args@[j]) == model(self.args@[j]),
                forall|j: int| 0 <= j < k ==> #[trigger] params@[n + j] == from@[j],
                forall|j: int|
                    0 <= j < k ==> model(#[trigger] args@[n + j]) == TypeModel::TypeParam(to@[j].0),
            decreases m - k,
        {
            params.push(from[k]);
            args.push(ResolvedType::TypeParam(to[k]));
            proof {
                assert(params@.subrange(0, n as int) =~= self.params@.subrange(0, n as int));
            }
            k = k + 1;
        }
        let r = Subst { params, args };
        proof {
            lemma_models(r.args@);
            assert(r.len() == n + m);
            assert forall|j: int| 0 <= j < n implies r.params@[j] == self.params@[j] && models(r.args@)[j]
                == models(self.args@)[j] by {
                assert(r.params@.subrange(0, n as int)[j] == r.params@[j]);
            }
            assert forall|id: u32| #[trigger] r.binding(id) == rename_params(self.lookup(), from@, to@, m as int)(
                id,
            ) by {
                lemma_renamed(r.params@, models(r.args@), self.params@, models(self.args@), from@, to@, n as int, m as int, id, self.lookup());
            }
        }
        r
    }

    /// This substitution with `param` bound to `ty` as well, in place of
    /// any earlier binding of `param`.
    pub fn with(&self, param: TypeParamId, ty: ResolvedType) -> (r: Subst)
        ensures
            r.binding(param.0) == Some(ty@),
            forall|id: u32| id != param.0 ==> #[trigger] r.binding(id) == self.binding(id),
    {
        let n = if self.params.len() < self.args.len() {
            self.params.len()
        } else {
            self.args.len()
        };
        let mut params: Vec<TypeParamId> = Vec::new();
        let mut args: Vec<ResolvedType> = Vec::new();
        let mut i: usize = 0;
        proof {
            lemma_models(self.args@);
        }
        while i < n
            invariant
                i <= n,
                n == self.len(),
                n <= self.params@.len(),
                n <= self.args@.len(),
                params@ == self.params@.subrange(0, i as int),
                args@.len() == i,
                forall|k: int| 0 <= k < i ==> model(#[trigger] args@[k]) == model(self.args@[k]),
            decreases n - i,
        {
            params.push(self.params[i]);
            args.push(self.args[i].clone());
            i = i + 1;
        }
        params.push(param);
        args.push(ty);
        let r = Subst { params, args };
        proof {
            lemma_models(r.args@);
            assert(r.len() == n + 1);
            assert forall|id: u32| id != param.0 implies #[trigger] r.binding(id) == self.binding(id) by {
                lemma_bound_upto_agree(r.params@, models(r.args@), self.params@, models(self.args@), n as int, id);
            }
        }
        r
    }

    /// `ty` with every bound type parameter replaced by its binding.
    pub fn apply(&self, ty: &ResolvedType) -> (r: ResolvedType)
        ensures
            r@ == subst_model(self.lookup(), ty@),
        decreases ty, 1nat,
    {
        match ty {
            ResolvedType::Primitive(p) => ResolvedType::Primitive(*p),
            ResolvedType::Null => ResolvedType::Null,
            ResolvedType::TypeParam(id) => match self.find(*id) {
                Some(t) => t,
                None => ResolvedType::TypeParam(*id),
            },
            ResolvedType::Struct(id, args) => ResolvedType::Struct(*id, self.apply_all(args)),
            ResolvedType::Interface(id, args) => ResolvedType::Interface(*id, self.apply_all(args)),
            ResolvedType::Union(vs) => ResolvedType::Union(self.apply_all(vs)),
            ResolvedType::Function(args, ret) => ResolvedType::Function(
                self.apply_all(args),
                Box::new(self.apply(ret)),
            ),
        }
    }

    /// `apply` on each element.
    pub fn apply_all(&self, v: &Vec<ResolvedType>) -> (r: Vec<ResolvedType>)
        ensures
            models(r@) == subst_models(self.lookup(), models(v@)),
        decreases v, 0nat,
    {
        let mut out: Vec<ResolvedType> = Vec::new();
        let mut i: usize = 0;
        proof {
            lemma_models(v@);
        }
        while i < v.len()
            invariant
                i <= v@.len(),
                out@.len() == i,
                models(v@).len() == v@.len(),
                forall|k: int| 0 <= k < v@.len() ==> #[trigger] models(v@)[k] == model(v@[k]),
                forall|j: int|
                    0 <= j < i ==> model(#[trigger] out@[j]) == subst_model(self.lookup(), model(v@[j])),
            decreases v@.len() - i,
        {
            proof {
                assert(decreases_to!(v => v@[i as int]));
            }
            out.push(self.apply(&v[i]));
            i = i + 1;
        }
        proof {
            lemma_models(out@);
            lemma_subst_models(self.lookup(), models(v@));
        }
        assert(models(out@) =~= subst_models(self.lookup(), models(v@)));
        out
    }
}


/// Every type parameter in `t` is bound by `lookup`.
pub open spec fn all_bound(lookup: spec_fn(u32) -> Option<TypeModel>, t: TypeModel) -> bool
    decreases t,
{
    match t {
        TypeModel::TypeParam(id) => lookup(id) is Some,
        TypeModel::Struct(_, args) => all_bound_seq(lookup, args),
        TypeModel::Interface(_, args) => all_bound_seq(lookup, args),
        TypeModel::Union(parts) => all_bound_seq(lookup, parts),
        TypeModel::Function(params, ret) => all_bound_seq(lookup, params) && all_bound(lookup, *ret),
        _ => true,
    }
}

/// Every type parameter in the types of `s` is bound by `lookup`.
pub open spec fn all_bound_seq(lookup: spec_fn(u32) -> Option<TypeModel>, s: Seq<TypeModel>) -> bool
    decreases s,
{
    if s.len() == 0 {
        true
    } else {
        all_bound_seq(lookup, s.drop_last()) && all_bound(lookup, s.last())
    }
}

/// A lookup that binds nothing leaves every type as it is.
proof fn lemma_subst_unbound(lookup: spec_fn(u32) -> Option<TypeModel>, t: TypeModel)
    requires
        forall|id: u32| #[trigger] lookup(id) is None,
    ensures
        subst_model(lookup, t) == t,
    decreases t,
{
    match t {
        TypeModel::Struct(_, args) => lemma_subst_models_unbound(lookup, args),
        TypeModel::Interface(_, args) => lemma_subst_models_unbound(lookup, args),
        TypeModel::Union(parts) => lemma_subst_models_unbound(lookup, parts),
        TypeModel::Function(params, ret) => {
            lemma_subst_models_unbound(lookup, params);
            lemma_subst_unbound(lookup, *ret);
        },
        TypeModel::TypeParam(id) => {
            assert(lookup(id) is None);
        },
        _ => {},
    }
}

proof fn lemma_subst_models_unbound(lookup: spec_fn(u32) -> Option<TypeModel>, s: Seq<TypeModel>)
    requires
        forall|id: u32| #[trigger] lookup(id) is None,
    ensures
        subst_models(lookup, s) == s,
    decreases s,
{
    lemma_subst_models(lookup, s);
    assert forall|i: int| 0 <= i < s.len() implies #[trigger] subst_models(lookup, s)[i] == s[i] by {
        assert(decreases_to!(s => s[i]));
        lemma_subst_unbound(lookup, s[i]);
    }
    assert(subst_models(lookup, s) =~= s);
}

/// Substituting twice is substituting once when each bound type is left
/// as it is by the substitution.
proof fn lemma_subst_twice(lookup: spec_fn(u32) -> Option<TypeModel>, t: TypeModel)
    requires
        forall|id: u32| #[trigger] lookup(id) matches Some(b) ==> subst_model(lookup, b) == b,
    ensures
        subst_model(lookup, subst_model(lookup, t)) == subst_model(lookup, t),
    decreases t,
{
    match t {
        TypeModel::Struct(_, args) => lemma_subst_models_twice(lookup, args),
        TypeModel::Interface(_, args) => lemma_subst_models_twice(lookup, args),
        TypeModel::Union(parts) => lemma_subst_models_twice(lookup, parts),
        TypeModel::Function(params, ret) => {
            lemma_subst_models_twice(lookup, params);
            lemma_subst_twice(lookup, *ret);
        },
        TypeModel::TypeParam(id) => {
            assert(lookup(id) matches Some(b) ==> subst_model(lookup, b) == b);
        },
        _ => {},
    }
}

proof fn lemma_subst_models_twice(lookup: spec_fn(u32) -> Option<TypeModel>, s: Seq<TypeModel>)
    requires
        forall|id: u32| #[trigger] lookup(id) matches Some(b) ==> subst_model(lookup, b) == b,
    ensures
        subst_models(lookup, subst_models(lookup, s)) == subst_models(lookup, s),
    decreases s,
{
    let once = subst_models(lookup, s);
    lemma_subst_models(lookup, s);
    lemma_subst_models(lookup, once);
    assert forall|i: int| 0 <= i < s.len() implies #[trigger] subst_models(lookup, once)[i] == once[i] by {
        assert(decreases_to!(s => s[i]));
        lemma_subst_twice(lookup, s[i]);
    }
    assert(subst_models(lookup, once) =~= once);
}

/// A substitution that binds no parameter leaves every type unchanged.
pub proof fn law_unbound_subst_is_identity(s: Subst, t: TypeModel)
    requires
        forall|id: u32| #[trigger] s.binding(id) is None,
    ensures
        subst_model(s.lookup(), t) == t,
{
    lemma_subst_unbound(s.lookup(), t);
}

/// Applying a substitution twice gives what applying it once gives, when
/// every type it binds is left unchanged by it (as concrete types are).
pub proof fn law_subst_idempotent(s: Subst, t: TypeModel)
    requires
        forall|id: u32| #[trigger] s.binding(id) matches Some(b) ==> subst_model(s.lookup(), b) == b,
    ensures
        subst_model(s.lookup(), subst_model(s.lookup(), t)) == subst_model(s.lookup(), t),
{
    lemma_subst_twice(s.lookup(), t);
}


proof fn lemma_bound_distinct_upto(params: Seq<TypeParamId>, args: Seq<TypeModel>, n: int, i: int)
    requires
        0 <= i < params.len(),
        n <= params.len(),
        forall|a: int, b: int| 0 <= a < b < params.len() ==> (#[trigger] params[a]).0 != (#[trigger] params[b]).0,
    ensures
        i < n ==> bound_upto(params, args, n, params[i].0) == Some(args[i]),
        n <= i ==> bound_upto(params, args, n, params[i].0) is None,
    decreases n,
{
    if n > 0 && n - 1 != i {
        lemma_bound_distinct_upto(params, args, n - 1, i);
    }
}

/// With pairwise distinct parameters, the substitution made from
/// `params` and `args` binds the parameter at each position below the
/// shorter length to the argument at that position, and leaves the
/// parameters beyond it unbound: applying it to the `i`-th parameter gives
/// the `i`-th argument, or the parameter itself.
pub proof fn law_distinct_params_bind_positionally(params: Seq<TypeParamId>, args: Seq<TypeModel>, i: int)
    requires
        0 <= i < params.len(),
        forall|a: int, b: int| 0 <= a < b < params.len() ==> (#[trigger] params[a]).0 != (#[trigger] params[b]).0,
    ensures
        ({
            let m = if params.len() < args.len() { params.len() as int } else { args.len() as int };
            let lookup = |id: u32| bound_upto(params, args, m, id);
            &&& i < m ==> subst_model(lookup, TypeModel::TypeParam(params[i].0)) == args[i]
            &&& m <= i ==> subst_model(lookup, TypeModel::TypeParam(params[i].0)) == TypeModel::TypeParam(params[i].0)
        }),
{
    let m = if params.len() < args.len() { params.len() as int } else { args.len() as int };
    lemma_bound_distinct_upto(params, args, m, i);
}

} // verus!

//! Data, constructor and module definitions, visiting them, and creating
//! them.

use vstd::prelude::*;

use crate::tir::context::{ModDefId, ModMemberId};
use crate::tir::store::{
    has_kind, ArgsId, CtorDefId, DataDefId, FnDefId, IntrinsicId, NodeData, NodeKind, ParamsId,
    SymbolId, Tir, TyId,
};
use crate::tir::visitor::{visit_spec, AtomVisitor, Visitor};

verus! {

/// A constructor of a data definition.
#[derive(Debug, Clone, Copy, PartialEq, Eq, Structural)]
pub struct CtorDef {
    pub name: SymbolId,
    /// The data definition it constructs, and its position among its
    /// constructors.
    pub data_def_id: DataDefId,
    pub data_def_ctor_index: usize,
    /// The parameters of the constructor.
    pub params: ParamsId,
    /// The arguments of the data type that the constructor gives.
    pub result_args: ArgsId,
}

/// The data of a constructor to create.
#[derive(Debug, Clone, Copy, PartialEq, Eq, Structural)]
pub struct CtorDefData {
    pub name: SymbolId,
    pub params: ParamsId,
    pub result_args: ArgsId,
}

/// A numeric primitive: its width in bits, and whether it is signed or a
/// float.
#[derive(Debug, Clone, Copy, PartialEq, Eq, Structural)]
pub struct NumericCtorInfo {
    pub bits: u64,
    pub is_signed: bool,
    pub is_float: bool,
}

/// An array primitive, by the type of its elements.
#[derive(Debug, Clone, Copy, PartialEq, Eq, Structural)]
pub struct ArrayCtorInfo {
    pub element_ty: TyId,
}

/// The constructors of a primitive data definition.
#[derive(Debug, Clone, Copy, PartialEq, Eq, Structural)]
pub enum PrimitiveCtorInfo {
    Numeric(NumericCtorInfo),
    Str,
    Char,
    Array(ArrayCtorInfo),
}

/// The constructors of a data definition: a list of defined ones, or a
/// primitive.
#[derive(Debug, Clone, Copy, PartialEq, Eq, Structural)]
pub enum DataDefCtors {
    /// The list of constructors, by its position in the store.
    Defined(u32),
    Primitive(PrimitiveCtorInfo),
}

/// A data definition.
#[derive(Debug, Clone, Copy, PartialEq, Eq, Structural)]
pub struct DataDef {
    pub name: SymbolId,
    pub params: ParamsId,
    pub ctors: DataDefCtors,
}

/// What a module member is.
#[derive(Debug, Clone, Copy, PartialEq, Eq, Structural)]
pub enum ModMemberValue {
    Data(DataDefId),
    Mod(ModDefId),
    Fn(FnDefId),
    Intrinsic(IntrinsicId),
}

/// A member of a module.
#[derive(Debug, Clone, Copy, PartialEq, Eq, Structural)]
pub struct ModMember {
    pub name: SymbolId,
    pub value: ModMemberValue,
}

/// A module definition.
pub struct ModDef {
    pub name: SymbolId,
    pub members: Vec<ModMember>,
}

/// The store of definitions.
pub struct Defs {
    pub data_defs: Vec<DataDef>,
    pub ctor_defs: Vec<Vec<CtorDef>>,
    pub mod_defs: Vec<ModDef>,
}

impl Defs {
    /// The constructor refers to stored parameters and arguments.
    pub open spec fn ctor_ok(&self, t: Seq<NodeData>, c: CtorDef) -> bool {
        &&& has_kind(t, c.params.0, NodeKind::Params)
        &&& has_kind(t, c.result_args.0, NodeKind::Args)
    }

    /// The data definition refers to stored parameters, constructor lists
    /// and types.
    pub open spec fn data_def_ok(&self, t: Seq<NodeData>, d: DataDef) -> bool {
        &&& has_kind(t, d.params.0, NodeKind::Params)
        &&& match d.ctors {
            DataDefCtors::Defined(c) => c < self.ctor_defs@.len(),
            DataDefCtors::Primitive(PrimitiveCtorInfo::Array(a)) => has_kind(t, a.element_ty.0, NodeKind::Term),
            _ => true,
        }
    }

    /// The member of module `m` refers to a stored definition; a module
    /// member refers to an earlier module.
    pub open spec fn member_ok(&self, t: Seq<NodeData>, m: int, member: ModMember) -> bool {
        match member.value {
            ModMemberValue::Data(d) => d.0 < self.data_defs@.len(),
            ModMemberValue::Mod(x) => x.0 < m,
            ModMemberValue::Fn(f) => has_kind(t, f.0, NodeKind::FnDef),
            ModMemberValue::Intrinsic(_) => true,
        }
    }

    /// Every definition refers to what it should.
    pub open spec fn wf(&self, t: Seq<NodeData>) -> bool {
        &&& forall|i: int, j: int|
            0 <= i < self.ctor_defs@.len() && 0 <= j < self.ctor_defs@[i]@.len() ==> self.ctor_ok(
                t,
                #[trigger] self.ctor_defs@[i]@[j],
            )
        &&& forall|i: int| 0 <= i < self.data_defs@.len() ==> self.data_def_ok(t, #[trigger] self.data_defs@[i])
        &&& forall|m: int, j: int|
            0 <= m < self.mod_defs@.len() && 0 <= j < self.mod_defs@[m].members@.len() ==> self.member_ok(
                t,
                m,
                #[trigger] self.mod_defs@[m].members@[j],
            )
    }

    /// The nodes that visiting a constructor visits, in order.
    pub open spec fn ctor_nodes(c: CtorDef) -> Seq<usize> {
        seq![c.params.0, c.result_args.0]
    }

    /// The nodes that visiting a data definition visits, in order.
    pub open spec fn data_def_nodes(&self, d: DataDef) -> Seq<usize> {
        seq![d.params.0] + match d.ctors {
            DataDefCtors::Defined(c) => self.ctor_defs@[c as int]@.map_values(|x: CtorDef| Defs::ctor_nodes(x)).flatten_alt(),
            DataDefCtors::Primitive(PrimitiveCtorInfo::Array(a)) => seq![a.element_ty.0],
            DataDefCtors::Primitive(_) => Seq::empty(),
        }
    }

    /// The nodes that visiting the first `k` members of module `m` visits,
    /// in order.
    pub open spec fn members_nodes(&self, m: int, k: int) -> Seq<usize>
        decreases m, k,
    {
        if m < 0 || m >= self.mod_defs@.len() || k <= 0 || k > self.mod_defs@[m].members@.len() {
            Seq::empty()
        } else {
            self.members_nodes(m, k - 1) + match self.mod_defs@[m].members@[k - 1].value {
                ModMemberValue::Data(d) => self.data_def_nodes(self.data_defs@[d.0 as int]),
                ModMemberValue::Mod(x) => if 0 <= x.0 < m {
                    self.members_nodes(x.0 as int, self.mod_defs@[x.0 as int].members@.len() as int)
                } else {
                    Seq::empty()
                },
                ModMemberValue::Fn(f) => seq![f.0],
                ModMemberValue::Intrinsic(_) => Seq::empty(),
            }
        }
    }

    /// The nodes that visiting module `m` visits, in order.
    pub open spec fn mod_def_nodes(&self, m: int) -> Seq<usize> {
        self.members_nodes(m, self.mod_defs@[m].members@.len() as int)
    }
}

/// Visiting the nodes `ids` in order, from the state `v`.
pub open spec fn visit_seq<V: AtomVisitor>(v: V, t: Seq<NodeData>, ids: Seq<usize>, once: bool, vis: Set<usize>) -> (V, Set<usize>)
    decreases ids.len(),
{
    if ids.len() == 0 {
        (v, vis)
    } else {
        let p = visit_seq(v, t, ids.drop_last(), once, vis);
        visit_spec(p.0, t, ids.last(), once, p.1)
    }
}

/// Visiting two runs of nodes one after the other is visiting them
/// together.
pub proof fn lemma_visit_seq_concat<V: AtomVisitor>(v: V, t: Seq<NodeData>, a: Seq<usize>, b: Seq<usize>, once: bool, vis: Set<usize>)
    ensures
        visit_seq(v, t, a + b, once, vis) == ({
            let p = visit_seq(v, t, a, once, vis);
            visit_seq(p.0, t, b, once, p.1)
        }),
    decreases b.len(),
{
    if b.len() == 0 {
        assert(a + b =~= a);
    } else {
        lemma_visit_seq_concat(v, t, a, b.drop_last(), once, vis);
        assert((a + b).drop_last() =~= a + b.drop_last());
    }
}

impl Visitor {
    /// Visit nodes in order.
    fn visit_nodes<V: AtomVisitor>(&mut self, tir: &Tir, ids: &Vec<usize>, f: &mut V)
        requires
            tir.inv(),
            forall|k: int| 0 <= k < ids@.len() ==> #[trigger] ids@[k] < tir.nodes@.len(),
        ensures
            final(self).visit_fns_once == old(self).visit_fns_once,
            (*final(f), final(self).visited@) == visit_seq(
                *old(f),
                tir.nodes@,
                ids@,
                old(self).visit_fns_once,
                old(self).visited@,
            ),
    {
        let mut k: usize = 0;
        while k < ids.len()
            invariant
                k <= ids@.len(),
                tir.inv(),
                forall|x: int| 0 <= x < ids@.len() ==> #[trigger] ids@[x] < tir.nodes@.len(),
                self.visit_fns_once == old(self).visit_fns_once,
                (*f, self.visited@) == visit_seq(*old(f), tir.nodes@, ids@.take(k as int), old(self).visit_fns_once, old(self).visited@),
            decreases ids@.len() - k,
        {
            assert(ids@.take(k + 1).drop_last() =~= ids@.take(k as int));
            self.visit_node(tir, ids[k], f);
            k = k + 1;
        }
        assert(ids@.take(k as int) =~= ids@);
    }

    /// Visit the parameters and the result arguments of a constructor.
    pub fn visit_ctor_def<V: AtomVisitor>(&mut self, tir: &Tir, defs: &Defs, ctor_def_id: CtorDefId, f: &mut V)
        requires
            tir.inv(),
            defs.wf(tir.nodes@),
            (ctor_def_id.0 as int) < defs.ctor_defs@.len(),
            (ctor_def_id.1 as int) < defs.ctor_defs@[ctor_def_id.0 as int]@.len(),
        ensures
            final(self).visit_fns_once == old(self).visit_fns_once,
            (*final(f), final(self).visited@) == visit_seq(
                *old(f),
                tir.nodes@,
                Defs::ctor_nodes(defs.ctor_defs@[ctor_def_id.0 as int]@[ctor_def_id.1 as int]),
                old(self).visit_fns_once,
                old(self).visited@,
            ),
    {
        let c = defs.ctor_defs[ctor_def_id.0 as usize][ctor_def_id.1 as usize];
        proof {
            assert(defs.ctor_ok(tir.nodes@, c));
            let ns = Defs::ctor_nodes(c);
            assert(ns.drop_last() =~= seq![c.params.0]);
            assert(ns.drop_last().drop_last() =~= Seq::<usize>::empty());
        }
        let ghost v0 = *f;
        let ghost vis0 = self.visited@;
        self.visit_params(tir, c.params, f);
        self.visit_args(tir, c.result_args, f);
        proof {
            let ns = Defs::ctor_nodes(c);
            let once = old(self).visit_fns_once;
            assert(visit_seq(v0, tir.nodes@, ns.drop_last().drop_last(), once, vis0) == (v0, vis0));
            assert(visit_seq(v0, tir.nodes@, ns.drop_last(), once, vis0) == visit_spec(v0, tir.nodes@, c.params.0, once, vis0));
        }
    }

    /// Visit a data definition: its parameters, then its constructors, or
    /// the element type of an array primitive.
    pub fn visit_data_def<V: AtomVisitor>(&mut self, tir: &Tir, defs: &Defs, data_def_id: DataDefId, f: &mut V)
        requires
            tir.inv(),
            defs.wf(tir.nodes@),
            (data_def_id.0 as int) < defs.data_defs@.len(),
        ensures
            final(self).visit_fns_once == old(self).visit_fns_once,
            (*final(f), final(self).visited@) == visit_seq(
                *old(f),
                tir.nodes@,
                defs.data_def_nodes(defs.data_defs@[data_def_id.0 as int]),
                old(self).visit_fns_once,
                old(self).visited@,
            ),
    {
        let d = defs.data_defs[data_def_id.0 as usize];
        let ids = self.data_def_node_list(tir, defs, d);
        self.visit_nodes(tir, &ids, f);
    }

    /// The nodes that visiting a data definition visits.
    fn data_def_node_list(&self, tir: &Tir, defs: &Defs, d: DataDef) -> (r: Vec<usize>)
        requires
            defs.wf(tir.nodes@),
            defs.data_def_ok(tir.nodes@, d),
        ensures
            r@ == defs.data_def_nodes(d),
            forall|k: int| 0 <= k < r@.len() ==> #[trigger] r@[k] < tir.nodes@.len(),
    {
        let mut out: Vec<usize> = Vec::new();
        out.push(d.params.0);
        match d.ctors {
            DataDefCtors::Defined(c) => {
                let list = &defs.ctor_defs[c as usize];
                let ghost ks = list@.map_values(|x: CtorDef| Defs::ctor_nodes(x));
                let mut j: usize = 0;
                while j < list.len()
                    invariant
                        j <= list@.len(),
                        defs.wf(tir.nodes@),
                        defs.data_def_ok(tir.nodes@, d),
                        d.ctors == DataDefCtors::Defined(c),
                        (c as int) < defs.ctor_defs@.len(),
                        *list == defs.ctor_defs@[c as int],
                        ks == list@.map_values(|x: CtorDef| Defs::ctor_nodes(x)),
                        out@ == seq![d.params.0] + ks.take(j as int).flatten_alt(),
                        forall|k: int| 0 <= k < out@.len() ==> #[trigger] out@[k] < tir.nodes@.len(),
                    decreases list@.len() - j,
                {
                    let x = list[j];
                    proof {
                        assert(defs.ctor_ok(tir.nodes@, defs.ctor_defs@[c as int]@[j as int]));
                        crate::tir::store::lemma_flat_step(ks, j as int);
                    }
                    out.push(x.params.0);
                    out.push(x.result_args.0);
                    j = j + 1;
                }
                assert(ks.take(j as int) =~= ks);
            },
            DataDefCtors::Primitive(PrimitiveCtorInfo::Array(a)) => {
                out.push(a.element_ty.0);
            },
            DataDefCtors::Primitive(_) => {},
        }
        assert(out@ =~= defs.data_def_nodes(d));
        out
    }

    /// Visit a module member: the data definition, module or function it
    /// is.
    pub fn visit_mod_member<V: AtomVisitor>(&mut self, tir: &Tir, defs: &Defs, mod_member_id: ModMemberId, f: &mut V)
        requires
            tir.inv(),
            defs.wf(tir.nodes@),
            (mod_member_id.0 as int) < defs.mod_defs@.len(),
            (mod_member_id.1 as int) < defs.mod_defs@[mod_member_id.0 as int].members@.len(),
        ensures
            final(self).visit_fns_once == old(self).visit_fns_once,
            ({
                let m = mod_member_id.0 as int;
                let k = mod_member_id.1 as int;
                (*final(f), final(self).visited@) == visit_seq(
                    *old(f),
                    tir.nodes@,
                    defs.members_nodes(m, k + 1).subrange(defs.members_nodes(m, k).len() as int, defs.members_nodes(m, k + 1).len() as int),
                    old(self).visit_fns_once,
                    old(self).visited@,
                )
            }),
    {
        let n = defs.mod_defs[mod_member_id.0 as usize].members.len();
        let ids = self.members_node_list(tir, defs, mod_member_id.0 as usize, mod_member_id.1, mod_member_id.1 + 1);
        self.visit_nodes(tir, &ids, f);
    }

    /// Visit a module definition: each of its members in order.
    pub fn visit_mod_def<V: AtomVisitor>(&mut self, tir: &Tir, defs: &Defs, mod_def_id: ModDefId, f: &mut V)
        requires
            tir.inv(),
            defs.wf(tir.nodes@),
            (mod_def_id.0 as int) < defs.mod_defs@.len(),
        ensures
            final(self).visit_fns_once == old(self).visit_fns_once,
            (*final(f), final(self).visited@) == visit_seq(
                *old(f),
                tir.nodes@,
                defs.mod_def_nodes(mod_def_id.0 as int),
                old(self).visit_fns_once,
                old(self).visited@,
            ),
    {
        let m = mod_def_id.0 as usize;
        let n = defs.mod_defs[m].members.len();
        let ids = self.members_node_list(tir, defs, m, 0, n);
        proof {
            assert(defs.members_nodes(m as int, 0) =~= Seq::<usize>::empty());
            assert(ids@ =~= defs.mod_def_nodes(m as int));
        }
        self.visit_nodes(tir, &ids, f);
    }

    /// The nodes that visiting members `from` to `to` of module `m` visits.
    fn members_node_list(&self, tir: &Tir, defs: &Defs, m: usize, from: usize, to: usize) -> (r: Vec<usize>)
        requires
            defs.wf(tir.nodes@),
            m < defs.mod_defs@.len(),
            from <= to <= defs.mod_defs@[m as int].members@.len(),
        ensures
            r@ == defs.members_nodes(m as int, to as int).subrange(
                defs.members_nodes(m as int, from as int).len() as int,
                defs.members_nodes(m as int, to as int).len() as int,
            ),
            forall|k: int| 0 <= k < r@.len() ==> #[trigger] r@[k] < tir.nodes@.len(),
        decreases m, to - from,
    {
        proof {
            lemma_members_nodes_prefix(defs, m as int, from as int, to as int);
            lemma_members_nodes_in(defs, tir.nodes@, m as int, to as int);
        }
        let mut out: Vec<usize> = Vec::new();
        let mut k: usize = from;
        while k < to
            invariant
                from <= k <= to <= defs.mod_defs@[m as int].members@.len(),
                m < defs.mod_defs@.len(),
                defs.wf(tir.nodes@),
                out@ == defs.members_nodes(m as int, k as int).subrange(
                    defs.members_nodes(m as int, from as int).len() as int,
                    defs.members_nodes(m as int, k as int).len() as int,
                ),
                forall|x: int| 0 <= x < out@.len() ==> #[trigger] out@[x] < tir.nodes@.len(),
            decreases to - k,
        {
            proof {
                lemma_members_nodes_prefix(defs, m as int, from as int, k as int);
                lemma_members_nodes_prefix(defs, m as int, k as int, k + 1);
                lemma_members_nodes_in(defs, tir.nodes@, m as int, k + 1);
            }
            let member = defs.mod_defs[m].members[k];
            let ghost before = out@;
            let ghost step = defs.members_nodes(m as int, k + 1).subrange(
                defs.members_nodes(m as int, k as int).len() as int,
                defs.members_nodes(m as int, k + 1).len() as int,
            );
            proof {
                assert(defs.member_ok(tir.nodes@, m as int, defs.mod_defs@[m as int].members@[k as int]));
            }
            let more: Vec<usize> = match member.value {
                ModMemberValue::Data(d) => {
                    proof {
                        assert(defs.data_def_ok(tir.nodes@, defs.data_defs@[d.0 as int]));
                    }
                    self.data_def_node_list(tir, defs, defs.data_defs[d.0 as usize])
                },
                ModMemberValue::Mod(x) => {
                    let inner = x.0 as usize;
                    let len = defs.mod_defs[inner].members.len();
                    let r = self.members_node_list(tir, defs, inner, 0, len);
                    proof {
                        assert(defs.members_nodes(inner as int, 0) =~= Seq::<usize>::empty());
                    }
                    r
                },
                ModMemberValue::Fn(f) => {
                    let mut v: Vec<usize> = Vec::new();
                    v.push(f.0);
                    v
                },
                ModMemberValue::Intrinsic(_) => Vec::new(),
            };
            proof {
                assert(more@ =~= step);
            }
            let mut j: usize = 0;
            while j < more.len()
                invariant
                    j <= more@.len(),
                    out@ == before + more@.take(j as int),
                    forall|x: int| 0 <= x < before.len() ==> #[trigger] before[x] < tir.nodes@.len(),
                    forall|x: int| 0 <= x < more@.len() ==> #[trigger] more@[x] < tir.nodes@.len(),
                decreases more@.len() - j,
            {
                out.push(more[j]);
                assert(before + more@.take(j + 1) =~= out@);
                j = j + 1;
            }
            proof {
                assert(more@.take(j as int) =~= more@);
                assert forall|x: int| 0 <= x < out@.len() implies #[trigger] out@[x] < tir.nodes@.len() by {
                    if x < before.len() {
                        assert(out@[x] == before[x]);
                    } else {
                        assert(out@[x] == more@[x - before.len()]);
                    }
                }
                let a = defs.members_nodes(m as int, from as int).len() as int;
                let b = defs.members_nodes(m as int, k as int).len() as int;
                let c = defs.members_nodes(m as int, k + 1).len() as int;
                assert(defs.members_nodes(m as int, k + 1) == defs.members_nodes(m as int, k as int) + step);
                assert(out@ =~= defs.members_nodes(m as int, k + 1).subrange(a, c));
            }
            k = k + 1;
        }
        out
    }
}

/// The nodes of the first members of a module begin those of more members.
pub proof fn lemma_members_nodes_prefix(defs: &Defs, m: int, j: int, k: int)
    requires
        0 <= m < defs.mod_defs@.len(),
        0 <= j <= k <= defs.mod_defs@[m].members@.len(),
    ensures
        defs.members_nodes(m, j).len() <= defs.members_nodes(m, k).len(),
        defs.members_nodes(m, k).subrange(0, defs.members_nodes(m, j).len() as int) == defs.members_nodes(m, j),
    decreases k - j,
{
    if j < k {
        lemma_members_nodes_prefix(defs, m, j, k - 1);
        let a = defs.members_nodes(m, k - 1);
        let b = defs.members_nodes(m, k);
        assert(b.subrange(0, a.len() as int) =~= a);
        assert(b.subrange(0, defs.members_nodes(m, j).len() as int) =~= a.subrange(0, defs.members_nodes(m, j).len() as int));
    } else {
        assert(defs.members_nodes(m, k).subrange(0, defs.members_nodes(m, j).len() as int) =~= defs.members_nodes(m, j));
    }
}

/// Visiting a module visits each member's definition: the node of a
/// function member, every node of a data type member, and every node of a
/// nested module defined before it.
pub proof fn lemma_module_visits_its_members(defs: &Defs, m: int, k: int)
    requires
        0 <= m < defs.mod_defs@.len(),
        0 <= k < defs.mod_defs@[m].members@.len(),
    ensures
        defs.mod_defs@[m].members@[k].value matches ModMemberValue::Fn(f) ==> defs.mod_def_nodes(m).contains(f.0),
        defs.mod_defs@[m].members@[k].value matches ModMemberValue::Data(d) ==> forall|x: usize|
            #[trigger] defs.data_def_nodes(defs.data_defs@[d.0 as int]).contains(x) ==> defs.mod_def_nodes(m).contains(x),
        match defs.mod_defs@[m].members@[k].value {
            ModMemberValue::Mod(x) => x.0 < m ==> forall|y: usize|
                #[trigger] defs.mod_def_nodes(x.0 as int).contains(y) ==> defs.mod_def_nodes(m).contains(y),
            _ => true,
        },
{
    let n = defs.mod_defs@[m].members@.len() as int;
    lemma_members_nodes_prefix(defs, m, k + 1, n);
    let pre = defs.members_nodes(m, k);
    let upto = defs.members_nodes(m, k + 1);
    let all = defs.mod_def_nodes(m);
    assert(all.subrange(0, upto.len() as int) == upto);
    let more = match defs.mod_defs@[m].members@[k].value {
        ModMemberValue::Data(d) => defs.data_def_nodes(defs.data_defs@[d.0 as int]),
        ModMemberValue::Mod(x) => if 0 <= x.0 < m {
            defs.members_nodes(x.0 as int, defs.mod_defs@[x.0 as int].members@.len() as int)
        } else {
            Seq::empty()
        },
        ModMemberValue::Fn(f) => seq![f.0],
        ModMemberValue::Intrinsic(_) => Seq::empty(),
    };
    assert(upto == pre + more);
    assert forall|q: int| 0 <= q < more.len() implies all[pre.len() + q] == more[q] by {
        assert(upto[pre.len() + q] == more[q]);
    }
    assert forall|y: usize| #[trigger] more.contains(y) implies all.contains(y) by {
        let q = choose|q: int| 0 <= q < more.len() && more[q] == y;
        assert(all[pre.len() + q] == y);
    }
    if let ModMemberValue::Fn(f) = defs.mod_defs@[m].members@[k].value {
        assert(more[0] == f.0);
    }
}

/// Visiting a data definition visits its parameters, the parameters and
/// result arguments of each of its defined constructors, and the element
/// type of an array primitive.
pub proof fn lemma_data_def_visits_its_parts(defs: &Defs, d: DataDef)
    ensures
        defs.data_def_nodes(d).contains(d.params.0),
        match d.ctors {
            DataDefCtors::Defined(c) => forall|j: int|
                0 <= j < defs.ctor_defs@[c as int]@.len() ==> defs.data_def_nodes(d).contains(
                    (#[trigger] defs.ctor_defs@[c as int]@[j]).params.0,
                ) && defs.data_def_nodes(d).contains(defs.ctor_defs@[c as int]@[j].result_args.0),
            _ => true,
        },
        d.ctors matches DataDefCtors::Primitive(PrimitiveCtorInfo::Array(a)) ==> defs.data_def_nodes(d).contains(
            a.element_ty.0,
        ),
{
    let all = defs.data_def_nodes(d);
    assert(all[0] == d.params.0);
    match d.ctors {
        DataDefCtors::Defined(c) => {
            let list = defs.ctor_defs@[c as int]@;
            let ks = list.map_values(|x: CtorDef| Defs::ctor_nodes(x));
            assert(all == seq![d.params.0] + ks.flatten_alt());
            assert forall|j: int| 0 <= j < list.len() implies all.contains((#[trigger] list[j]).params.0) && all.contains(
                list[j].result_args.0,
            ) by {
                assert(ks[j] == seq![list[j].params.0, list[j].result_args.0]);
                crate::tir::store::lemma_flat_index(ks, ks, j, 0);
                let m0 = choose|m0: int|
                    0 <= m0 < ks.flatten_alt().len() && ks.flatten_alt()[m0] == ks[j][0] && ks.flatten_alt()[m0]
                        == ks[j][0];
                assert(all[m0 + 1] == list[j].params.0);
                crate::tir::store::lemma_flat_index(ks, ks, j, 1);
                let m1 = choose|m1: int|
                    0 <= m1 < ks.flatten_alt().len() && ks.flatten_alt()[m1] == ks[j][1] && ks.flatten_alt()[m1]
                        == ks[j][1];
                assert(all[m1 + 1] == list[j].result_args.0);
            }
        },
        DataDefCtors::Primitive(PrimitiveCtorInfo::Array(a)) => {
            assert(all[1] == a.element_ty.0);
        },
        _ => {},
    }
}

/// The nodes that visiting module members visits are stored.
pub proof fn lemma_members_nodes_in(defs: &Defs, t: Seq<NodeData>, m: int, k: int)
    requires
        defs.wf(t),
        0 <= m < defs.mod_defs@.len(),
        0 <= k <= defs.mod_defs@[m].members@.len(),
    ensures
        forall|x: int| 0 <= x < defs.members_nodes(m, k).len() ==> #[trigger] defs.members_nodes(m, k)[x] < t.len(),
    decreases m, k,
{
    if k > 0 {
        lemma_members_nodes_in(defs, t, m, k - 1);
        let member = defs.mod_defs@[m].members@[k - 1];
        assert(defs.member_ok(t, m, member));
        let pre = defs.members_nodes(m, k - 1);
        let more = match member.value {
            ModMemberValue::Data(d) => defs.data_def_nodes(defs.data_defs@[d.0 as int]),
            ModMemberValue::Mod(x) => if 0 <= x.0 < m {
                defs.members_nodes(x.0 as int, defs.mod_defs@[x.0 as int].members@.len() as int)
            } else {
                Seq::empty()
            },
            ModMemberValue::Fn(f) => seq![f.0],
            ModMemberValue::Intrinsic(_) => Seq::empty(),
        };
        assert(defs.members_nodes(m, k) == pre + more);
        match member.value {
            ModMemberValue::Data(d) => {
                lemma_data_def_nodes_in(defs, t, defs.data_defs@[d.0 as int]);
            },
            ModMemberValue::Mod(x) => {
                lemma_members_nodes_in(defs, t, x.0 as int, defs.mod_defs@[x.0 as int].members@.len() as int);
            },
            _ => {},
        }
        assert forall|x: int| 0 <= x < defs.members_nodes(m, k).len() implies #[trigger] defs.members_nodes(m, k)[x] < t.len() by {
            if x < pre.len() {
                assert(defs.members_nodes(m, k)[x] == pre[x]);
            } else {
                assert(defs.members_nodes(m, k)[x] == more[x - pre.len()]);
            }
        }
    }
}

/// The nodes that visiting a data definition visits are stored.
pub proof fn lemma_data_def_nodes_in(defs: &Defs, t: Seq<NodeData>, d: DataDef)
    requires
        defs.wf(t),
        defs.data_def_ok(t, d),
    ensures
        forall|x: int| 0 <= x < defs.data_def_nodes(d).len() ==> #[trigger] defs.data_def_nodes(d)[x] < t.len(),
{
    match d.ctors {
        DataDefCtors::Defined(c) => {
            let list = defs.ctor_defs@[c as int]@;
            let ks = list.map_values(|x: CtorDef| Defs::ctor_nodes(x));
            let kinds = list.map_values(|x: CtorDef| seq![NodeKind::Params, NodeKind::Args]);
            assert forall|e: int, q: int| 0 <= e < ks.len() && 0 <= q < ks[e].len() implies (#[trigger] ks[e][q]) < t.len()
                && crate::tir::store::kind_of(t[ks[e][q] as int]) == kinds[e][q] by {
                assert(defs.ctor_ok(t, defs.ctor_defs@[c as int]@[e]));
            }
            crate::tir::store::lemma_flat_ok(t, t.len() as int, ks, kinds);
            let all = defs.data_def_nodes(d);
            assert forall|x: int| 0 <= x < all.len() implies #[trigger] all[x] < t.len() by {
                if x > 0 {
                    assert(all[x] == ks.flatten_alt()[x - 1]);
                }
            }
        },
        _ => {},
    }
}

/// Operations on data definitions.
pub struct DataUtils;

impl DataUtils {
    /// The operations.
    pub fn new() -> (r: Self) {
        DataUtils
    }

    /// Set the constructors of a data definition to the given list, which
    /// is returned.
    pub fn set_data_def_ctors(&self, defs: &mut Defs, data_def: DataDefId, ctors: u32) -> (r: u32)
        requires
            (data_def.0 as int) < old(defs).data_defs@.len(),
        ensures
            r == ctors,
            final(defs).data_defs@ == old(defs).data_defs@.update(
                data_def.0 as int,
                DataDef { ctors: DataDefCtors::Defined(ctors), ..old(defs).data_defs@[data_def.0 as int] },
            ),
            final(defs).ctor_defs == old(defs).ctor_defs,
            final(defs).mod_defs == old(defs).mod_defs,
    {
        let i = data_def.0 as usize;
        let d = defs.data_defs[i];
        defs.data_defs.set(i, DataDef { name: d.name, params: d.params, ctors: DataDefCtors::Defined(ctors) });
        ctors
    }

    /// Create the constructors of a data definition from their data: each
    /// knows its definition and its position.
    pub fn create_data_ctors(&self, defs: &mut Defs, data_def_id: DataDefId, data: &Vec<CtorDefData>) -> (r: u32)
        requires
            old(defs).ctor_defs@.len() < u32::MAX,
        ensures
            r == old(defs).ctor_defs@.len(),
            final(defs).ctor_defs@.len() == old(defs).ctor_defs@.len() + 1,
            forall|i: int| 0 <= i < old(defs).ctor_defs@.len() ==> #[trigger] final(defs).ctor_defs@[i] == old(defs).ctor_defs@[i],
            final(defs).ctor_defs@[r as int]@ == Seq::new(
                data@.len(),
                |k: int| CtorDef {
                    name: data@[k].name,
                    data_def_id,
                    data_def_ctor_index: k as usize,
                    params: data@[k].params,
                    result_args: data@[k].result_args,
                },
            ),
            final(defs).data_defs == old(defs).data_defs,
            final(defs).mod_defs == old(defs).mod_defs,
    {
        let mut list: Vec<CtorDef> = Vec::new();
        let mut k: usize = 0;
        while k < data.len()
            invariant
                k <= data@.len(),
                list@ == Seq::new(
                    k as nat,
                    |x: int| CtorDef {
                        name: data@[x].name,
                        data_def_id,
                        data_def_ctor_index: x as usize,
                        params: data@[x].params,
                        result_args: data@[x].result_args,
                    },
                ),
            decreases data@.len() - k,
        {
            let d = data[k];
            list.push(CtorDef {
                name: d.name,
                data_def_id,
                data_def_ctor_index: k,
                params: d.params,
                result_args: d.result_args,
            });
            assert(list@ =~= Seq::new(
                (k + 1) as nat,
                |x: int| CtorDef {
                    name: data@[x].name,
                    data_def_id,
                    data_def_ctor_index: x as usize,
                    params: data@[x].params,
                    result_args: data@[x].result_args,
                },
            ));
            k = k + 1;
        }
        let r = defs.ctor_defs.len() as u32;
        defs.ctor_defs.push(list);
        r
    }

    /// Create a primitive data definition with the given parameters.
    pub fn create_primitive_data_def(&self, defs: &mut Defs, name: SymbolId, params: ParamsId, info: PrimitiveCtorInfo) -> (r: DataDefId)
        requires
            old(defs).data_defs@.len() < u32::MAX,
        ensures
            r.0 == old(defs).data_defs@.len(),
            final(defs).data_defs@ == old(defs).data_defs@.push(DataDef { name, params, ctors: DataDefCtors::Primitive(info) }),
            final(defs).ctor_defs == old(defs).ctor_defs,
            final(defs).mod_defs == old(defs).mod_defs,
    {
        let r = DataDefId(defs.data_defs.len() as u32);
        defs.data_defs.push(DataDef { name, params, ctors: DataDefCtors::Primitive(info) });
        r
    }
}

} // verus!

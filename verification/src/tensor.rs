//! Tensors of the virtual machine: a tensor is a single dense tensor or a
//! group of dense tensors that act as one (the first part speaks for the
//! data type and shape of the group).
use crate::layout::ArrayLayout;
use digit_layout::DigitLayout;
use std::rc::Rc;
use vstd::prelude::*;

verus! {

/// The data type descriptor of `digit-layout`, carried through unchanged.
#[verifier::external_type_specification]
#[verifier::external_body]
pub struct ExDigitLayout(DigitLayout);

/// A dense tensor: data type, layout and the handle of its storage.
#[derive(Debug)]
pub struct SubTensor<T> {
    pub dt: DigitLayout,
    pub layout: ArrayLayout,
    pub physical: T,
}

impl<T> SubTensor<T> {
    /// A dense tensor from its parts.
    pub fn new(dt: DigitLayout, layout: ArrayLayout, physical: T) -> (r: Self)
        ensures
            r.dt == dt,
            r.layout == layout,
            r.physical == physical,
    {
        SubTensor { dt, layout, physical }
    }

    /// The shape of the tensor.
    pub fn shape(&self) -> (r: &[usize])
        ensures
            r@ == self.layout.shape@,
    {
        self.layout.shape.as_slice()
    }

    /// Replaces the storage handle by `f` of it.
    pub fn map<U, F: Fn(T) -> U>(self, f: F) -> (r: SubTensor<U>)
        requires
            f.requires((self.physical,)),
        ensures
            r.dt == self.dt,
            r.layout == self.layout,
            f.ensures((self.physical,), r.physical),
    {
        SubTensor { dt: self.dt, layout: self.layout, physical: f(self.physical) }
    }

    /// Replaces the layout by `f` of it.
    pub fn transform<F: Fn(ArrayLayout) -> ArrayLayout>(self, f: F) -> (r: Self)
        requires
            f.requires((self.layout,)),
        ensures
            r.dt == self.dt,
            r.physical == self.physical,
            f.ensures((self.layout,), r.layout),
    {
        let layout = f(self.layout);
        SubTensor { dt: self.dt, layout, physical: self.physical }
    }
}

/// A tensor: one dense tensor, or a group of them.
#[derive(Debug)]
pub enum Tensor<T> {
    Simple(SubTensor<T>),
    Grouped(Vec<SubTensor<T>>),
}

/// Whether `b` is a clone of `a`: same data type and layout, cloned handle.
pub open spec fn part_cloned<T: Clone>(a: SubTensor<T>, b: SubTensor<T>) -> bool {
    a.dt == b.dt && a.layout.same_as(&b.layout) && cloned(a.physical, b.physical)
}

impl<T: Clone> Clone for SubTensor<T> {
    fn clone(&self) -> (r: Self)
        ensures
            part_cloned(*self, r),
    {
        SubTensor { dt: self.dt, layout: self.layout.clone(), physical: self.physical.clone() }
    }
}

/// Whether `b` is a clone of `a`: same kind, and each part a clone.
pub open spec fn tensor_cloned<T: Clone>(a: Tensor<T>, b: Tensor<T>) -> bool {
    &&& (a is Simple) == (b is Simple)
    &&& a.parts().len() == b.parts().len()
    &&& forall|k: int| 0 <= k < a.parts().len() ==> part_cloned(a.parts()[k], #[trigger] b.parts()[k])
}

impl<T: Clone> Clone for Tensor<T> {
    fn clone(&self) -> (r: Self)
        ensures
            tensor_cloned(*self, r),
    {
        match self {
            Tensor::Simple(t) => Tensor::Simple(t.clone()),
            Tensor::Grouped(ts) => {
                let mut out: Vec<SubTensor<T>> = Vec::new();
                let mut k: usize = 0;
                while k < ts.len()
                    invariant
                        k <= ts@.len(),
                        out@.len() == k,
                        forall|j: int| 0 <= j < k ==> part_cloned(ts@[j], #[trigger] out@[j]),
                    decreases ts@.len() - k,
                {
                    out.push(ts[k].clone());
                    k = k + 1;
                }
                Tensor::Grouped(out)
            },
        }
    }
}

/// What locking a tensor does, given whether each part is readable now.
#[derive(Debug, Clone, Copy, PartialEq, Eq, Structural)]
pub enum LockAction {
    /// Try to take the single part for global reading; the outcome of the
    /// attempt is the outcome of the lock.
    TryRead,
    /// Take every part for global reading (each attempt must succeed); the
    /// lock succeeds.
    ReadAll,
    /// Leave the parts alone; the lock fails.
    Refuse,
}

/// What unlocking a tensor does, given whether each part is readable now.
#[derive(Debug, Clone, Copy, PartialEq, Eq, Structural)]
pub enum UnlockAction {
    /// Release every part.
    ReleaseAll,
    /// Leave the parts alone.
    Nothing,
}

/// Whether every flag holds.
pub open spec fn all_set(flags: Seq<bool>) -> bool {
    forall|k: int| 0 <= k < flags.len() ==> flags[k]
}

fn all_true(flags: &[bool]) -> (r: bool)
    ensures
        r == all_set(flags@),
{
    let mut k: usize = 0;
    while k < flags.len()
        invariant
            k <= flags@.len(),
            forall|j: int| 0 <= j < k ==> flags@[j],
        decreases flags@.len() - k,
    {
        if !flags[k] {
            return false;
        }
        k = k + 1;
    }
    true
}

/// Whether `r` is `t` with the storage handle of every part mapped through
/// `f`: same kind, same number of parts, same data types and layouts.
pub open spec fn mapped_through<T, U, F: Fn(T) -> U>(t: Tensor<T>, r: Tensor<U>, f: F) -> bool {
    &&& (t is Simple) == (r is Simple)
    &&& r.parts().len() == t.parts().len()
    &&& forall|k: int|
        0 <= k < t.parts().len() ==> {
            &&& (#[trigger] r.parts()[k]).dt == t.parts()[k].dt
            &&& r.parts()[k].layout == t.parts()[k].layout
            &&& f.ensures((t.parts()[k].physical,), r.parts()[k].physical)
        }
}

/// Whether `r` is `t` with the layout of every part mapped through `f`:
/// same kind, same number of parts, same data types and storage handles.
pub open spec fn transformed_by<T, F: Fn(ArrayLayout) -> ArrayLayout>(t: Tensor<T>, r: Tensor<T>, f: F) -> bool {
    &&& (t is Simple) == (r is Simple)
    &&& r.parts().len() == t.parts().len()
    &&& forall|k: int|
        0 <= k < t.parts().len() ==> {
            &&& (#[trigger] r.parts()[k]).dt == t.parts()[k].dt
            &&& r.parts()[k].physical == t.parts()[k].physical
            &&& f.ensures((t.parts()[k].layout,), r.parts()[k].layout)
        }
}

/// Whether `u` is `t` unlocked: each part was asked through `readable`
/// whether it is readable; a single part, or a group whose parts are all
/// readable, has every handle released through `release`; otherwise the
/// tensor stays as it was.
pub open spec fn released<T, FR: Fn(&T) -> bool, FL: Fn(T) -> T>(
    t: Tensor<T>,
    u: Tensor<T>,
    readable: FR,
    release: FL,
) -> bool {
    exists|flags: Seq<bool>|
        {
            &&& flags.len() == t.parts().len()
            &&& forall|k: int|
                0 <= k < flags.len() ==> readable.ensures((&t.parts()[k].physical,), #[trigger] flags[k])
            &&& if t is Simple || all_set(flags) {
                mapped_through(t, u, release)
            } else {
                u == t
            }
        }
}

/// Mapping the handles through `f` and then through `g` gives the tensor
/// that mapping them once through `h` gives, when `f`, `g` and `h` are
/// functions (`sf`, `sg` and their composition) of their argument.
pub proof fn lemma_map_compose<T, U, V, F: Fn(T) -> U, G: Fn(U) -> V, H: Fn(T) -> V>(
    t: Tensor<T>,
    r1: Tensor<U>,
    r2: Tensor<V>,
    r3: Tensor<V>,
    f: F,
    g: G,
    h: H,
    sf: spec_fn(T) -> U,
    sg: spec_fn(U) -> V,
)
    requires
        forall|x: T, y: U| f.ensures((x,), y) ==> y == sf(x),
        forall|x: U, y: V| g.ensures((x,), y) ==> y == sg(x),
        forall|x: T, y: V| h.ensures((x,), y) ==> y == sg(sf(x)),
        mapped_through(t, r1, f),
        mapped_through(r1, r2, g),
        mapped_through(t, r3, h),
    ensures
        (r2 is Simple) == (r3 is Simple),
        r2.parts() == r3.parts(),
{
    assert forall|k: int| 0 <= k < r2.parts().len() implies #[trigger] r2.parts()[k] == r3.parts()[k] by {
        assert(r1.parts()[k].physical == sf(t.parts()[k].physical));
        assert(r2.parts()[k].physical == sg(r1.parts()[k].physical));
    }
    assert(r2.parts() =~= r3.parts());
}

/// Mapping the handles through a function that returns its argument gives
/// back the parts of the tensor.
pub proof fn lemma_map_identity<T, F: Fn(T) -> T>(t: Tensor<T>, r: Tensor<T>, f: F)
    requires
        forall|x: T, y: T| f.ensures((x,), y) ==> y == x,
        mapped_through(t, r, f),
    ensures
        (r is Simple) == (t is Simple),
        r.parts() == t.parts(),
{
    assert forall|k: int| 0 <= k < r.parts().len() implies #[trigger] r.parts()[k] == t.parts()[k] by {
        assert(f.ensures((t.parts()[k].physical,), r.parts()[k].physical));
    }
    assert(r.parts() =~= t.parts());
}

/// Transforming the layouts through `f` and then through `g` gives the
/// tensor that transforming them once through `h` gives, when `f`, `g` and
/// `h` are functions (`sf`, `sg` and their composition) of their argument.
pub proof fn lemma_transform_compose<
    T,
    F: Fn(ArrayLayout) -> ArrayLayout,
    G: Fn(ArrayLayout) -> ArrayLayout,
    H: Fn(ArrayLayout) -> ArrayLayout,
>(
    t: Tensor<T>,
    r1: Tensor<T>,
    r2: Tensor<T>,
    r3: Tensor<T>,
    f: F,
    g: G,
    h: H,
    sf: spec_fn(ArrayLayout) -> ArrayLayout,
    sg: spec_fn(ArrayLayout) -> ArrayLayout,
)
    requires
        forall|x: ArrayLayout, y: ArrayLayout| f.ensures((x,), y) ==> y == sf(x),
        forall|x: ArrayLayout, y: ArrayLayout| g.ensures((x,), y) ==> y == sg(x),
        forall|x: ArrayLayout, y: ArrayLayout| h.ensures((x,), y) ==> y == sg(sf(x)),
        transformed_by(t, r1, f),
        transformed_by(r1, r2, g),
        transformed_by(t, r3, h),
    ensures
        (r2 is Simple) == (r3 is Simple),
        r2.parts() == r3.parts(),
{
    assert forall|k: int| 0 <= k < r2.parts().len() implies #[trigger] r2.parts()[k] == r3.parts()[k] by {
        assert(r1.parts()[k].layout == sf(t.parts()[k].layout));
        assert(r2.parts()[k].layout == sg(r1.parts()[k].layout));
    }
    assert(r2.parts() =~= r3.parts());
}

/// Transforming the layouts through a function that returns its argument
/// gives back the parts of the tensor.
pub proof fn lemma_transform_identity<T, F: Fn(ArrayLayout) -> ArrayLayout>(t: Tensor<T>, r: Tensor<T>, f: F)
    requires
        forall|x: ArrayLayout, y: ArrayLayout| f.ensures((x,), y) ==> y == x,
        transformed_by(t, r, f),
    ensures
        (r is Simple) == (t is Simple),
        r.parts() == t.parts(),
{
    assert forall|k: int| 0 <= k < r.parts().len() implies #[trigger] r.parts()[k] == t.parts()[k] by {
        assert(f.ensures((t.parts()[k].layout,), r.parts()[k].layout));
    }
    assert(r.parts() =~= t.parts());
}

impl<T> Tensor<T> {
    /// The dense tensors that make up the tensor, in order.
    pub open spec fn parts(&self) -> Seq<SubTensor<T>> {
        match self {
            Tensor::Simple(t) => seq![*t],
            Tensor::Grouped(ts) => ts@,
        }
    }

    /// The data type of the tensor (that of its first part).
    pub fn dt(&self) -> (r: DigitLayout)
        requires
            self.parts().len() > 0,
        ensures
            r == self.parts()[0].dt,
    {
        match self {
            Tensor::Simple(t) => t.dt,
            Tensor::Grouped(ts) => ts[0].dt,
        }
    }

    /// The shape of the tensor (that of its first part).
    pub fn shape(&self) -> (r: &[usize])
        requires
            self.parts().len() > 0,
        ensures
            r@ == self.parts()[0].layout.shape@,
    {
        match self {
            Tensor::Simple(t) => t.shape(),
            Tensor::Grouped(ts) => ts[0].shape(),
        }
    }

    /// Maps the storage handle of every part through `f`.
    pub fn map<U, F: Fn(T) -> U>(self, f: F) -> (r: Tensor<U>)
        requires
            forall|k: int| 0 <= k < self.parts().len() ==> f.requires((#[trigger] self.parts()[k].physical,)),
        ensures
            mapped_through(self, r, f),
    {
        match self {
            Tensor::Simple(t) => {
                assert(self.parts()[0] == t);
                let r = Tensor::Simple(t.map(f));
                assert(r.parts()[0].layout == self.parts()[0].layout);
                r
            },
            Tensor::Grouped(ts) => {
                let ghost old_ts = ts@;
                assert(old_ts == self.parts());
                let mut rest = ts;
                let mut out: Vec<SubTensor<U>> = Vec::new();
                while rest.len() > 0
                    invariant
                        out@.len() + rest@.len() == old_ts.len(),
                        rest@ == old_ts.subrange(out@.len() as int, old_ts.len() as int),
                        forall|k: int| 0 <= k < old_ts.len() ==> f.requires((#[trigger] old_ts[k].physical,)),
                        forall|k: int|
                            0 <= k < out@.len() ==> {
                                &&& (#[trigger] out@[k]).dt == old_ts[k].dt
                                &&& out@[k].layout == old_ts[k].layout
                                &&& f.ensures((old_ts[k].physical,), out@[k].physical)
                            },
                    decreases rest@.len(),
                {
                    let t = rest.remove(0);
                    assert(t == old_ts[out@.len() as int]);
                    out.push(t.map(&f));
                }
                Tensor::Grouped(out)
            },
        }
    }

    /// Maps the layout of every part through `f`.
    pub fn transform<F: Fn(ArrayLayout) -> ArrayLayout>(self, f: F) -> (r: Self)
        requires
            forall|k: int| 0 <= k < self.parts().len() ==> f.requires((#[trigger] self.parts()[k].layout,)),
        ensures
            transformed_by(self, r, f),
    {
        match self {
            Tensor::Simple(t) => {
                assert(self.parts()[0] == t);
                let r = Tensor::Simple(t.transform(f));
                assert(r.parts()[0].physical == self.parts()[0].physical);
                r
            },
            Tensor::Grouped(ts) => {
                let ghost old_ts = ts@;
                assert(old_ts == self.parts());
                let mut rest = ts;
                let mut out: Vec<SubTensor<T>> = Vec::new();
                while rest.len() > 0
                    invariant
                        out@.len() + rest@.len() == old_ts.len(),
                        rest@ == old_ts.subrange(out@.len() as int, old_ts.len() as int),
                        forall|k: int| 0 <= k < old_ts.len() ==> f.requires((#[trigger] old_ts[k].layout,)),
                        forall|k: int|
                            0 <= k < out@.len() ==> {
                                &&& (#[trigger] out@[k]).dt == old_ts[k].dt
                                &&& out@[k].physical == old_ts[k].physical
                                &&& f.ensures((old_ts[k].layout,), out@[k].layout)
                            },
                    decreases rest@.len(),
                {
                    let t = rest.remove(0);
                    assert(t == old_ts[out@.len() as int]);
                    out.push(t.transform(&f));
                }
                Tensor::Grouped(out)
            },
        }
    }

    /// A tensor of the same parts (data types and layouts) whose handles are
    /// `f` of references to the handles of this one, as reading the tensor
    /// makes them.
    pub fn map_ref<U, F: Fn(&T) -> U>(&self, f: F) -> (r: Tensor<U>)
        requires
            forall|k: int| 0 <= k < self.parts().len() ==> f.requires((&#[trigger] self.parts()[k].physical,)),
        ensures
            (*self is Simple) == (r is Simple),
            r.parts().len() == self.parts().len(),
            forall|k: int|
                0 <= k < self.parts().len() ==> {
                    &&& (#[trigger] r.parts()[k]).dt == self.parts()[k].dt
                    &&& r.parts()[k].layout.same_as(&self.parts()[k].layout)
                    &&& f.ensures((&self.parts()[k].physical,), r.parts()[k].physical)
                },
    {
        match self {
            Tensor::Simple(t) => {
                assert(self.parts()[0] == *t);
                let p = SubTensor { dt: t.dt, layout: t.layout.clone(), physical: f(&t.physical) };
                Tensor::Simple(p)
            },
            Tensor::Grouped(ts) => {
                let mut out: Vec<SubTensor<U>> = Vec::new();
                let mut k: usize = 0;
                while k < ts.len()
                    invariant
                        k <= ts@.len(),
                        out@.len() == k,
                        ts@ == self.parts(),
                        forall|j: int| 0 <= j < ts@.len() ==> f.requires((&#[trigger] ts@[j].physical,)),
                        forall|j: int|
                            0 <= j < k ==> {
                                &&& (#[trigger] out@[j]).dt == ts@[j].dt
                                &&& out@[j].layout.same_as(&ts@[j].layout)
                                &&& f.ensures((&ts@[j].physical,), out@[j].physical)
                            },
                    decreases ts@.len() - k,
                {
                    let t = &ts[k];
                    out.push(SubTensor { dt: t.dt, layout: t.layout.clone(), physical: f(&t.physical) });
                    k = k + 1;
                }
                Tensor::Grouped(out)
            },
        }
    }

    /// Whether the tensor may be written, given whether each part is
    /// writeable: a single part decides alone, a group needs every part.
    pub fn is_mutable(&self, writeable: &[bool]) -> (r: bool)
        requires
            writeable@.len() == self.parts().len(),
        ensures
            r == all_set(writeable@),
    {
        match self {
            Tensor::Simple(_) => {
                assert(all_set(writeable@) == writeable@[0]);
                writeable[0]
            },
            Tensor::Grouped(_) => all_true(writeable),
        }
    }

    /// How to lock the tensor against writing, given whether each part is
    /// readable: a single part is simply tried; a group is taken part by part
    /// only when every part is readable, and refused otherwise.
    pub fn lock(&self, readable: &[bool]) -> (r: LockAction)
        requires
            readable@.len() == self.parts().len(),
        ensures
            r == (match self {
                Tensor::Simple(_) => LockAction::TryRead,
                Tensor::Grouped(_) => if all_set(readable@) {
                    LockAction::ReadAll
                } else {
                    LockAction::Refuse
                },
            }),
    {
        match self {
            Tensor::Simple(_) => LockAction::TryRead,
            Tensor::Grouped(_) => if all_true(readable) {
                LockAction::ReadAll
            } else {
                LockAction::Refuse
            },
        }
    }

    /// Unlocks the tensor: asks each part through `readable` whether it is
    /// readable, decides as [`Tensor::unlock`] does, and releases the handle
    /// of every part through `release` when that is the decision.
    pub fn unlocked<FR: Fn(&T) -> bool, FL: Fn(T) -> T>(self, readable: FR, release: FL) -> (r: Self)
        requires
            forall|x: &T| readable.requires((x,)),
            forall|x: T| release.requires((x,)),
        ensures
            released(self, r, readable, release),
    {
        let mut flags: Vec<bool> = Vec::new();
        match &self {
            Tensor::Simple(p) => {
                flags.push(readable(&p.physical));
            },
            Tensor::Grouped(ps) => {
                let mut k: usize = 0;
                while k < ps.len()
                    invariant
                        k <= ps@.len(),
                        flags@.len() == k,
                        forall|x: &T| readable.requires((x,)),
                        forall|j: int|
                            0 <= j < k ==> readable.ensures((&ps@[j].physical,), #[trigger] flags@[j]),
                    decreases ps@.len() - k,
                {
                    flags.push(readable(&ps[k].physical));
                    k = k + 1;
                }
            },
        }
        let ghost fl = flags@;
        assert(fl.len() == self.parts().len());
        assert(forall|k: int|
            0 <= k < fl.len() ==> readable.ensures((&self.parts()[k].physical,), #[trigger] fl[k]));
        let action = self.unlock(&flags);
        let r = match action {
            UnlockAction::ReleaseAll => self.map(release),
            UnlockAction::Nothing => self,
        };
        assert(fl.len() == self.parts().len() && (self is Simple || all_set(fl) ==> mapped_through(self, r, release))
            && (!(self is Simple || all_set(fl)) ==> r == self));
        r
    }

    /// How to unlock the tensor, given whether each part is readable: a
    /// single part is released; a group is released only when every part is
    /// readable.
    pub fn unlock(&self, readable: &[bool]) -> (r: UnlockAction)
        requires
            readable@.len() == self.parts().len(),
        ensures
            r == (match self {
                Tensor::Simple(_) => UnlockAction::ReleaseAll,
                Tensor::Grouped(_) => if all_set(readable@) {
                    UnlockAction::ReleaseAll
                } else {
                    UnlockAction::Nothing
                },
            }),
    {
        match self {
            Tensor::Simple(_) => UnlockAction::ReleaseAll,
            Tensor::Grouped(_) => if all_true(readable) {
                UnlockAction::ReleaseAll
            } else {
                UnlockAction::Nothing
            },
        }
    }
}

/// `Rc::clone`: another handle to the same allocation, equal to the first.
#[verifier::external_body]
fn rc_clone(rc: &Rc<()>) -> (r: Rc<()>)
    ensures
        r == *rc,
{
    rc.clone()
}

/// The identity of a tensor of the network, shared by its clones and by the
/// tensors derived from it by layout changes.  Besides the shared
/// allocation it carries a ghost label that stands for that allocation in
/// contracts.
pub struct NNTensorId(Rc<()>, Ghost<int>);

impl NNTensorId {
    /// The label of the allocation that this identity shares.
    pub closed spec fn label(&self) -> int {
        self.1@
    }
}

impl Clone for NNTensorId {
    fn clone(&self) -> (r: Self)
        ensures
            r.label() == self.label(),
    {
        NNTensorId(rc_clone(&self.0), Ghost(self.1@))
    }
}

/// A tensor of the network: a tensor with an identity.
pub struct NNTensor<T> {
    tensor: Tensor<T>,
    id: Rc<()>,
    label: Ghost<int>,
}

/// An integer above the label of every tensor in `ts`.
pub open spec fn label_bound<T>(ts: Seq<NNTensor<T>>) -> int
    decreases ts.len(),
{
    if ts.len() == 0 {
        0
    } else {
        let rest = label_bound(ts.drop_last());
        let next = ts.last().label() + 1;
        if next > rest {
            next
        } else {
            rest
        }
    }
}

/// Every tensor of `ts` has a label below `label_bound(ts)`.
proof fn lemma_label_bound<T>(ts: Seq<NNTensor<T>>)
    ensures
        forall|i: int| 0 <= i < ts.len() ==> (#[trigger] ts[i]).label() < label_bound(ts),
    decreases ts.len(),
{
    if ts.len() > 0 {
        lemma_label_bound(ts.drop_last());
        assert forall|i: int| 0 <= i < ts.len() implies (#[trigger] ts[i]).label() < label_bound(ts) by {
            if i < ts.len() - 1 {
                assert(ts.drop_last()[i] == ts[i]);
            }
        }
    }
}

impl<T> NNTensor<T> {
    /// The tensor that this tensor of the network holds.
    pub closed spec fn inner(&self) -> Tensor<T> {
        self.tensor
    }

    /// The label of the allocation that serves as this tensor's identity.
    pub closed spec fn label(&self) -> int {
        self.label@
    }

    /// A tensor of the network holding `tensor`, with a newly allocated
    /// identity.  Its label is left open: where the label must differ from
    /// those of known tensors, [`NNTensor::new_among`] states it.
    pub fn from(tensor: Tensor<T>) -> (r: Self)
        ensures
            r.inner() == tensor,
    {
        NNTensor { tensor, id: Rc::new(()), label: Ghost(arbitrary()) }
    }

    /// A tensor of the network holding `tensor`, with a newly allocated
    /// identity labelled `label`.
    pub(crate) fn labelled(tensor: Tensor<T>, label: Ghost<int>) -> (r: Self)
        ensures
            r.inner() == tensor,
            r.label() == label@,
    {
        NNTensor { tensor, id: Rc::new(()), label }
    }

    /// A tensor of the network holding `tensor`, with a newly allocated
    /// identity whose label differs from that of every tensor in `known`.
    pub fn new_among(tensor: Tensor<T>, known: &[NNTensor<T>]) -> (r: Self)
        ensures
            r.inner() == tensor,
            forall|i: int| 0 <= i < known@.len() ==> (#[trigger] known@[i]).label() != r.label(),
    {
        proof {
            lemma_label_bound(known@);
        }
        Self::labelled(tensor, Ghost(label_bound(known@)))
    }

    /// The identity of the tensor: a handle to the allocation it holds.
    pub fn id(&self) -> (r: NNTensorId)
        ensures
            r.label() == self.label(),
    {
        NNTensorId(rc_clone(&self.id), Ghost(self.label@))
    }

    /// The same tensor of the network (same identity) with every layout
    /// mapped through `f`.
    pub fn transform<F: Fn(ArrayLayout) -> ArrayLayout>(self, f: F) -> (r: Self)
        requires
            forall|k: int|
                0 <= k < self.inner().parts().len() ==> f.requires(
                    (#[trigger] self.inner().parts()[k].layout,),
                ),
        ensures
            r.label() == self.label(),
            (self.inner() is Simple) == (r.inner() is Simple),
            r.inner().parts().len() == self.inner().parts().len(),
            forall|k: int|
                0 <= k < self.inner().parts().len() ==> {
                    &&& (#[trigger] r.inner().parts()[k]).dt == self.inner().parts()[k].dt
                    &&& r.inner().parts()[k].physical == self.inner().parts()[k].physical
                    &&& f.ensures((self.inner().parts()[k].layout,), r.inner().parts()[k].layout)
                },
    {
        NNTensor { tensor: self.tensor.transform(f), id: self.id, label: self.label }
    }

    /// The tensor held.
    pub fn tensor(&self) -> (r: &Tensor<T>)
        ensures
            *r == self.inner(),
    {
        &self.tensor
    }

    /// The tensor held, for changes in place.
    pub fn tensor_mut(&mut self) -> (r: &mut Tensor<T>)
        ensures
            *r == old(self).inner(),
            final(self).inner() == *final(r),
            final(self).label() == old(self).label(),
    {
        &mut self.tensor
    }
}

impl<T: Clone> Clone for NNTensor<T> {
    fn clone(&self) -> (r: Self)
        ensures
            tensor_cloned(self.inner(), r.inner()),
            r.label() == self.label(),
    {
        NNTensor { tensor: self.tensor.clone(), id: rc_clone(&self.id), label: Ghost(self.label@) }
    }
}

} // verus!

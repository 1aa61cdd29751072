//! The context in which a network is built and run: the current path of
//! names, the registry of weights (and their gradients) under their full
//! names, the record of forward calls, and the slot of the backward builder.
use vstd::prelude::*;
use vstd::string::StringSliceAdditionalSpecFns;
use crate::tensor::{released, NNTensor, Tensor};
use digit_layout::DigitLayout;

verus! {

/// A weight under its full name, with its gradient once one exists.
struct WeightSlot<W> {
    key: Vec<u8>,
    weight: W,
    gradient: Option<W>,
}

/// The context: `D` is the domain that runs kernels, `W` a tensor of the
/// network, `B` the backward builder and `N` a record of a forward call.
pub struct Context<D, W, B, N> {
    path: Vec<u8>,
    domain: D,
    weights: Vec<WeightSlot<W>>,
    forward: Vec<N>,
    backward: Option<B>,
}

/// The full name of `name` under `path`: `path.name`.
pub open spec fn full_name(path: Seq<u8>, name: Seq<u8>) -> Seq<u8> {
    path.push(46u8) + name
}

/// The path once the last `len + 1` bytes (a dot and a name) are dropped.
pub open spec fn leave_path(path: Seq<u8>, len: nat) -> Seq<u8> {
    path.subrange(0, path.len() - 1 - len)
}

/// Stepping into a sub-network and out of it again restores the path.
pub proof fn lemma_enter_leave(path: Seq<u8>, name: Seq<u8>)
    ensures
        leave_path(full_name(path, name), name.len()) == path,
{
    assert(leave_path(full_name(path, name), name.len()) =~= path);
}

/// Reading gives back what saving wrote: once `w` is saved as `name` under
/// `path` (every other full name keeping its entry), loading `name` under the
/// same path yields a clone of `w`, with no gradient yet, and loading any
/// other full name yields what it did before.
pub proof fn lemma_load_after_save<D, W: Clone, B, N>(
    before: Context<D, W, B, N>,
    after: Context<D, W, B, N>,
    name: Seq<u8>,
    w: W,
    loaded: Option<W>,
)
    requires
        after.path_view() == before.path_view(),
        forall|k: Seq<u8>|
            #[trigger] after.weight_entry(k) == (if k == full_name(before.path_view(), name) {
                Some((w, None))
            } else {
                before.weight_entry(k)
            }),
        match after.weight_entry(full_name(after.path_view(), name)) {
            Some(e) => loaded matches Some(l) && cloned(e.0, l),
            None => loaded is None,
        },
    ensures
        after.weight_entry(full_name(after.path_view(), name)) == Some((w, None::<W>)),
        loaded matches Some(l) && cloned(w, l),
        forall|k: Seq<u8>|
            k != full_name(before.path_view(), name) ==> #[trigger] after.weight_entry(k)
                == before.weight_entry(k),
{
    assert(after.weight_entry(full_name(after.path_view(), name)) == Some((w, None::<W>)));
}

/// The entry of `key` in `slots`: the last slot under that key.
spec fn lookup<W>(slots: Seq<WeightSlot<W>>, key: Seq<u8>) -> Option<(W, Option<W>)>
    decreases slots.len(),
{
    if slots.len() == 0 {
        None
    } else if slots.last().key@ == key {
        Some((slots.last().weight, slots.last().gradient))
    } else {
        lookup(slots.drop_last(), key)
    }
}

/// No two slots share a key.
spec fn keys_unique<W>(slots: Seq<WeightSlot<W>>) -> bool {
    forall|i: int, j: int| 0 <= i < j < slots.len() ==> slots[i].key@ != slots[j].key@
}

proof fn lemma_lookup_found<W>(slots: Seq<WeightSlot<W>>, i: int)
    requires
        keys_unique(slots),
        0 <= i < slots.len(),
    ensures
        lookup(slots, slots[i].key@) == Some((slots[i].weight, slots[i].gradient)),
    decreases slots.len(),
{
    if i != slots.len() - 1 {
        assert(slots.drop_last()[i] == slots[i]);
        lemma_lookup_found(slots.drop_last(), i);
    }
}

proof fn lemma_lookup_absent<W>(slots: Seq<WeightSlot<W>>, key: Seq<u8>)
    requires
        forall|i: int| 0 <= i < slots.len() ==> slots[i].key@ != key,
    ensures
        lookup(slots, key) is None,
    decreases slots.len(),
{
    if slots.len() > 0 {
        lemma_lookup_absent(slots.drop_last(), key);
    }
}

proof fn lemma_lookup_update<W>(slots: Seq<WeightSlot<W>>, i: int, s: WeightSlot<W>, key: Seq<u8>)
    requires
        keys_unique(slots),
        0 <= i < slots.len(),
        s.key@ == slots[i].key@,
    ensures
        lookup(slots.update(i, s), key) == (if key == s.key@ {
            Some((s.weight, s.gradient))
        } else {
            lookup(slots, key)
        }),
    decreases slots.len(),
{
    let up = slots.update(i, s);
    if i == slots.len() - 1 {
        assert(up.drop_last() == slots.drop_last());
        if key != s.key@ {
        }
    } else {
        assert(up.drop_last() == slots.drop_last().update(i, s));
        lemma_lookup_update(slots.drop_last(), i, s, key);
        if key == s.key@ {
            assert(up.last().key@ != key);
        }
    }
}

/// Whether `a` and `b` hold the same bytes.
fn bytes_eq(a: &[u8], b: &[u8]) -> (r: bool)
    ensures
        r == (a@ == b@),
{
    if a.len() != b.len() {
        return false;
    }
    let mut i: usize = 0;
    while i < a.len()
        invariant
            a@.len() == b@.len(),
            i <= a@.len(),
            forall|j: int| 0 <= j < i ==> a@[j] == b@[j],
        decreases a@.len() - i,
    {
        if a[i] != b[i] {
            return false;
        }
        i = i + 1;
    }
    assert(a@ =~= b@);
    true
}

impl<D, W, B, N> Context<D, W, B, N> {
    /// The context is consistent: no two weights share a full name.
    pub closed spec fn wf(&self) -> bool {
        keys_unique(self.weights@)
    }

    /// The current path of names.
    pub closed spec fn path_view(&self) -> Seq<u8> {
        self.path@
    }

    /// The weight and the gradient (if any) registered under a full name.
    pub closed spec fn weight_entry(&self, key: Seq<u8>) -> Option<(W, Option<W>)> {
        lookup(self.weights@, key)
    }

    /// Both contexts register the same weights and gradients.
    pub open spec fn same_weights(&self, other: Self) -> bool {
        forall|k: Seq<u8>| #[trigger] self.weight_entry(k) == other.weight_entry(k)
    }

    /// The domain of the context.
    pub closed spec fn domain_view(&self) -> D {
        self.domain
    }

    /// The forward calls recorded so far.
    pub closed spec fn forward_view(&self) -> Seq<N> {
        self.forward@
    }

    /// The backward builder, when the context holds one.
    pub closed spec fn backward_view(&self) -> Option<B> {
        self.backward
    }

    /// An empty context over `domain`, at the root path, with `backward`
    /// as its builder.
    pub fn new(domain: D, backward: Option<B>) -> (r: Self)
        ensures
            r.wf(),
            r.path_view() == Seq::<u8>::empty(),
            forall|k: Seq<u8>| r.weight_entry(k) is None,
            r.domain_view() == domain,
            r.forward_view() == Seq::<N>::empty(),
            r.backward_view() == backward,
    {
        let r = Context { path: Vec::new(), domain, weights: Vec::new(), forward: Vec::new(), backward };
        proof {
            assert forall|k: Seq<u8>| r.weight_entry(k) is None by {
                lemma_lookup_absent(r.weights@, k);
            }
        }
        r
    }

    /// The current path.
    pub fn path(&self) -> (r: &[u8])
        ensures
            r@ == self.path_view(),
    {
        self.path.as_slice()
    }

    /// The domain.
    pub fn domain(&self) -> (r: &D)
        ensures
            *r == self.domain_view(),
    {
        &self.domain
    }

    /// Steps into the sub-network `name`: the path becomes `path.name`.
    pub fn enter(&mut self, name: &str)
        requires
            old(self).wf(),
        ensures
            final(self).wf(),
            final(self).path_view() == full_name(old(self).path_view(), name.spec_bytes()),
            final(self).same_weights(*old(self)),
            final(self).domain_view() == old(self).domain_view(),
            final(self).forward_view() == old(self).forward_view(),
            final(self).backward_view() == old(self).backward_view(),
    {
        self.path.push(46u8);
        let bytes = name.as_bytes();
        let mut i: usize = 0;
        let ghost p0 = old(self).path@.push(46u8);
        while i < bytes.len()
            invariant
                i <= bytes@.len(),
                bytes@ == name.spec_bytes(),
                self.path@ == p0 + bytes@.subrange(0, i as int),
                self.weights == old(self).weights,
                self.domain == old(self).domain,
                self.forward == old(self).forward,
                self.backward == old(self).backward,
            decreases bytes@.len() - i,
        {
            self.path.push(bytes[i]);
            assert(bytes@.subrange(0, i + 1) == bytes@.subrange(0, i as int).push(bytes@[i as int]));
            i = i + 1;
        }
        assert(bytes@.subrange(0, bytes@.len() as int) == bytes@);
    }

    /// Steps out of the sub-network `name`: drops as many bytes from the
    /// end of the path as a dot and `name` take.
    pub fn leave(&mut self, name: &str)
        requires
            old(self).wf(),
            old(self).path_view().len() >= 1 + name.spec_bytes().len(),
        ensures
            final(self).wf(),
            final(self).path_view() == leave_path(old(self).path_view(), name.spec_bytes().len()),
            final(self).same_weights(*old(self)),
            final(self).domain_view() == old(self).domain_view(),
            final(self).forward_view() == old(self).forward_view(),
            final(self).backward_view() == old(self).backward_view(),
    {
        let len = self.path.len() - 1 - name.len();
        self.path.truncate(len);
    }

    /// The full name of `name` under the current path.
    fn key_of(&self, name: &str) -> (r: Vec<u8>)
        ensures
            r@ == full_name(self.path@, name.spec_bytes()),
    {
        let mut key: Vec<u8> = self.path.clone();
        key.push(46u8);
        let bytes = name.as_bytes();
        let mut i: usize = 0;
        let ghost k0 = self.path@.push(46u8);
        while i < bytes.len()
            invariant
                i <= bytes@.len(),
                bytes@ == name.spec_bytes(),
                key@ == k0 + bytes@.subrange(0, i as int),
                k0 == self.path@.push(46u8),
            decreases bytes@.len() - i,
        {
            key.push(bytes[i]);
            assert(bytes@.subrange(0, i + 1) == bytes@.subrange(0, i as int).push(bytes@[i as int]));
            i = i + 1;
        }
        assert(bytes@.subrange(0, bytes@.len() as int) == bytes@);
        key
    }

    /// Finds the slot of the full name of `name`.
    fn find(&self, name: &str) -> (r: Option<usize>)
        requires
            self.wf(),
        ensures
            r matches Some(i) ==> i < self.weights@.len() && self.weights@[i as int].key@ == full_name(
                self.path@,
                name.spec_bytes(),
            ),
            r is None ==> self.weight_entry(full_name(self.path@, name.spec_bytes())) is None,
    {
        let key = self.key_of(name);
        let ghost full = full_name(self.path@, name.spec_bytes());
        let mut j: usize = 0;
        while j < self.weights.len()
            invariant
                j <= self.weights@.len(),
                key@ == full,
                full == full_name(self.path@, name.spec_bytes()),
                forall|t: int| 0 <= t < j ==> self.weights@[t].key@ != full,
            decreases self.weights@.len() - j,
        {
            let kj = self.weights[j].key.as_slice();
            let kk = key.as_slice();
            if bytes_eq(kj, kk) {
                assert(self.weights@[j as int].key@ == full);
                return Some(j);
            }
            j = j + 1;
        }
        proof {
            lemma_lookup_absent(self.weights@, full);
        }
        None
    }

    /// Whether a weight is registered as `name` under the current path.
    pub fn has_weight(&self, name: &str) -> (r: bool)
        requires
            self.wf(),
        ensures
            r == self.weight_entry(full_name(self.path_view(), name.spec_bytes())) is Some,
    {
        match self.find(name) {
            Some(i) => {
                proof {
                    lemma_lookup_found(self.weights@, i as int);
                }
                true
            },
            None => false,
        }
    }

    /// Registers `weight` as `name` under the current path, without a
    /// gradient.  The name must be new.
    pub fn save_weight(&mut self, name: &str, weight: W)
        requires
            old(self).wf(),
            old(self).weight_entry(full_name(old(self).path_view(), name.spec_bytes())) is None,
        ensures
            final(self).wf(),
            forall|k: Seq<u8>|
                #[trigger] final(self).weight_entry(k) == (if k == full_name(
                    old(self).path_view(),
                    name.spec_bytes(),
                ) {
                    Some((weight, None))
                } else {
                    old(self).weight_entry(k)
                }),
            final(self).path_view() == old(self).path_view(),
            final(self).domain_view() == old(self).domain_view(),
            final(self).forward_view() == old(self).forward_view(),
            final(self).backward_view() == old(self).backward_view(),
    {
        let key = self.key_of(name);
        let ghost full = full_name(self.path@, name.spec_bytes());
        proof {
            assert forall|t: int| 0 <= t < self.weights@.len() implies self.weights@[t].key@ != full by {
                if self.weights@[t].key@ == full {
                    lemma_lookup_found(self.weights@, t);
                }
            }
        }
        let ghost before = self.weights@;
        self.weights.push(WeightSlot { key, weight, gradient: None });
        proof {
            assert(self.weights@.drop_last() == before);
            assert(keys_unique(self.weights@));
        }
    }

    /// The weight registered as `name` under the current path (a clone),
    /// or `None` when there is none.
    pub fn load_weight(&self, name: &str) -> (r: Option<W>)
        where
            W: Clone,
        requires
            self.wf(),
        ensures
            match self.weight_entry(full_name(self.path_view(), name.spec_bytes())) {
                Some(e) => r matches Some(w) && cloned(e.0, w),
                None => r is None,
            },
    {
        match self.find(name) {
            Some(i) => {
                proof {
                    lemma_lookup_found(self.weights@, i as int);
                }
                Some(self.weights[i].weight.clone())
            },
            None => None,
        }
    }

    /// Records a forward call.
    pub fn record(&mut self, node: N)
        requires
            old(self).wf(),
        ensures
            final(self).wf(),
            final(self).forward_view() == old(self).forward_view().push(node),
            final(self).path_view() == old(self).path_view(),
            final(self).same_weights(*old(self)),
            final(self).domain_view() == old(self).domain_view(),
            final(self).backward_view() == old(self).backward_view(),
    {
        self.forward.push(node);
    }

    /// Whether the context holds a backward builder.
    pub fn has_backward_builder(&self) -> (r: bool)
        ensures
            r == self.backward_view() is Some,
    {
        self.backward.is_some()
    }

    /// Takes the backward builder out of the context, leaving none.
    pub fn take_backward_builder(&mut self) -> (r: Option<B>)
        requires
            old(self).wf(),
        ensures
            final(self).wf(),
            r == old(self).backward_view(),
            final(self).backward_view() is None,
            final(self).path_view() == old(self).path_view(),
            final(self).same_weights(*old(self)),
            final(self).domain_view() == old(self).domain_view(),
            final(self).forward_view() == old(self).forward_view(),
    {
        self.backward.take()
    }

    /// Puts a backward builder into the context, which must hold none.
    pub fn put_backward_builder(&mut self, bb: B)
        requires
            old(self).wf(),
            old(self).backward_view() is None,
        ensures
            final(self).wf(),
            final(self).backward_view() == Some(bb),
            final(self).path_view() == old(self).path_view(),
            final(self).same_weights(*old(self)),
            final(self).domain_view() == old(self).domain_view(),
            final(self).forward_view() == old(self).forward_view(),
    {
        self.backward = Some(bb);
    }
}


/// An integer above the label of every weight and gradient in `slots`.
spec fn registry_bound<M>(slots: Seq<WeightSlot<NNTensor<M>>>) -> int
    decreases slots.len(),
{
    if slots.len() == 0 {
        0
    } else {
        let s = slots.last();
        let rest = registry_bound(slots.drop_last());
        let w = if s.weight.label() + 1 > rest { s.weight.label() + 1 } else { rest };
        match s.gradient {
            Some(g) => if g.label() + 1 > w { g.label() + 1 } else { w },
            None => w,
        }
    }
}

/// Whether no weight or gradient registered in `c` has the label `l`.
pub open spec fn label_unused<D, M, B, N>(c: Context<D, NNTensor<M>, B, N>, l: int) -> bool {
    forall|k: Seq<u8>|
        #[trigger] c.weight_entry(k) matches Some((w, g)) ==> w.label() != l && (g matches Some(
            g2,
        ) ==> g2.label() != l)
}

proof fn lemma_registry_bound<M>(slots: Seq<WeightSlot<NNTensor<M>>>, key: Seq<u8>)
    ensures
        lookup(slots, key) matches Some((w, g)) ==> w.label() < registry_bound(slots) && (g matches Some(
            g2,
        ) ==> g2.label() < registry_bound(slots)),
    decreases slots.len(),
{
    if slots.len() > 0 && slots.last().key@ != key {
        lemma_registry_bound(slots.drop_last(), key);
    }
}

/// What loading the gradient of the weight under `key` does, from `before`
/// to `after`, returning `r`.  When the weight has a gradient, `r` is a
/// clone of it and the weights stay as they were: nothing is allocated.
/// Otherwise a tensor is allocated through `alloc` from the domain, with the
/// data type and the shape of the weight, unlocked through `readable` and
/// `release`, and given a new identity, labelled apart from every weight and
/// gradient that `before` registers; the weight keeps a clone of it as its
/// gradient, and every other entry stays.
pub open spec fn gradient_loaded<D, M: Clone, B, N, FA, FR, FL>(
    before: Context<D, NNTensor<M>, B, N>,
    after: Context<D, NNTensor<M>, B, N>,
    key: Seq<u8>,
    r: NNTensor<M>,
    alloc: FA,
    readable: FR,
    release: FL,
) -> bool where
    FA: FnOnce(&D, DigitLayout, &[usize]) -> Tensor<M>,
    FR: Fn(&M) -> bool,
    FL: Fn(M) -> M,
 {
    let (w, g) = before.weight_entry(key)->0;
    match g {
        Some(g) => cloned(g, r) && after.same_weights(before),
        None => {
            &&& exists|shape: &[usize], t: Tensor<M>|
                {
                    &&& shape@ == w.inner().parts()[0].layout.shape@
                    &&& alloc.ensures((&before.domain_view(), w.inner().parts()[0].dt, shape), t)
                    &&& released(t, r.inner(), readable, release)
                }
            &&& label_unused(before, r.label())
            &&& after.weight_entry(key) matches Some((w2, Some(g2))) && w2 == w && cloned(r, g2)
            &&& forall|k: Seq<u8>| k != key ==> #[trigger] after.weight_entry(k) == before.weight_entry(k)
        },
    }
}

/// A gradient is allocated once: after its gradient was loaded, loading
/// the gradient of the same weight again under the same path finds it, so
/// that nothing is allocated; it returns a clone of the kept gradient, with
/// the identity of the first result, and leaves the weights as they were.
pub proof fn lemma_gradient_allocated_once<D, M: Clone, B, N, FA1, FR1, FL1, FA2, FR2, FL2>(
    c0: Context<D, NNTensor<M>, B, N>,
    c1: Context<D, NNTensor<M>, B, N>,
    c2: Context<D, NNTensor<M>, B, N>,
    key: Seq<u8>,
    r1: NNTensor<M>,
    r2: NNTensor<M>,
    alloc1: FA1,
    readable1: FR1,
    release1: FL1,
    alloc2: FA2,
    readable2: FR2,
    release2: FL2,
)
    where
        FA1: FnOnce(&D, DigitLayout, &[usize]) -> Tensor<M>,
        FR1: Fn(&M) -> bool,
        FL1: Fn(M) -> M,
        FA2: FnOnce(&D, DigitLayout, &[usize]) -> Tensor<M>,
        FR2: Fn(&M) -> bool,
        FL2: Fn(M) -> M,
    requires
        c0.weight_entry(key) is Some,
        gradient_loaded(c0, c1, key, r1, alloc1, readable1, release1),
        gradient_loaded(c1, c2, key, r2, alloc2, readable2, release2),
    ensures
        c1.weight_entry(key) matches Some((w, Some(g))) && w == (c0.weight_entry(key)->0).0
            && g.label() == r1.label() && cloned(g, r2),
        c2.same_weights(c1),
        r2.label() == r1.label(),
{
    let (w0, g0) = c0.weight_entry(key)->0;
    match g0 {
        Some(g) => {
            assert(c1.weight_entry(key) == c0.weight_entry(key));
        },
        None => {},
    }
}

impl<D, M: Clone, B, N> Context<D, NNTensor<M>, B, N> {
    /// The gradient of the weight registered as `name` under the current
    /// path.  When the weight has none yet, one is allocated through `alloc`
    /// from the domain with the data type and the shape of the weight, given a
    /// new identity (labelled apart from every registered tensor) and
    /// unlocked (each part asked through `readable`, released through
    /// `release`); the context keeps a clone of it.  The weight must exist.
    pub fn load_gradient<FA, FR, FL>(&mut self, name: &str, alloc: FA, readable: FR, release: FL) -> (r: NNTensor<M>)
        where
            FA: FnOnce(&D, DigitLayout, &[usize]) -> Tensor<M>,
            FR: Fn(&M) -> bool,
            FL: Fn(M) -> M,
        requires
            old(self).wf(),
            old(self).weight_entry(full_name(old(self).path_view(), name.spec_bytes())) is Some,
            (old(self).weight_entry(full_name(old(self).path_view(), name.spec_bytes()))->0).0.inner().parts().len() > 0,
            forall|d: &D, dt: DigitLayout, s: &[usize]| alloc.requires((d, dt, s)),
            forall|x: &M| readable.requires((x,)),
            forall|x: M| release.requires((x,)),
        ensures
            final(self).wf(),
            gradient_loaded(
                *old(self),
                *final(self),
                full_name(old(self).path_view(), name.spec_bytes()),
                r,
                alloc,
                readable,
                release,
            ),
            final(self).path_view() == old(self).path_view(),
            final(self).domain_view() == old(self).domain_view(),
            final(self).forward_view() == old(self).forward_view(),
            final(self).backward_view() == old(self).backward_view(),
    {
        let i = match self.find(name) {
            Some(i) => i,
            None => {
                proof {
                    assert(false);
                }
                0
            },
        };
        proof {
            lemma_lookup_found(self.weights@, i as int);
        }
        match &self.weights[i].gradient {
            Some(g) => {
                return g.clone();
            },
            None => {},
        }
        let weight = self.weights[i].weight.tensor();
        let dt = weight.dt();
        let shape = weight.shape();
        let t = alloc(&self.domain, dt, shape);
        let ghost t0 = t;
        proof {
            let bound = registry_bound(self.weights@);
            assert forall|k: Seq<u8>|
                (#[trigger] lookup(self.weights@, k) matches Some((w, g)) ==> w.label() != bound && (
                g matches Some(g2) ==> g2.label() != bound)) by {
                lemma_registry_bound(self.weights@, k);
            }
            assert(label_unused(*self, bound));
        }
        let fresh = NNTensor::labelled(t.unlocked(readable, release), Ghost(registry_bound(self.weights@)));
        assert(exists|s: &[usize], t: Tensor<M>|
            {
                &&& s@ == self.weights@[i as int].weight.inner().parts()[0].layout.shape@
                &&& alloc.ensures((&self.domain, self.weights@[i as int].weight.inner().parts()[0].dt, s), t)
                &&& released(t, fresh.inner(), readable, release)
            }) by {
            assert(shape@ == self.weights@[i as int].weight.inner().parts()[0].layout.shape@);
        }
        let kept = fresh.clone();
        let ghost before = self.weights@;
        let mut slot = self.weights.remove(i);
        slot.gradient = Some(kept);
        self.weights.insert(i, slot);
        proof {
            assert(self.weights@ =~= before.update(i as int, slot));
            assert forall|k: Seq<u8>| #[trigger] lookup(self.weights@, k) == (if k == slot.key@ {
                Some((slot.weight, slot.gradient))
            } else {
                lookup(before, k)
            }) by {
                lemma_lookup_update(before, i as int, slot, k);
            }
            assert forall|a: int, b: int| 0 <= a < b < self.weights@.len() implies self.weights@[a].key@
                != self.weights@[b].key@ by {
                assert(before[a].key@ != before[b].key@);
            }
        }
        fresh
    }
}

} // verus!

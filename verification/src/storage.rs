//! The storage layer: a key-value store with transactional overlay semantics.
//!
//! Mutations land in the topmost of a stack of overlay scopes.  A scope can be
//! committed (folded into its parent) or rolled back (discarded wholesale), so
//! everything written inside an uncommitted scope stays invisible outside it.
//! The bottom layer is the committed store; each layer is a journal of writes
//! where the latest write to a key wins.

use vstd::prelude::*;

verus! {

/// One write recorded in a storage layer: a key set to a value, or removed.
pub struct Entry {
    /// The byte key written to.
    pub key: Vec<u8>,
    /// The value written, or `None` for a removal.
    pub val: Option<Vec<u8>>,
}

/// The mathematical value of an optional byte string.
pub open spec fn opt_bytes(v: Option<Vec<u8>>) -> Option<Seq<u8>> {
    match v {
        Option::Some(b) => Option::Some(b@),
        Option::None => Option::None,
    }
}

/// What a single journal layer says about `key`: `None` when the layer never
/// wrote the key, `Some(e)` for the latest write (`e` is `None` for a removal).
pub open spec fn layer_get(layer: Seq<Entry>, key: Seq<u8>) -> Option<Option<Seq<u8>>>
    decreases layer.len(),
{
    if layer.len() == 0 {
        Option::None
    } else if layer.last().key@ == key {
        Option::Some(opt_bytes(layer.last().val))
    } else {
        layer_get(layer.drop_last(), key)
    }
}

/// The value of `key` under a stack of layers: the topmost layer that wrote
/// the key decides; a key no layer wrote is absent.
pub open spec fn stack_get(layers: Seq<Vec<Entry>>, key: Seq<u8>) -> Option<Seq<u8>>
    decreases layers.len(),
{
    if layers.len() == 0 {
        Option::None
    } else {
        match layer_get(layers.last()@, key) {
            Option::Some(e) => e,
            Option::None => stack_get(layers.drop_last(), key),
        }
    }
}

/// A write in a combined journal `a + b` is decided by `b` first.
pub proof fn lemma_layer_get_concat(a: Seq<Entry>, b: Seq<Entry>, key: Seq<u8>)
    ensures
        layer_get(a + b, key) == (match layer_get(b, key) {
            Option::Some(e) => Option::Some(e),
            Option::None => layer_get(a, key),
        }),
    decreases b.len(),
{
    if b.len() == 0 {
        assert(a + b =~= a);
    } else {
        assert((a + b).drop_last() =~= a + b.drop_last());
        assert((a + b).last() == b.last());
        lemma_layer_get_concat(a, b.drop_last(), key);
    }
}

/// The versioned key-value store consumed by all modules.
pub struct Storage {
    /// The stack of journal layers; index 0 is the committed store.
    pub layers: Vec<Vec<Entry>>,
}

impl Storage {
    /// There is always a committed base layer.
    pub open spec fn wf(self) -> bool {
        self.layers@.len() >= 1
    }

    /// How many layers are open, the committed base included.
    pub open spec fn depth(self) -> nat {
        self.layers@.len()
    }

    /// The journal of the committed store.
    pub open spec fn base(self) -> Seq<Entry> {
        self.layers@[0]@
    }

    /// The value of `key` as seen through every open scope.
    pub open spec fn lookup(self, key: Seq<u8>) -> Option<Seq<u8>> {
        stack_get(self.layers@, key)
    }

    /// The value of `key` ignoring the topmost scope: what a rollback of that
    /// scope will restore.
    pub open spec fn lookup_below(self, key: Seq<u8>) -> Option<Seq<u8>> {
        stack_get(self.layers@.drop_last(), key)
    }

    /// An empty store with only the committed base layer.
    pub fn new() -> (s: Storage)
        ensures
            s.wf(),
            s.depth() == 1,
            s.base() == Seq::<Entry>::empty(),
            forall|k: Seq<u8>| s.lookup(k) == Option::<Seq<u8>>::None,
    {
        let mut layers: Vec<Vec<Entry>> = Vec::new();
        layers.push(Vec::new());
        let s = Storage { layers };
        proof {
            assert forall|k: Seq<u8>| s.lookup(k) == Option::<Seq<u8>>::None by {
                assert(layer_get(s.layers@.last()@, k) == Option::<Option<Seq<u8>>>::None);
                assert(s.layers@.drop_last() =~= Seq::<Vec<Entry>>::empty());
                assert(stack_get(Seq::<Vec<Entry>>::empty(), k) == Option::<Seq<u8>>::None);
                assert(stack_get(s.layers@, k) == stack_get(s.layers@.drop_last(), k));
            }
        }
        s
    }

    /// Reads `key` through every open scope.
    pub fn get(&self, key: &Vec<u8>) -> (r: Option<Vec<u8>>)
        requires
            self.wf(),
        ensures
            opt_bytes(r) == self.lookup(key@),
    {
        let ghost all = self.layers@;
        proof {
            assert(all.take(all.len() as int) =~= all);
        }
        let mut li: usize = self.layers.len();
        while li > 0
            invariant
                li <= self.layers@.len(),
                all == self.layers@,
                stack_get(all, key@) == stack_get(all.take(li as int), key@),
            decreases li,
        {
            let layer = &self.layers[li - 1];
            let found = layer_find(layer, key);
            proof {
                assert(all.take(li as int).last() == all[li - 1]);
                assert(all.take(li as int).drop_last() =~= all.take(li - 1));
            }
            match found {
                Option::Some(e) => {
                    return e;
                },
                Option::None => {
                    li = li - 1;
                },
            }
        }
        proof {
            assert(all.take(0) =~= Seq::<Vec<Entry>>::empty());
        }
        Option::None
    }

    /// Records `key := value` in the topmost scope.
    pub fn set(&mut self, key: Vec<u8>, value: Vec<u8>)
        requires
            old(self).wf(),
        ensures
            final(self).wf(),
            final(self).depth() == old(self).depth(),
            final(self).layers@.drop_last() == old(self).layers@.drop_last(),
            final(self).lookup(key@) == Option::Some(value@),
            forall|k: Seq<u8>| k != key@ ==> final(self).lookup(k) == old(self).lookup(k),
    {
        let entry = Entry { key, val: Option::Some(value) };
        self.push_entry(entry);
    }

    /// Records a removal of `key` in the topmost scope.
    pub fn remove(&mut self, key: Vec<u8>)
        requires
            old(self).wf(),
        ensures
            final(self).wf(),
            final(self).depth() == old(self).depth(),
            final(self).layers@.drop_last() == old(self).layers@.drop_last(),
            final(self).lookup(key@) == Option::<Seq<u8>>::None,
            forall|k: Seq<u8>| k != key@ ==> final(self).lookup(k) == old(self).lookup(k),
    {
        let entry = Entry { key, val: Option::None };
        self.push_entry(entry);
    }

    /// Appends one write to the topmost layer's journal.
    fn push_entry(&mut self, entry: Entry)
        requires
            old(self).wf(),
        ensures
            final(self).wf(),
            final(self).depth() == old(self).depth(),
            final(self).layers@.drop_last() == old(self).layers@.drop_last(),
            final(self).layers@.last()@ == old(self).layers@.last()@.push(entry),
            final(self).lookup(entry.key@) == opt_bytes(entry.val),
            forall|k: Seq<u8>| k != entry.key@ ==> final(self).lookup(k) == old(self).lookup(k),
    {
        let ghost pre = *self;
        let ghost ekey = entry.key@;
        let ghost eval = entry.val;
        let mut top = self.layers.pop().unwrap();
        top.push(entry);
        self.layers.push(top);
        proof {
            assert(self.layers@.drop_last() =~= pre.layers@.drop_last());
            let topv = self.layers@.last()@;
            assert(topv == pre.layers@.last()@.push(entry));
            assert(topv.drop_last() =~= pre.layers@.last()@);
            assert(layer_get(topv, ekey) == Option::Some(opt_bytes(eval)));
            assert forall|k: Seq<u8>| k != ekey implies self.lookup(k) == pre.lookup(k) by {
                assert(layer_get(topv, k) == layer_get(pre.layers@.last()@, k));
                assert(self.layers@.drop_last() == pre.layers@.drop_last());
            }
        }
    }

    /// Opens a nested scope; later writes stay invisible below it until the
    /// scope is committed.
    pub fn scope(&mut self)
        requires
            old(self).wf(),
        ensures
            final(self).wf(),
            final(self).depth() == old(self).depth() + 1,
            final(self).layers@.drop_last() == old(self).layers@,
            final(self).layers@.last()@ == Seq::<Entry>::empty(),
            forall|k: Seq<u8>| final(self).lookup(k) == old(self).lookup(k),
    {
        let ghost pre = *self;
        self.layers.push(Vec::new());
        proof {
            assert(self.layers@.drop_last() =~= pre.layers@);
            assert forall|k: Seq<u8>| self.lookup(k) == pre.lookup(k) by {
                assert(layer_get(self.layers@.last()@, k) == Option::<Option<Seq<u8>>>::None);
            }
        }
    }

    /// Folds the topmost scope into its parent: every value read through the
    /// store is unchanged, but the writes now belong to the parent scope.
    pub fn commit_scope(&mut self)
        requires
            old(self).wf(),
            old(self).depth() >= 2,
        ensures
            final(self).wf(),
            final(self).depth() == old(self).depth() - 1,
            final(self).layers@.drop_last() == old(self).layers@.drop_last().drop_last(),
            final(self).layers@.last()@ == old(self).layers@[old(self).depth() - 2]@
                + old(self).layers@.last()@,
            forall|k: Seq<u8>| final(self).lookup(k) == old(self).lookup(k),
    {
        let ghost pre = *self;
        let mut top = self.layers.pop().unwrap();
        let mut parent = self.layers.pop().unwrap();
        let ghost top0 = top@;
        let ghost parent0 = parent@;
        let ghost n = top0.len() as int;
        let mut rev: Vec<Entry> = Vec::new();
        while top.len() > 0
            invariant
                top@ == top0.take(top@.len() as int),
                rev@.len() + top@.len() == top0.len(),
                forall|j: int| 0 <= j < rev@.len() ==> rev@[j] == top0[top0.len() - 1 - j],
            decreases top@.len(),
        {
            proof {
                assert(top@.last() == top0[top@.len() - 1]);
                assert(top@.drop_last() =~= top0.take(top@.len() - 1));
            }
            let e = top.pop().unwrap();
            rev.push(e);
        }
        while rev.len() > 0
            invariant
                rev@.len() <= top0.len(),
                parent@ == parent0 + top0.take(n - rev@.len()),
                forall|j: int| 0 <= j < rev@.len() ==> rev@[j] == top0[top0.len() - 1 - j],
                n == top0.len(),
            decreases rev@.len(),
        {
            proof {
                assert(rev@.last() == top0[n - rev@.len()]);
            }
            let e = rev.pop().unwrap();
            parent.push(e);
            proof {
                assert(parent@ =~= parent0 + top0.take(n - rev@.len()));
            }
        }
        proof {
            assert(parent@ =~= parent0 + top0);
        }
        self.layers.push(parent);
        proof {
            assert(self.layers@.drop_last() =~= pre.layers@.drop_last().drop_last());
            assert(pre.layers@.drop_last().last()@ == parent0);
            assert(self.layers@.last()@ == parent0 + top0);
            assert(pre.layers@[pre.depth() - 2]@ == parent0);
            assert forall|k: Seq<u8>| self.lookup(k) == pre.lookup(k) by {
                lemma_layer_get_concat(parent0, top0, k);
                assert(pre.layers@.last()@ == top0);
                assert(pre.layers@.drop_last().drop_last() =~= self.layers@.drop_last());
                assert(stack_get(pre.layers@, k) == (match layer_get(top0, k) {
                    Option::Some(e) => e,
                    Option::None => stack_get(pre.layers@.drop_last(), k),
                }));
                assert(stack_get(pre.layers@.drop_last(), k) == (match layer_get(parent0, k) {
                    Option::Some(e) => e,
                    Option::None => stack_get(pre.layers@.drop_last().drop_last(), k),
                }));
                assert(stack_get(self.layers@, k) == (match layer_get(parent0 + top0, k) {
                    Option::Some(e) => e,
                    Option::None => stack_get(self.layers@.drop_last(), k),
                }));
            }
        }
    }

    /// Discards the topmost scope: the store reads as it did when that scope
    /// was opened.
    pub fn rollback_scope(&mut self)
        requires
            old(self).wf(),
            old(self).depth() >= 2,
        ensures
            final(self).wf(),
            final(self).layers@ == old(self).layers@.drop_last(),
            final(self).depth() == old(self).depth() - 1,
            forall|k: Seq<u8>| final(self).lookup(k) == old(self).lookup_below(k),
    {
        let _ = self.layers.pop();
    }
}

/// Scans one layer's journal for the latest write to `key`.
fn layer_find(layer: &Vec<Entry>, key: &Vec<u8>) -> (r: Option<Option<Vec<u8>>>)
    ensures
        (match r {
            Option::Some(e) => layer_get(layer@, key@) == Option::Some(opt_bytes(e)),
            Option::None => layer_get(layer@, key@) == Option::<Option<Seq<u8>>>::None,
        }),
{
    proof {
        assert(layer@.take(layer@.len() as int) =~= layer@);
    }
    let mut i: usize = layer.len();
    while i > 0
        invariant
            i <= layer@.len(),
            layer_get(layer@, key@) == layer_get(layer@.take(i as int), key@),
        decreases i,
    {
        proof {
            assert(layer@.take(i as int).last() == layer@[i - 1]);
            assert(layer@.take(i as int).drop_last() =~= layer@.take(i - 1));
        }
        if bytes_eq(&layer[i - 1].key, key) {
            let got = match &layer[i - 1].val {
                Option::Some(v) => Option::Some(clone_bytes(v)),
                Option::None => Option::None,
            };
            return Option::Some(got);
        }
        i = i - 1;
    }
    proof {
        assert(layer@.take(0) =~= Seq::<Entry>::empty());
    }
    Option::None
}

/// Compares two byte strings by value.
pub fn bytes_eq(a: &Vec<u8>, b: &Vec<u8>) -> (r: bool)
    ensures
        r == (a@ == b@),
{
    if a.len() != b.len() {
        return false;
    }
    let mut i: usize = 0;
    while i < a.len()
        invariant
            i <= a@.len(),
            a@.len() == b@.len(),
            forall|j: int| 0 <= j < i ==> a@[j] == b@[j],
        decreases a@.len() - i,
    {
        if a[i] != b[i] {
            return false;
        }
        i = i + 1;
    }
    proof {
        assert(a@ =~= b@);
    }
    true
}

/// Copies a byte string.
pub fn clone_bytes(v: &Vec<u8>) -> (r: Vec<u8>)
    ensures
        r@ == v@,
{
    let mut out: Vec<u8> = Vec::new();
    let mut i: usize = 0;
    while i < v.len()
        invariant
            i <= v@.len(),
            out@ == v@.take(i as int),
        decreases v@.len() - i,
    {
        out.push(v[i]);
        proof {
            assert(v@.take(i as int).push(v@[i as int]) =~= v@.take(i + 1));
        }
        i = i + 1;
    }
    proof {
        assert(v@.take(v@.len() as int) =~= v@);
    }
    out
}

} // verus!

//! Categorical label encoding.
use std::collections::HashMap;
use vstd::std_specs::hash::spec_keys_iter;
use vstd::std_specs::iter::IteratorSpec;
use vstd::prelude::*;

verus! {

broadcast use vstd::std_specs::hash::group_hash_axioms;

/// Adds one label to an encoding: an unseen label receives the next free
/// class index, a label already seen leaves the encoding as it is.
pub open spec fn encode_one(m: Map<usize, usize>, label: usize) -> Map<usize, usize> {
    if m.contains_key(label) {
        m
    } else {
        m.insert(label, m.len() as usize)
    }
}

/// The encoding reached from `m` after seeing each label of `data` in order.
pub open spec fn encode_all(m: Map<usize, usize>, data: Seq<usize>) -> Map<usize, usize>
    decreases data.len(),
{
    if data.len() == 0 {
        m
    } else {
        encode_one(encode_all(m, data.drop_last()), data.last())
    }
}

/// An encoding numbers its classes `0 .. n` without gaps or repeats.
pub open spec fn is_dense_encoding(m: Map<usize, usize>) -> bool {
    &&& m.dom().finite()
    &&& forall|k: usize| #[trigger] m.contains_key(k) ==> (m[k] as int) < m.len()
    &&& forall|k1: usize, k2: usize|
        #[trigger] m.contains_key(k1) && #[trigger] m.contains_key(k2) && k1 != k2 ==> m[k1]
            != m[k2]
}

/// Maps each distinct label it has seen to a class index, in order of first
/// appearance.
pub struct LabelEncoder {
    map: HashMap<usize, usize>,
}

impl View for LabelEncoder {
    type V = Map<usize, usize>;

    closed spec fn view(&self) -> Map<usize, usize> {
        self.map@
    }
}

proof fn lemma_encode_one_dense(m: Map<usize, usize>, label: usize)
    requires
        is_dense_encoding(m),
        m.len() <= usize::MAX,
    ensures
        is_dense_encoding(encode_one(m, label)),
{
    if !m.contains_key(label) {
        let n = m.insert(label, m.len() as usize);
        assert(n.dom() == m.dom().insert(label));
        assert(n.len() == m.len() + 1);
    }
}

/// After an encoder has seen `data`, its classes are the labels it had before
/// together with the distinct labels of `data`: repeats add no class.
pub proof fn lemma_classes_are_distinct_labels(m: Map<usize, usize>, data: Seq<usize>)
    ensures
        encode_all(m, data).dom() == m.dom() + data.to_set(),
    decreases data.len(),
{
    if data.len() == 0 {
        assert(data.to_set() =~= Set::<usize>::empty());
    } else {
        let init = data.drop_last();
        lemma_classes_are_distinct_labels(m, init);
        assert(data == init.push(data.last()));
        init.lemma_push_to_set_commute(data.last());
        assert(encode_all(m, data).dom() =~= m.dom() + data.to_set());
    }
}

impl LabelEncoder {
    pub closed spec fn wf(&self) -> bool {
        is_dense_encoding(self.map@)
    }

    /// An encoder that has seen no label.
    pub fn new() -> (r: Self)
        ensures
            r.wf(),
            r@ == Map::<usize, usize>::empty(),
    {
        LabelEncoder { map: HashMap::new() }
    }

    /// Records every label of `data`, in order.
    pub fn fit(&mut self, data: &[usize])
        requires
            old(self).wf(),
        ensures
            final(self).wf(),
            final(self)@ == encode_all(old(self)@, data@),
    {
        let ghost start = self@;
        let mut i: usize = 0;
        while i < data.len()
            invariant
                0 <= i <= data.len(),
                self.wf(),
                self@ == encode_all(start, data@.take(i as int)),
            decreases data.len() - i,
        {
            let d = data[i];
            let n = self.map.len();
            proof {
                assert(data@.take(i as int + 1).drop_last() == data@.take(i as int));
                lemma_encode_one_dense(self@, d);
            }
            if !self.map.contains_key(&d) {
                self.map.insert(d, n);
            }
            i = i + 1;
        }
        assert(data@.take(data.len() as int) == data@);
    }

    /// The distinct labels seen so far, each once, in no particular order.
    pub fn classes(&self) -> (r: Vec<usize>)
        requires
            self.wf(),
        ensures
            r@.to_set() == self@.dom(),
            r@.no_duplicates(),
            r@.len() == self@.len(),
    {
        let mut r: Vec<usize> = Vec::new();
        for k in it: self.map.keys()
            invariant
                it.seq() == spec_keys_iter(&self.map).remaining(),
                r@ == it.seq().unref().take(it.index()),
        {
            r.push(*k);
        }
        proof {
            let keys = spec_keys_iter(&self.map).remaining().unref();
            assert(r@ == keys);
            assert(keys.to_set() == self@.dom());
            assert(keys.no_duplicates());
            keys.unique_seq_to_set();
        }
        r
    }
}

impl Default for LabelEncoder {
    fn default() -> (r: Self)
        ensures
            r.wf(),
            r@ == Map::<usize, usize>::empty(),
    {
        Self::new()
    }
}

} // verus!

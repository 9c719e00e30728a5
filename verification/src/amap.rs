use vstd::prelude::*;

use crate::table::{
    as_map, find_key, keys_unique, lemma_as_map_contains, lemma_as_map_index, lemma_as_map_push,
    lemma_as_map_update,
};
use crate::MetricsError;

verus! {

/// A set of signed counters over a fixed family of names, all created at
/// zero up front; stepping a name outside the family is an error. Stepping
/// wraps at the ends of the `i64` range, as a fetch-and-add does.
#[derive(Debug)]
pub struct AmapMetric {
    pub data: Vec<(String, i64)>,
}

impl View for AmapMetric {
    type V = Map<Seq<char>, i64>;

    open spec fn view(&self) -> Map<Seq<char>, i64> {
        as_map(self.data@)
    }
}

impl AmapMetric {
    /// The table invariant: one entry per name.
    pub open spec fn wf(self) -> bool {
        keys_unique(self.data@)
    }

    /// Creates one counter per given name, each at zero; a repeated name
    /// collapses into one counter.
    pub fn new(metric_names: &[&str]) -> (r: Self)
        ensures
            r.wf(),
            forall|p: int|
                0 <= p < metric_names@.len() ==> r@.contains_key((#[trigger] metric_names@[p])@)
                    && r@[metric_names@[p]@] == 0,
            forall|k: Seq<char>|
                r@.contains_key(k) ==> exists|p: int|
                    0 <= p < metric_names@.len() && (#[trigger] metric_names@[p])@ == k,
    {
        let mut data: Vec<(String, i64)> = Vec::new();
        let mut i: usize = 0;
        while i < metric_names.len()
            invariant
                i <= metric_names@.len(),
                keys_unique(data@),
                forall|p: int|
                    0 <= p < i ==> as_map(data@).contains_key((#[trigger] metric_names@[p])@)
                        && as_map(data@)[metric_names@[p]@] == 0,
                forall|k: Seq<char>|
                    as_map(data@).contains_key(k) ==> exists|p: int|
                        0 <= p < i && (#[trigger] metric_names@[p])@ == k,
            decreases metric_names@.len() - i,
        {
            let name: String = metric_names[i].to_owned();
            match find_key(&data, &name) {
                Some(_) => {
                    proof {
                        lemma_as_map_contains(data@, name@);
                    }
                },
                None => {
                    let pair = (name, 0i64);
                    proof {
                        lemma_as_map_push(data@, pair);
                    }
                    data.push(pair);
                },
            }
            i = i + 1;
        }
        AmapMetric { data }
    }

    /// Adds one to `key`'s counter; a name outside the fixed family is
    /// reported, and nothing changes.
    pub fn inc(&mut self, key: &String) -> (r: Result<(), MetricsError>)
        requires
            old(self).wf(),
        ensures
            final(self).wf(),
            r is Ok <==> old(self)@.contains_key(key@),
            old(self)@.contains_key(key@) ==> final(self)@ == old(self)@.insert(
                key@,
                old(self)@[key@].wrapping_add(1),
            ),
            !old(self)@.contains_key(key@) ==> final(self)@ == old(self)@ && (r matches Err(
                MetricsError::KeyNotFound { key: k },
            ) && k@ == key@),
    {
        self.step(key, 1)
    }

    /// Takes one from `key`'s counter; a name outside the fixed family is
    /// reported, and nothing changes.
    pub fn dec(&mut self, key: &String) -> (r: Result<(), MetricsError>)
        requires
            old(self).wf(),
        ensures
            final(self).wf(),
            r is Ok <==> old(self)@.contains_key(key@),
            old(self)@.contains_key(key@) ==> final(self)@ == old(self)@.insert(
                key@,
                old(self)@[key@].wrapping_sub(1),
            ),
            !old(self)@.contains_key(key@) ==> final(self)@ == old(self)@ && (r matches Err(
                MetricsError::KeyNotFound { key: k },
            ) && k@ == key@),
    {
        self.step(key, -1)
    }

    /// Moves `key`'s counter by `delta`, wrapping, when the counter exists.
    fn step(&mut self, key: &String, delta: i64) -> (r: Result<(), MetricsError>)
        requires
            old(self).wf(),
        ensures
            final(self).wf(),
            r is Ok <==> old(self)@.contains_key(key@),
            old(self)@.contains_key(key@) ==> final(self)@ == old(self)@.insert(
                key@,
                old(self)@[key@].wrapping_add(delta),
            ),
            !old(self)@.contains_key(key@) ==> final(self)@ == old(self)@ && (r matches Err(
                MetricsError::KeyNotFound { key: k },
            ) && k@ == key@),
    {
        match find_key(&self.data, key) {
            Some(p) => {
                proof {
                    lemma_as_map_index(self.data@, p as int);
                }
                let name = self.data[p].0.clone();
                let stepped = self.data[p].1.wrapping_add(delta);
                let pair = (name, stepped);
                proof {
                    lemma_as_map_update(self.data@, p as int, pair);
                }
                self.data[p] = pair;
                Ok(())
            },
            None => {
                proof {
                    lemma_as_map_contains(self.data@, key@);
                }
                Err(MetricsError::KeyNotFound { key: key.clone() })
            },
        }
    }
}

} // verus!

use vstd::prelude::*;

use crate::table::{
    as_map, find_key, keys_unique, lemma_as_map_contains, lemma_as_map_index, lemma_as_map_push,
    lemma_as_map_update,
};
use crate::MetricsError;

verus! {

/// A set of named signed counters. A counter springs into existence at zero
/// the first time it is stepped; stepping wraps at the ends of the `i64`
/// range, as a fetch-and-add does.
#[derive(Debug)]
pub struct Metrics {
    pub data: Vec<(String, i64)>,
}

impl View for Metrics {
    type V = Map<Seq<char>, i64>;

    open spec fn view(&self) -> Map<Seq<char>, i64> {
        as_map(self.data@)
    }
}

impl Default for Metrics {
    /// An empty set of counters, as `new` makes it.
    fn default() -> (r: Self)
        ensures
            r.wf(),
            r@ == Map::<Seq<char>, i64>::empty(),
    {
        Metrics::new()
    }
}

impl Metrics {
    /// The table invariant: one entry per name.
    pub open spec fn wf(self) -> bool {
        keys_unique(self.data@)
    }

    /// An empty set of counters.
    pub fn new() -> (r: Self)
        ensures
            r.wf(),
            r@ == Map::<Seq<char>, i64>::empty(),
    {
        Metrics { data: Vec::new() }
    }

    /// Adds one to `key`'s counter, creating the counter at zero first when
    /// it is not yet present. Never fails.
    pub fn inc(&mut self, key: &String) -> (r: Result<(), MetricsError>)
        requires
            old(self).wf(),
        ensures
            r is Ok,
            final(self).wf(),
            final(self)@ == old(self)@.insert(
                key@,
                (if old(self)@.contains_key(key@) {
                    old(self)@[key@]
                } else {
                    0i64
                }).wrapping_add(1),
            ),
    {
        self.step(key, 1)
    }

    /// Takes one from `key`'s counter, creating the counter at zero first
    /// when it is not yet present. Never fails.
    pub fn dec(&mut self, key: &String) -> (r: Result<(), MetricsError>)
        requires
            old(self).wf(),
        ensures
            r is Ok,
            final(self).wf(),
            final(self)@ == old(self)@.insert(
                key@,
                (if old(self)@.contains_key(key@) {
                    old(self)@[key@]
                } else {
                    0i64
                }).wrapping_sub(1),
            ),
    {
        self.step(key, -1)
    }

    /// Moves `key`'s counter by `delta`, wrapping, creating it at zero first
    /// when it is not yet present.
    fn step(&mut self, key: &String, delta: i64) -> (r: Result<(), MetricsError>)
        requires
            old(self).wf(),
        ensures
            r is Ok,
            final(self).wf(),
            final(self)@ == old(self)@.insert(
                key@,
                (if old(self)@.contains_key(key@) {
                    old(self)@[key@]
                } else {
                    0i64
                }).wrapping_add(delta),
            ),
    {
        match find_key(&self.data, key) {
            Some(p) => {
                proof {
                    lemma_as_map_index(self.data@, p as int);
                }
                let name = self.data[p].0.clone();
                let stepped = self.data[p].1.wrapping_add(delta);
                let pair = (name, stepped);
                proof {
                    lemma_as_map_update(self.data@, p as int, pair);
                }
                self.data[p] = pair;
                Ok(())
            },
            None => {
                let pair = (key.clone(), 0i64.wrapping_add(delta));
                proof {
                    lemma_as_map_contains(self.data@, key@);
                    lemma_as_map_push(self.data@, pair);
                }
                self.data.push(pair);
                Ok(())
            },
        }
    }

    /// A copy of the whole table, one `(name, value)` entry per counter.
    /// Never fails.
    pub fn snapshot(&self) -> (r: Result<Vec<(String, i64)>, MetricsError>)
        ensures
            r is Ok,
            (r matches Ok(v) ==> v@ == self.data@),
    {
        let mut out: Vec<(String, i64)> = Vec::new();
        let mut p: usize = 0;
        while p < self.data.len()
            invariant
                p <= self.data@.len(),
                out@.len() == p,
                forall|q: int| 0 <= q < p ==> out@[q] == self.data@[q],
            decreases self.data@.len() - p,
        {
            let name = self.data[p].0.clone();
            out.push((name, self.data[p].1));
            p = p + 1;
        }
        proof {
            assert(out@ =~= self.data@);
        }
        Ok(out)
    }
}

} // verus!

use vstd::prelude::*;

use crate::MetricsError;

verus! {

/// `dashmap::DashMap`, declared so that it can stand in a field; its values
/// are reached only through the trusted wrappers below.
#[verifier::external_type_specification]
#[verifier::external_body]
#[verifier::reject_recursive_types(K)]
#[verifier::reject_recursive_types(V)]
#[verifier::reject_recursive_types(S)]
pub struct ExDashMap<K, V, S>(dashmap::DashMap<K, V, S>);

/// What a map of counters holds: its bindings, name to value.
pub uninterp spec fn dashmap_entries(m: dashmap::DashMap<String, i64>) -> Map<Seq<char>, i64>;

/// Relies on `dashmap::DashMap::new`: the new map is empty.
#[verifier::external_body]
fn dm_new() -> (created: dashmap::DashMap<String, i64>)
    ensures
        dashmap_entries(created) =~= Map::empty(),
{
    dashmap::DashMap::new()
}

/// Relies on `dashmap::DashMap::get`: the value bound to the key, if any.
#[verifier::external_body]
fn dm_get(m: &dashmap::DashMap<String, i64>, key: &String) -> (r: Option<i64>)
    ensures
        r == (if dashmap_entries(*m).contains_key(key@) {
            Some(dashmap_entries(*m)[key@])
        } else {
            None::<i64>
        }),
{
    m.get(key.as_str()).map(|v| *v)
}

/// Relies on `dashmap::DashMap::insert`: binds the key to the value,
/// replacing any earlier binding of the same key.
#[verifier::external_body]
fn dm_put(m: &mut dashmap::DashMap<String, i64>, key: &String, value: i64)
    ensures
        dashmap_entries(*final(m)) == dashmap_entries(*old(m)).insert(key@, value),
{
    m.insert(key.clone(), value);
}

/// A set of named signed counters kept in a sharded concurrent map. A counter
/// springs into existence at zero the first time it is stepped; stepping
/// wraps at the ends of the `i64` range, as a fetch-and-add does.
pub struct CmapMetric {
    data: dashmap::DashMap<String, i64>,
}

impl View for CmapMetric {
    type V = Map<Seq<char>, i64>;

    closed spec fn view(&self) -> Map<Seq<char>, i64> {
        dashmap_entries(self.data)
    }
}

impl Default for CmapMetric {
    /// An empty set of counters, as `new` makes it.
    fn default() -> (r: Self)
        ensures
            r@ == Map::<Seq<char>, i64>::empty(),
    {
        CmapMetric::new()
    }
}

impl CmapMetric {
    /// An empty set of counters.
    pub fn new() -> (r: Self)
        ensures
            r@ == Map::<Seq<char>, i64>::empty(),
    {
        CmapMetric { data: dm_new() }
    }

    /// Adds one to `key`'s counter, creating the counter at zero first when
    /// it is not yet present. Never fails.
    pub fn inc(&mut self, key: &String) -> (r: Result<(), MetricsError>)
        ensures
            r is Ok,
            final(self)@ == old(self)@.insert(
                key@,
                (if old(self)@.contains_key(key@) {
                    old(self)@[key@]
                } else {
                    0i64
                }).wrapping_add(1),
            ),
    {
        self.step(key, 1)
    }

    /// Takes one from `key`'s counter, creating the counter at zero first
    /// when it is not yet present. Never fails.
    pub fn dec(&mut self, key: &String) -> (r: Result<(), MetricsError>)
        ensures
            r is Ok,
            final(self)@ == old(self)@.insert(
                key@,
                (if old(self)@.contains_key(key@) {
                    old(self)@[key@]
                } else {
                    0i64
                }).wrapping_sub(1),
            ),
    {
        self.step(key, -1)
    }

    /// The current value of `key`'s counter, if the counter exists.
    pub fn get(&self, key: &String) -> (r: Option<i64>)
        ensures
            r == (if self@.contains_key(key@) {
                Some(self@[key@])
            } else {
                None::<i64>
            }),
    {
        dm_get(&self.data, key)
    }

    /// Moves `key`'s counter by `delta`, wrapping, creating it at zero first
    /// when it is not yet present.
    fn step(&mut self, key: &String, delta: i64) -> (r: Result<(), MetricsError>)
        ensures
            r is Ok,
            final(self)@ == old(self)@.insert(
                key@,
                (if old(self)@.contains_key(key@) {
                    old(self)@[key@]
                } else {
                    0i64
                }).wrapping_add(delta),
            ),
    {
        let current = match dm_get(&self.data, key) {
            Some(v) => v,
            None => 0,
        };
        dm_put(&mut self.data, key, current.wrapping_add(delta));
        Ok(())
    }
}

} // verus!

use vstd::prelude::*;
use std::collections::BTreeMap;

verus! {

broadcast use vstd::std_specs::btree::group_btree_axioms;

/// The abstract effect of an initialization attempt on the cache: the first
/// successful load fills it, and any later one leaves it untouched.
pub open spec fn cache_after_init<V>(st: Option<V>, loaded: V) -> Option<V> {
    if st is Some {
        st
    } else {
        Some(loaded)
    }
}

/// Once the cache holds a map, a later load attempt with whatever map leaves
/// the first one in place: the cache is initialized at most once, and every
/// later reader sees the map the first successful load produced.
pub proof fn lemma_cache_init_at_most_once<V>(first: V, second: V)
    ensures
        cache_after_init(cache_after_init(None, first), second) == Some(first),
{
}

/// The process-wide cache of structured-reference-string parameters, keyed by
/// degree: filled by the first successful load, immutable afterwards, and
/// shared read-only by every proof computation. `P` is the loaded parameter
/// object (halo2's commitment parameters in this worker), which the cache
/// never looks inside.
pub struct ParamsCache<P> {
    map: Option<BTreeMap<u32, P>>,
}

impl<P> View for ParamsCache<P> {
    type V = Option<Map<u32, P>>;

    closed spec fn view(&self) -> Option<Map<u32, P>> {
        match self.map {
            Some(ref m) => Some(m@),
            None => None,
        }
    }
}

impl<P> ParamsCache<P> {
    /// A cache that has not been filled yet.
    pub fn new() -> (c: Self)
        ensures
            c@ is None,
    {
        ParamsCache { map: None }
    }

    /// Whether a load has filled the cache.
    pub fn is_initialized(&self) -> (b: bool)
        ensures
            b == (self@ is Some),
    {
        self.map.is_some()
    }

    /// Runs the loader only if the cache is still empty and stores its result;
    /// an already-filled cache is left exactly as it was, so the loader runs
    /// at most once over the cache's lifetime.
    pub fn get_or_init<F: FnOnce() -> BTreeMap<u32, P>>(&mut self, loader: F)
        requires
            call_requires(loader, ()),
        ensures
            final(self)@ is Some,
            old(self)@ is Some ==> final(self)@ == old(self)@,
            old(self)@ is None ==> exists|m: BTreeMap<u32, P>|
                #[trigger] call_ensures(loader, (), m) && final(self)@ == cache_after_init(
                    old(self)@,
                    m@,
                ),
    {
        if self.map.is_none() {
            let m = loader();
            self.map = Some(m);
        }
    }

    /// Like `get_or_init` for a loader that can fail (a parameter file may be
    /// missing or corrupt on disk). A failure propagates to the caller and
    /// leaves the cache empty, so a later call may retry the load: a failed
    /// first load does not poison the cache.
    pub fn try_get_or_init<E, F: FnOnce() -> Result<BTreeMap<u32, P>, E>>(
        &mut self,
        loader: F,
    ) -> (r: Result<(), E>)
        requires
            call_requires(loader, ()),
        ensures
            old(self)@ is Some ==> r is Ok && final(self)@ == old(self)@,
            old(self)@ is None ==> match r {
                Ok(_) => exists|m: BTreeMap<u32, P>|
                    #[trigger] call_ensures(loader, (), Ok::<BTreeMap<u32, P>, E>(m))
                        && final(self)@ == cache_after_init(old(self)@, m@),
                Err(e) => call_ensures(loader, (), Err::<BTreeMap<u32, P>, E>(e))
                    && final(self)@ is None,
            },
    {
        if self.map.is_none() {
            match loader() {
                Ok(m) => {
                    self.map = Some(m);
                },
                Err(e) => {
                    return Err(e);
                },
            }
        }
        Ok(())
    }

    /// The cached map; callable only once the cache is filled, and then a
    /// lookup-cost read of the one shared map.
    pub fn params(&self) -> (r: &BTreeMap<u32, P>)
        requires
            self@ is Some,
        ensures
            Some(r@) == self@,
    {
        match &self.map {
            Some(m) => m,
            None => vstd::pervasive::unreached(),
        }
    }
}

/// The cached degree-to-parameters map, loading it first if this is the first
/// access: the first caller pays the load cost, every caller gets the same
/// fully built map.
pub fn get_params_map_instance<'a, P, F: FnOnce() -> BTreeMap<u32, P>>(
    cache: &'a mut ParamsCache<P>,
    load_params_func: F,
) -> (r: &'a BTreeMap<u32, P>)
    requires
        call_requires(load_params_func, ()),
    ensures
        final(cache)@ is Some,
        Some(r@) == final(cache)@,
        old(cache)@ is Some ==> final(cache)@ == old(cache)@,
        old(cache)@ is None ==> exists|m: BTreeMap<u32, P>|
            #[trigger] call_ensures(load_params_func, (), m) && final(cache)@ == cache_after_init(
                old(cache)@,
                m@,
            ),
{
    cache.get_or_init(load_params_func);
    cache.params()
}

} // verus!

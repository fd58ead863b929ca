//! The name/ordinal cache: a process-shareable, insert-once map from a
//! schema type's durable numeric id to its ordered name list (field names
//! for a struct, enumerant names for an enum). The first resolver of an id
//! walks the type descriptor once and installs the list; every later
//! resolve is a pure read. No entry is ever removed or changed.
//!
//! The backing store is `once_map::OnceMap`, whose insert-once discipline
//! also covers concurrent resolvers of one id: they block on, or converge
//! to, the one stored list.

use vstd::prelude::*;

use crate::model::names_of;
use crate::schema::{names_of_type, SchemaType};

verus! {

#[verifier::external_type_specification]
#[verifier::external_body]
#[verifier::reject_recursive_types(K)]
#[verifier::reject_recursive_types(V)]
#[verifier::reject_recursive_types(S)]
pub struct ExOnceMap<K, V, S>(once_map::OnceMap<K, V, S>);

#[verifier::external_type_specification]
#[verifier::external_body]
pub struct ExRandomState(once_map::RandomState);

/// The backing store: type id to stored name list.
pub type NameMap = once_map::OnceMap<u64, Vec<String>>;

/// What the backing map holds: for each installed id, the deep view of its
/// stored name list.
pub uninterp spec fn cache_entries(m: NameMap) -> Map<u64, Seq<Seq<char>>>;

/// Relies on once_map::OnceMap::new: a freshly created map holds no
/// entries.
#[verifier::external_body]
fn once_map_new() -> (r: NameMap)
    ensures
        forall|id: u64| !cache_entries(r).contains_key(id),
{
    once_map::OnceMap::new()
}

/// Relies on once_map::OnceMap::insert_cloned: when the key is present it
/// returns a clone of the stored value and changes nothing; when absent it
/// runs the closure once, stores the result, and returns a clone of it.
/// The closure only calls the library's verified name walk.
#[verifier::external_body]
fn once_map_resolve(m: &mut NameMap, id: u64, t: &SchemaType) -> (r: Vec<String>)
    ensures
        cache_entries(*old(m)).contains_key(id) ==> {
            &&& r.deep_view() == cache_entries(*old(m))[id]
            &&& cache_entries(*final(m)) == cache_entries(*old(m))
        },
        !cache_entries(*old(m)).contains_key(id) ==> {
            &&& r.deep_view() == names_of(t@)
            &&& cache_entries(*final(m)) == cache_entries(*old(m)).insert(id, names_of(t@))
        },
{
    m.insert_cloned(id, |_| names_of_type(t))
}

/// The name/ordinal cache.
pub struct NameCache {
    map: NameMap,
}

impl View for NameCache {
    type V = Map<u64, Seq<Seq<char>>>;

    closed spec fn view(&self) -> Map<u64, Seq<Seq<char>>> {
        cache_entries(self.map)
    }
}

impl NameCache {
    /// An empty cache.
    pub fn new() -> (r: NameCache)
        ensures
            r@ == Map::<u64, Seq<Seq<char>>>::empty(),
    {
        let map = once_map_new();
        proof {
            assert(cache_entries(map) =~= Map::<u64, Seq<Seq<char>>>::empty());
        }
        NameCache { map }
    }

    /// Resolves the name list for `id`, walking the given type descriptor
    /// only when the id is not yet installed. Resolving an installed id is
    /// a pure read: the cache does not change and the stored list comes
    /// back, whatever descriptor is passed. Resolving the same id with the
    /// same descriptor any number of times therefore yields
    /// content-identical lists, and the walk happens at most once.
    pub fn resolve(&mut self, id: u64, t: &SchemaType) -> (r: Vec<String>)
        ensures
            old(self)@.contains_key(id) ==> {
                &&& r.deep_view() == old(self)@[id]
                &&& final(self)@ == old(self)@
            },
            !old(self)@.contains_key(id) ==> {
                &&& r.deep_view() == names_of(t@)
                &&& final(self)@ == old(self)@.insert(id, names_of(t@))
            },
            final(self)@.contains_key(id),
            final(self)@[id] == r.deep_view(),
            cache_extends(old(self)@, final(self)@),
    {
        let ghost before = cache_entries(self.map);
        let r = once_map_resolve(&mut self.map, id, t);
        proof {
            if before.contains_key(id) {
                lemma_cache_extends_refl(before);
            } else {
                lemma_cache_extends_insert(before, id, names_of(t@));
            }
        }
        r
    }
}

/// Map `b` keeps every entry of map `a` unchanged.
pub open spec fn cache_extends(a: Map<u64, Seq<Seq<char>>>, b: Map<u64, Seq<Seq<char>>>) -> bool {
    forall|k: u64| #[trigger] a.contains_key(k) ==> b.contains_key(k) && b[k] == a[k]
}

pub proof fn lemma_cache_extends_refl(a: Map<u64, Seq<Seq<char>>>)
    ensures
        cache_extends(a, a),
{
}

pub proof fn lemma_cache_extends_insert(a: Map<u64, Seq<Seq<char>>>, id: u64, v: Seq<Seq<char>>)
    requires
        !a.contains_key(id),
    ensures
        cache_extends(a, a.insert(id, v)),
{
}

pub proof fn lemma_cache_extends_trans(
    a: Map<u64, Seq<Seq<char>>>,
    b: Map<u64, Seq<Seq<char>>>,
    c: Map<u64, Seq<Seq<char>>>,
)
    requires
        cache_extends(a, b),
        cache_extends(b, c),
    ensures
        cache_extends(a, c),
{
}

} // verus!

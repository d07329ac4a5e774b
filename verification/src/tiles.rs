//! Hashed sets and maps, held in `ahash` collections.
//!
//! Verus cannot look inside these collections. Each of the small functions below makes one call
//! into `ahash` (or, through its `Deref`, into the standard hash table inside) and states what
//! that call does to the contents.

use vstd::prelude::*;
use crate::parts::{Entity, TechId};

verus! {

#[verifier::external_type_specification]
#[verifier::external_body]
#[verifier::reject_recursive_types(T)]
#[verifier::reject_recursive_types(S)]
pub struct ExAHashSet<T, S>(ahash::AHashSet<T, S>);

#[verifier::external_type_specification]
#[verifier::external_body]
#[verifier::reject_recursive_types(K)]
#[verifier::reject_recursive_types(V)]
#[verifier::reject_recursive_types(S)]
pub struct ExAHashMap<K, V, S>(ahash::AHashMap<K, V, S>);

#[verifier::external_type_specification]
#[verifier::external_body]
pub struct ExRandomState(ahash::RandomState);

/// The tiles in a set.
pub uninterp spec fn tiles_in(s: ahash::AHashSet<(i32, i32)>) -> Set<(i32, i32)>;

/// The entity registered at each tile of a map.
pub uninterp spec fn entities_at(m: ahash::AHashMap<(i32, i32), Entity>) -> Map<(i32, i32), Entity>;

/// `AHashSet::new` gives a set that holds nothing.
#[verifier::external_body]
pub(crate) fn no_tiles() -> (s: ahash::AHashSet<(i32, i32)>)
    ensures
        (tiles_in(s) == Set::<(i32, i32)>::empty()),
{
    ahash::AHashSet::new()
}

/// `AHashSet::insert` adds a tile and says whether it was missing.
#[verifier::external_body]
pub(crate) fn add_tile(s: &mut ahash::AHashSet<(i32, i32)>, t: (i32, i32)) -> (fresh: bool)
    ensures
        tiles_in(*final(s)) == tiles_in(*old(s)).insert(t),
        fresh == !tiles_in(*old(s)).contains(t),
{
    s.insert(t)
}

/// `AHashSet::contains` says whether a tile is in the set.
#[verifier::external_body]
pub(crate) fn has_tile(s: &ahash::AHashSet<(i32, i32)>, t: (i32, i32)) -> (b: bool)
    ensures
        b == tiles_in(*s).contains(t),
{
    s.contains(&t)
}

/// `AHashSet::clear` takes every tile out.
#[verifier::external_body]
pub(crate) fn clear_tiles(s: &mut ahash::AHashSet<(i32, i32)>)
    ensures
        (tiles_in(*final(s)) == Set::<(i32, i32)>::empty()),
{
    s.clear()
}

/// The places in a set, each as its three coordinates.
pub uninterp spec fn places_in(s: ahash::AHashSet<(i32, i32, i32)>) -> Set<(i32, i32, i32)>;

/// `AHashSet::new` gives a set that holds nothing.
#[verifier::external_body]
pub(crate) fn no_places() -> (s: ahash::AHashSet<(i32, i32, i32)>)
    ensures
        (places_in(s) == Set::<(i32, i32, i32)>::empty()),
{
    ahash::AHashSet::new()
}

/// `AHashSet::insert` adds a place and says whether it was missing.
#[verifier::external_body]
pub(crate) fn add_place(
    s: &mut ahash::AHashSet<(i32, i32, i32)>,
    p: (i32, i32, i32),
) -> (fresh: bool)
    ensures
        places_in(*final(s)) == places_in(*old(s)).insert(p),
        fresh == !places_in(*old(s)).contains(p),
{
    s.insert(p)
}

/// `AHashSet::contains` says whether a place is in the set.
#[verifier::external_body]
pub(crate) fn has_place(s: &ahash::AHashSet<(i32, i32, i32)>, p: (i32, i32, i32)) -> (b: bool)
    ensures
        b == places_in(*s).contains(p),
{
    s.contains(&p)
}

/// `AHashMap::new` gives a map without entries.
#[verifier::external_body]
pub(crate) fn no_entities() -> (m: ahash::AHashMap<(i32, i32), Entity>)
    ensures
        (entities_at(m) == Map::<(i32, i32), Entity>::empty()),
{
    ahash::AHashMap::new()
}

/// `AHashMap::insert` registers an entity at a tile, in place of any that was there.
#[verifier::external_body]
pub(crate) fn put_entity(m: &mut ahash::AHashMap<(i32, i32), Entity>, t: (i32, i32), e: Entity)
    ensures
        entities_at(*final(m)) == entities_at(*old(m)).insert(t, e),
{
    m.insert(t, e);
}

/// `AHashMap::get` gives the entity registered at a tile.
#[verifier::external_body]
pub(crate) fn entity_at(m: &ahash::AHashMap<(i32, i32), Entity>, t: (i32, i32)) -> (r: Option<
    Entity,
>)
    ensures
        r == (if entities_at(*m).dom().contains(t) {
            Some(entities_at(*m)[t])
        } else {
            None
        }),
{
    m.get(&t).copied()
}

/// `AHashMap::remove` takes the entry of a tile out.
#[verifier::external_body]
pub(crate) fn drop_entity(m: &mut ahash::AHashMap<(i32, i32), Entity>, t: (i32, i32))
    ensures
        entities_at(*final(m)) == entities_at(*old(m)).remove(t),
{
    m.remove(&t);
}

/// `AHashMap::clear` takes every entry out.
#[verifier::external_body]
pub(crate) fn clear_entities(m: &mut ahash::AHashMap<(i32, i32), Entity>)
    ensures
        (entities_at(*final(m)) == Map::<(i32, i32), Entity>::empty()),
{
    m.clear()
}

/// The numbers in a set, of entities or of factions.
pub uninterp spec fn numbers_in(s: ahash::AHashSet<u64>) -> Set<u64>;

/// `AHashSet::new` gives a set that holds nothing.
#[verifier::external_body]
pub(crate) fn no_numbers() -> (s: ahash::AHashSet<u64>)
    ensures
        (numbers_in(s) == Set::<u64>::empty()),
{
    ahash::AHashSet::new()
}

/// `AHashSet::insert` adds a number.
#[verifier::external_body]
pub(crate) fn add_number(s: &mut ahash::AHashSet<u64>, n: u64)
    ensures
        numbers_in(*final(s)) == numbers_in(*old(s)).insert(n),
{
    s.insert(n);
}

/// `AHashSet::contains` says whether a number is in the set.
#[verifier::external_body]
pub(crate) fn has_number(s: &ahash::AHashSet<u64>, n: u64) -> (b: bool)
    ensures
        b == numbers_in(*s).contains(n),
{
    s.contains(&n)
}

/// The numbers of the entities in a list.
pub open spec fn numbers(list: Seq<Entity>) -> Set<u64> {
    Set::new(|n: u64| list.contains(Entity(n)))
}

/// One more entity adds its number.
pub proof fn numbers_grow(list: Seq<Entity>, e: Entity)
    ensures
        numbers(list.push(e)) == numbers(list).insert(e.0),
{
    assert forall|n: u64| numbers(list.push(e)).contains(n) <==> numbers(list).insert(
        e.0,
    ).contains(n) by {
        let all = list.push(e);
        if list.contains(Entity(n)) {
            let k = choose|k: int| 0 <= k < list.len() && list[k] == Entity(n);
            assert(all[k] == Entity(n));
        }
        assert(all[list.len() as int] == e);
    }
    assert(numbers(list.push(e)) =~= numbers(list).insert(e.0));
}

/// Until when each module waits: by the number of its vehicle and its own.
pub uninterp spec fn module_times(m: ahash::AHashMap<(u64, u16), u64>) -> Map<(u64, u16), u64>;

/// `AHashMap::get` gives the tick until which a module waits.
#[verifier::external_body]
pub(crate) fn module_time(m: &ahash::AHashMap<(u64, u16), u64>, k: (u64, u16)) -> (r: Option<u64>)
    ensures
        r == (if module_times(*m).dom().contains(k) {
            Some(module_times(*m)[k])
        } else {
            None
        }),
{
    m.get(&k).copied()
}

/// `AHashMap::insert` sets the tick until which a module waits.
#[verifier::external_body]
pub(crate) fn set_module_time(
    m: &mut ahash::AHashMap<(u64, u16), u64>,
    k: (u64, u16),
    until: u64,
)
    ensures
        module_times(*final(m)) == module_times(*old(m)).insert(k, until),
{
    m.insert(k, until);
}

/// Until when each mount waits: by the number of its vehicle and its place in the body.
pub uninterp spec fn cell_times(m: ahash::AHashMap<(u64, i32, i32, i32), u64>) -> Map<
    (u64, i32, i32, i32),
    u64,
>;

/// `AHashMap::get` gives the tick until which a mount waits.
#[verifier::external_body]
pub(crate) fn cell_time(
    m: &ahash::AHashMap<(u64, i32, i32, i32), u64>,
    k: (u64, i32, i32, i32),
) -> (r: Option<u64>)
    ensures
        r == (if cell_times(*m).dom().contains(k) {
            Some(cell_times(*m)[k])
        } else {
            None
        }),
{
    m.get(&k).copied()
}

/// `AHashMap::insert` sets the tick until which a mount waits.
#[verifier::external_body]
pub(crate) fn set_cell_time(
    m: &mut ahash::AHashMap<(u64, i32, i32, i32), u64>,
    k: (u64, i32, i32, i32),
    until: u64,
)
    ensures
        cell_times(*final(m)) == cell_times(*old(m)).insert(k, until),
{
    m.insert(k, until);
}

/// Until when each siege engine waits, by the number of the vehicle.
pub uninterp spec fn siege_times(m: ahash::AHashMap<u64, u64>) -> Map<u64, u64>;

/// `AHashMap::get` gives the tick until which a siege engine waits.
#[verifier::external_body]
pub(crate) fn siege_time(m: &ahash::AHashMap<u64, u64>, k: u64) -> (r: Option<u64>)
    ensures
        r == (if siege_times(*m).dom().contains(k) {
            Some(siege_times(*m)[k])
        } else {
            None
        }),
{
    m.get(&k).copied()
}

/// `AHashMap::insert` sets the tick until which a siege engine waits.
#[verifier::external_body]
pub(crate) fn set_siege_time(m: &mut ahash::AHashMap<u64, u64>, k: u64, until: u64)
    ensures
        siege_times(*final(m)) == siege_times(*old(m)).insert(k, until),
{
    m.insert(k, until);
}

/// Something with a wait in the map has not waited it out.
pub open spec fn still_waits<K>(times: Map<K, u64>, k: K, now: u64) -> bool {
    times.dom().contains(k) && now < times[k]
}

/// The technologies in a set.
pub uninterp spec fn techs_in(s: ahash::AHashSet<TechId>) -> Set<TechId>;

/// `AHashSet::new` gives a set that holds nothing.
#[verifier::external_body]
pub(crate) fn no_techs() -> (s: ahash::AHashSet<TechId>)
    ensures
        (techs_in(s) == Set::<TechId>::empty()),
{
    ahash::AHashSet::new()
}

/// `AHashSet::insert` adds a technology.
#[verifier::external_body]
pub(crate) fn add_tech(s: &mut ahash::AHashSet<TechId>, t: TechId)
    ensures
        techs_in(*final(s)) == techs_in(*old(s)).insert(t),
{
    s.insert(t);
}

/// `AHashSet::contains` says whether a technology is in the set.
#[verifier::external_body]
pub(crate) fn has_tech(s: &ahash::AHashSet<TechId>, t: TechId) -> (b: bool)
    ensures
        b == techs_in(*s).contains(t),
{
    s.contains(&t)
}

/// Who is told to wait for a while waits up to the last moment of it and no longer; others wait as
/// they did, and who was never told to does not wait.
pub proof fn waits_end_on_time(times: Map<u64, u64>, k: u64, until: u64, now: u64, other: u64)
    ensures
        still_waits(times.insert(k, until), k, now) <==> now + 1 <= until,
        other != k ==> still_waits(times.insert(k, until), other, now) == still_waits(
            times,
            other,
            now,
        ),
        !times.dom().contains(k) ==> !still_waits(times, k, now),
{
}

} // verus!

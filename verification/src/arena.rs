//! The trusted boundary around the generational slot maps that store the
//! elements and the timer entries.

use vstd::prelude::*;

use slotmap::DefaultKey;
use slotmap::SlotMap;

use crate::element::Element;
use crate::react::TimerEntry;

verus! {

/// Declares slotmap::DefaultKey to the verifier: the opaque versioned key
/// the slot maps issue.
#[verifier::external_type_specification]
#[verifier::external_body]
pub struct ExDefaultKey(DefaultKey);

/// The generational slot map behind the element arena. Verus sees it only
/// through the trusted functions below.
#[verifier::external_body]
pub struct ElemStore {
    inner: SlotMap<DefaultKey, Element>,
}

/// What the element map holds: each live key with its element.
pub uninterp spec fn elem_entries(m: ElemStore) -> Map<DefaultKey, Element>;

/// Every key the element map has ever returned from an insertion.
pub uninterp spec fn elem_issued(m: ElemStore) -> Set<DefaultKey>;

/// Relies on slotmap::SlotMap::with_key: a fresh map holds nothing and has
/// issued no keys.
#[verifier::external_body]
pub fn elem_map_new() -> (m: ElemStore)
    ensures
        elem_entries(m) == (Map::<DefaultKey, Element>::empty()),
        elem_issued(m) == (Set::<DefaultKey>::empty()),
{
    ElemStore { inner: SlotMap::with_key() }
}

/// Relies on slotmap::SlotMap::insert: stores the value under a key never
/// returned before. Slot versions are 32 bits and rise by two per
/// remove-and-reinsert cycle, so a key can repeat only after two billion
/// insertions into one slot, and the map's capacity panic needs four
/// billion slots: the bound on issued keys excludes both.
#[verifier::external_body]
pub fn elem_map_insert(m: &mut ElemStore, value: Element) -> (k: DefaultKey)
    requires
        elem_issued(*old(m)).finite(),
        elem_issued(*old(m)).len() < 0x8000_0000,
    ensures
        !elem_issued(*old(m)).contains(k),
        elem_issued(*final(m)) == elem_issued(*old(m)).insert(k),
        elem_entries(*final(m)) == elem_entries(*old(m)).insert(k, value),
{
    m.inner.insert(value)
}

/// Relies on slotmap::SlotMap::remove: takes the value out if the key is
/// live, and never issues that key again.
#[verifier::external_body]
pub fn elem_map_remove(m: &mut ElemStore, k: DefaultKey) -> (r: Option<Element>)
    ensures
        elem_issued(*final(m)) == elem_issued(*old(m)),
        elem_entries(*final(m)) == elem_entries(*old(m)).remove(k),
        match r {
            Some(v) => elem_entries(*old(m)).dom().contains(k) && v == elem_entries(*old(m))[k],
            None => !elem_entries(*old(m)).dom().contains(k),
        },
{
    m.inner.remove(k)
}

/// Relies on slotmap::SlotMap::get: borrows the value under a live key; a
/// removed or foreign key finds nothing.
#[verifier::external_body]
pub fn elem_map_get<'a>(m: &'a ElemStore, k: DefaultKey) -> (r: Option<&'a Element>)
    ensures
        match r {
            Some(v) => elem_entries(*m).dom().contains(k) && *v == elem_entries(*m)[k],
            None => !elem_entries(*m).dom().contains(k),
        },
{
    m.inner.get(k)
}

/// Relies on slotmap::SlotMap::get_mut: borrows the value under a live key
/// for mutation in place.
#[verifier::external_body]
pub fn elem_map_get_mut<'a>(m: &'a mut ElemStore, k: DefaultKey) -> (r: Option<&'a mut Element>)
    ensures
        elem_issued(*final(m)) == elem_issued(*old(m)),
        match r {
            Some(v) => elem_entries(*old(m)).dom().contains(k) && *v == elem_entries(*old(m))[k]
                && elem_entries(*final(m)) == elem_entries(*old(m)).insert(k, *final(v)),
            None => !elem_entries(*old(m)).dom().contains(k) && elem_entries(*final(m))
                == elem_entries(*old(m)),
        },
{
    m.inner.get_mut(k)
}

/// Relies on slotmap::SlotMap::keys: yields each live key exactly once.
/// The iteration order is the map's own and is promised nothing further.
#[verifier::external_body]
pub fn elem_map_keys(m: &ElemStore) -> (r: Vec<DefaultKey>)
    ensures
        r@.no_duplicates(),
        forall|k: DefaultKey| #[trigger] r@.contains(k) <==> elem_entries(*m).dom().contains(k),
{
    m.inner.keys().collect()
}

/// The generational slot map behind the timer stores.
#[verifier::external_body]
pub struct TimerStore {
    inner: SlotMap<DefaultKey, TimerEntry>,
}

/// What a timer map holds: each live key with its scheduled entry.
pub uninterp spec fn timer_entries(m: TimerStore) -> Map<DefaultKey, TimerEntry>;

/// Every key a timer map has ever returned from an insertion.
pub uninterp spec fn timer_issued(m: TimerStore) -> Set<DefaultKey>;

/// Relies on slotmap::SlotMap::with_key: a fresh map holds nothing and has
/// issued no keys.
#[verifier::external_body]
pub fn timer_map_new() -> (m: TimerStore)
    ensures
        timer_entries(m) == (Map::<DefaultKey, TimerEntry>::empty()),
        timer_issued(m) == (Set::<DefaultKey>::empty()),
{
    TimerStore { inner: SlotMap::with_key() }
}

/// Relies on slotmap::SlotMap::insert: stores the entry under a key never
/// returned before. Slot versions are 32 bits and rise by two per
/// remove-and-reinsert cycle, so a key can repeat only after two billion
/// insertions into one slot, and the map's capacity panic needs four
/// billion slots: the bound on issued keys excludes both.
#[verifier::external_body]
pub fn timer_map_insert(m: &mut TimerStore, value: TimerEntry) -> (k: DefaultKey)
    requires
        timer_issued(*old(m)).finite(),
        timer_issued(*old(m)).len() < 0x8000_0000,
    ensures
        !timer_issued(*old(m)).contains(k),
        timer_issued(*final(m)) == timer_issued(*old(m)).insert(k),
        timer_entries(*final(m)) == timer_entries(*old(m)).insert(k, value),
{
    m.inner.insert(value)
}

/// Relies on slotmap::SlotMap::remove: takes the entry out if the key is
/// live, and never issues that key again.
#[verifier::external_body]
pub fn timer_map_remove(m: &mut TimerStore, k: DefaultKey) -> (r: Option<TimerEntry>)
    ensures
        timer_issued(*final(m)) == timer_issued(*old(m)),
        timer_entries(*final(m)) == timer_entries(*old(m)).remove(k),
        match r {
            Some(v) => timer_entries(*old(m)).dom().contains(k) && v == timer_entries(*old(m))[k],
            None => !timer_entries(*old(m)).dom().contains(k),
        },
{
    m.inner.remove(k)
}

/// Relies on slotmap::SlotMap::get: reads the entry under a live key; a
/// removed or foreign key finds nothing.
#[verifier::external_body]
pub fn timer_map_get(m: &TimerStore, k: DefaultKey) -> (r: Option<TimerEntry>)
    ensures
        r == (if timer_entries(*m).dom().contains(k) {
            Some(timer_entries(*m)[k])
        } else {
            Option::<TimerEntry>::None
        }),
{
    m.inner.get(k).copied()
}

} // verus!

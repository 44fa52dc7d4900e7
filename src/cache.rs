//! The window metadata cache: a displayable title and a decoded icon per
//! window handle, filled lazily and evicted on change or destruction.

use std::collections::HashMap;
use vstd::prelude::*;
use crate::icon::{decode_icon, decoded_icon};
use crate::title::{chosen_title, opt_bytes, sanitized, title_from_properties};

verus! {

broadcast use vstd::std_specs::hash::group_hash_axioms;

/// What the panel keeps of one window. The icon, where there is one, is an
/// RGBA raster of the fixed icon size, replaced only as a whole.
#[derive(Debug)]
pub struct WindowEntry {
    pub title: String,
    pub icon: Option<Vec<u8>>,
}

pub open spec fn opt_items(v: &Option<Vec<u32>>) -> Option<Seq<u32>> {
    match v {
        Some(d) => Some(d@),
        None => None,
    }
}

/// The entry of a window from its fetched properties: the two title
/// properties and the icon property (`None` where a fetch failed).
pub fn build_entry(
    utf8_title: &Option<Vec<u8>>,
    legacy_title: &Option<Vec<u8>>,
    icon_property: &Option<Vec<u32>>,
) -> (r: WindowEntry)
    ensures
        r.title@ == sanitized(chosen_title(opt_bytes(utf8_title), opt_bytes(legacy_title))),
        match opt_items(icon_property) {
            Some(d) => match (r.icon, decoded_icon(d)) {
                (Some(v), Some(s)) => v@ == s,
                (None, None) => true,
                _ => false,
            },
            None => r.icon is None,
        },
{
    let title = title_from_properties(utf8_title, legacy_title);
    let icon = match icon_property {
        Some(d) => decode_icon(d),
        None => None,
    };
    WindowEntry { title, icon }
}

pub struct WindowCache {
    entries: HashMap<u32, WindowEntry>,
}

impl View for WindowCache {
    type V = Map<u32, WindowEntry>;

    closed spec fn view(&self) -> Map<u32, WindowEntry> {
        self.entries@
    }
}

/// Invalidating one handle removes exactly that handle's entry: every other
/// handle keeps its entry, or its absence, as it was.
pub proof fn lemma_invalidate_isolated(m: Map<u32, WindowEntry>, h: u32, k: u32)
    ensures
        !m.remove(h).contains_key(h),
        k != h ==> (m.remove(h).contains_key(k) <==> m.contains_key(k)),
        k != h && m.contains_key(k) ==> m.remove(h)[k] == m[k],
{
}

impl WindowCache {
    pub fn new() -> (r: WindowCache)
        ensures
            r@ == Map::<u32, WindowEntry>::empty(),
    {
        WindowCache { entries: HashMap::new() }
    }

    pub fn contains(&self, h: u32) -> (r: bool)
        ensures
            r == self@.contains_key(h),
    {
        self.entries.contains_key(&h)
    }

    pub fn get(&self, h: u32) -> (r: Option<&WindowEntry>)
        ensures
            match r {
                Some(e) => self@.contains_key(h) && self@[h] == *e,
                None => !self@.contains_key(h),
            },
    {
        self.entries.get(&h)
    }

    pub fn insert(&mut self, h: u32, e: WindowEntry)
        ensures
            final(self)@ == old(self)@.insert(h, e),
    {
        self.entries.insert(h, e);
    }

    /// Drops the entry of `h`, so that the next lookup fetches it afresh;
    /// says whether there was one.
    pub fn invalidate(&mut self, h: u32) -> (r: bool)
        ensures
            final(self)@ == old(self)@.remove(h),
            r == old(self)@.contains_key(h),
    {
        self.entries.remove(&h).is_some()
    }

    pub fn len(&self) -> (r: usize)
        ensures
            r == self@.len(),
    {
        self.entries.len()
    }
}

} // verus!

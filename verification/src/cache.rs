use vstd::prelude::*;

use crate::buffer::ImageBuf;
use crate::buffer::MaskBuf;
use crate::error::CommandError;

verus! {

/// The most recently decoded full page: an immutable image and mask pair,
/// shared read-only by every region call on that page.
#[derive(Debug)]
pub struct CacheEntry {
    pub image: ImageBuf,
    pub mask: MaskBuf,
}

/// A single-slot, caller-controlled cache of the primed page. Priming
/// replaces any prior entry, clearing removes it; there is no implicit
/// eviction or expiry. The host guards the slot with its own lock; this
/// type holds the slot's state and its rules.
#[derive(Debug)]
pub struct RegionCache {
    pub entry: Option<CacheEntry>,
}

impl RegionCache {
    /// An empty cache: nothing is primed.
    pub fn new() -> (r: RegionCache)
        ensures
            r.entry is None,
    {
        RegionCache { entry: None }
    }

    /// Store a page pair, replacing any prior entry.
    pub fn prime(&mut self, image: ImageBuf, mask: MaskBuf)
        ensures
            final (self).entry == Some(CacheEntry { image, mask }),
    {
        self.entry = Some(CacheEntry { image, mask });
    }

    /// Drop the entry, if any.
    pub fn clear(&mut self)
        ensures
            final (self).entry is None,
    {
        self.entry = None;
    }

    /// The primed pair, or a cache-miss error exactly when nothing is
    /// primed.
    pub fn get(&self) -> (res: Result<&CacheEntry, CommandError>)
        ensures
            match self.entry {
                Some(_) => res matches Ok(e) && Some(*e) == self.entry,
                None => res == Err::<&CacheEntry, CommandError>(CommandError::CacheMiss),
            },
    {
        match &self.entry {
            Some(e) => Ok(e),
            None => Err(CommandError::CacheMiss),
        }
    }
}

} // verus!

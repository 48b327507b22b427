//! The access and caching policy of a register.
//!
//! The cache itself belongs to the caller, who also sees to it that no two
//! threads change one entry at a time. The functions here decide what the
//! policy of a register asks for: whether an access is permitted, whether a
//! cached value may be used, and what the cache holds after a read, a write
//! or the change of another node. Times are in milliseconds on a clock of
//! the caller's choice.

use crate::elem_type::AccessMode;
use crate::elem_type::CachingMode;
use crate::node_store::NodeId;
use crate::register_base::RegisterBase;
use crate::register_base::RegisterBaseView;
use vstd::prelude::*;

verus! {

/// What a caller wants to do with a register.
#[derive(Debug, Clone, Copy, PartialEq, Eq, Structural)]
pub enum AccessUse {
    Read,
    Write,
}

/// The access mode of a register does not permit what the caller wants.
#[derive(Debug, Clone, Copy, PartialEq, Eq, Structural)]
pub struct AccessDenied {
    pub mode: AccessMode,
    pub usage: AccessUse,
}

/// A cached value and the time at which it was stored.
#[derive(Debug, Clone, Copy, PartialEq, Eq, Structural)]
pub struct CacheEntry {
    pub value: i64,
    pub stored_at: u64,
}

/// Whether a register with the given access mode may be used as wanted: a
/// read-only register is not written and a write-only register is not read.
pub open spec fn permits(mode: AccessMode, usage: AccessUse) -> bool {
    match (mode, usage) {
        (AccessMode::RO, AccessUse::Write) => false,
        (AccessMode::WO, AccessUse::Read) => false,
        _ => true,
    }
}

/// Whether a value stored at `stored_at` is young enough at `now`. Without a
/// polling time every value is; with one, the age of the value must not
/// exceed it. A value from the future is never young enough.
pub open spec fn is_fresh(polling_time: Option<u64>, stored_at: u64, now: u64) -> bool {
    match polling_time {
        None => true,
        Some(limit) => stored_at <= now && now - stored_at <= limit,
    }
}

/// The value that a read at `now` may take from the cache instead of from
/// the device.
pub open spec fn cached_value(
    mode: CachingMode,
    polling_time: Option<u64>,
    entry: Option<CacheEntry>,
    now: u64,
) -> Option<i64> {
    match (mode, entry) {
        (CachingMode::NoCache, _) => None,
        (_, None) => None,
        (_, Some(e)) => if is_fresh(polling_time, e.stored_at, now) {
            Some(e.value)
        } else {
            None
        },
    }
}

/// What the cache holds after `value` was read from the device at `now`.
pub open spec fn entry_after_read(mode: CachingMode, value: i64, now: u64) -> Option<CacheEntry> {
    match mode {
        CachingMode::NoCache => None,
        _ => Some(CacheEntry { value, stored_at: now }),
    }
}

/// What the cache holds after `value` was written to the device at `now`:
/// the value where writes go through the cache, nothing where they go
/// around it.
pub open spec fn entry_after_write(mode: CachingMode, value: i64, now: u64) -> Option<CacheEntry> {
    match mode {
        CachingMode::WriteThrough => Some(CacheEntry { value, stored_at: now }),
        _ => None,
    }
}

/// What the cache of a register holds after the node `changed` changed:
/// nothing if that node is one of the invalidators of the register, whatever
/// the caching mode and the polling time are.
pub open spec fn entry_after_change(
    invalidators: Seq<NodeId>,
    entry: Option<CacheEntry>,
    changed: NodeId,
) -> Option<CacheEntry> {
    if invalidators.contains(changed) {
        None
    } else {
        entry
    }
}

/// Decides whether an access is permitted.
pub fn check_access(mode: AccessMode, usage: AccessUse) -> (r: Result<(), AccessDenied>)
    ensures
        r is Ok <==> permits(mode, usage),
        r matches Err(e) ==> e == (AccessDenied { mode, usage }),
{
    match (mode, usage) {
        (AccessMode::RO, AccessUse::Write) => Err(AccessDenied { mode, usage }),
        (AccessMode::WO, AccessUse::Read) => Err(AccessDenied { mode, usage }),
        _ => Ok(()),
    }
}

impl RegisterBase {
    /// Whether the register may be used as wanted.
    pub fn check_access(&self, usage: AccessUse) -> (r: Result<(), AccessDenied>)
        ensures
            r is Ok <==> permits(self@.access_mode, usage),
            r matches Err(e) ==> e == (AccessDenied { mode: self@.access_mode, usage }),
    {
        check_access(self.access_mode(), usage)
    }

    /// The value that a read at `now` may take from the cache.
    pub fn cached_value(&self, entry: Option<CacheEntry>, now: u64) -> (value: Option<i64>)
        ensures
            value == cached_value(self@.cacheable, self@.polling_time, entry, now),
    {
        match self.cacheable() {
            CachingMode::NoCache => None,
            _ => match entry {
                None => None,
                Some(e) => {
                    let fresh = match self.polling_time() {
                        None => true,
                        Some(limit) => e.stored_at <= now && now - e.stored_at <= limit,
                    };
                    if fresh {
                        Some(e.value)
                    } else {
                        None
                    }
                },
            },
        }
    }

    /// What the cache holds after `value` was read from the device at `now`.
    pub fn entry_after_read(&self, value: i64, now: u64) -> (entry: Option<CacheEntry>)
        ensures
            entry == entry_after_read(self@.cacheable, value, now),
    {
        match self.cacheable() {
            CachingMode::NoCache => None,
            _ => Some(CacheEntry { value, stored_at: now }),
        }
    }

    /// What the cache holds after `value` was written to the device at `now`.
    pub fn entry_after_write(&self, value: i64, now: u64) -> (entry: Option<CacheEntry>)
        ensures
            entry == entry_after_write(self@.cacheable, value, now),
    {
        match self.cacheable() {
            CachingMode::WriteThrough => Some(CacheEntry { value, stored_at: now }),
            _ => None,
        }
    }

    /// Whether a change of the node `changed` makes a cached value of this
    /// register stale.
    pub fn is_invalidated_by(&self, changed: NodeId) -> (b: bool)
        ensures
            b == self@.p_invalidators.contains(changed),
    {
        let ids = self.p_invalidators();
        let mut i: usize = 0;
        while i < ids.len()
            invariant
                i <= ids.len(),
                ids@ == self@.p_invalidators,
                forall|k: int| 0 <= k < i ==> ids@[k] != changed,
            decreases ids.len() - i,
        {
            if ids[i] == changed {
                return true;
            }
            i = i + 1;
        }
        false
    }

    /// What the cache holds after the node `changed` changed.
    pub fn entry_after_change(&self, entry: Option<CacheEntry>, changed: NodeId) -> (after: Option<
        CacheEntry,
    >)
        ensures
            after == entry_after_change(self@.p_invalidators, entry, changed),
    {
        if self.is_invalidated_by(changed) {
            None
        } else {
            entry
        }
    }
}

} // verus!

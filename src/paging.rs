//! Pages of list queries: 30 entries by default, never more than 100,
//! starting after a given id.

use vstd::prelude::*;

verus! {

/// Default page size of a list query.
pub const DEFAULT_LIMIT: u32 = 30;

/// Largest page size of a list query.
pub const MAX_LIMIT: u32 = 100;

/// The page size a list query uses.
pub open spec fn page_size(limit: Option<u32>) -> int {
    let l = match limit {
        Some(v) => v as int,
        None => DEFAULT_LIMIT as int,
    };
    if l < MAX_LIMIT { l } else { MAX_LIMIT as int }
}

/// The page size a list query uses.
pub fn page_limit(limit: Option<u32>) -> (r: usize)
    ensures
        r == page_size(limit),
{
    match limit {
        Some(v) => if v < MAX_LIMIT { v as usize } else { MAX_LIMIT as usize },
        None => DEFAULT_LIMIT as usize,
    }
}

/// Number of ids on the page of ids `1..=count` that starts after
/// `start_after`.
pub open spec fn page_len(count: int, start_after: Option<u64>, limit: Option<u32>) -> int {
    let s: int = match start_after {
        Some(v) => v as int,
        None => 0,
    };
    if s >= count {
        0
    } else if count - s < page_size(limit) {
        count - s
    } else {
        page_size(limit)
    }
}

/// The page of ids `1..=count` that starts after `start_after`, ascending.
pub fn page_ids(count: u64, start_after: Option<u64>, limit: Option<u32>) -> (r: Vec<u64>)
    ensures
        r@.len() == page_len(count as int, start_after, limit),
        forall|k: int| 0 <= k < r@.len() ==> #[trigger] r@[k] == (match start_after {
            Some(v) => v as int,
            None => 0,
        }) + 1 + k,
{
    let s: u64 = match start_after {
        Some(v) => v,
        None => 0,
    };
    let lim = page_limit(limit);
    let mut r: Vec<u64> = Vec::new();
    if s >= count {
        return r;
    }
    let avail: u64 = count - s;
    while r.len() < lim && (r.len() as u64) < avail
        invariant
            s < count,
            avail == count - s,
            r@.len() <= lim,
            r@.len() <= avail,
            lim == page_size(limit),
            lim <= MAX_LIMIT,
            forall|k: int| 0 <= k < r@.len() ==> #[trigger] r@[k] == s + 1 + k,
        decreases lim - r@.len(),
    {
        let k = r.len() as u64;
        r.push(s + 1 + k);
    }
    r
}

} // verus!

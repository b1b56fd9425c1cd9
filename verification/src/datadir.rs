//! Choosing the game's live data directory among scanned candidates.
//!
//! The surrounding shell lists the entries of the fixed parent locations; the
//! library picks the first directory whose name starts with the known prefix
//! and which contains the sentinel subdirectory.

use vstd::prelude::*;
use crate::bytes::{has_prefix, starts_with};

verus! {

/// One entry of a scanned parent directory, reduced to what the choice reads:
/// its name's bytes, whether it is a directory, and whether it contains the
/// sentinel subdirectory.
pub struct DirCandidate {
    pub name: Vec<u8>,
    pub is_dir: bool,
    pub has_login_cache: bool,
}

/// The prefix a live data directory's name must carry.
pub open spec fn sdk_prefix() -> Seq<u8> {
    seq![115u8, 100u8, 107u8]
}

pub fn sdk_prefix_vec() -> (r: Vec<u8>)
    ensures
        r@ == sdk_prefix(),
{
    let mut r: Vec<u8> = Vec::new();
    r.push(115u8);
    r.push(100u8);
    r.push(107u8);
    proof {
        assert(r@ =~= sdk_prefix());
    }
    r
}

/// A candidate is the live data directory when it is a directory, its name
/// starts with the known prefix, and the sentinel subdirectory is inside.
pub open spec fn candidate_matches(c: &DirCandidate) -> bool {
    c.is_dir && has_prefix(c.name@, sdk_prefix()) && c.has_login_cache
}

/// Picks the first matching candidate, or `None` when no entry matches (the
/// environment holds no live data directory).
pub fn pick_game_data_dir(entries: &Vec<DirCandidate>) -> (r: Option<usize>)
    ensures
        match r {
            Option::Some(i) => i < entries@.len() && candidate_matches(&entries@[i as int])
                && forall|j: int| 0 <= j < i ==> !candidate_matches(&entries@[j]),
            Option::None => forall|j: int|
                0 <= j < entries@.len() ==> !candidate_matches(&entries@[j]),
        },
{
    let prefix = sdk_prefix_vec();
    let mut i: usize = 0;
    while i < entries.len()
        invariant
            i <= entries.len(),
            prefix@ == sdk_prefix(),
            forall|j: int| 0 <= j < i ==> !candidate_matches(&entries@[j]),
        decreases entries.len() - i,
    {
        let c = &entries[i];
        if c.is_dir && c.has_login_cache && starts_with(&c.name, &prefix) {
            return Some(i);
        }
        i = i + 1;
    }
    None
}

} // verus!

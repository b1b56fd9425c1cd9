//! Pre-flight guard against a running game process.
//!
//! Mutating operations on the live credential files must not run while the
//! game holds them open; the guard scans the process table for the game's
//! executable name, case-insensitively.

use vstd::prelude::*;
use crate::bytes::{contains_seq, contains_sub, lower_bytes, to_lower};

verus! {

/// The lowercase executable name that marks the game as running.
pub open spec fn game_needle() -> Seq<u8> {
    seq![
        101u8,
        110u8,
        100u8,
        102u8,
        105u8,
        101u8,
        108u8,
        100u8,
        46u8,
        101u8,
        120u8,
        101u8,
    ]
}

pub fn game_needle_vec() -> (r: Vec<u8>)
    ensures
        r@ == game_needle(),
{
    let mut r: Vec<u8> = Vec::new();
    r.push(101u8);
    r.push(110u8);
    r.push(100u8);
    r.push(102u8);
    r.push(105u8);
    r.push(101u8);
    r.push(108u8);
    r.push(100u8);
    r.push(46u8);
    r.push(101u8);
    r.push(120u8);
    r.push(101u8);
    proof {
        assert(r@ =~= game_needle());
    }
    r
}

/// Some process name in `names`, lowered to ASCII lowercase, contains the
/// game's executable name.
pub open spec fn spec_game_running(names: Seq<Seq<u8>>) -> bool {
    exists|i: int|
        0 <= i < names.len() && contains_seq(lower_bytes(names[i]), game_needle())
}

/// Relies on sysinfo::System::processes: one entry per process visible at the
/// moment of the scan; the closure only converts each process to the bytes of
/// its name.
#[verifier::external_body]
fn process_name_bytes() -> (r: Vec<Vec<u8>>) {
    let mut sys = sysinfo::System::new_all();
    sys.refresh_all();
    sys.processes().values().map(|p| p.name().to_string_lossy().into_owned().into_bytes()).collect()
}

/// Whether any of the given process names, case-folded, contains the game's
/// executable name.
pub fn is_game_running(names: &Vec<Vec<u8>>) -> (r: bool)
    ensures
        r == spec_game_running(names.deep_view()),
{
    let needle = game_needle_vec();
    let mut i: usize = 0;
    while i < names.len()
        invariant
            i <= names.len(),
            needle@ == game_needle(),
            forall|k: int|
                0 <= k < i ==> !contains_seq(lower_bytes(names.deep_view()[k]), game_needle()),
        decreases names.len() - i,
    {
        let lowered = to_lower(&names[i]);
        if contains_sub(&lowered, &needle) {
            proof {
                assert(names.deep_view()[i as int] == names@[i as int]@);
            }
            return true;
        }
        proof {
            assert(names.deep_view()[i as int] == names@[i as int]@);
        }
        i = i + 1;
    }
    false
}

/// Scans the process table now and reports whether the game appears to be
/// running. Two scans may disagree: the process table is machine state.
pub fn game_guard_running() -> (r: bool) {
    let names = process_name_bytes();
    is_game_running(&names)
}

} // verus!

//! Recognising a Nintendo Switch controller among the Bluetooth devices that
//! a discovery session has found.
use vstd::prelude::*;

verus! {

/// Whether `alias` is the name that one of the supported controllers
/// advertises: a Pro Controller or either Joy-Con.
pub open spec fn spec_is_known_controller(alias: Seq<char>) -> bool {
    alias == "Pro Controller"@ || alias == "Joy-Con (L)"@ || alias == "Joy-Con (R)"@
}

/// A device seen during discovery: its alias (empty when it has none) and
/// whether its signal strength could be read (a device out of range has none).
pub struct ScannedDevice {
    pub alias: String,
    pub rssi_ok: bool,
}

/// Whether the scanned device is a supported controller within range.
pub open spec fn spec_is_candidate(d: ScannedDevice) -> bool {
    d.rssi_ok && spec_is_known_controller(d.alias@)
}

/// Whether two strings hold the same characters.
pub fn str_equal(a: &str, b: &str) -> (r: bool)
    ensures
        r == (a@ == b@),
{
    let n = a.unicode_len();
    if n != b.unicode_len() {
        return false;
    }
    let mut i: usize = 0;
    while i < n
        invariant
            n == a@.len() == b@.len(),
            i <= n,
            forall|j: int| 0 <= j < i ==> a@[j] == b@[j],
        decreases n - i,
    {
        if a.get_char(i) != b.get_char(i) {
            return false;
        }
        i = i + 1;
    }
    assert(a@ =~= b@);
    true
}

/// Whether `alias` names a supported controller.
pub fn is_known_controller(alias: &str) -> (r: bool)
    ensures
        r == spec_is_known_controller(alias@),
        r <==> (alias@ == "Pro Controller"@ || alias@ == "Joy-Con (L)"@ || alias@
            == "Joy-Con (R)"@),
{
    str_equal(alias, "Pro Controller") || str_equal(alias, "Joy-Con (L)") || str_equal(
        alias,
        "Joy-Con (R)",
    )
}

/// The first device in `devices` that is a supported controller within
/// range, if any: the one to connect to.
pub fn select_controller(devices: &[ScannedDevice]) -> (r: Option<usize>)
    ensures
        match r {
            Some(i) => i < devices@.len() && spec_is_candidate(devices@[i as int]) && forall|j: int|
                0 <= j < i ==> !spec_is_candidate(#[trigger] devices@[j]),
            None => forall|j: int|
                0 <= j < devices@.len() ==> !spec_is_candidate(#[trigger] devices@[j]),
        },
{
    let mut i: usize = 0;
    while i < devices.len()
        invariant
            i <= devices@.len(),
            forall|j: int| 0 <= j < i ==> !spec_is_candidate(#[trigger] devices@[j]),
        decreases devices.len() - i,
    {
        let d = &devices[i];
        if d.rssi_ok && is_known_controller(d.alias.as_str()) {
            return Some(i);
        }
        i = i + 1;
    }
    None
}

/// The supported controllers are exactly the three that advertise the names
/// "Pro Controller", "Joy-Con (L)" and "Joy-Con (R)": a device is a candidate
/// exactly when its signal can be read and its alias is one of these names,
/// character for character.
pub proof fn lemma_candidates_exact(d: ScannedDevice)
    ensures
        spec_is_candidate(d) <==> d.rssi_ok && (d.alias@ =~= "Pro Controller"@ || d.alias@
            =~= "Joy-Con (L)"@ || d.alias@ =~= "Joy-Con (R)"@),
{
}

} // verus!

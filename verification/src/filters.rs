//! The catalogue of effect filters that a user can choose from.

use vstd::prelude::*;
use crate::machine::sentinel;

verus! {

/// The name that stands for "no filter": choosing it empties the slot.
pub const NO_FILTER: &'static str = "no-filter";

/// The names on offer, in the order in which they are shown.
pub const FILTER_NAMES: [&'static str; 14] = [
    NO_FILTER,
    "timeoverlay",
    "vertigotv",
    "edgetv",
    "agingtv",
    "shagadelictv",
    "revtv",
    "quarktv",
    "cartoon",
    "twirl",
    "kaleidoscope",
    "lenscorrection",
    "tunnel",
    "frei0r-scanline0r",
];

/// The names on offer, the sentinel first.
pub open spec fn catalog() -> Seq<Seq<char>> {
    seq![
        "no-filter"@,
        "timeoverlay"@,
        "vertigotv"@,
        "edgetv"@,
        "agingtv"@,
        "shagadelictv"@,
        "revtv"@,
        "quarktv"@,
        "cartoon"@,
        "twirl"@,
        "kaleidoscope"@,
        "lenscorrection"@,
        "tunnel"@,
        "frei0r-scanline0r"@,
    ]
}

/// The names on offer as a vector, in the order in which they are shown. The
/// table is handed to whoever builds the selector.
pub fn filter_names() -> (names: Vec<&'static str>)
    ensures
        names@ == FILTER_NAMES@,
        names@.len() == catalog().len(),
        forall|i: int| 0 <= i < names@.len() ==> (#[trigger] names@[i])@ == catalog()[i],
        names@[0]@ == sentinel(),
{
    let table = FILTER_NAMES;
    let mut names: Vec<&'static str> = Vec::new();
    let mut i: usize = 0;
    while i < 14
        invariant
            i <= 14,
            table == FILTER_NAMES,
            names@ == FILTER_NAMES@.subrange(0, i as int),
        decreases 14 - i,
    {
        names.push(table[i]);
        assert(names@ =~= FILTER_NAMES@.subrange(0, i + 1));
        i += 1;
    }
    assert(names@ =~= FILTER_NAMES@);
    names
}

/// Whether a name is the sentinel.
pub fn is_no_filter(name: &str) -> (r: bool)
    ensures
        r == (name@ == sentinel()),
{
    let given = name.to_owned();
    let wanted = NO_FILTER.to_owned();
    given == wanted
}

} // verus!

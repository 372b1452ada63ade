use vstd::prelude::*;
use crate::options::AnprOptions;

verus! {

/// Which image the engine receives for a plate type.
#[derive(Debug, Clone, Copy, PartialEq, Eq, Structural)]
pub enum ColorPath {
    /// The frame is handed over as captured, in colour.
    Original,
    /// The frame is first converted to 8-bit single-channel grayscale.
    ConvertToGrayscale,
}

/// The plate-type families that are recognised in full colour.
pub open spec fn full_type_seq() -> Seq<i32> {
    seq![4i32, 7, 9, 310, 311, 911]
}

/// Membership in the full-colour family set, written out.
pub open spec fn is_full_type_number(t: i32) -> bool {
    t == 4 || t == 7 || t == 9 || t == 310 || t == 311 || t == 911
}

/// The colour path chosen for `type_number` against a full-type set.
pub open spec fn path_for(type_number: i32, full_types: Seq<i32>) -> ColorPath {
    if full_types.contains(type_number) {
        ColorPath::Original
    } else {
        ColorPath::ConvertToGrayscale
    }
}

/// The reference set of full-colour plate types.
pub fn full_types() -> (r: Vec<i32>)
    ensures
        r@ == full_type_seq(),
{
    let r: Vec<i32> = vec![4i32, 7, 9, 310, 311, 911];
    assert(r@ =~= full_type_seq());
    r
}

/// Chooses the colour path for a plate type: colour for members of the
/// full-type set, grayscale for all others.
pub fn select_path(type_number: i32, full_types: &[i32]) -> (r: ColorPath)
    ensures
        r == path_for(type_number, full_types@),
{
    let mut i: usize = 0;
    while i < full_types.len()
        invariant
            i <= full_types@.len(),
            forall|j: int| 0 <= j < i ==> full_types@[j] != type_number,
        decreases full_types@.len() - i,
    {
        if full_types[i] == type_number {
            return ColorPath::Original;
        }
        i = i + 1;
    }
    ColorPath::ConvertToGrayscale
}

/// The colour path for the options' plate type against the reference set.
pub fn path_of_options(options: &AnprOptions) -> (r: ColorPath)
    ensures
        r == path_for(options.type_number, full_type_seq()),
{
    let full = full_types();
    select_path(options.type_number, full.as_slice())
}

/// The full-type test and the colour-path choice agree: a type in the
/// reference set {4, 7, 9, 310, 311, 911} always keeps the colour frame, and
/// any other type always goes through grayscale.
pub proof fn lemma_full_type_selects_path(options: AnprOptions)
    ensures
        full_type_seq().contains(options.type_number) <==> is_full_type_number(options.type_number),
        is_full_type_number(options.type_number)
            ==> path_for(options.type_number, full_type_seq()) == ColorPath::Original,
        !is_full_type_number(options.type_number)
            ==> path_for(options.type_number, full_type_seq()) == ColorPath::ConvertToGrayscale,
{
    let t = options.type_number;
    let s = full_type_seq();
    if is_full_type_number(t) {
        if t == 4 { assert(s[0] == t); }
        else if t == 7 { assert(s[1] == t); }
        else if t == 9 { assert(s[2] == t); }
        else if t == 310 { assert(s[3] == t); }
        else if t == 311 { assert(s[4] == t); }
        else { assert(s[5] == t); }
    }
    if s.contains(t) {
        let j = choose|j: int| 0 <= j < s.len() && s[j] == t;
        assert(is_full_type_number(s[j]));
    }
}

} // verus!

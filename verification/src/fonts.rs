//! Font weights and widths, whose numbers come from `cosmic_text`.
use vstd::prelude::*;

verus! {

/// The width of a font face, from the narrowest to the widest; the library's
/// counterpart of `cosmic_text::Stretch`.
#[derive(Clone, Copy, Debug, PartialEq, Eq, Structural)]
pub enum FontStretch {
    UltraCondensed,
    ExtraCondensed,
    Condensed,
    SemiCondensed,
    Normal,
    SemiExpanded,
    Expanded,
    ExtraExpanded,
    UltraExpanded,
}

/// The number of a width, from 1 (ultra-condensed) to 9 (ultra-expanded).
pub open spec fn stretch_number(s: FontStretch) -> u16 {
    match s {
        FontStretch::UltraCondensed => 1,
        FontStretch::ExtraCondensed => 2,
        FontStretch::Condensed => 3,
        FontStretch::SemiCondensed => 4,
        FontStretch::Normal => 5,
        FontStretch::SemiExpanded => 6,
        FontStretch::Expanded => 7,
        FontStretch::ExtraExpanded => 8,
        FontStretch::UltraExpanded => 9,
    }
}

/// `cosmic_text::Stretch::to_number` (fontdb's re-export of
/// `ttf_parser::Width::to_number`) on the width `s`; its source numbers the
/// nine widths 1 to 9 in order.
#[verifier::external_body]
pub(crate) fn stretch_to_number(s: FontStretch) -> (n: u16)
    ensures
        n == stretch_number(s),
{
    let stretch = match s {
        FontStretch::UltraCondensed => cosmic_text::Stretch::UltraCondensed,
        FontStretch::ExtraCondensed => cosmic_text::Stretch::ExtraCondensed,
        FontStretch::Condensed => cosmic_text::Stretch::Condensed,
        FontStretch::SemiCondensed => cosmic_text::Stretch::SemiCondensed,
        FontStretch::Normal => cosmic_text::Stretch::Normal,
        FontStretch::SemiExpanded => cosmic_text::Stretch::SemiExpanded,
        FontStretch::Expanded => cosmic_text::Stretch::Expanded,
        FontStretch::ExtraExpanded => cosmic_text::Stretch::ExtraExpanded,
        FontStretch::UltraExpanded => cosmic_text::Stretch::UltraExpanded,
    };
    stretch.to_number()
}

/// The number of `cosmic_text::Weight::BOLD`, which fontdb's source sets
/// to 700.
#[verifier::external_body]
pub(crate) fn bold_weight() -> (w: u16)
    ensures
        w == 700,
{
    cosmic_text::Weight::BOLD.0
}

/// The number of `cosmic_text::Weight::NORMAL`, which fontdb's source sets
/// to 400.
#[verifier::external_body]
pub(crate) fn normal_weight() -> (w: u16)
    ensures
        w == 400,
{
    cosmic_text::Weight::NORMAL.0
}

/// The width whose number is `n`.
pub fn stretch_of_number(n: u16) -> (r: Option<FontStretch>)
    ensures
        r matches Some(s) ==> stretch_number(s) == n,
        r is None <==> !(1 <= n <= 9),
{
    let all = [
        FontStretch::UltraCondensed,
        FontStretch::ExtraCondensed,
        FontStretch::Condensed,
        FontStretch::SemiCondensed,
        FontStretch::Normal,
        FontStretch::SemiExpanded,
        FontStretch::Expanded,
        FontStretch::ExtraExpanded,
        FontStretch::UltraExpanded,
    ];
    let mut i: usize = 0;
    while i < 9
        invariant
            i <= 9,
            forall|k: int| 0 <= k < 9 ==> stretch_number(#[trigger] all@[k]) == k + 1,
            forall|k: int| 0 <= k < i ==> stretch_number(#[trigger] all@[k]) != n,
        decreases 9 - i,
    {
        let s = all[i];
        if stretch_to_number(s) == n {
            return Some(s);
        }
        i += 1;
    }
    proof {
        if 1 <= n <= 9 {
            assert(stretch_number(all@[n - 1]) == n);
        }
    }
    None
}

} // verus!

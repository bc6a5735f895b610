//! Display-column widths. The per-character width comes from the
//! unicode-width crate; sums over character runs are computed and reasoned
//! about here, saturating at `usize::MAX`.

use vstd::prelude::*;

verus! {

/// The display-column width of one character, as unicode-width assigns it.
pub uninterp spec fn char_width_of(c: char) -> nat;

/// Relies on unicode_width::UnicodeWidthChar::width: the display-column
/// width of `c`, which depends on the character alone. Control characters
/// report `None` and count as zero here. This version's tables assign at
/// most three columns to a character (a single Khmer sign has width three;
/// everything else stays at two or below).
#[verifier::external_body]
pub fn char_display_width(c: char) -> (w: usize)
    ensures
        w == char_width_of(c),
        w <= 3,
{
    unicode_width::UnicodeWidthChar::width(c).unwrap_or(0)
}

/// The summed display width of `s`, as an unbounded count.
pub open spec fn spec_width(s: Seq<char>) -> nat
    decreases s.len(),
{
    if s.len() == 0 {
        0
    } else {
        spec_width(s.drop_last()) + char_width_of(s.last())
    }
}

/// `n` capped at `usize::MAX`.
pub open spec fn spec_cap_usize(n: nat) -> nat {
    if n > usize::MAX {
        usize::MAX as nat
    } else {
        n
    }
}

/// The summed display width of `v[from..to]`, saturating at `usize::MAX`.
pub fn width_of_range(v: &Vec<char>, from: usize, to: usize) -> (r: usize)
    requires
        from <= to <= v@.len(),
    ensures
        r == spec_cap_usize(spec_width(v@.subrange(from as int, to as int))),
{
    let mut sum: usize = 0;
    let mut i: usize = from;
    while i < to
        invariant
            from <= i <= to <= v@.len(),
            sum == spec_cap_usize(spec_width(v@.subrange(from as int, i as int))),
        decreases to - i,
    {
        let w = char_display_width(v[i]);
        proof {
            assert(v@.subrange(from as int, i + 1 as int).drop_last() =~= v@.subrange(
                from as int,
                i as int,
            ));
            assert(v@.subrange(from as int, i + 1 as int).last() == v@[i as int]);
        }
        if sum <= usize::MAX - w {
            sum = sum + w;
        } else {
            sum = usize::MAX;
        }
        i += 1;
    }
    sum
}

} // verus!

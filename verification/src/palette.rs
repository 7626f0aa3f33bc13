//! Round-robin color allocation from a fixed palette.
//!
//! A `ColorPicker` owns one cursor into a fixed ordered palette. The
//! first allocation picks a pseudo-random starting index; every
//! allocation returns the color at the cursor and advances the cursor
//! by one modulo the palette size, so consecutive allocations walk the
//! palette deterministically after the first.

use vstd::prelude::*;

verus! {

/// Number of colors in the fixed palette.
pub const PALETTE_LEN: usize = 10;

/// The color at each palette index, as a `#rrggbb` hex string.
pub open spec fn palette_spec(i: int) -> Seq<char> {
    if i == 0 {
        "#4c72b0"@
    } else if i == 1 {
        "#dd8452"@
    } else if i == 2 {
        "#55a868"@
    } else if i == 3 {
        "#c44e52"@
    } else if i == 4 {
        "#8172b3"@
    } else if i == 5 {
        "#937860"@
    } else if i == 6 {
        "#da8bc3"@
    } else if i == 7 {
        "#8c8c8c"@
    } else if i == 8 {
        "#ccb974"@
    } else {
        "#64b5cd"@
    }
}

/// The color at palette index `i`.
pub fn palette_color(i: usize) -> (r: String)
    requires
        i < PALETTE_LEN,
    ensures
        r@ == palette_spec(i as int),
{
    if i == 0 {
        "#4c72b0".to_owned()
    } else if i == 1 {
        "#dd8452".to_owned()
    } else if i == 2 {
        "#55a868".to_owned()
    } else if i == 3 {
        "#c44e52".to_owned()
    } else if i == 4 {
        "#8172b3".to_owned()
    } else if i == 5 {
        "#937860".to_owned()
    } else if i == 6 {
        "#da8bc3".to_owned()
    } else if i == 7 {
        "#8c8c8c".to_owned()
    } else if i == 8 {
        "#ccb974".to_owned()
    } else {
        "#64b5cd".to_owned()
    }
}

/// Relies on rand's `Rng::gen_range` on `0..n`: the sample lies in the
/// half-open range, and the range is non-empty so the call cannot
/// panic.
#[verifier::external_body]
fn random_index(n: usize) -> (r: usize)
    requires
        n > 0,
    ensures
        r < n,
{
    rand::Rng::gen_range(&mut rand::thread_rng(), 0..n)
}

/// One cursor into the fixed palette. `None` until the first
/// allocation picks a random starting index.
#[derive(Debug, Clone, Copy, PartialEq, Eq, Structural)]
pub struct ColorPicker {
    /// Palette index the next allocation will return.
    pub idx: Option<usize>,
}

impl ColorPicker {
    /// The cursor, when set, stays inside the palette.
    pub open spec fn wf(self) -> bool {
        match self.idx {
            Some(i) => i < PALETTE_LEN,
            None => true,
        }
    }

    /// A picker whose first allocation will start at a random index.
    pub fn new() -> (r: Self)
        ensures
            r.wf(),
            r.idx is None,
    {
        ColorPicker { idx: None }
    }

    /// A picker whose next allocation starts at palette index `i`.
    pub fn with_cursor(i: usize) -> (r: Self)
        requires
            i < PALETTE_LEN,
        ensures
            r.wf(),
            r.idx == Some(i),
    {
        ColorPicker { idx: Some(i) }
    }

    /// What one allocation guarantees: with the cursor set, `c` is
    /// the color at the cursor and the cursor advanced by one modulo
    /// the palette size; with it unset, the same from some
    /// pseudo-random starting index.
    pub open spec fn picked(before: ColorPicker, after: ColorPicker, c: String) -> bool {
        match before.idx {
            Some(i) => {
                &&& c@ == palette_spec(i as int)
                &&& after.idx == Some(((i + 1) % PALETTE_LEN as int) as usize)
            },
            None => {
                exists|i: int|
                    {
                        &&& 0 <= i < PALETTE_LEN
                        &&& c@ == palette_spec(i)
                        &&& after.idx == Some(((i + 1) % PALETTE_LEN as int) as usize)
                    }
            },
        }
    }

    /// Return the color at the cursor and advance the cursor by one
    /// modulo the palette size. With the cursor unset, start from a
    /// pseudo-random index.
    pub fn next_color(&mut self) -> (c: String)
        requires
            old(self).wf(),
        ensures
            final(self).wf(),
            ColorPicker::picked(*old(self), *final(self), c),
    {
        let i: usize = match self.idx {
            Some(i) => i,
            None => random_index(PALETTE_LEN),
        };
        self.idx = Some((i + 1) % PALETTE_LEN);
        palette_color(i)
    }
}

} // verus!

//! The fixed set of characters that the rain draws with.

use crate::random::{mix, mix_of};
use vstd::prelude::*;

verus! {

/// A Unicode scalar value: a code point that is not a surrogate.
pub open spec fn is_scalar(code: int) -> bool {
    (0 <= code <= 0xD7FF) || (0xE000 <= code <= 0x10FFFF)
}

/// Whether offset `off` falls in one of the inclusive ranges of `skips`.
pub open spec fn skipped(off: int, skips: Seq<(u32, u32)>) -> bool {
    exists|i: int| 0 <= i < skips.len() && skips[i].0 <= off <= #[trigger] skips[i].1
}

/// The code points of `[first, last]`, in order, that are scalar values and
/// whose offset from `first` is not skipped.
pub open spec fn catalog_codes(first: int, last: int, skips: Seq<(u32, u32)>) -> Seq<int>
    decreases last - first + 1,
{
    if last < first {
        Seq::empty()
    } else {
        let before = catalog_codes(first, last - 1, skips);
        if is_scalar(last) && !skipped(last - first, skips) {
            before.push(last)
        } else {
            before
        }
    }
}

pub open spec fn codes_of(s: Seq<char>) -> Seq<int> {
    s.map_values(|c: char| c as int)
}

/// Relies on char::from_u32: `Some` exactly for a Unicode scalar value, and
/// then the character with that code point.
#[verifier::external_body]
fn char_from_code(code: u32) -> (r: Option<char>)
    ensures
        r.is_some() == is_scalar(code as int),
        r matches Some(c) ==> c as int == code as int,
{
    char::from_u32(code)
}

#[derive(Clone, Copy, Debug, PartialEq, Eq)]
pub enum CatalogError {
    /// The range held no usable character once filtered.
    Empty,
}

/// Milliseconds for which a cell keeps its glyph before it may flicker to
/// another one.
pub const FLICKER_MS: u64 = 500;

/// Index into a catalog of `len` glyphs for the cell `(column, row)` at time `t`.
pub open spec fn glyph_index(column: int, row: int, t: int, len: int) -> int {
    mix_of(column as u64, row as u64, (t / FLICKER_MS as int) as u64) as int % len
}

/// A non-empty, ordered set of glyphs.
pub struct Catalog {
    glyphs: Vec<char>,
}

impl Catalog {
    pub closed spec fn view(&self) -> Seq<char> {
        self.glyphs@
    }

    pub closed spec fn wf(&self) -> bool {
        self.glyphs@.len() > 0
    }

    pub broadcast proof fn lemma_wf(&self)
        ensures
            #[trigger] self.wf() <==> self@.len() > 0,
    {
    }

    /// The scalar values of `[first, last]` whose offset from `first` lies in
    /// none of the inclusive offset ranges `skips`; an empty result is an error.
    pub fn from_range(first: u32, last: u32, skips: &Vec<(u32, u32)>) -> (r: Result<
        Catalog,
        CatalogError,
    >)
        ensures
            r is Err <==> catalog_codes(first as int, last as int, skips@).len() == 0,
            r matches Ok(c) ==> c.wf() && codes_of(c@) == catalog_codes(
                first as int,
                last as int,
                skips@,
            ),
    {
        let mut glyphs: Vec<char> = Vec::new();
        let mut code: u64 = first as u64;
        while code <= last as u64
            invariant
                first <= code,
                code <= last as u64 + 1 || code == first as u64,
                codes_of(glyphs@) == catalog_codes(first as int, code - 1, skips@),
            decreases last as u64 + 1 - code,
        {
            let off: u32 = (code - first as u64) as u32;
            let mut hit = false;
            let mut k: usize = 0;
            while k < skips.len()
                invariant
                    k <= skips@.len(),
                    hit <==> exists|i: int|
                        0 <= i < k && skips@[i].0 <= off <= #[trigger] skips@[i].1,
                decreases skips@.len() - k,
            {
                let (lo, hi) = skips[k];
                if lo <= off && off <= hi {
                    hit = true;
                }
                k = k + 1;
            }
            if !hit {
                match char_from_code(code as u32) {
                    Some(c) => {
                        glyphs.push(c);
                    },
                    None => {},
                }
            }
            assert(codes_of(glyphs@) =~= catalog_codes(first as int, code as int, skips@));
            code = code + 1;
        }
        assert(codes_of(glyphs@) =~= catalog_codes(first as int, last as int, skips@));
        if glyphs.len() == 0 {
            Err(CatalogError::Empty)
        } else {
            Ok(Catalog { glyphs })
        }
    }

    /// The Klingon pIqaD block `U+F8D0..=U+F8FF`, without the unassigned code
    /// points at offsets `0x1A..=0x1F` and `0x2A..=0x2D`.
    pub fn klingon() -> (r: Result<Catalog, CatalogError>)
        ensures
            r is Err <==> catalog_codes(0xF8D0, 0xF8FF, seq![(0x1Au32, 0x1Fu32), (0x2Au32, 0x2Du32)]).len() == 0,
            r matches Ok(c) ==> c.wf() && codes_of(c@) == catalog_codes(
                0xF8D0,
                0xF8FF,
                seq![(0x1Au32, 0x1Fu32), (0x2Au32, 0x2Du32)],
            ),
    {
        let skips: Vec<(u32, u32)> = vec![(0x1A, 0x1F), (0x2A, 0x2D)];
        assert(skips@ =~= seq![(0x1Au32, 0x1Fu32), (0x2Au32, 0x2Du32)]);
        Catalog::from_range(0xF8D0, 0xF8FF, &skips)
    }

    pub fn len(&self) -> (r: usize)
        ensures
            r == self@.len(),
    {
        self.glyphs.len()
    }

    pub fn get(&self, i: usize) -> (r: char)
        requires
            i < self@.len(),
        ensures
            r == self@[i as int],
    {
        self.glyphs[i]
    }

    /// The glyph shown at `(column, row)` at time `t`: a pick from the
    /// catalog that changes only every `FLICKER_MS` milliseconds.
    pub fn glyph_for(&self, column: u64, row: u64, t: u64) -> (r: char)
        requires
            self.wf(),
        ensures
            r == self@[glyph_index(column as int, row as int, t as int, self@.len() as int)],
            self@.contains(r),
    {
        let i = mix(column, row, t / FLICKER_MS) as usize % self.glyphs.len();
        self.glyphs[i]
    }
}

} // verus!

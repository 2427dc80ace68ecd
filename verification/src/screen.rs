//! Bit-plane utilities over the packed 64 x 32 monochrome frame buffer, and
//! a restartable walk over the lit pixels for sparse renderers.

use vstd::prelude::*;

use crate::state::Chip8State;

verus! {

/// Index of the byte that holds pixel column `x` of row `y` in the flat,
/// row-major frame buffer (8 packed bytes per row).
pub open spec fn fb_index(x: int, y: int) -> int {
    y * 8 + x / 8
}

/// The mask of pixel column `x` inside its byte; bit 7 is the leftmost pixel.
pub open spec fn fb_mask(x: int) -> u8 {
    0x80u8 >> ((x % 8) as u8)
}

/// Whether the pixel at column `x` of row `y` is lit.
pub open spec fn fb_get(fb: Seq<u8>, x: int, y: int) -> bool {
    fb[fb_index(x, y)] & fb_mask(x) != 0
}

/// The frame buffer with the pixel at column `x` of row `y` inverted.
pub open spec fn fb_flip(fb: Seq<u8>, x: int, y: int) -> Seq<u8> {
    fb.update(fb_index(x, y), fb[fb_index(x, y)] ^ fb_mask(x))
}

/// Whether the pixel at linear position `p` (row-major, `p == y * 64 + x`)
/// is lit.
pub open spec fn fb_lit(fb: Seq<u8>, p: int) -> bool {
    fb_get(fb, p % 64, p / 64)
}

/// A walk over all the lit pixels of a frame buffer, returned as `(x, y)`
/// pairs in row-major order.  It holds its own copy of the frame buffer, so
/// the state may keep running while a renderer drains it.
pub struct PixelIter {
    fb: Vec<u8>,
    pos: usize,
}

impl PixelIter {
    /// The iterator's internal invariant.
    pub closed spec fn wf(&self) -> bool {
        self.fb@.len() == 256 && self.pos <= 2048
    }

    /// The frame buffer the iterator walks over.
    pub closed spec fn frame(&self) -> Seq<u8> {
        self.fb@
    }

    /// The next linear position the iterator will look at.
    pub closed spec fn cursor(&self) -> int {
        self.pos as int
    }

    /// The first lit pixel at or after the cursor, as `(x, y)`, or `None`
    /// once no lit pixel remains.
    pub fn next(&mut self) -> (r: Option<(usize, usize)>)
        requires
            old(self).wf(),
        ensures
            final(self).wf(),
            final(self).frame() == old(self).frame(),
            match r {
                Some(p) => {
                    let pos = p.1 * 64 + p.0;
                    &&& p.0 < 64
                    &&& p.1 < 32
                    &&& old(self).cursor() <= pos < 2048
                    &&& fb_get(old(self).frame(), p.0 as int, p.1 as int)
                    &&& forall|q: int|
                        old(self).cursor() <= q < pos ==> !fb_lit(old(self).frame(), q)
                    &&& final(self).cursor() == pos + 1
                },
                None => {
                    &&& forall|q: int|
                        old(self).cursor() <= q < 2048 ==> !fb_lit(old(self).frame(), q)
                    &&& final(self).cursor() == 2048
                },
            },
    {
        let mut p: usize = self.pos;
        while p < 2048
            invariant
                self.wf(),
                self == old(self),
                old(self).pos <= p <= 2048,
                forall|q: int| old(self).cursor() <= q < p ==> !fb_lit(old(self).frame(), q),
            decreases 2048 - p,
        {
            let x: usize = p % 64;
            let y: usize = p / 64;
            let byte: u8 = self.fb[y * 8 + x / 8];
            let mask: u8 = 0x80u8 >> ((x % 8) as u8);
            if byte & mask != 0 {
                assert(fb_get(self.frame(), x as int, y as int));
                self.pos = p + 1;
                return Some((x, y));
            }
            assert(!fb_lit(old(self).frame(), p as int));
            p = p + 1;
        }
        self.pos = 2048;
        None
    }
}

impl Chip8State {
    /// A fresh walk over the lit pixels of the current frame buffer.
    pub fn frame_iter(&self) -> (it: PixelIter)
        requires
            self.wf(),
        ensures
            it.wf(),
            it.frame() == self@.fb,
            it.cursor() == 0,
    {
        let mut fb: Vec<u8> = Vec::new();
        let mut i: usize = 0;
        while i < 256
            invariant
                i <= 256,
                i <= self.frame_buffer@.len(),
                self.wf(),
                fb@ == self.frame_buffer@.subrange(0, i as int),
            decreases 256 - i,
        {
            fb.push(self.frame_buffer[i]);
            i = i + 1;
        }
        assert(fb@ =~= self.frame_buffer@);
        PixelIter { fb, pos: 0 }
    }
}

} // verus!

//! Frame buffers and textures: a colour buffer of packed 32-bit ARGB
//! pixels, a depth buffer, and a nearest-neighbour sampler. Both buffers
//! are fixed-size row-major 2D grids addressed by (x, y) with the origin
//! at the top left.

use vstd::prelude::*;

use crate::colour::spec_hex;

verus! {

/// Row-major grids place pixel (i, j) at index j * width + i; distinct
/// in-range coordinates give distinct indices.
pub proof fn lemma_grid_index_injective(w: int, i: int, j: int, i2: int, j2: int)
    requires
        0 <= i < w,
        0 <= i2 < w,
        j2 * w + i2 == j * w + i,
    ensures
        i2 == i && j2 == j,
{
    assert(j2 == j && i2 == i) by (nonlinear_arith)
        requires
            0 <= i < w,
            0 <= i2 < w,
            j2 * w + i2 == j * w + i,
    ;
}

/// A row-major index of an in-range coordinate pair is in range for the
/// grid's backing array.
pub proof fn lemma_grid_index_in_range(w: int, h: int, i: int, j: int)
    requires
        0 <= i < w,
        0 <= j < h,
    ensures
        0 <= j * w + i < w * h,
{
    assert(0 <= j * w + i < w * h) by (nonlinear_arith)
        requires
            0 <= i < w,
            0 <= j < h,
    ;
}

/// A colour buffer: one packed 32-bit ARGB value per pixel.
pub struct Texture {
    data: Vec<u32>,
    width: usize,
    height: usize,
}

impl Texture {
    pub closed spec fn spec_width(self) -> int {
        self.width as int
    }

    pub closed spec fn spec_height(self) -> int {
        self.height as int
    }

    /// The pixels in row-major order.
    pub closed spec fn spec_data(self) -> Seq<u32> {
        self.data@
    }

    /// The backing storage holds exactly one value per pixel.
    pub open spec fn wf(self) -> bool {
        self.spec_data().len() == self.spec_width() * self.spec_height()
    }

    /// The pixel at column `i`, row `j`.
    pub open spec fn pix(self, i: int, j: int) -> u32 {
        self.spec_data()[j * self.spec_width() + i]
    }

    pub fn new(width: usize, height: usize) -> (t: Texture)
        requires
            width * height <= usize::MAX,
        ensures
            t.wf(),
            t.spec_width() == width,
            t.spec_height() == height,
            forall|i: int, j: int|
                0 <= i < width && 0 <= j < height ==> t.pix(i, j) == 0u32,
    {
        let t = Texture { data: vec![0u32; width * height], width, height };
        proof {
            assert forall|i: int, j: int|
                0 <= i < width && 0 <= j < height implies t.pix(i, j) == 0u32 by {
                lemma_grid_index_in_range(width as int, height as int, i, j);
            }
        }
        t
    }

    pub fn from_data(data: Vec<u32>, width: usize, height: usize) -> (t: Texture)
        requires
            data@.len() == width * height,
        ensures
            t.wf(),
            t.spec_width() == width,
            t.spec_height() == height,
            t.spec_data() == data@,
    {
        Texture { data, width, height }
    }

    pub fn width(&self) -> (w: usize)
        ensures
            w == self.spec_width(),
    {
        self.width
    }

    pub fn height(&self) -> (h: usize)
        ensures
            h == self.spec_height(),
    {
        self.height
    }

    pub fn read(&self, i: usize, j: usize) -> (c: u32)
        requires
            self.wf(),
            i < self.spec_width(),
            j < self.spec_height(),
        ensures
            c == self.pix(i as int, j as int),
    {
        proof {
            lemma_grid_index_in_range(
                self.spec_width(),
                self.spec_height(),
                i as int,
                j as int,
            );
        }
        proof {
            assert(self.data.len() == self.data@.len());
        }
        let index = self.width * j + i;
        self.data[index]
    }

    pub fn write(&mut self, i: usize, j: usize, colour: u32)
        requires
            old(self).wf(),
            i < old(self).spec_width(),
            j < old(self).spec_height(),
        ensures
            final(self).wf(),
            final(self).spec_width() == old(self).spec_width(),
            final(self).spec_height() == old(self).spec_height(),
            final(self).spec_data() == old(self).spec_data().update(
                j * old(self).spec_width() + i,
                colour,
            ),
            final(self).pix(i as int, j as int) == colour,
            forall|i2: int, j2: int|
                0 <= i2 < old(self).spec_width() && 0 <= j2 < old(self).spec_height() && !(i2
                    == i && j2 == j) ==> final(self).pix(i2, j2) == old(self).pix(i2, j2),
    {
        proof {
            lemma_grid_index_in_range(
                self.spec_width(),
                self.spec_height(),
                i as int,
                j as int,
            );
        }
        proof {
            assert(self.data.len() == self.data@.len());
        }
        let index = self.width * j + i;
        self.data.set(index, colour);
        proof {
            assert forall|i2: int, j2: int|
                0 <= i2 < old(self).spec_width() && 0 <= j2 < old(self).spec_height() && !(i2
                    == i && j2 == j) implies self.pix(i2, j2) == old(self).pix(i2, j2) by {
                lemma_grid_index_in_range(
                    old(self).spec_width(),
                    old(self).spec_height(),
                    i2,
                    j2,
                );
                if j2 * old(self).spec_width() + i2 == j * old(self).spec_width() + i {
                    lemma_grid_index_injective(
                        old(self).spec_width(),
                        i as int,
                        j as int,
                        i2,
                        j2,
                    );
                }
            }
        }
    }

    pub fn clear(&mut self, val: u32)
        requires
            old(self).wf(),
        ensures
            final(self).wf(),
            final(self).spec_width() == old(self).spec_width(),
            final(self).spec_height() == old(self).spec_height(),
            forall|i: int, j: int|
                0 <= i < old(self).spec_width() && 0 <= j < old(self).spec_height()
                    ==> final(self).pix(i, j) == val,
    {
        let n = self.data.len();
        self.data = vec![val; n];
        proof {
            assert forall|i: int, j: int|
                0 <= i < old(self).spec_width() && 0 <= j < old(self).spec_height()
                    implies self.pix(i, j) == val by {
                lemma_grid_index_in_range(
                    old(self).spec_width(),
                    old(self).spec_height(),
                    i,
                    j,
                );
            }
        }
    }

    pub fn as_slice(&self) -> (s: &[u32])
        ensures
            s@ == self.spec_data(),
    {
        self.data.as_slice()
    }

    /// Builds a texture from a decoded image's raw bytes: `channels`
    /// bytes per pixel, rows packed top to bottom. Three channels are
    /// read as RGB with an opaque alpha, four as RGBA. Any other channel
    /// layout is unsupported and yields nothing.
    pub fn from_bytes(data: &[u8], width: usize, height: usize, channels: usize) -> (t: Option<
        Texture,
    >)
        requires
            data@.len() == width * height * channels,
        ensures
            t is Some <==> (channels == 3 || channels == 4),
            t is Some ==> {
                let tex = t.unwrap();
                &&& tex.wf()
                &&& tex.spec_width() == width
                &&& tex.spec_height() == height
                &&& forall|k: int|
                    0 <= k < width * height ==> tex.spec_data()[k] == (if channels == 3 {
                        spec_hex(255u8, data@[3 * k], data@[3 * k + 1], data@[3 * k + 2])
                    } else {
                        spec_hex(
                            data@[4 * k + 3],
                            data@[4 * k],
                            data@[4 * k + 1],
                            data@[4 * k + 2],
                        )
                    })
            },
    {
        if channels != 3 && channels != 4 {
            return None;
        }
        proof {
            assert(data.len() == data@.len());
            assert(width * height <= width * height * channels) by (nonlinear_arith)
                requires
                    channels >= 1,
            ;
        }
        let size = width * height;
        let mut out_data: Vec<u32> = Vec::new();
        let mut k: usize = 0;
        while k < size
            invariant
                channels == 3 || channels == 4,
                k <= size,
                size == width * height,
                data@.len() == size * channels,
                out_data@.len() == k,
                forall|m: int|
                    0 <= m < k ==> out_data@[m] == (if channels == 3 {
                        spec_hex(255u8, data@[3 * m], data@[3 * m + 1], data@[3 * m + 2])
                    } else {
                        spec_hex(
                            data@[4 * m + 3],
                            data@[4 * m],
                            data@[4 * m + 1],
                            data@[4 * m + 2],
                        )
                    }),
            decreases size - k,
        {
            proof {
                assert(data.len() == data@.len());
                assert(k * channels + channels <= size * channels) by (nonlinear_arith)
                    requires
                        k < size,
                        channels >= 1,
                ;
            }
            let index = k * channels;
            let c = if channels == 3 {
                crate::colour::u8_to_hex(255, data[index], data[index + 1], data[index + 2])
            } else {
                crate::colour::u8_to_hex(
                    data[index + 3],
                    data[index],
                    data[index + 1],
                    data[index + 2],
                )
            };
            out_data.push(c);
            k = k + 1;
        }
        Some(Texture::from_data(out_data, width, height))
    }
}

/// A depth buffer. Depth values are stored as unsigned 32-bit codes
/// whose numeric order is the depth order: a smaller code is nearer. A
/// caller working in another depth scale maps it into codes with any
/// order-preserving encoding (the bit pattern of a non-negative IEEE
/// float is one such encoding).
pub struct DepthTexture {
    data: Vec<u32>,
    width: usize,
    height: usize,
}

impl DepthTexture {
    pub closed spec fn spec_width(self) -> int {
        self.width as int
    }

    pub closed spec fn spec_height(self) -> int {
        self.height as int
    }

    /// The depth codes in row-major order.
    pub closed spec fn spec_data(self) -> Seq<u32> {
        self.data@
    }

    pub open spec fn wf(self) -> bool {
        self.spec_data().len() == self.spec_width() * self.spec_height()
    }

    /// The stored depth code at column `i`, row `j`.
    pub open spec fn pix(self, i: int, j: int) -> u32 {
        self.spec_data()[j * self.spec_width() + i]
    }

    /// A fresh buffer with every pixel at the farthest representable
    /// depth.
    pub fn new(width: usize, height: usize) -> (t: DepthTexture)
        requires
            width * height <= usize::MAX,
        ensures
            t.wf(),
            t.spec_width() == width,
            t.spec_height() == height,
            forall|i: int, j: int|
                0 <= i < width && 0 <= j < height ==> t.pix(i, j) == u32::MAX,
    {
        let t = DepthTexture { data: vec![u32::MAX; width * height], width, height };
        proof {
            assert forall|i: int, j: int|
                0 <= i < width && 0 <= j < height implies t.pix(i, j) == u32::MAX by {
                lemma_grid_index_in_range(width as int, height as int, i, j);
            }
        }
        t
    }

    pub fn width(&self) -> (w: usize)
        ensures
            w == self.spec_width(),
    {
        self.width
    }

    pub fn height(&self) -> (h: usize)
        ensures
            h == self.spec_height(),
    {
        self.height
    }

    pub fn read(&self, i: usize, j: usize) -> (d: u32)
        requires
            self.wf(),
            i < self.spec_width(),
            j < self.spec_height(),
        ensures
            d == self.pix(i as int, j as int),
    {
        proof {
            lemma_grid_index_in_range(
                self.spec_width(),
                self.spec_height(),
                i as int,
                j as int,
            );
        }
        proof {
            assert(self.data.len() == self.data@.len());
        }
        let index = self.width * j + i;
        self.data[index]
    }

    pub fn write(&mut self, i: usize, j: usize, val: u32)
        requires
            old(self).wf(),
            i < old(self).spec_width(),
            j < old(self).spec_height(),
        ensures
            final(self).wf(),
            final(self).spec_width() == old(self).spec_width(),
            final(self).spec_height() == old(self).spec_height(),
            final(self).pix(i as int, j as int) == val,
            forall|i2: int, j2: int|
                0 <= i2 < old(self).spec_width() && 0 <= j2 < old(self).spec_height() && !(i2
                    == i && j2 == j) ==> final(self).pix(i2, j2) == old(self).pix(i2, j2),
    {
        proof {
            lemma_grid_index_in_range(
                self.spec_width(),
                self.spec_height(),
                i as int,
                j as int,
            );
        }
        proof {
            assert(self.data.len() == self.data@.len());
        }
        let index = self.width * j + i;
        self.data.set(index, val);
        proof {
            assert forall|i2: int, j2: int|
                0 <= i2 < old(self).spec_width() && 0 <= j2 < old(self).spec_height() && !(i2
                    == i && j2 == j) implies self.pix(i2, j2) == old(self).pix(i2, j2) by {
                lemma_grid_index_in_range(
                    old(self).spec_width(),
                    old(self).spec_height(),
                    i2,
                    j2,
                );
                if j2 * old(self).spec_width() + i2 == j * old(self).spec_width() + i {
                    lemma_grid_index_injective(
                        old(self).spec_width(),
                        i as int,
                        j as int,
                        i2,
                        j2,
                    );
                }
            }
        }
    }

    pub fn clear(&mut self, val: u32)
        requires
            old(self).wf(),
        ensures
            final(self).wf(),
            final(self).spec_width() == old(self).spec_width(),
            final(self).spec_height() == old(self).spec_height(),
            forall|i: int, j: int|
                0 <= i < old(self).spec_width() && 0 <= j < old(self).spec_height()
                    ==> final(self).pix(i, j) == val,
    {
        let n = self.data.len();
        self.data = vec![val; n];
        proof {
            assert forall|i: int, j: int|
                0 <= i < old(self).spec_width() && 0 <= j < old(self).spec_height()
                    implies self.pix(i, j) == val by {
                lemma_grid_index_in_range(
                    old(self).spec_width(),
                    old(self).spec_height(),
                    i,
                    j,
                );
            }
        }
    }

    /// The depth test: a candidate depth nearer than the stored one
    /// passes and replaces it; any other candidate fails and leaves the
    /// buffer untouched.
    pub fn depth_test(&mut self, i: usize, j: usize, depth_val: u32) -> (passed: bool)
        requires
            old(self).wf(),
            i < old(self).spec_width(),
            j < old(self).spec_height(),
        ensures
            passed <==> depth_val < old(self).pix(i as int, j as int),
            final(self).wf(),
            final(self).spec_width() == old(self).spec_width(),
            final(self).spec_height() == old(self).spec_height(),
            passed ==> final(self).pix(i as int, j as int) == depth_val,
            !passed ==> *final(self) == *old(self),
            forall|i2: int, j2: int|
                0 <= i2 < old(self).spec_width() && 0 <= j2 < old(self).spec_height() && !(i2
                    == i && j2 == j) ==> final(self).pix(i2, j2) == old(self).pix(i2, j2),
    {
        if depth_val < self.read(i, j) {
            self.write(i, j, depth_val);
            true
        } else {
            false
        }
    }
}

/// Once a pixel's stored depth is `d`, a later test at that pixel with
/// depth `d2 >= d` fails, and one with `d2 < d` passes: the buffer only
/// ever moves nearer.
pub proof fn lemma_depth_test_monotonic(t: DepthTexture, i: int, j: int, d: u32, d2: u32)
    requires
        t.pix(i, j) == d,
    ensures
        d2 >= d ==> !(d2 < t.pix(i, j)),
        d2 < d ==> d2 < t.pix(i, j),
{
}

/// A nearest-neighbour texture sampler with clamp-to-edge behaviour.
#[derive(Debug)]
pub struct Sampler {}

impl Sampler {
    /// Fetches the texel at the given integer texel coordinates,
    /// clamping each coordinate to the texture's edge.
    pub fn sample(&self, texture: &Texture, i: usize, j: usize) -> (c: u32)
        requires
            texture.wf(),
            texture.spec_width() >= 1,
            texture.spec_height() >= 1,
        ensures
            c == texture.pix(
                if i < texture.spec_width() {
                    i as int
                } else {
                    texture.spec_width() - 1
                },
                if j < texture.spec_height() {
                    j as int
                } else {
                    texture.spec_height() - 1
                },
            ),
    {
        let w = texture.width();
        let h = texture.height();
        let ci = if i < w {
            i
        } else {
            w - 1
        };
        let cj = if j < h {
            j
        } else {
            h - 1
        };
        texture.read(ci, cj)
    }
}

} // verus!

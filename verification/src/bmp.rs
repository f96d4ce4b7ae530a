use vstd::prelude::*;

use crate::image::Image;
use crate::image::Pixel;

verus! {

/// The four little-endian bytes of `n`, truncated to 32 bits, low byte first.
pub open spec fn le32(n: int) -> Seq<u8> {
    seq![
        (n % 256) as u8,
        ((n / 256) % 256) as u8,
        ((n / 65536) % 256) as u8,
        ((n / 16777216) % 256) as u8,
    ]
}

/// The 14-byte bitmap file header: the magic bytes "BM", the total file size,
/// two reserved words, and the offset of the pixel data (122 = 14 + 108).
pub open spec fn spec_file_header(file_size: int) -> Seq<u8> {
    seq![0x42u8, 0x4Du8] + le32(file_size) + seq![0u8, 0u8, 0u8, 0u8, 0x7Au8, 0u8, 0u8, 0u8]
}

/// Bytes 12..108 of the info header, the same for every image: one plane,
/// 32 bits per pixel, bit-field compression, the per-channel bit masks
/// (blue lowest byte, then green, red, alpha highest), the "Win " color-space
/// tag, and zeroed endpoint and gamma fields.
pub open spec fn spec_info_tail() -> Seq<u8> {
    seq![
        1u8, 0u8,
        32u8, 0u8,
        3u8, 0u8, 0u8, 0u8,
        32u8, 0u8, 0u8, 0u8,
        0u8, 0u8, 0u8, 0u8,
        0u8, 0u8, 0u8, 0u8,
        0u8, 0u8, 0u8, 0u8,
        0u8, 0u8, 0u8, 0u8,
        0u8, 0u8, 0xFFu8, 0u8,
        0u8, 0xFFu8, 0u8, 0u8,
        0xFFu8, 0u8, 0u8, 0u8,
        0u8, 0u8, 0u8, 0xFFu8,
        0x20u8, 0x6Eu8, 0x69u8, 0x57u8,
        0u8, 0u8, 0u8, 0u8,
        0u8, 0u8, 0u8, 0u8,
        0u8, 0u8, 0u8, 0u8,
        0u8, 0u8, 0u8, 0u8,
        0u8, 0u8, 0u8, 0u8,
        0u8, 0u8, 0u8, 0u8,
        0u8, 0u8, 0u8, 0u8,
        0u8, 0u8, 0u8, 0u8,
        0u8, 0u8, 0u8, 0u8,
        0u8, 0u8, 0u8, 0u8,
        0u8, 0u8, 0u8, 0u8,
        0u8, 0u8, 0u8, 0u8,
    ]
}

/// The 108-byte V4 info header for a 32-bit image of size `w` by `h`.
pub open spec fn spec_info_header(w: int, h: int) -> Seq<u8> {
    seq![0x6Cu8, 0u8, 0u8, 0u8] + le32(w) + le32(h) + spec_info_tail()
}

/// The bytes of one pixel as stored in the file: blue, green, red, alpha.
pub open spec fn spec_pixel_bytes(p: Pixel) -> Seq<u8> {
    seq![p.b, p.g, p.r, p.a]
}

/// The bytes of the first `x` pixels of row `y` of a `w`-wide image `pix`.
pub open spec fn spec_row_prefix(pix: Seq<Pixel>, w: int, y: int, x: int) -> Seq<u8>
    decreases x,
{
    if x <= 0 {
        Seq::empty()
    } else {
        spec_row_prefix(pix, w, y, x - 1) + spec_pixel_bytes(pix[y * w + (x - 1)])
    }
}

/// The bytes of the first `k` rows of the pixel data. Rows are stored bottom
/// to top: row `h - 1` of the image comes first, row `h - k` last.
pub open spec fn spec_rows_prefix(pix: Seq<Pixel>, w: int, h: int, k: int) -> Seq<u8>
    decreases k,
{
    if k <= 0 {
        Seq::empty()
    } else {
        spec_rows_prefix(pix, w, h, k - 1) + spec_row_prefix(pix, w, h - k, w)
    }
}

/// The pixel data of the whole image: all `h` rows, bottom to top.
pub open spec fn spec_pixel_data(pix: Seq<Pixel>, w: int, h: int) -> Seq<u8> {
    spec_rows_prefix(pix, w, h, h)
}

/// A complete bitmap file for the `w` by `h` image `pix`.
pub open spec fn spec_bmp(pix: Seq<Pixel>, w: int, h: int) -> Seq<u8> {
    spec_file_header(122 + 4 * w * h) + spec_info_header(w, h) + spec_pixel_data(pix, w, h)
}

/// A row prefix of `x` pixels takes `4 * x` bytes.
pub proof fn lemma_row_prefix_len(pix: Seq<Pixel>, w: int, y: int, x: int)
    requires
        0 <= x,
    ensures
        spec_row_prefix(pix, w, y, x).len() == 4 * x,
    decreases x,
{
    if x > 0 {
        lemma_row_prefix_len(pix, w, y, x - 1);
    }
}

/// A prefix of `k` rows takes `4 * w * k` bytes.
pub proof fn lemma_rows_prefix_len(pix: Seq<Pixel>, w: int, h: int, k: int)
    requires
        0 <= k,
        0 <= w,
    ensures
        spec_rows_prefix(pix, w, h, k).len() == 4 * w * k,
    decreases k,
{
    if k > 0 {
        lemma_rows_prefix_len(pix, w, h, k - 1);
        lemma_row_prefix_len(pix, w, h - k, w);
        assert(spec_rows_prefix(pix, w, h, k)
            == spec_rows_prefix(pix, w, h, k - 1) + spec_row_prefix(pix, w, h - k, w));
        assert(4 * w * (k - 1) + 4 * w == 4 * w * k) by (nonlinear_arith);
    } else {
        assert(4 * w * 0 == 0) by (nonlinear_arith);
    }
}

/// A bitmap file for a `w` by `h` image takes exactly `122 + 4 * w * h`
/// bytes: the 14-byte file header, the 108-byte info header, and four bytes
/// per pixel.
pub proof fn lemma_bmp_len(pix: Seq<Pixel>, w: int, h: int)
    requires
        0 <= w,
        0 <= h,
    ensures
        spec_bmp(pix, w, h).len() == 122 + 4 * w * h,
{
    lemma_rows_prefix_len(pix, w, h, h);
}

/// Within a row prefix of at least `i + 1` pixels, pixel `i` of the row
/// occupies bytes `4*i .. 4*i + 4`.
pub proof fn lemma_row_prefix_index(pix: Seq<Pixel>, w: int, y: int, x: int, i: int)
    requires
        0 <= i < x,
    ensures
        spec_row_prefix(pix, w, y, x).subrange(4 * i, 4 * i + 4) == spec_pixel_bytes(
            pix[y * w + i],
        ),
    decreases x,
{
    lemma_row_prefix_len(pix, w, y, x);
    lemma_row_prefix_len(pix, w, y, x - 1);
    if i == x - 1 {
        assert(spec_row_prefix(pix, w, y, x).subrange(4 * i, 4 * i + 4) =~= spec_pixel_bytes(
            pix[y * w + i],
        ));
    } else {
        lemma_row_prefix_index(pix, w, y, x - 1, i);
        assert(spec_row_prefix(pix, w, y, x).subrange(4 * i, 4 * i + 4) =~= spec_row_prefix(
            pix,
            w,
            y,
            x - 1,
        ).subrange(4 * i, 4 * i + 4));
    }
}

/// Within a prefix of at least `j + 1` stored rows, stored row `j` — image
/// row `h - 1 - j` — occupies bytes `4*w*j .. 4*w*j + 4*w`.
pub proof fn lemma_rows_prefix_index(pix: Seq<Pixel>, w: int, h: int, k: int, j: int)
    requires
        0 <= j < k,
        0 <= w,
    ensures
        spec_rows_prefix(pix, w, h, k).subrange(4 * w * j, 4 * w * j + 4 * w)
            == spec_row_prefix(pix, w, h - 1 - j, w),
    decreases k,
{
    lemma_rows_prefix_len(pix, w, h, k);
    lemma_rows_prefix_len(pix, w, h, k - 1);
    lemma_row_prefix_len(pix, w, h - k, w);
    if j == k - 1 {
        assert(4 * w * (k - 1) + 4 * w == 4 * w * k) by (nonlinear_arith);
        assert(spec_rows_prefix(pix, w, h, k).subrange(4 * w * j, 4 * w * j + 4 * w)
            =~= spec_row_prefix(pix, w, h - 1 - j, w));
    } else {
        lemma_rows_prefix_index(pix, w, h, k - 1, j);
        assert(4 * w * j + 4 * w <= 4 * w * (k - 1)) by (nonlinear_arith)
            requires
                0 <= w,
                0 <= j,
                j + 1 <= k - 1,
        ;
        assert(spec_rows_prefix(pix, w, h, k).subrange(4 * w * j, 4 * w * j + 4 * w)
            =~= spec_rows_prefix(pix, w, h, k - 1).subrange(4 * w * j, 4 * w * j + 4 * w));
    }
}

/// Where a pixel lands in the file: pixel `(x, y)` of the image occupies the
/// four bytes at offset `122 + 4 * ((h - 1 - y) * w + x)` of the bitmap
/// serialization, in B, G, R, A order. Rows are stored bottom to top.
pub proof fn lemma_bmp_pixel_placement(pix: Seq<Pixel>, w: int, h: int, x: int, y: int)
    requires
        0 <= x < w,
        0 <= y < h,
    ensures
        spec_bmp(pix, w, h).subrange(
            122 + 4 * ((h - 1 - y) * w + x),
            122 + 4 * ((h - 1 - y) * w + x) + 4,
        ) == spec_pixel_bytes(pix[y * w + x]),
{
    let j: int = h - 1 - y;
    let data = spec_pixel_data(pix, w, h);
    let row = spec_row_prefix(pix, w, y, w);
    lemma_rows_prefix_len(pix, w, h, h);
    lemma_row_prefix_len(pix, w, y, w);
    lemma_rows_prefix_index(pix, w, h, h, j);
    lemma_row_prefix_index(pix, w, y, w, x);
    assert(4 * (j * w + x) == 4 * w * j + 4 * x) by (nonlinear_arith);
    assert(4 * w * j + 4 * w <= 4 * w * h) by (nonlinear_arith)
        requires
            0 <= w,
            j + 1 <= h,
            0 <= j,
    ;
    assert(data.subrange(4 * w * j, 4 * w * j + 4 * w) == row);
    assert(data.subrange(4 * w * j + 4 * x, 4 * w * j + 4 * x + 4) =~= row.subrange(
        4 * x,
        4 * x + 4,
    ));
    assert(spec_bmp(pix, w, h).subrange(
        122 + 4 * ((h - 1 - y) * w + x),
        122 + 4 * ((h - 1 - y) * w + x) + 4,
    ) =~= data.subrange(4 * w * j + 4 * x, 4 * w * j + 4 * x + 4));
}

fn push_le32(out: &mut Vec<u8>, n: usize)
    ensures
        final(out)@ == old(out)@ + le32(n as int),
{
    out.push((n % 256) as u8);
    out.push((n / 256 % 256) as u8);
    out.push((n / 65536 % 256) as u8);
    out.push((n / 16777216 % 256) as u8);
    proof {
        assert(out@ =~= old(out)@ + le32(n as int));
    }
}

fn push_file_header(out: &mut Vec<u8>, file_size: usize)
    ensures
        final(out)@ == old(out)@ + spec_file_header(file_size as int),
{
    out.push(0x42);
    out.push(0x4D);
    push_le32(out, file_size);
    out.push(0);
    out.push(0);
    out.push(0);
    out.push(0);
    out.push(0x7A);
    out.push(0);
    out.push(0);
    out.push(0);
    proof {
        assert(out@ =~= old(out)@ + spec_file_header(file_size as int));
    }
}

#[verifier::rlimit(100)]
fn push_info_header(out: &mut Vec<u8>, w: usize, h: usize)
    ensures
        final(out)@ == old(out)@ + spec_info_header(w as int, h as int),
{
    let ghost t = spec_info_tail();
    out.push(0x6C);
    out.push(0);
    out.push(0);
    out.push(0);
    push_le32(out, w);
    push_le32(out, h);
    let ghost mid = out@;
    proof {
        assert(mid =~= old(out)@ + seq![0x6Cu8, 0u8, 0u8, 0u8] + le32(w as int) + le32(
            h as int,
        ));
    }
    out.push(1);
    out.push(0);
    out.push(32);
    out.push(0);
    out.push(3);
    out.push(0);
    out.push(0);
    out.push(0);
    out.push(32);
    out.push(0);
    out.push(0);
    out.push(0);
    out.push(0);
    out.push(0);
    out.push(0);
    out.push(0);
    out.push(0);
    out.push(0);
    out.push(0);
    out.push(0);
    proof {
        assert(out@ =~= mid + t.subrange(0, 20));
    }
    out.push(0);
    out.push(0);
    out.push(0);
    out.push(0);
    out.push(0);
    out.push(0);
    out.push(0);
    out.push(0);
    out.push(0);
    out.push(0);
    out.push(0xFF);
    out.push(0);
    out.push(0);
    out.push(0xFF);
    out.push(0);
    out.push(0);
    out.push(0xFF);
    out.push(0);
    out.push(0);
    out.push(0);
    proof {
        assert(out@ =~= mid + t.subrange(0, 40));
    }
    out.push(0);
    out.push(0);
    out.push(0);
    out.push(0xFF);
    out.push(0x20);
    out.push(0x6E);
    out.push(0x69);
    out.push(0x57);
    out.push(0);
    out.push(0);
    out.push(0);
    out.push(0);
    out.push(0);
    out.push(0);
    out.push(0);
    out.push(0);
    out.push(0);
    out.push(0);
    out.push(0);
    out.push(0);
    proof {
        assert(out@ =~= mid + t.subrange(0, 60));
    }
    out.push(0);
    out.push(0);
    out.push(0);
    out.push(0);
    out.push(0);
    out.push(0);
    out.push(0);
    out.push(0);
    out.push(0);
    out.push(0);
    out.push(0);
    out.push(0);
    out.push(0);
    out.push(0);
    out.push(0);
    out.push(0);
    out.push(0);
    out.push(0);
    out.push(0);
    out.push(0);
    proof {
        assert(out@ =~= mid + t.subrange(0, 80));
    }
    out.push(0);
    out.push(0);
    out.push(0);
    out.push(0);
    out.push(0);
    out.push(0);
    out.push(0);
    out.push(0);
    out.push(0);
    out.push(0);
    out.push(0);
    out.push(0);
    out.push(0);
    out.push(0);
    out.push(0);
    out.push(0);
    proof {
        assert(out@ =~= mid + t.subrange(0, 96));
        assert(t.subrange(0, 96) =~= t);
        assert(out@ =~= old(out)@ + spec_info_header(w as int, h as int));
    }
}

impl Image {
    /// Serialize this image as a complete bitmap file: the two headers
    /// followed by the pixel rows, bottom row first, each pixel as B,G,R,A.
    /// The caller hands the returned bytes to whatever sink it writes to.
    pub fn write_bmp(&self) -> (file: Vec<u8>)
        requires
            self.wf(),
            self.width * self.height * 4 + 122 <= usize::MAX,
        ensures
            file@ == spec_bmp(self@, self.width as int, self.height as int),
            file@.len() == 122 + 4 * self.width * self.height,
            file@[0] == 0x42u8,
            file@[1] == 0x4Du8,
            file@.subrange(18, 22) == le32(self.width as int),
            file@.subrange(22, 26) == le32(self.height as int),
    {
        let w: usize = self.width;
        let h: usize = self.height;
        let byte_size: usize = w * h * 4;
        let file_size: usize = byte_size + 122;
        proof {
            assert((w as int) * (h as int) * 4 == 4 * (w as int) * (h as int))
                by (nonlinear_arith);
        }
        let mut out: Vec<u8> = Vec::new();
        push_file_header(&mut out, file_size);
        push_info_header(&mut out, w, h);
        let ghost headers = spec_file_header(122 + 4 * (w as int) * (h as int))
            + spec_info_header(w as int, h as int);
        proof {
            assert(out@ == headers);
            assert(out@ =~= headers + spec_rows_prefix(self@, w as int, h as int, 0));
        }
        let mut yy: usize = 0;
        while yy < h
            invariant
                self.wf(),
                w == self.width,
                h == self.height,
                yy <= h,
                headers == spec_file_header(122 + 4 * (w as int) * (h as int))
                    + spec_info_header(w as int, h as int),
                out@ == headers + spec_rows_prefix(self@, w as int, h as int, yy as int),
            decreases h - yy,
        {
            let y: usize = h - 1 - yy;
            proof {
                assert(out@ =~= headers + spec_rows_prefix(self@, w as int, h as int, yy as int)
                    + spec_row_prefix(self@, w as int, y as int, 0));
            }
            let mut x: usize = 0;
            while x < w
                invariant
                    self.wf(),
                    w == self.width,
                    h == self.height,
                    yy < h,
                    y == h - 1 - yy,
                    x <= w,
                    out@ == headers + spec_rows_prefix(self@, w as int, h as int, yy as int)
                        + spec_row_prefix(self@, w as int, y as int, x as int),
                decreases w - x,
            {
                let p = self.get_pixel(x, y);
                out.push(p.b);
                out.push(p.g);
                out.push(p.r);
                out.push(p.a);
                proof {
                    assert(spec_row_prefix(self@, w as int, y as int, x as int + 1)
                        == spec_row_prefix(self@, w as int, y as int, x as int)
                            + spec_pixel_bytes(self@[(y as int) * (w as int) + (x as int)]));
                    assert(out@ =~= headers
                        + spec_rows_prefix(self@, w as int, h as int, yy as int)
                        + spec_row_prefix(self@, w as int, y as int, x as int + 1));
                }
                x = x + 1;
            }
            proof {
                assert(spec_rows_prefix(self@, w as int, h as int, yy as int + 1)
                    == spec_rows_prefix(self@, w as int, h as int, yy as int)
                        + spec_row_prefix(
                        self@,
                        w as int,
                        h as int - (yy as int + 1),
                        w as int,
                    ));
                assert(h as int - (yy as int + 1) == y as int);
                assert(out@ =~= headers
                    + spec_rows_prefix(self@, w as int, h as int, yy as int + 1));
            }
            yy = yy + 1;
        }
        proof {
            lemma_rows_prefix_len(self@, w as int, h as int, h as int);
            assert(out@ =~= spec_bmp(self@, w as int, h as int));
            assert(out@.subrange(18, 22) =~= le32(w as int));
            assert(out@.subrange(22, 26) =~= le32(h as int));
        }
        out
    }
}

} // verus!

//! Icon post-processing: cropping a thumbnail to its visible pixels and
//! preparing it for transport.
//!
//! The embedding application captures a file's thumbnail into a flat RGBA
//! (or BGRA) byte buffer; everything that then happens to the bytes —
//! channel reordering, cropping away fully transparent borders, PNG and
//! base64 encoding — lives here.

use vstd::prelude::*;

verus! {

/// Alpha values up to this cutoff count as transparent when cropping.
pub open spec fn spec_alpha_cutoff() -> int {
    10
}

/// Whether the pixel in column `x` of row `y` of a `w`-wide RGBA buffer is
/// visible (alpha above the cutoff).
pub open spec fn spec_opaque(p: Seq<u8>, w: int, x: int, y: int) -> bool {
    p[(y * w + x) * 4 + 3] > spec_alpha_cutoff()
}

/// Whether row `y` holds any visible pixel.
pub open spec fn spec_row_any(p: Seq<u8>, w: int, y: int) -> bool {
    exists|x: int| 0 <= x < w && spec_opaque(p, w, x, y)
}

/// Whether column `x` holds any visible pixel.
pub open spec fn spec_col_any(p: Seq<u8>, w: int, h: int, x: int) -> bool {
    exists|y: int| 0 <= y < h && spec_opaque(p, w, x, y)
}

/// Whether the image holds any visible pixel at all.
pub open spec fn spec_any_opaque(p: Seq<u8>, w: int, h: int) -> bool {
    exists|y: int| 0 <= y < h && spec_row_any(p, w, y)
}

/// First row at or below `y` with a visible pixel, or `h` when rows
/// `y..h` are all blank.
pub open spec fn spec_top_from(p: Seq<u8>, w: int, h: int, y: int) -> int
    decreases h - y,
{
    if y < 0 || y >= h {
        h
    } else if spec_row_any(p, w, y) {
        y
    } else {
        spec_top_from(p, w, h, y + 1)
    }
}

/// Last row at or above `y` with a visible pixel, or `-1` when rows
/// `0..=y` are all blank.
pub open spec fn spec_bottom_from(p: Seq<u8>, w: int, y: int) -> int
    decreases y + 1,
{
    if y < 0 {
        -1
    } else if spec_row_any(p, w, y) {
        y
    } else {
        spec_bottom_from(p, w, y - 1)
    }
}

/// First column at or right of `x` with a visible pixel, or `w`.
pub open spec fn spec_left_from(p: Seq<u8>, w: int, h: int, x: int) -> int
    decreases w - x,
{
    if x < 0 || x >= w {
        w
    } else if spec_col_any(p, w, h, x) {
        x
    } else {
        spec_left_from(p, w, h, x + 1)
    }
}

/// Last column at or left of `x` with a visible pixel, or `-1`.
pub open spec fn spec_right_from(p: Seq<u8>, w: int, h: int, x: int) -> int
    decreases x + 1,
{
    if x < 0 {
        -1
    } else if spec_col_any(p, w, h, x) {
        x
    } else {
        spec_right_from(p, w, h, x - 1)
    }
}

/// Where byte `k` of the cropped buffer comes from in the full one: the
/// cropped buffer is row-major over the rectangle that starts at
/// (`left`, `top`) and is `nw` pixels wide.
pub open spec fn spec_src_index(w: int, top: int, left: int, nw: int, k: int) -> int {
    let yy = k / (nw * 4);
    let rem = k % (nw * 4);
    let xx = rem / 4;
    let c = rem % 4;
    ((top + yy) * w + left + xx) * 4 + c
}

/// The crop as a mathematical function: the buffer, width and height that
/// [`crop_transparent_bounds`] returns.  An image without any visible
/// pixel is returned whole; otherwise the result is the tight bounding
/// rectangle of the visible pixels.
pub open spec fn spec_cropped(p: Seq<u8>, w: int, h: int) -> (Seq<u8>, int, int) {
    if !spec_any_opaque(p, w, h) {
        (p, w, h)
    } else {
        let top = spec_top_from(p, w, h, 0);
        let bottom = spec_bottom_from(p, w, h - 1);
        let left = spec_left_from(p, w, h, 0);
        let right = spec_right_from(p, w, h, w - 1);
        let nw = right - left + 1;
        let nh = bottom - top + 1;
        (Seq::new((nh * nw * 4) as nat, |k: int| p[spec_src_index(w, top, left, nw, k)]), nw, nh)
    }
}

/// Byte index of pixel (`x`, `y`)'s channel `c` stays inside the buffer.
proof fn lemma_pixel_index(w: int, h: int, x: int, y: int, c: int)
    requires
        0 <= x < w,
        0 <= y < h,
        0 <= c < 4,
    ensures
        0 <= y * w + x,
        y * w <= (h - 1) * w,
        (y * w + x) * 4 + c < w * h * 4,
{
    assert(0 <= y * w + x && y * w <= (h - 1) * w && (y * w + x) * 4 + c < w * h * 4)
        by (nonlinear_arith)
        requires
            0 <= x < w,
            0 <= y < h,
            0 <= c < 4,
    ;
}

/// What `spec_top_from` scans: rows before the result are blank, the
/// result row (when inside the image) is not.
proof fn lemma_top_char(p: Seq<u8>, w: int, h: int, y: int)
    requires
        0 <= y <= h,
    ensures
        y <= spec_top_from(p, w, h, y) <= h,
        spec_top_from(p, w, h, y) < h ==> spec_row_any(p, w, spec_top_from(p, w, h, y)),
        forall|j: int| y <= j < spec_top_from(p, w, h, y) ==> !spec_row_any(p, w, j),
    decreases h - y,
{
    if y < h && !spec_row_any(p, w, y) {
        lemma_top_char(p, w, h, y + 1);
    }
}

/// What `spec_bottom_from` scans, symmetrically.
proof fn lemma_bottom_char(p: Seq<u8>, w: int, y: int)
    requires
        -1 <= y,
    ensures
        -1 <= spec_bottom_from(p, w, y) <= y,
        spec_bottom_from(p, w, y) >= 0 ==> spec_row_any(p, w, spec_bottom_from(p, w, y)),
        forall|j: int| spec_bottom_from(p, w, y) < j <= y ==> !spec_row_any(p, w, j),
    decreases y + 1,
{
    if y >= 0 && !spec_row_any(p, w, y) {
        lemma_bottom_char(p, w, y - 1);
    }
}

/// What `spec_left_from` scans.
proof fn lemma_left_char(p: Seq<u8>, w: int, h: int, x: int)
    requires
        0 <= x <= w,
    ensures
        x <= spec_left_from(p, w, h, x) <= w,
        spec_left_from(p, w, h, x) < w ==> spec_col_any(p, w, h, spec_left_from(p, w, h, x)),
        forall|j: int| x <= j < spec_left_from(p, w, h, x) ==> !spec_col_any(p, w, h, j),
    decreases w - x,
{
    if x < w && !spec_col_any(p, w, h, x) {
        lemma_left_char(p, w, h, x + 1);
    }
}

/// What `spec_right_from` scans.
proof fn lemma_right_char(p: Seq<u8>, w: int, h: int, x: int)
    requires
        -1 <= x,
    ensures
        -1 <= spec_right_from(p, w, h, x) <= x,
        spec_right_from(p, w, h, x) >= 0 ==> spec_col_any(p, w, h, spec_right_from(p, w, h, x)),
        forall|j: int| spec_right_from(p, w, h, x) < j <= x ==> !spec_col_any(p, w, h, j),
    decreases x + 1,
{
    if x >= 0 && !spec_col_any(p, w, h, x) {
        lemma_right_char(p, w, h, x - 1);
    }
}

/// Whether row `y` holds any visible pixel.
fn row_any(p: &[u8], w: usize, h: usize, y: usize) -> (r: bool)
    requires
        p@.len() == w * h * 4,
        y < h,
    ensures
        r == spec_row_any(p@, w as int, y as int),
{
    let n = p.len();
    let mut x: usize = 0;
    while x < w
        invariant
            x <= w,
            n == p@.len(),
            p@.len() == w * h * 4,
            y < h,
            forall|j: int| 0 <= j < x ==> !spec_opaque(p@, w as int, j, y as int),
        decreases w - x,
    {
        proof {
            lemma_pixel_index(w as int, h as int, x as int, y as int, 3);
            assert((y * w + x) * 4 + 3 < n);
        }
        if p[(y * w + x) * 4 + 3] > 10 {
            proof {
                assert(spec_opaque(p@, w as int, x as int, y as int));
            }
            return true;
        }
        x = x + 1;
    }
    false
}

/// Whether column `x` holds any visible pixel.
fn col_any(p: &[u8], w: usize, h: usize, x: usize) -> (r: bool)
    requires
        p@.len() == w * h * 4,
        x < w,
    ensures
        r == spec_col_any(p@, w as int, h as int, x as int),
{
    let n = p.len();
    let mut y: usize = 0;
    while y < h
        invariant
            y <= h,
            n == p@.len(),
            p@.len() == w * h * 4,
            x < w,
            forall|j: int| 0 <= j < y ==> !spec_opaque(p@, w as int, x as int, j),
        decreases h - y,
    {
        proof {
            lemma_pixel_index(w as int, h as int, x as int, y as int, 3);
            assert((y * w + x) * 4 + 3 < n);
        }
        if p[(y * w + x) * 4 + 3] > 10 {
            proof {
                assert(spec_opaque(p@, w as int, x as int, y as int));
            }
            return true;
        }
        y = y + 1;
    }
    false
}

/// First row with a visible pixel, or `h` when the image is blank.
fn find_top(p: &[u8], w: usize, h: usize) -> (t: usize)
    requires
        p@.len() == w * h * 4,
    ensures
        t as int == spec_top_from(p@, w as int, h as int, 0),
        t <= h,
{
    let mut y: usize = 0;
    while y < h
        invariant
            y <= h,
            p@.len() == w * h * 4,
            spec_top_from(p@, w as int, h as int, 0) == spec_top_from(p@, w as int, h as int, y as int),
        decreases h - y,
    {
        if row_any(p, w, h, y) {
            return y;
        }
        y = y + 1;
    }
    h
}

/// Last row with a visible pixel; requires one to exist.
fn find_bottom(p: &[u8], w: usize, h: usize) -> (b: usize)
    requires
        p@.len() == w * h * 4,
        spec_any_opaque(p@, w as int, h as int),
    ensures
        b as int == spec_bottom_from(p@, w as int, h as int - 1),
        b < h,
{
    let mut y: usize = h;
    while y > 0
        invariant
            y <= h,
            p@.len() == w * h * 4,
            spec_any_opaque(p@, w as int, h as int),
            spec_bottom_from(p@, w as int, h as int - 1) == spec_bottom_from(p@, w as int, y as int - 1),
            forall|j: int| y <= j < h ==> !spec_row_any(p@, w as int, j),
        decreases y,
    {
        let yy = y - 1;
        if row_any(p, w, h, yy) {
            return yy;
        }
        y = yy;
    }
    proof {
        assert(forall|j: int| 0 <= j < h ==> !spec_row_any(p@, w as int, j));
        assert(false);
    }
    0
}

/// First column with a visible pixel, or `w` when the image is blank.
fn find_left(p: &[u8], w: usize, h: usize) -> (l: usize)
    requires
        p@.len() == w * h * 4,
    ensures
        l as int == spec_left_from(p@, w as int, h as int, 0),
        l <= w,
{
    let mut x: usize = 0;
    while x < w
        invariant
            x <= w,
            p@.len() == w * h * 4,
            spec_left_from(p@, w as int, h as int, 0) == spec_left_from(p@, w as int, h as int, x as int),
        decreases w - x,
    {
        if col_any(p, w, h, x) {
            return x;
        }
        x = x + 1;
    }
    w
}

/// Last column with a visible pixel; requires one to exist.
fn find_right(p: &[u8], w: usize, h: usize) -> (r: usize)
    requires
        p@.len() == w * h * 4,
        spec_any_opaque(p@, w as int, h as int),
    ensures
        r as int == spec_right_from(p@, w as int, h as int, w as int - 1),
        r < w,
{
    proof {
        let y0 = choose|y: int| 0 <= y < h && spec_row_any(p@, w as int, y);
        let x0 = choose|x: int| 0 <= x < w && spec_opaque(p@, w as int, x, y0);
        assert(spec_col_any(p@, w as int, h as int, x0));
    }
    let mut x: usize = w;
    while x > 0
        invariant
            x <= w,
            p@.len() == w * h * 4,
            exists|j: int| 0 <= j < w && spec_col_any(p@, w as int, h as int, j),
            spec_right_from(p@, w as int, h as int, w as int - 1) == spec_right_from(p@, w as int, h as int, x as int - 1),
            forall|j: int| x <= j < w ==> !spec_col_any(p@, w as int, h as int, j),
        decreases x,
    {
        let xx = x - 1;
        if col_any(p, w, h, xx) {
            return xx;
        }
        x = xx;
    }
    proof {
        assert(forall|j: int| 0 <= j < w ==> !spec_col_any(p@, w as int, h as int, j));
        assert(false);
    }
    0
}

/// Crops a flat RGBA buffer to the tight bounding rectangle of its
/// visible pixels — those whose alpha exceeds the cutoff — and returns
/// the cropped buffer with its width and height.  A fully transparent
/// image is returned unchanged.
pub fn crop_transparent_bounds(p: &[u8], w: usize, h: usize) -> (r: (Vec<u8>, u32, u32))
    requires
        p@.len() == w * h * 4,
        w <= u32::MAX,
        h <= u32::MAX,
    ensures
        r.0@ == spec_cropped(p@, w as int, h as int).0,
        r.1 as int == spec_cropped(p@, w as int, h as int).1,
        r.2 as int == spec_cropped(p@, w as int, h as int).2,
{
    let top = find_top(p, w, h);
    proof {
        lemma_top_char(p@, w as int, h as int, 0);
        if top < h {
            assert(spec_row_any(p@, w as int, top as int));
            assert(spec_any_opaque(p@, w as int, h as int));
        } else {
            assert(forall|j: int| 0 <= j < h ==> !spec_row_any(p@, w as int, j));
        }
    }
    if top == h {
        return (vstd::slice::slice_to_vec(p), w as u32, h as u32);
    }
    let bottom = find_bottom(p, w, h);
    let left = find_left(p, w, h);
    let right = find_right(p, w, h);
    proof {
        lemma_bottom_char(p@, w as int, h as int - 1);
        lemma_left_char(p@, w as int, h as int, 0);
        lemma_right_char(p@, w as int, h as int, w as int - 1);
        let x0 = choose|x: int| 0 <= x < w && spec_opaque(p@, w as int, x, top as int);
        assert(spec_col_any(p@, w as int, h as int, x0));
        assert(left as int <= x0 <= right as int);
        assert(top as int <= bottom as int);
    }
    let n = p.len();
    let nw = right - left + 1;
    let nh = bottom - top + 1;
    proof {
        assert(nh * nw * 4 <= w * h * 4 && 0 < nw * 4 <= nh * nw * 4) by (nonlinear_arith)
            requires
                0 < nw <= w,
                0 < nh <= h,
        ;
        assert(nh * nw * 4 <= n);
    }
    let total = nh * nw * 4;
    let row_bytes = nw * 4;
    let mut out: Vec<u8> = Vec::new();
    let mut k: usize = 0;
    while k < total
        invariant
            k <= total,
            n == p@.len(),
            total == nh * nw * 4,
            row_bytes == nw * 4,
            0 < nw,
            0 < nh,
            top + nh <= h,
            left + nw <= w,
            p@.len() == w * h * 4,
            out@.len() == k,
            forall|j: int|
                0 <= j < k ==> out@[j] == p@[spec_src_index(
                    w as int,
                    top as int,
                    left as int,
                    nw as int,
                    j,
                )],
        decreases total - k,
    {
        let yy = k / row_bytes;
        let rem = k % row_bytes;
        let xx = rem / 4;
        let c = rem % 4;
        proof {
            vstd::arithmetic::div_mod::lemma_fundamental_div_mod(k as int, row_bytes as int);
            vstd::arithmetic::div_mod::lemma_mod_bound(k as int, row_bytes as int);
            vstd::arithmetic::div_mod::lemma_fundamental_div_mod(rem as int, 4int);
            vstd::arithmetic::div_mod::lemma_mod_bound(rem as int, 4int);
            assert(yy < nh && xx < nw) by (nonlinear_arith)
                requires
                    0 < nw,
                    0 < nh,
                    row_bytes == nw * 4,
                    total == nh * nw * 4,
                    k < total,
                    0 <= yy,
                    0 <= xx,
                    k as int == row_bytes * yy + rem,
                    0 <= rem < row_bytes,
                    rem as int == 4 * xx + c,
                    0 <= c < 4,
            ;
            lemma_pixel_index(w as int, h as int, left as int + xx, top as int + yy, c as int);
            assert(((top + yy) * w + left + xx) * 4 + c < n);
        }
        let src = ((top + yy) * w + left + xx) * 4 + c;
        out.push(p[src]);
        k = k + 1;
    }
    proof {
        assert(out@ =~= spec_cropped(p@, w as int, h as int).0);
    }
    (out, nw as u32, nh as u32)
}

/// Where byte `j` of a buffer whose pixels had their first and third
/// channels exchanged comes from: bytes 0 and 2 of every 4-byte pixel
/// trade places, bytes 1 and 3 stay.
pub open spec fn spec_swapped_index(j: int) -> int {
    if j % 4 == 0 {
        j + 2
    } else if j % 4 == 2 {
        j - 2
    } else {
        j
    }
}

/// Exchanges the first and third channel of every pixel in place, turning
/// a BGRA capture into the RGBA layout the encoders expect.
pub fn bgra_to_rgba(p: &mut Vec<u8>)
    requires
        old(p)@.len() % 4 == 0,
    ensures
        final(p)@.len() == old(p)@.len(),
        forall|j: int| 0 <= j < old(p)@.len() ==> final(p)@[j] == old(p)@[spec_swapped_index(j)],
{
    let n = p.len();
    let count = n / 4;
    let mut i: usize = 0;
    while i < count
        invariant
            i <= count,
            count == n / 4,
            n == p@.len(),
            n % 4 == 0,
            p@.len() == old(p)@.len(),
            forall|j: int| 0 <= j < 4 * i ==> p@[j] == old(p)@[spec_swapped_index(j)],
            forall|j: int| 4 * i <= j < n ==> p@[j] == old(p)@[j],
        decreases count - i,
    {
        proof {
            assert(4 * i + 3 < n);
        }
        let a = p[4 * i];
        let b = p[4 * i + 2];
        p[4 * i] = b;
        p[4 * i + 2] = a;
        i = i + 1;
        proof {
            assert forall|j: int| 0 <= j < 4 * i implies p@[j] == old(p)@[spec_swapped_index(j)] by {
                if j >= 4 * (i - 1) {
                    assert(j % 4 == (j - 4 * (i - 1)) % 4);
                }
            }
        }
    }
}

/// The PNG stream that the outside encoder produces for an RGBA image: a
/// function of the pixels and dimensions alone.
pub uninterp spec fn png_of(pixels: Seq<u8>, width: u32, height: u32) -> Seq<u8>;

/// The padded standard-alphabet base64 rendering of a byte string: a
/// function of the bytes alone.
pub uninterp spec fn base64_of(bytes: Seq<u8>) -> Seq<char>;

/// Relies on image's `PngEncoder` (`ImageEncoder::write_image` with the
/// RGBA8 layout): the encoder reads only the buffer and the dimensions,
/// and panics only on a buffer whose length is not `4 * width * height`,
/// which the precondition rules out.  Encoding failures come back as
/// `None`.
#[verifier::external_body]
fn encode_png_rgba(pixels: &Vec<u8>, width: u32, height: u32) -> (r: Option<Vec<u8>>)
    requires
        pixels@.len() == 4 * width * height,
    ensures
        r matches Some(b) ==> b@ == png_of(pixels@, width, height),
{
    let mut out: Vec<u8> = Vec::new();
    let encoder = image::codecs::png::PngEncoder::new(&mut out);
    let written = image::ImageEncoder::write_image(
        encoder,
        pixels.as_slice(),
        width,
        height,
        image::ExtendedColorType::Rgba8,
    );
    match written {
        Ok(()) => Some(out),
        Err(_) => None,
    }
}

/// Relies on base64's standard engine (`Engine::encode` with the
/// `STANDARD` alphabet): four output characters for every started group
/// of three input bytes, padded.  The engine panics only when that output
/// length overflows, which the precondition rules out.
#[verifier::external_body]
fn base64_encode(bytes: &Vec<u8>) -> (r: String)
    requires
        bytes@.len() / 3 * 4 + 4 <= usize::MAX,
    ensures
        r@ == base64_of(bytes@),
        r@.len() == (bytes@.len() + 2) / 3 * 4,
{
    base64::Engine::encode(&base64::engine::general_purpose::STANDARD, bytes.as_slice())
}

/// The base64 rendering of any byte string, total: `None` exactly when
/// the rendering would not fit in memory (four characters for every
/// started group of three bytes).
pub fn base64_of_bytes(bytes: &Vec<u8>) -> (r: Option<String>)
    ensures
        r is Some <==> bytes@.len() / 3 <= usize::MAX / 4 - 1,
        r matches Some(s) ==> s@ == base64_of(bytes@) && s@.len() == (bytes@.len() + 2) / 3 * 4,
{
    if bytes.len() / 3 <= usize::MAX / 4 - 1 {
        Some(base64_encode(bytes))
    } else {
        None
    }
}

/// The full post-processing of a captured BGRA thumbnail: reorder the
/// channels to RGBA, crop away the transparent border, encode the result
/// as a PNG and render that in base64.  `None` when the PNG encoder
/// refuses (it does, for instance, on an image without any pixels) or
/// when the PNG would be too large to render in base64.
pub fn thumbnail_base64(bgra: Vec<u8>, width: usize, height: usize) -> (r: Option<String>)
    requires
        bgra@.len() == width * height * 4,
        width <= u32::MAX,
        height <= u32::MAX,
    ensures
        r matches Some(s) ==> ({
            let rgba = Seq::new(bgra@.len(), |j: int| bgra@[spec_swapped_index(j)]);
            let cropped = spec_cropped(rgba, width as int, height as int);
            s@ == base64_of(png_of(cropped.0, cropped.1 as u32, cropped.2 as u32))
        }),
{
    let ghost orig = bgra@;
    let mut buf = bgra;
    bgra_to_rgba(&mut buf);
    proof {
        assert(buf@ =~= Seq::new(orig.len(), |j: int| orig[spec_swapped_index(j)]));
    }
    let (cropped, nw, nh) = crop_transparent_bounds(buf.as_slice(), width, height);
    proof {
        let c = spec_cropped(buf@, width as int, height as int);
        assert(c.2 * c.1 * 4 == 4 * c.1 * c.2) by (nonlinear_arith);
        assert((width * height * 4) as int == 4 * (width as int) * (height as int))
            by (nonlinear_arith);
    }
    let png = match encode_png_rgba(&cropped, nw, nh) {
        Some(p) => p,
        None => {
            return None;
        },
    };
    base64_of_bytes(&png)
}

} // verus!

//! Preparing a decoded image for a plain framebuffer window: packing RGBA
//! bytes into 0xAARRGGBB words, and centring the image in a larger frame.
use vstd::prelude::*;
use vstd::arithmetic::div_mod::{lemma_fundamental_div_mod, lemma_fundamental_div_mod_converse};

verus! {

/// The word 0xAARRGGBB of a pixel.
pub open spec fn argb(r: u8, g: u8, b: u8, a: u8) -> int {
    a * 0x1000000 + r * 0x10000 + g * 0x100 + b
}

/// Packs four bytes, red, green, blue and alpha, into 0xAARRGGBB.
fn pack_pixel(r: u8, g: u8, b: u8, a: u8) -> (w: u32)
    ensures
        w == argb(r, g, b, a),
{
    let w: u32 = ((a as u32) << 24) | ((r as u32) << 16) | ((g as u32) << 8) | (b as u32);
    assert(((a as u32) << 24) | ((r as u32) << 16) | ((g as u32) << 8) | (b as u32) == (a as u32)
        * 0x1000000 + (r as u32) * 0x10000 + (g as u32) * 0x100 + (b as u32)) by (bit_vector);
    w
}

/// Packs the `width` by `height` RGBA image `rgba` into one 0xAARRGGBB word
/// per pixel, in the same order.
pub fn pack_argb(rgba: &[u8], width: u32, height: u32) -> (r: Vec<u32>)
    requires
        width * height <= u32::MAX,
        rgba@.len() == 4 * (width * height),
    ensures
        r@.len() == width * height,
        forall|i: int|
            0 <= i < r@.len() ==> #[trigger] r@[i] == argb(
                rgba@[4 * i],
                rgba@[4 * i + 1],
                rgba@[4 * i + 2],
                rgba@[4 * i + 3],
            ),
{
    let n: usize = (width * height) as usize;
    let mut out: Vec<u32> = Vec::new();
    let mut i: usize = 0;
    let mut base: usize = 0;
    while i < n
        invariant
            n == width * height,
            rgba@.len() == 4 * n,
            i <= n,
            base == 4 * i,
            out@.len() == i,
            forall|k: int|
                0 <= k < i ==> #[trigger] out@[k] == argb(
                    rgba@[4 * k],
                    rgba@[4 * k + 1],
                    rgba@[4 * k + 2],
                    rgba@[4 * k + 3],
                ),
        decreases n - i,
    {
        let w: u32 = pack_pixel(rgba[base], rgba[base + 1], rgba[base + 2], rgba[base + 3]);
        out.push(w);
        i = i + 1;
        base = base + 4;
    }
    out
}

/// The offset that centres `inner` in `outer`.
pub open spec fn centre_offset(outer: int, inner: int) -> int {
    (outer - inner) / 2
}

/// The frame `frame_w` by `frame_h` with the image `img_w` by `img_h`
/// centred in it and black (0) around it.
pub open spec fn centred(src: Seq<u32>, img_w: int, img_h: int, frame_w: int, frame_h: int) -> Seq<u32> {
    Seq::new(
        (frame_w * frame_h) as nat,
        |j: int| centred_partial(src, img_w, img_h, frame_w, frame_h, img_h, 0, j),
    )
}

/// Word `j` of the frame once the image's rows before `row`, and the pixels
/// of row `row` before column `col`, have been drawn.
pub open spec fn centred_partial(
    src: Seq<u32>,
    img_w: int,
    img_h: int,
    frame_w: int,
    frame_h: int,
    row: int,
    col: int,
    j: int,
) -> u32 {
    let x = j % frame_w - centre_offset(frame_w, img_w);
    let y = j / frame_w - centre_offset(frame_h, img_h);
    if 0 <= x < img_w && 0 <= y < img_h && (y < row || (y == row && x < col)) {
        src[y * img_w + x]
    } else {
        0
    }
}

/// The cell at `row`, `col` of a grid `width` wide lies inside the grid and
/// gives back its row and column.
proof fn lemma_cell(row: int, col: int, width: int, height: int)
    requires
        0 <= row < height,
        0 <= col < width,
    ensures
        0 <= row * width + col < width * height,
        (row * width + col) % width == col,
        (row * width + col) / width == row,
{
    assert(0 <= row * width + col < width * height) by (nonlinear_arith)
        requires
            0 <= row < height,
            0 <= col < width,
    ;
    lemma_fundamental_div_mod_converse(row * width + col, width, row, col);
}

/// Draws the `img_w` by `img_h` image `pixels` centred in `frame`, a
/// `frame_w` by `frame_h` grid of words, after clearing it to black.
pub fn draw_centred(
    frame: &mut Vec<u32>,
    pixels: &[u32],
    img_w: usize,
    img_h: usize,
    frame_w: usize,
    frame_h: usize,
)
    requires
        img_w <= frame_w,
        img_h <= frame_h,
        old(frame)@.len() == frame_w * frame_h,
        pixels@.len() == img_w * img_h,
    ensures
        final(frame)@ == centred(pixels@, img_w as int, img_h as int, frame_w as int, frame_h as int),
{
    let n: usize = frame.len();
    let mut k: usize = 0;
    while k < n
        invariant
            n == frame@.len(),
            n == frame_w * frame_h,
            k <= n,
            forall|j: int| 0 <= j < k ==> #[trigger] frame@[j] == 0,
        decreases n - k,
    {
        frame.set(k, 0);
        k = k + 1;
    }
    let pixel_count: usize = pixels.len();
    let x_offset: usize = (frame_w - img_w) / 2;
    let y_offset: usize = (frame_h - img_h) / 2;
    let ghost src = pixels@;
    let ghost (iw, ih, fw, fh) = (img_w as int, img_h as int, frame_w as int, frame_h as int);
    assert forall|j: int| 0 <= j < n implies #[trigger] frame@[j] == centred_partial(
        src,
        iw,
        ih,
        fw,
        fh,
        0,
        0,
        j,
    ) by {}
    let mut y: usize = 0;
    while y < img_h
        invariant
            n == frame@.len(),
            n == frame_w * frame_h,
            img_w <= frame_w,
            img_h <= frame_h,
            x_offset == centre_offset(fw, iw),
            y_offset == centre_offset(fh, ih),
            src == pixels@,
            src.len() == img_w * img_h,
            img_w * img_h <= usize::MAX,
            (iw, ih, fw, fh) == (img_w as int, img_h as int, frame_w as int, frame_h as int),
            y <= img_h,
            forall|j: int|
                0 <= j < n ==> #[trigger] frame@[j] == centred_partial(src, iw, ih, fw, fh, y as int, 0, j),
        decreases img_h - y,
    {
        let mut x: usize = 0;
        while x < img_w
            invariant
                n == frame@.len(),
                n == frame_w * frame_h,
                img_w <= frame_w,
                img_h <= frame_h,
                x_offset == centre_offset(fw, iw),
                y_offset == centre_offset(fh, ih),
                src == pixels@,
                src.len() == img_w * img_h,
                img_w * img_h <= usize::MAX,
                (iw, ih, fw, fh) == (img_w as int, img_h as int, frame_w as int, frame_h as int),
                y < img_h,
                x <= img_w,
                forall|j: int|
                    0 <= j < n ==> #[trigger] frame@[j] == centred_partial(
                        src,
                        iw,
                        ih,
                        fw,
                        fh,
                        y as int,
                        x as int,
                        j,
                    ),
            decreases img_w - x,
        {
            proof {
                lemma_cell((y + y_offset) as int, (x + x_offset) as int, fw, fh);
                lemma_cell(y as int, x as int, iw, ih);
            }
            let target: usize = (y + y_offset) * frame_w + (x + x_offset);
            let source: usize = y * img_w + x;
            frame.set(target, pixels[source]);
            proof {
                assert forall|j: int| 0 <= j < n implies #[trigger] frame@[j] == centred_partial(
                    src,
                    iw,
                    ih,
                    fw,
                    fh,
                    y as int,
                    x + 1,
                    j,
                ) by {
                    if j != target {
                        lemma_fundamental_div_mod(j, fw);
                        if j % fw == x + x_offset && j / fw == y + y_offset {
                            assert(j == fw * (j / fw) + j % fw);
                            assert(j == (y + y_offset) * fw + (x + x_offset)) by (nonlinear_arith)
                                requires
                                    j == fw * (j / fw) + j % fw,
                                    j % fw == x + x_offset,
                                    j / fw == y + y_offset,
                            ;
                        }
                    }
                }
            }
            x = x + 1;
        }
        proof {
            assert forall|j: int| 0 <= j < n implies #[trigger] frame@[j] == centred_partial(
                src,
                iw,
                ih,
                fw,
                fh,
                y + 1,
                0,
                j,
            ) by {
                assert(frame@[j] == centred_partial(src, iw, ih, fw, fh, y as int, iw, j));
            }
        }
        y = y + 1;
    }
    assert(frame@ =~= centred(src, iw, ih, fw, fh));
}

} // verus!

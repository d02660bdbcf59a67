//! Pictures as rows of bytes, four to a pixel: decoding them, cutting pieces out, putting
//! pieces together, and changing the order of the channels.

use vstd::prelude::*;

use crate::region::Rect;
use crate::ui::tools::DocumentBase;

verus! {

/// Byte `b` of row `y`.
pub open spec fn at(pixels: Seq<u8>, stride: int, y: int, b: int) -> u8 {
    pixels[y * stride + b]
}

/// The bytes hold a picture of that size, with rows that lie `stride` bytes apart.
pub open spec fn holds(len: nat, width: int, height: int, stride: int) -> bool {
    width == 0 || height == 0 || (height - 1) * stride + 4 * width <= len
}

/// The byte of a row that stands in the place of byte `b` when red and blue are exchanged.
pub open spec fn exchanged(b: int) -> int {
    if b % 4 == 0 {
        b + 2
    } else if b % 4 == 2 {
        b - 2
    } else {
        b
    }
}

proof fn lemma_row_in_bounds(y: int, height: int, stride: int, b: int, row: int, len: int)
    requires
        0 <= y < height,
        0 <= stride,
        0 <= b < row,
        (height - 1) * stride + row <= len,
    ensures
        0 <= y * stride,
        0 <= y * stride + b < len,
        y * stride + row <= len,
{
    assert(y * stride <= (height - 1) * stride) by (nonlinear_arith)
        requires
            y <= height - 1,
            0 <= stride,
    ;
    assert(0 <= y * stride) by (nonlinear_arith)
        requires
            0 <= y,
            0 <= stride,
    ;
}

proof fn lemma_row_before(y: int, later: int, row: int, b: int)
    requires
        0 <= y < later,
        0 <= b < row,
    ensures
        0 <= y * row + b < later * row,
{
    assert(y * row + row <= later * row) by (nonlinear_arith)
        requires
            y + 1 <= later,
            0 <= row,
    ;
    assert(0 <= y * row) by (nonlinear_arith)
        requires
            0 <= y,
            0 <= row,
    ;
}

proof fn lemma_same_place(y1: int, b1: int, y2: int, b2: int, row: int)
    requires
        0 <= y1,
        0 <= y2,
        0 <= b1 < row,
        0 <= b2 < row,
        y1 * row + b1 == y2 * row + b2,
    ensures
        y1 == y2,
        b1 == b2,
{
    if y1 < y2 {
        lemma_row_before(y1, y2, row, b1);
    } else if y2 < y1 {
        lemma_row_before(y2, y1, row, b2);
    }
}

// ---- channels ------------------------------------------------------------------------------
/// The bytes with red and blue exchanged in every whole pixel.
pub open spec fn red_and_blue_exchanged(pixels: Seq<u8>) -> Seq<u8> {
    Seq::new(
        pixels.len(),
        |i: int|
            if i < 4 * (pixels.len() as int / 4) {
                pixels[exchanged(i)]
            } else {
                pixels[i]
            },
    )
}

/// Turns BGRA into RGBA, and RGBA into BGRA.
pub fn exchange_red_and_blue(pixels: &mut Vec<u8>)
    ensures
        final(pixels)@ == red_and_blue_exchanged(old(pixels)@),
{
    let count: usize = pixels.len() / 4;
    for i in 0..count
        invariant
            count == old(pixels)@.len() / 4,
            4 * count <= usize::MAX,
            pixels@.len() == old(pixels)@.len(),
            forall|k: int|
                0 <= k < 4 * i ==> pixels@[k] == red_and_blue_exchanged(old(pixels)@)[k],
            forall|k: int| 4 * i <= k < pixels@.len() ==> pixels@[k] == old(pixels)@[k],
    {
        let red: u8 = pixels[4 * i];
        let blue: u8 = pixels[4 * i + 2];
        pixels.set(4 * i, blue);
        pixels.set(4 * i + 2, red);
    }
    assert(pixels@ =~= red_and_blue_exchanged(old(pixels)@));
}

/// Exchanging red and blue twice changes nothing.
pub proof fn exchanging_twice_changes_nothing(pixels: Seq<u8>)
    ensures
        red_and_blue_exchanged(red_and_blue_exchanged(pixels)) == pixels,
{
    let once = red_and_blue_exchanged(pixels);
    assert(red_and_blue_exchanged(once) =~= pixels);
}

/// The bytes of the whole pixels, with the alpha channel in front.
pub open spec fn alpha_first(rgba: Seq<u8>) -> Seq<u8> {
    Seq::new(
        (4 * (rgba.len() as int / 4)) as nat,
        |i: int|
            if i % 4 == 0 {
                rgba[i + 3]
            } else {
                rgba[i - 1]
            },
    )
}

/// Turns RGBA into ARGB.
pub fn argb_from_rgba(rgba: &Vec<u8>) -> (res: Vec<u8>)
    ensures
        res@ == alpha_first(rgba@),
{
    let count: usize = rgba.len() / 4;
    let mut out: Vec<u8> = Vec::new();
    for i in 0..count
        invariant
            count == rgba@.len() / 4,
            4 * count <= usize::MAX,
            out@.len() == 4 * i,
            forall|k: int| 0 <= k < 4 * i ==> out@[k] == alpha_first(rgba@)[k],
    {
        out.push(rgba[4 * i + 3]);
        out.push(rgba[4 * i]);
        out.push(rgba[4 * i + 1]);
        out.push(rgba[4 * i + 2]);
    }
    assert(out@ =~= alpha_first(rgba@));
    out
}

// ---- cutting out ---------------------------------------------------------------------------
fn copy_rows(
    pixels: &Vec<u8>,
    whole: (u32, u32),
    stride: u32,
    corner: (u32, u32),
    size: (u32, u32),
) -> (res: Vec<u8>)
    requires
        holds(pixels@.len(), whole.0 as int, whole.1 as int, stride as int),
        0 < size.0 && 0 < size.1,
        corner.0 + size.0 <= whole.0,
        corner.1 + size.1 <= whole.1,
    ensures
        res@.len() == 4 * size.0 * size.1,
        forall|y: int, b: int|
            #![trigger at(res@, 4 * size.0 as int, y, b)]
            0 <= y < size.1 && 0 <= b < 4 * size.0 ==> at(res@, 4 * size.0 as int, y, b) == at(
                pixels@,
                stride as int,
                corner.1 + y,
                4 * corner.0 + b,
            ),
{
    let left: u64 = corner.0 as u64;
    let top: u64 = corner.1 as u64;
    let row: u64 = 4 * size.0 as u64;
    let mut piece: Vec<u8> = Vec::new();
    let mut y: u64 = 0;
    while y < size.1 as u64
        invariant
            0 < size.0 && 0 < size.1,
            left + size.0 <= whole.0,
            top + size.1 <= whole.1,
            row == 4 * size.0,
            y <= size.1,
            holds(pixels@.len(), whole.0 as int, whole.1 as int, stride as int),
            piece@.len() == y * row,
            forall|yy: int, b: int|
                #![trigger at(piece@, row as int, yy, b)]
                0 <= yy < y && 0 <= b < row ==> at(piece@, row as int, yy, b) == at(
                    pixels@,
                    stride as int,
                    top + yy,
                    4 * left + b,
                ),
        decreases size.1 - y,
    {
        let mut k: u64 = 0;
        while k < row
            invariant
                0 < size.0 && 0 < size.1,
                left + size.0 <= whole.0,
                top + size.1 <= whole.1,
                row == 4 * size.0,
                y < size.1,
                k <= row,
                holds(pixels@.len(), whole.0 as int, whole.1 as int, stride as int),
                piece@.len() == y * row + k,
                forall|yy: int, b: int|
                    #![trigger at(piece@, row as int, yy, b)]
                    0 <= b < row && (0 <= yy < y || yy == y && b < k) ==> at(
                        piece@,
                        row as int,
                        yy,
                        b,
                    ) == at(pixels@, stride as int, top + yy, 4 * left + b),
            decreases row - k,
        {
            proof {
                lemma_row_in_bounds(
                    top + y,
                    whole.1 as int,
                    stride as int,
                    4 * left + k,
                    4 * whole.0 as int,
                    pixels@.len() as int,
                );
            }
            let start: u64 = mul_within(top + y, stride as u64, pixels.len());
            let from: usize = (start + (4 * left + k)) as usize;
            let ghost before = piece@;
            piece.push(pixels[from]);
            assert forall|yy: int, b: int|
                #![trigger at(piece@, row as int, yy, b)]
                0 <= b < row && (0 <= yy < y || yy == y && b < k + 1) implies at(
                piece@,
                row as int,
                yy,
                b,
            ) == at(pixels@, stride as int, top + yy, 4 * left + b) by {
                if yy < y {
                    lemma_row_before(yy, y as int, row as int, b);
                    assert(at(before, row as int, yy, b) == at(
                        pixels@,
                        stride as int,
                        top + yy,
                        4 * left + b,
                    ));
                } else if b < k {
                    assert(at(before, row as int, yy, b) == at(
                        pixels@,
                        stride as int,
                        top + yy,
                        4 * left + b,
                    ));
                    assert(0 <= yy * row) by (nonlinear_arith)
                        requires
                            0 <= yy,
                            0 <= row,
                    ;
                }
            }
            k = k + 1;
        }
        proof {
            assert(y * row + row == (y + 1) * row) by (nonlinear_arith);
        }
        y = y + 1;
    }
    proof {
        assert(size.1 * row == 4 * size.0 * size.1) by (nonlinear_arith)
            requires
                row == 4 * size.0,
        ;
    }
    piece
}

/// A piece of a picture, its rows one directly after the other.
#[derive(Debug)]
pub struct Piece {
    pub width: u32,
    pub height: u32,
    pub pixels: Vec<u8>,
}

/// The piece `r` of a picture that lies at `origin`: row by row the same bytes.
pub open spec fn is_piece(
    piece: Seq<u8>,
    r: Rect,
    pixels: Seq<u8>,
    stride: int,
    origin: (i32, i32),
) -> bool {
    &&& piece.len() == 4 * r.w * r.h
    &&& forall|y: int, b: int|
        #![trigger at(piece, 4 * r.w as int, y, b)]
        0 <= y < r.h && 0 <= b < 4 * r.w ==> at(piece, 4 * r.w as int, y, b) == at(
            pixels,
            stride,
            r.y - origin.1 + y,
            4 * (r.x - origin.0) + b,
        )
}

/// The part of a picture that a rectangle covers, and its size. `None` when it covers none of
/// it. The picture's upper left corner is at `origin`.
pub fn slice_pixels(
    pixels: &Vec<u8>,
    width: u32,
    height: u32,
    stride: u32,
    origin: (i32, i32),
    rect: Rect,
) -> (res: Option<Piece>)
    requires
        holds(pixels@.len(), width as int, height as int, stride as int),
    ensures
        match (res, rect.overlap(Rect { x: origin.0, y: origin.1, w: width, h: height })) {
            (Some(part), Some(r)) => {
                &&& part.width == r.w && part.height == r.h
                &&& is_piece(part.pixels@, r, pixels@, stride as int, origin)
            },
            (None, None) => true,
            _ => false,
        },
{
    let whole = Rect { x: origin.0, y: origin.1, w: width, h: height };
    let r: Rect = match rect.intersect(&whole) {
        Some(r) => r,
        None => {
            return None;
        },
    };
    let left: u32 = (r.x as i64 - origin.0 as i64) as u32;
    let top: u32 = (r.y as i64 - origin.1 as i64) as u32;
    let piece: Vec<u8> = copy_rows(pixels, (width, height), stride, (left, top), (r.w, r.h));
    Some(Piece { pixels: piece, width: r.w, height: r.h })
}

/// A product that is known not to pass a length.
fn mul_within(a: u64, b: u64, len: usize) -> (res: u64)
    requires
        a * b <= len,
    ensures
        res == a * b,
{
    a * b
}

// ---- putting together ----------------------------------------------------------------------
/// A captured or composed picture, in BGRA.
#[derive(Debug)]
pub struct CapturedImage {
    pub width: u32,
    pub height: u32,
    pub stride: u32,
    pub pixels: Vec<u8>,
}

/// A picture that is laid over another one, with its upper left corner at `left` and `top`.
#[derive(Debug)]
pub struct Patch {
    pub left: u32,
    pub top: u32,
    pub image: CapturedImage,
}

impl Patch {
    /// The patch starts inside a picture of that size, and has all of its bytes.
    pub open spec fn fits(self, width: u32, height: u32) -> bool {
        &&& self.left <= width && self.top <= height
        &&& holds(
            self.image.pixels@.len(),
            self.image.width as int,
            self.image.height as int,
            self.image.stride as int,
        )
    }

    /// The patch covers byte `b` of row `y`.
    pub open spec fn covers(self, y: int, b: int) -> bool {
        self.top <= y < self.top + self.image.height && 4 * self.left <= b < 4 * (self.left
            + self.image.width)
    }

    /// What the patch has at byte `b` of row `y`.
    pub open spec fn value(self, y: int, b: int) -> u8 {
        at(self.image.pixels@, self.image.stride as int, y - self.top, b - 4 * self.left)
    }
}

/// Byte `b` of row `y` of a picture under the first `n` patches: of the patches that cover it
/// the last shows, and where none does the picture itself, turned into BGRA.
pub open spec fn patched(base: DocumentBase, patches: Seq<Patch>, n: nat, y: int, b: int) -> u8
    decreases n,
{
    if n == 0 {
        at(base.pixels@, base.stride as int, y, exchanged(b))
    } else if patches[n - 1].covers(y, b) {
        patches[n - 1].value(y, b)
    } else {
        patched(base, patches, (n - 1) as nat, y, b)
    }
}

/// The rows hold what a picture shows under the first `n` patches.
pub open spec fn shows_patched(
    pixels: Seq<u8>,
    base: DocumentBase,
    patches: Seq<Patch>,
    n: nat,
) -> bool {
    forall|y: int, b: int|
        #![trigger at(pixels, 4 * base.width as int, y, b)]
        0 <= y < base.height && 0 <= b < 4 * base.width ==> at(pixels, 4 * base.width as int, y, b)
            == patched(base, patches, n, y, b)
}

fn exchanged_column(b: u64) -> (res: u64)
    requires
        b < 0x8_0000_0000,
    ensures
        res == exchanged(b as int),
{
    if b % 4 == 0 {
        b + 2
    } else if b % 4 == 2 {
        b - 2
    } else {
        b
    }
}

proof fn lemma_exchanged_in_row(b: int, width: int)
    requires
        0 <= b < 4 * width,
    ensures
        0 <= exchanged(b) < 4 * width,
{
}

/// The picture, turned into BGRA, with its rows one directly after the other.
fn turned(base: &DocumentBase) -> (res: Vec<u8>)
    requires
        holds(base.pixels@.len(), base.width as int, base.height as int, base.stride as int),
    ensures
        res@.len() == base.height * (4 * base.width),
        shows_patched(res@, *base, Seq::empty(), 0),
{
    let row: u64 = 4 * base.width as u64;
    let mut out: Vec<u8> = Vec::new();
    let mut y: u64 = 0;
    while y < base.height as u64
        invariant
            row == 4 * base.width,
            y <= base.height,
            holds(base.pixels@.len(), base.width as int, base.height as int, base.stride as int),
            out@.len() == y * row,
            forall|yy: int, b: int|
                #![trigger at(out@, row as int, yy, b)]
                0 <= yy < y && 0 <= b < row ==> at(out@, row as int, yy, b) == at(
                    base.pixels@,
                    base.stride as int,
                    yy,
                    exchanged(b),
                ),
        decreases base.height - y,
    {
        let mut k: u64 = 0;
        while k < row
            invariant
                row == 4 * base.width,
                y < base.height,
                k <= row,
                holds(
                    base.pixels@.len(),
                    base.width as int,
                    base.height as int,
                    base.stride as int,
                ),
                out@.len() == y * row + k,
                forall|yy: int, b: int|
                    #![trigger at(out@, row as int, yy, b)]
                    0 <= b < row && (0 <= yy < y || yy == y && b < k) ==> at(
                        out@,
                        row as int,
                        yy,
                        b,
                    ) == at(base.pixels@, base.stride as int, yy, exchanged(b)),
            decreases row - k,
        {
            let column: u64 = exchanged_column(k);
            proof {
                lemma_exchanged_in_row(k as int, base.width as int);
                lemma_row_in_bounds(
                    y as int,
                    base.height as int,
                    base.stride as int,
                    column as int,
                    4 * base.width as int,
                    base.pixels@.len() as int,
                );
            }
            let start: u64 = mul_within(y, base.stride as u64, base.pixels.len());
            let from: usize = (start + column) as usize;
            let ghost before = out@;
            out.push(base.pixels[from]);
            assert forall|yy: int, b: int|
                #![trigger at(out@, row as int, yy, b)]
                0 <= b < row && (0 <= yy < y || yy == y && b < k + 1) implies at(
                out@,
                row as int,
                yy,
                b,
            ) == at(base.pixels@, base.stride as int, yy, exchanged(b)) by {
                if yy < y {
                    lemma_row_before(yy, y as int, row as int, b);
                    assert(at(before, row as int, yy, b) == at(
                        base.pixels@,
                        base.stride as int,
                        yy,
                        exchanged(b),
                    ));
                } else if b < k {
                    assert(at(before, row as int, yy, b) == at(
                        base.pixels@,
                        base.stride as int,
                        yy,
                        exchanged(b),
                    ));
                    assert(0 <= yy * row) by (nonlinear_arith)
                        requires
                            0 <= yy,
                            0 <= row,
                    ;
                }
            }
            k = k + 1;
        }
        proof {
            assert(y * row + row == (y + 1) * row) by (nonlinear_arith);
        }
        y = y + 1;
    }
    out
}

/// What a buffer has after the rows of a patch before row `y`, and of that row the bytes before
/// `b`, have been laid over it.
spec fn half_laid(patch: Patch, before: Seq<u8>, row: int, y: int, b: int, yy: int, bb: int) -> u8 {
    if patch.covers(yy, bb) && (yy < y || yy == y && bb < b) {
        patch.value(yy, bb)
    } else {
        at(before, row, yy, bb)
    }
}

/// Lays a patch over a picture of that size. What reaches over its edges is left off.
fn lay_over(buf: &mut Vec<u8>, width: u32, height: u32, patch: &Patch)
    requires
        old(buf)@.len() == height * (4 * width),
        patch.fits(width, height),
    ensures
        final(buf)@.len() == old(buf)@.len(),
        forall|y: int, b: int|
            #![trigger at(final(buf)@, 4 * width as int, y, b)]
            0 <= y < height && 0 <= b < 4 * width ==> at(final(buf)@, 4 * width as int, y, b) == (
            if patch.covers(y, b) {
                patch.value(y, b)
            } else {
                at(old(buf)@, 4 * width as int, y, b)
            }),
{
    let row: u64 = 4 * width as u64;
    let left: u64 = 4 * patch.left as u64;
    let top: u64 = patch.top as u64;
    let image = &patch.image;
    let right: u64 = if image.width > width - patch.left {
        row
    } else {
        left + 4 * image.width as u64
    };
    let bottom: u64 = if image.height > height - patch.top {
        height as u64
    } else {
        top + image.height as u64
    };
    let ghost before = buf@;
    let mut y: u64 = top;
    while y < bottom
        invariant
            row == 4 * width,
            left == 4 * patch.left,
            top == patch.top,
            right == (if image.width > width - patch.left {
                row as int
            } else {
                left + 4 * image.width
            }),
            bottom == (if image.height > height - patch.top {
                height as int
            } else {
                top + image.height
            }),
            image == patch.image,
            patch.fits(width, height),
            top <= y <= bottom,
            buf@.len() == before.len() == height * row,
            forall|yy: int, bb: int|
                #![trigger at(buf@, row as int, yy, bb)]
                0 <= yy < height && 0 <= bb < row ==> at(buf@, row as int, yy, bb) == half_laid(
                    *patch,
                    before,
                    row as int,
                    y as int,
                    0,
                    yy,
                    bb,
                ),
        decreases bottom - y,
    {
        let mut k: u64 = left;
        while k < right
            invariant
                row == 4 * width,
                left == 4 * patch.left,
                top == patch.top,
                right == (if image.width > width - patch.left {
                    row as int
                } else {
                    left + 4 * image.width
                }),
                bottom == (if image.height > height - patch.top {
                    height as int
                } else {
                    top + image.height
                }),
                image == patch.image,
                patch.fits(width, height),
                top <= y < bottom,
                left <= k <= right,
                buf@.len() == before.len() == height * row,
                forall|yy: int, bb: int|
                    #![trigger at(buf@, row as int, yy, bb)]
                    0 <= yy < height && 0 <= bb < row ==> at(buf@, row as int, yy, bb)
                        == half_laid(*patch, before, row as int, y as int, k as int, yy, bb),
            decreases right - k,
        {
            proof {
                lemma_row_in_bounds(
                    y - top,
                    image.height as int,
                    image.stride as int,
                    k - left,
                    4 * image.width as int,
                    image.pixels@.len() as int,
                );
                lemma_row_before(y as int, height as int, row as int, k as int);
                assert(0 <= y * row) by (nonlinear_arith)
                    requires
                        0 <= y,
                        0 <= row,
                ;
            }
            let from: u64 = mul_within(y - top, image.stride as u64, image.pixels.len());
            let to: u64 = mul_within(y, row, buf.len());
            let value: u8 = image.pixels[(from + (k - left)) as usize];
            let ghost held = buf@;
            buf.set((to + k) as usize, value);
            assert forall|yy: int, bb: int|
                #![trigger at(buf@, row as int, yy, bb)]
                0 <= yy < height && 0 <= bb < row implies at(buf@, row as int, yy, bb)
                == half_laid(*patch, before, row as int, y as int, k + 1, yy, bb) by {
                lemma_row_before(yy, height as int, row as int, bb);
                assert(at(held, row as int, yy, bb) == half_laid(
                    *patch,
                    before,
                    row as int,
                    y as int,
                    k as int,
                    yy,
                    bb,
                ));
                if yy * row + bb == y * row + k {
                    lemma_same_place(yy, bb, y as int, k as int, row as int);
                }
            }
            k = k + 1;
        }
        assert forall|yy: int, bb: int|
            #![trigger at(buf@, row as int, yy, bb)]
            0 <= yy < height && 0 <= bb < row implies at(buf@, row as int, yy, bb) == half_laid(
            *patch,
            before,
            row as int,
            y + 1,
            0,
            yy,
            bb,
        ) by {}
        y = y + 1;
    }
}

/// Puts an edited picture together: the picture itself in BGRA, and over it what each monitor
/// has composed, in order.
pub fn compose_edit(base: &DocumentBase, patches: &Vec<Patch>) -> (res: CapturedImage)
    requires
        4 * base.width <= u32::MAX,
        holds(base.pixels@.len(), base.width as int, base.height as int, base.stride as int),
        forall|i: int|
            0 <= i < patches@.len() ==> (#[trigger] patches@[i]).fits(base.width, base.height),
    ensures
        res.width == base.width,
        res.height == base.height,
        res.stride == 4 * base.width,
        res.pixels@.len() == base.height * (4 * base.width),
        shows_patched(res.pixels@, *base, patches@, patches@.len()),
{
    let mut buf: Vec<u8> = turned(base);
    assert(shows_patched(buf@, *base, patches@, 0)) by {
        assert forall|y: int, b: int|
            #![trigger at(buf@, 4 * base.width as int, y, b)]
            0 <= y < base.height && 0 <= b < 4 * base.width implies at(
            buf@,
            4 * base.width as int,
            y,
            b,
        ) == patched(*base, patches@, 0, y, b) by {
            assert(at(buf@, 4 * base.width as int, y, b) == patched(
                *base,
                Seq::<Patch>::empty(),
                0,
                y,
                b,
            ));
        }
    }
    for i in 0..patches.len()
        invariant
            buf@.len() == base.height * (4 * base.width),
            forall|j: int|
                0 <= j < patches@.len() ==> (#[trigger] patches@[j]).fits(
                    base.width,
                    base.height,
                ),
            shows_patched(buf@, *base, patches@, i as nat),
    {
        let ghost before = buf@;
        lay_over(&mut buf, base.width, base.height, &patches[i]);
        assert(shows_patched(buf@, *base, patches@, i as nat + 1)) by {
            assert forall|y: int, b: int|
                #![trigger at(buf@, 4 * base.width as int, y, b)]
                0 <= y < base.height && 0 <= b < 4 * base.width implies at(
                buf@,
                4 * base.width as int,
                y,
                b,
            ) == patched(*base, patches@, i as nat + 1, y, b) by {
                assert(at(before, 4 * base.width as int, y, b) == patched(
                    *base,
                    patches@,
                    i as nat,
                    y,
                    b,
                ));
            }
        }
    }
    CapturedImage { width: base.width, height: base.height, stride: 4 * base.width, pixels: buf }
}

// ---- decoding ------------------------------------------------------------------------------
/// `image::ImageError`.
#[verifier::external_type_specification]
#[verifier::external_body]
pub struct ExImageError(image::ImageError);

/// What the bytes of an image file decode to: width, height and the RGBA bytes. `None` where
/// they cannot be decoded.
pub uninterp spec fn decoded(bytes: Seq<u8>) -> Option<(u32, u32, Seq<u8>)>;

/// `image::guess_format`, `image::load_from_memory_with_format` with the format that was guessed,
/// and of the image that it loads `to_rgba8`. The guess goes by the first bytes, the decoder is
/// the built-in one of that format, and neither asks the hooks that a program can register. So
/// whether the bytes can be decoded and what they then hold depends on them alone; it is not
/// spelled out here.
#[verifier::external_body]
fn decode_rgba(bytes: &[u8]) -> (res: Result<(u32, u32, Vec<u8>), image::ImageError>)
    ensures
        match res {
            Ok(rgba) => decoded(bytes@) == Some((rgba.0, rgba.1, rgba.2@)),
            Err(_) => decoded(bytes@) is None,
        },
{
    let format = image::guess_format(bytes)?;
    let rgba = image::load_from_memory_with_format(bytes, format)?.to_rgba8();
    let (width, height) = rgba.dimensions();
    Ok((width, height, rgba.into_raw()))
}

/// Why there is no picture.
#[derive(Clone, Copy, Debug, PartialEq, Eq, Structural)]
pub enum DecodeError {
    /// The bytes are not those of an image.
    Unreadable,
    /// A row has too many bytes to be counted.
    TooWide,
}

/// The picture of RGBA bytes, with its rows one directly after the other.
pub open spec fn is_picture(base: DocumentBase, width: u32, height: u32, rgba: Seq<u8>) -> bool {
    &&& base.width == width
    &&& base.height == height
    &&& base.stride == 4 * width
    &&& base.pixels@ == rgba
}

/// The picture of RGBA bytes.
pub fn base_from_rgba(width: u32, height: u32, pixels: Vec<u8>) -> (res: DocumentBase)
    requires
        4 * width <= u32::MAX,
    ensures
        is_picture(res, width, height, pixels@),
{
    DocumentBase { width, height, stride: 4 * width, pixels }
}

/// The picture of an image file.
pub fn decode_base(bytes: &[u8]) -> (res: Result<DocumentBase, DecodeError>)
    ensures
        match decoded(bytes@) {
            Some((width, height, rgba)) => if 4 * width <= u32::MAX {
                res matches Ok(base) && is_picture(base, width, height, rgba)
            } else {
                res == Err::<DocumentBase, DecodeError>(DecodeError::TooWide)
            },
            None => res == Err::<DocumentBase, DecodeError>(DecodeError::Unreadable),
        },
{
    match decode_rgba(bytes) {
        Ok((width, height, pixels)) => {
            if width > u32::MAX / 4 {
                return Err(DecodeError::TooWide);
            }
            Ok(base_from_rgba(width, height, pixels))
        },
        Err(_) => Err(DecodeError::Unreadable),
    }
}

/// An icon for the tray: its size, and its pixels in ARGB.
#[derive(Debug)]
pub struct Icon {
    pub width: i32,
    pub height: i32,
    pub data: Vec<u8>,
}

/// The icon of RGBA bytes.
pub open spec fn is_icon(icon: Icon, width: u32, height: u32, rgba: Seq<u8>) -> bool {
    &&& icon.width == width as i32
    &&& icon.height == height as i32
    &&& icon.data@ == alpha_first(rgba)
}

/// The icon of RGBA bytes.
pub fn icon_from_rgba(width: u32, height: u32, rgba: &Vec<u8>) -> (res: Icon)
    ensures
        is_icon(res, width, height, rgba@),
{
    Icon { width: width as i32, height: height as i32, data: argb_from_rgba(rgba) }
}

/// The icon of an image file.
pub fn decode_logo(bytes: &[u8]) -> (res: Result<Icon, DecodeError>)
    ensures
        match decoded(bytes@) {
            Some((width, height, rgba)) => res matches Ok(icon) && is_icon(
                icon,
                width,
                height,
                rgba,
            ),
            None => res == Err::<Icon, DecodeError>(DecodeError::Unreadable),
        },
{
    match decode_rgba(bytes) {
        Ok((width, height, rgba)) => Ok(icon_from_rgba(width, height, &rgba)),
        Err(_) => Err(DecodeError::Unreadable),
    }
}

// ---- laws ----------------------------------------------------------------------------------
/// Where no patch covers a picture, the composed picture shows it unchanged, but for the order
/// of its channels.
pub proof fn uncovered_bytes_show_the_picture(
    base: DocumentBase,
    patches: Seq<Patch>,
    n: nat,
    y: int,
    b: int,
)
    requires
        n <= patches.len(),
        forall|i: int| 0 <= i < n ==> !(#[trigger] patches[i]).covers(y, b),
    ensures
        patched(base, patches, n, y, b) == at(base.pixels@, base.stride as int, y, exchanged(b)),
    decreases n,
{
    if n > 0 {
        uncovered_bytes_show_the_picture(base, patches, (n - 1) as nat, y, b);
    }
}

/// Of the patches that cover a place the last one shows.
pub proof fn the_last_patch_shows(
    base: DocumentBase,
    patches: Seq<Patch>,
    i: int,
    n: nat,
    y: int,
    b: int,
)
    requires
        0 <= i < n <= patches.len(),
        patches[i].covers(y, b),
        forall|j: int| i < j < n ==> !(#[trigger] patches[j]).covers(y, b),
    ensures
        patched(base, patches, n, y, b) == patches[i].value(y, b),
    decreases n,
{
    if n > i + 1 {
        the_last_patch_shows(base, patches, i, (n - 1) as nat, y, b);
    }
}

/// Patches that show the picture itself give it back.
pub proof fn unchanged_patches_give_the_picture_back(
    base: DocumentBase,
    patches: Seq<Patch>,
    n: nat,
    y: int,
    b: int,
)
    requires
        n <= patches.len(),
        forall|i: int|
            0 <= i < n && (#[trigger] patches[i]).covers(y, b) ==> patches[i].value(y, b) == at(
                base.pixels@,
                base.stride as int,
                y,
                exchanged(b),
            ),
    ensures
        patched(base, patches, n, y, b) == at(base.pixels@, base.stride as int, y, exchanged(b)),
    decreases n,
{
    if n > 0 {
        unchanged_patches_give_the_picture_back(base, patches, (n - 1) as nat, y, b);
    }
}

/// Exchanging red and blue does so within each pixel, and leaves green and alpha in their places.
pub proof fn a_pixel_keeps_its_green_and_alpha(pixels: Seq<u8>, p: int)
    requires
        0 <= p,
        4 * p + 3 < pixels.len(),
    ensures
        ({
            let after = red_and_blue_exchanged(pixels);
            &&& after.len() == pixels.len()
            &&& after[4 * p] == pixels[4 * p + 2]
            &&& after[4 * p + 1] == pixels[4 * p + 1]
            &&& after[4 * p + 2] == pixels[4 * p]
            &&& after[4 * p + 3] == pixels[4 * p + 3]
        }),
{
}

/// A pixel of an icon is its alpha, its red, its green and its blue, in this order.
pub proof fn a_pixel_of_an_icon_begins_with_its_alpha(rgba: Seq<u8>, p: int)
    requires
        0 <= p,
        4 * p + 3 < rgba.len(),
    ensures
        ({
            let after = alpha_first(rgba);
            &&& 4 * p + 3 < after.len() <= rgba.len()
            &&& after[4 * p] == rgba[4 * p + 3]
            &&& after[4 * p + 1] == rgba[4 * p]
            &&& after[4 * p + 2] == rgba[4 * p + 1]
            &&& after[4 * p + 3] == rgba[4 * p + 2]
        }),
{
}

/// A piece of a picture shows at each of its points what the picture shows there: pixel by
/// pixel, in rows without a gap.
pub proof fn a_piece_shows_what_the_picture_does(
    piece: Seq<u8>,
    r: Rect,
    pixels: Seq<u8>,
    stride: int,
    origin: (i32, i32),
    px: int,
    py: int,
    c: int,
)
    requires
        is_piece(piece, r, pixels, stride, origin),
        r.covers(px, py),
        0 <= c < 4,
    ensures
        piece[4 * (r.w * (py - r.y) + (px - r.x)) + c] == pixels[(py - origin.1) * stride + 4 * (px
            - origin.0) + c],
{
    let (y, b) = (py - r.y, 4 * (px - r.x) + c);
    assert(at(piece, 4 * r.w as int, y, b) == at(
        pixels,
        stride,
        r.y - origin.1 + y,
        4 * (r.x - origin.0) + b,
    ));
    let w = r.w as int;
    assert(y * (4 * w) == 4 * (w * y)) by (nonlinear_arith);
}

/// A patch covers the pixels from its corner on, as many as its picture has, and shows there
/// the pixels of its picture.
pub proof fn a_patch_shows_its_picture_where_it_lies(patch: Patch, x: int, y: int, c: int)
    requires
        0 <= c < 4,
    ensures
        patch.covers(y, 4 * x + c) <==> patch.left <= x < patch.left + patch.image.width
            && patch.top <= y < patch.top + patch.image.height,
        patch.value(y, 4 * x + c) == patch.image.pixels@[(y - patch.top) * patch.image.stride + 4
            * (x - patch.left) + c],
{
}

/// A pixel that no patch covers is that of the picture, with red and blue exchanged.
pub proof fn a_bare_pixel_is_that_of_the_picture(
    base: DocumentBase,
    patches: Seq<Patch>,
    n: nat,
    x: int,
    y: int,
)
    requires
        n <= patches.len(),
        0 <= x,
        forall|i: int|
            0 <= i < n ==> !((#[trigger] patches[i]).left <= x < patches[i].left
                + patches[i].image.width && patches[i].top <= y < patches[i].top
                + patches[i].image.height),
    ensures
        ({
            let pixel = y * base.stride + 4 * x;
            &&& patched(base, patches, n, y, 4 * x) == base.pixels@[pixel + 2]
            &&& patched(base, patches, n, y, 4 * x + 1) == base.pixels@[pixel + 1]
            &&& patched(base, patches, n, y, 4 * x + 2) == base.pixels@[pixel]
            &&& patched(base, patches, n, y, 4 * x + 3) == base.pixels@[pixel + 3]
        }),
{
    assert forall|c: int| 0 <= c < 4 implies #[trigger] patched(base, patches, n, y, 4 * x + c)
        == at(base.pixels@, base.stride as int, y, exchanged(4 * x + c)) by {
        assert forall|i: int| 0 <= i < n implies !(#[trigger] patches[i]).covers(y, 4 * x + c) by {
            a_patch_shows_its_picture_where_it_lies(patches[i], x, y, c);
        }
        uncovered_bytes_show_the_picture(base, patches, n, y, 4 * x + c);
    }
    assert(patched(base, patches, n, y, 4 * x + 0) == at(
        base.pixels@,
        base.stride as int,
        y,
        exchanged(4 * x + 0),
    ));
}

/// A decoded picture and an icon have the size and the pixels of the image. A picture has them
/// in rows without a gap, and an icon with alpha before the colors.
pub proof fn an_image_is_kept_pixel_by_pixel(
    base: DocumentBase,
    icon: Icon,
    width: u32,
    height: u32,
    rgba: Seq<u8>,
    p: int,
)
    requires
        is_picture(base, width, height, rgba),
        is_icon(icon, width, height, rgba),
        0 <= p,
        4 * p + 3 < rgba.len(),
        width <= i32::MAX,
        height <= i32::MAX,
    ensures
        base.width == width && base.height == height && base.stride == 4 * width,
        base.pixels@[4 * p] == rgba[4 * p] && base.pixels@[4 * p + 3] == rgba[4 * p + 3],
        icon.width == width && icon.height == height,
        icon.data@[4 * p] == rgba[4 * p + 3] && icon.data@[4 * p + 1] == rgba[4 * p],
        icon.data@[4 * p + 2] == rgba[4 * p + 1] && icon.data@[4 * p + 3] == rgba[4 * p + 2],
{
    a_pixel_of_an_icon_begins_with_its_alpha(rgba, p);
}

} // verus!

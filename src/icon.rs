//! Window icons: choosing a block of a multi-resolution icon property,
//! unpacking it to RGBA, resampling it once to the panel's icon size, and
//! blending the cached raster against a cell background at paint time.

use vstd::prelude::*;

verus! {

/// Edge, in pixels, of the square raster that every icon is resampled to.
pub const ICON_EDGE: u32 = 24;

/// One block of an icon property: `width * height` packed ARGB pixels that
/// start at index `start` of the property.
#[derive(Clone, Copy, Debug, PartialEq, Eq, Structural)]
pub struct IconBlock {
    pub start: usize,
    pub width: u32,
    pub height: u32,
}

/// The block whose header stands at `idx` is complete: its header and all its
/// pixels lie inside the property.
pub open spec fn block_fits(d: Seq<u32>, idx: int) -> bool {
    &&& 0 <= idx
    &&& idx + 2 < d.len()
    &&& idx + 2 + (d[idx] as int) * (d[idx + 1] as int) <= d.len()
}

/// The blocks read from header index `idx` on, up to the end of the property
/// or the first block that would overrun it.
pub open spec fn blocks_from(d: Seq<u32>, idx: int) -> Seq<IconBlock>
    decreases d.len() - idx,
{
    if block_fits(d, idx) {
        seq![IconBlock { start: (idx + 2) as usize, width: d[idx], height: d[idx + 1] }]
            + blocks_from(d, idx + 2 + (d[idx] as int) * (d[idx + 1] as int))
    } else {
        Seq::empty()
    }
}

pub open spec fn blocks(d: Seq<u32>) -> Seq<IconBlock> {
    blocks_from(d, 0)
}

/// The first of the narrowest blocks that are at least `edge` wide.
pub open spec fn smallest_fitting(bs: Seq<IconBlock>, edge: u32) -> Option<IconBlock>
    decreases bs.len(),
{
    if bs.len() == 0 {
        None
    } else {
        let r = smallest_fitting(bs.drop_last(), edge);
        let b = bs.last();
        if b.width >= edge && (r is None || b.width < r->Some_0.width) {
            Some(b)
        } else {
            r
        }
    }
}

/// The first of the widest blocks of non-zero width.
pub open spec fn widest(bs: Seq<IconBlock>) -> Option<IconBlock>
    decreases bs.len(),
{
    if bs.len() == 0 {
        None
    } else {
        let r = widest(bs.drop_last());
        let b = bs.last();
        if b.width > 0 && (r is None || b.width > r->Some_0.width) {
            Some(b)
        } else {
            r
        }
    }
}

/// The block to decode: the narrowest one that needs no upscaling, else the widest.
pub open spec fn chosen_block(d: Seq<u32>, edge: u32) -> Option<IconBlock> {
    let bs = blocks(d);
    if smallest_fitting(bs, edge) is Some {
        smallest_fitting(bs, edge)
    } else {
        widest(bs)
    }
}

proof fn lemma_blocks_step(d: Seq<u32>, idx: int)
    requires
        block_fits(d, idx),
    ensures
        blocks_from(d, idx) == seq![
            IconBlock { start: (idx + 2) as usize, width: d[idx], height: d[idx + 1] },
        ] + blocks_from(d, idx + 2 + (d[idx] as int) * (d[idx + 1] as int)),
{
    reveal_with_fuel(blocks_from, 1);
}

/// Scans the blocks of an icon property and picks the one to decode.
pub fn select_icon_block(d: &Vec<u32>, edge: u32) -> (r: Option<IconBlock>)
    requires
        edge > 0,
    ensures
        r == chosen_block(d@, edge),
{
    let mut best: Option<IconBlock> = None;
    let mut max: Option<IconBlock> = None;
    let mut idx: usize = 0;
    let ghost mut seen: Seq<IconBlock> = Seq::empty();
    let len = d.len();
    while idx < len && len - idx > 2
        invariant
            len == d@.len(),
            idx <= len,
            blocks(d@) == seen + blocks_from(d@, idx as int),
            best == smallest_fitting(seen, edge),
            max == widest(seen),
            edge > 0,
        ensures
            blocks(d@) == seen,
            best == smallest_fitting(seen, edge),
            max == widest(seen),
        decreases len - idx,
    {
        let w = d[idx];
        let h = d[idx + 1];
        assert((w as u64) * (h as u64) <= u64::MAX) by (nonlinear_arith)
            requires
                w <= u32::MAX,
                h <= u32::MAX,
        ;
        let size: u64 = (w as u64) * (h as u64);
        if size > (len - idx - 2) as u64 {
            proof {
                assert(!block_fits(d@, idx as int));
                assert(blocks_from(d@, idx as int) == Seq::<IconBlock>::empty());
                assert(seen + Seq::<IconBlock>::empty() =~= seen);
            }
            break;
        }
        let b = IconBlock { start: idx + 2, width: w, height: h };
        proof {
            assert(block_fits(d@, idx as int));
            lemma_blocks_step(d@, idx as int);
            let next = idx + 2 + (w as int) * (h as int);
            assert(seen + blocks_from(d@, idx as int) =~= seen.push(b) + blocks_from(d@, next));
            assert(seen.push(b).drop_last() =~= seen);
            reveal_with_fuel(smallest_fitting, 1);
            reveal_with_fuel(widest, 1);
        }
        if w > 0 && (max.is_none() || w > max.unwrap().width) {
            max = Some(b);
        }
        if w >= edge && (best.is_none() || w < best.unwrap().width) {
            best = Some(b);
        }
        idx = idx + 2 + size as usize;
        proof {
            seen = seen.push(b);
        }
    }
    if best.is_some() {
        best
    } else {
        max
    }
}


/// The RGBA bytes of one packed ARGB pixel (alpha in the most significant byte).
pub open spec fn rgba_of(p: u32) -> Seq<u8> {
    seq![((p >> 16u32) & 0xff) as u8, ((p >> 8u32) & 0xff) as u8, (p & 0xff) as u8, ((p >> 24u32) & 0xff) as u8]
}

/// The RGBA bytes of a run of packed ARGB pixels, pixel by pixel.
pub open spec fn unpacked(px: Seq<u32>) -> Seq<u8>
    decreases px.len(),
{
    if px.len() == 0 {
        Seq::empty()
    } else {
        unpacked(px.drop_last()) + rgba_of(px.last())
    }
}

proof fn lemma_unpacked_len(px: Seq<u32>)
    ensures
        unpacked(px).len() == 4 * px.len(),
    decreases px.len(),
{
    if px.len() > 0 {
        lemma_unpacked_len(px.drop_last());
    }
}

/// Unpacks `count` ARGB pixels starting at index `start` into RGBA bytes.
pub fn unpack_argb(d: &Vec<u32>, start: usize, count: usize) -> (r: Vec<u8>)
    requires
        start + count <= d@.len(),
    ensures
        r@ == unpacked(d@.subrange(start as int, start + count)),
        r@.len() == 4 * count,
{
    let mut out: Vec<u8> = Vec::new();
    let dl = d.len();
    let mut i: usize = 0;
    while i < count
        invariant
            dl == d@.len(),
            start + count <= d@.len(),
            i <= count,
            out@ == unpacked(d@.subrange(start as int, start + i)),
        decreases count - i,
    {
        let p = d[start + i];
        proof {
            let next = d@.subrange(start as int, start + i + 1);
            assert(next.drop_last() =~= d@.subrange(start as int, start + i));
            assert(next.last() == p);
        }
        out.push(((p >> 16u32) & 0xff) as u8);
        out.push(((p >> 8u32) & 0xff) as u8);
        out.push((p & 0xff) as u8);
        out.push(((p >> 24u32) & 0xff) as u8);
        assert(out@ =~= unpacked(d@.subrange(start as int, start + i)) + rgba_of(p));
        i = i + 1;
    }
    proof {
        lemma_unpacked_len(d@.subrange(start as int, start + count));
    }
    out
}

/// What Lanczos3 resampling of a `width`×`height` RGBA raster to `edge`×`edge` gives.
pub uninterp spec fn resampled(src: Seq<u8>, width: nat, height: nat, edge: nat) -> Seq<u8>;

/// Relies on `image::imageops::resize` with `FilterType::Lanczos3` on an RGBA
/// buffer: the result depends on the pixels and sizes alone, holds exactly
/// `edge`×`edge` pixels, and is a copy of the source where the source already
/// has that size.
#[verifier::external_body]
fn resample_rgba(src: Vec<u8>, width: u32, height: u32, edge: u32) -> (r: Vec<u8>)
    requires
        src@.len() == 4 * (width as int) * (height as int),
    ensures
        r@ == resampled(src@, width as nat, height as nat, edge as nat),
        r@.len() == 4 * (edge as int) * (edge as int),
        width == edge && height == edge ==> r@ == src@,
{
    let img = image::RgbaImage::from_raw(width, height, src).unwrap();
    image::imageops::resize(&img, edge, edge, image::imageops::FilterType::Lanczos3).into_raw()
}

/// The RGBA bytes of a chosen block.
pub open spec fn block_pixels(d: Seq<u32>, b: IconBlock) -> Seq<u8> {
    unpacked(d.subrange(b.start as int, b.start + (b.width as int) * (b.height as int)))
}

/// The cached raster of an icon property: the chosen block, resampled to
/// `ICON_EDGE`×`ICON_EDGE`; none where no block has any width.
pub open spec fn decoded_icon(d: Seq<u32>) -> Option<Seq<u8>> {
    match chosen_block(d, ICON_EDGE) {
        Some(b) => Some(
            resampled(block_pixels(d, b), b.width as nat, b.height as nat, ICON_EDGE as nat),
        ),
        None => None,
    }
}

proof fn lemma_chosen_block_fits(d: Seq<u32>, edge: u32)
    ensures
        chosen_block(d, edge) matches Some(b) ==> b.start + (b.width as int) * (b.height as int)
            <= d.len(),
{
    lemma_blocks_in_bounds(d, 0);
    lemma_smallest_fitting_member(blocks(d), edge);
    lemma_widest_member(blocks(d));
}

proof fn lemma_blocks_in_bounds(d: Seq<u32>, idx: int)
    ensures
        forall|k: int|
            0 <= k < blocks_from(d, idx).len() ==> #[trigger] blocks_from(d, idx)[k].start
                + (blocks_from(d, idx)[k].width as int) * (blocks_from(d, idx)[k].height as int)
                <= d.len(),
    decreases d.len() - idx,
{
    if block_fits(d, idx) {
        let next = idx + 2 + (d[idx] as int) * (d[idx + 1] as int);
        lemma_blocks_in_bounds(d, next);
        lemma_blocks_step(d, idx);
        let bs = blocks_from(d, idx);
        assert forall|k: int| 0 <= k < bs.len() implies #[trigger] bs[k].start
            + (bs[k].width as int) * (bs[k].height as int) <= d.len() by {
            if k > 0 {
                assert(bs[k] == blocks_from(d, next)[k - 1]);
            }
        }
    }
}

proof fn lemma_smallest_fitting_member(bs: Seq<IconBlock>, edge: u32)
    ensures
        smallest_fitting(bs, edge) matches Some(b) ==> bs.contains(b),
    decreases bs.len(),
{
    if bs.len() > 0 {
        lemma_smallest_fitting_member(bs.drop_last(), edge);
        if let Some(b) = smallest_fitting(bs.drop_last(), edge) {
            let k = choose|k: int| 0 <= k < bs.drop_last().len() && bs.drop_last()[k] == b;
            assert(bs[k] == b);
        }
        assert(bs[bs.len() - 1] == bs.last());
    }
}

proof fn lemma_widest_member(bs: Seq<IconBlock>)
    ensures
        widest(bs) matches Some(b) ==> bs.contains(b),
    decreases bs.len(),
{
    if bs.len() > 0 {
        lemma_widest_member(bs.drop_last());
        if let Some(b) = widest(bs.drop_last()) {
            let k = choose|k: int| 0 <= k < bs.drop_last().len() && bs.drop_last()[k] == b;
            assert(bs[k] == b);
        }
        assert(bs[bs.len() - 1] == bs.last());
    }
}

/// Decodes an icon property (its 32-bit items) into the raster that the cache keeps.
pub fn decode_icon(d: &Vec<u32>) -> (r: Option<Vec<u8>>)
    ensures
        r matches Some(v) ==> decoded_icon(d@) == Some(v@),
        r is None <==> decoded_icon(d@) is None,
        r matches Some(v) ==> v@.len() == 4 * ICON_EDGE * ICON_EDGE,
{
    match select_icon_block(d, ICON_EDGE) {
        None => None,
        Some(b) => {
            proof {
                lemma_chosen_block_fits(d@, ICON_EDGE);
            }
            let ghost area = (b.width as int) * (b.height as int);
            let dl = d.len();
            assert(area <= dl);
            assert((b.width as usize as int) * (b.height as usize as int) == area);
            let count = (b.width as usize) * (b.height as usize);
            let px = unpack_argb(d, b.start, count);
            assert(4 * count == 4 * (b.width as int) * (b.height as int)) by (nonlinear_arith)
                requires
                    count == area,
                    area == (b.width as int) * (b.height as int),
            ;
            Some(resample_rgba(px, b.width, b.height, ICON_EDGE))
        },
    }
}

proof fn lemma_unpacked_alpha(px: Seq<u32>, k: int)
    requires
        0 <= k < px.len(),
    ensures
        unpacked(px).len() == 4 * px.len(),
        unpacked(px)[4 * k + 3] == ((px[k] >> 24u32) & 0xff) as u8,
    decreases px.len(),
{
    lemma_unpacked_len(px);
    lemma_unpacked_len(px.drop_last());
    if k < px.len() - 1 {
        lemma_unpacked_alpha(px.drop_last(), k);
    }
}

/// A property that holds one complete `w`×`h` block, with `w` at least the icon
/// size, decodes that block: its pixels, unpacked with each alpha kept, are
/// what is resampled to the icon size.
pub proof fn lemma_single_block(d: Seq<u32>)
    requires
        d.len() >= 2,
        d[0] >= ICON_EDGE,
        d[1] >= 1,
        d.len() == 2 + (d[0] as int) * (d[1] as int),
    ensures
        chosen_block(d, ICON_EDGE) == Some(IconBlock { start: 2, width: d[0], height: d[1] }),
        decoded_icon(d) == Some(
            resampled(unpacked(d.subrange(2, d.len() as int)), d[0] as nat, d[1] as nat, ICON_EDGE as nat),
        ),
        forall|k: int|
            0 <= k < d.len() - 2 ==> #[trigger] unpacked(d.subrange(2, d.len() as int))[4 * k + 3]
                == ((d[2 + k] >> 24u32) & 0xff) as u8,
{
    let b = IconBlock { start: 2, width: d[0], height: d[1] };
    assert((d[0] as int) * (d[1] as int) >= 1) by (nonlinear_arith)
        requires
            d[0] >= 1,
            d[1] >= 1,
    ;
    {
        assert(block_fits(d, 0));
        lemma_blocks_step(d, 0);
        assert(blocks_from(d, d.len() as int) == Seq::<IconBlock>::empty());
        assert(blocks(d) =~= seq![b]);
        assert(seq![b].drop_last() =~= Seq::<IconBlock>::empty());
        reveal_with_fuel(smallest_fitting, 2);
        assert(smallest_fitting(blocks(d), ICON_EDGE) == Some(b));
    }
    let px = d.subrange(2, d.len() as int);
    assert forall|k: int| 0 <= k < d.len() - 2 implies #[trigger] unpacked(px)[4 * k + 3]
        == ((d[2 + k] >> 24u32) & 0xff) as u8 by {
        lemma_unpacked_alpha(px, k);
    }
}

/// One channel of a straight-alpha blend of `fg` over `bg` with opacity `a` of 255.
pub open spec fn blend_channel(fg: u8, bg: u8, a: u8) -> u8 {
    (((fg as int) * (a as int) + (bg as int) * (255 - a as int)) / 255) as u8
}

/// The blended output pixel, in the display's byte order: blue, green, red, padding.
pub open spec fn blended_pixel(px: Seq<u8>, bg: u32) -> Seq<u8> {
    let bg_r = ((bg >> 16u32) & 0xff) as u8;
    let bg_g = ((bg >> 8u32) & 0xff) as u8;
    let bg_b = (bg & 0xff) as u8;
    seq![
        blend_channel(px[2], bg_b, px[3]),
        blend_channel(px[1], bg_g, px[3]),
        blend_channel(px[0], bg_r, px[3]),
        0xffu8,
    ]
}

/// An RGBA raster blended over a flat background colour `0xRRGGBB`, pixel by pixel.
pub open spec fn blended(px: Seq<u8>, bg: u32) -> Seq<u8>
    decreases px.len(),
{
    if px.len() < 4 {
        Seq::empty()
    } else {
        blended(px.subrange(0, px.len() - 4), bg) + blended_pixel(
            px.subrange(px.len() - 4, px.len() as int),
            bg,
        )
    }
}

fn blend_u8(fg: u8, bg: u8, a: u8) -> (r: u8)
    ensures
        r == blend_channel(fg, bg, a),
{
    assert((fg as u32) * (a as u32) + (bg as u32) * (255 - a as u32) <= 255 * 255) by (nonlinear_arith)
        requires
            fg <= 255,
            bg <= 255,
            a <= 255,
    ;
    (((fg as u32) * (a as u32) + (bg as u32) * (255 - a as u32)) / 255) as u8
}

/// Composites a cached RGBA icon raster over the background colour of its cell,
/// giving the bytes to put on screen.
pub fn blend_icon(pixels: &Vec<u8>, bg: u32) -> (r: Vec<u8>)
    requires
        pixels@.len() % 4 == 0,
    ensures
        r@ == blended(pixels@, bg),
        r@.len() == pixels@.len(),
{
    let bg_r = ((bg >> 16u32) & 0xff) as u8;
    let bg_g = ((bg >> 8u32) & 0xff) as u8;
    let bg_b = (bg & 0xff) as u8;
    let mut out: Vec<u8> = Vec::new();
    let n = pixels.len();
    let mut i: usize = 0;
    while i < n
        invariant
            n == pixels@.len(),
            n % 4 == 0,
            i % 4 == 0,
            i <= n,
            out@ == blended(pixels@.subrange(0, i as int), bg),
            out@.len() == i,
            bg_r == ((bg >> 16u32) & 0xff) as u8,
            bg_g == ((bg >> 8u32) & 0xff) as u8,
            bg_b == (bg & 0xff) as u8,
        decreases n - i,
    {
        let r = pixels[i];
        let g = pixels[i + 1];
        let b = pixels[i + 2];
        let a = pixels[i + 3];
        proof {
            let next = pixels@.subrange(0, i + 4);
            assert(next.subrange(0, next.len() - 4) =~= pixels@.subrange(0, i as int));
            let px = next.subrange(next.len() - 4, next.len() as int);
            assert(px[0] == r && px[1] == g && px[2] == b && px[3] == a);
        }
        out.push(blend_u8(b, bg_b, a));
        out.push(blend_u8(g, bg_g, a));
        out.push(blend_u8(r, bg_r, a));
        out.push(0xff);
        proof {
            let next = pixels@.subrange(0, i + 4);
            let px = next.subrange(next.len() - 4, next.len() as int);
            assert(out@ =~= blended(pixels@.subrange(0, i as int), bg) + blended_pixel(px, bg));
        }
        i = i + 4;
    }
    assert(pixels@.subrange(0, n as int) =~= pixels@);
    out
}

} // verus!

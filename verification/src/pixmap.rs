use vstd::prelude::*;

verus! {

/// An icon image as a tray item hands it over: `width` by `height` pixels,
/// four bytes per pixel in ARGB order, rows one after another.
#[derive(Clone, Debug)]
pub struct IconPixmap {
    pub width: i32,
    pub height: i32,
    pub pixels: Vec<u8>,
}

/// The result of comparing two pixmap heights for preference.
#[derive(Clone, Copy, Debug, PartialEq, Eq)]
pub enum HeightOrder {
    Less,
    Equal,
    Greater,
}

/// Heights that fit the bar without scaling much: 20 to 24 pixels.
pub open spec fn in_preferred_band(h: int) -> bool {
    20 <= h <= 24
}

pub open spec fn plain_order(a: int, b: int) -> HeightOrder {
    if a < b {
        HeightOrder::Less
    } else if a == b {
        HeightOrder::Equal
    } else {
        HeightOrder::Greater
    }
}

/// How the tray compares two pixmap heights: heights in the preferred band
/// beat all others and the taller one wins among them; two heights above
/// the band, or two below it, compare by size; a height above the band and
/// one below it each compare as `Less` than the other.
pub open spec fn height_order(h1: int, h2: int) -> HeightOrder {
    if in_preferred_band(h1) && in_preferred_band(h2) {
        plain_order(h1, h2)
    } else if in_preferred_band(h1) {
        HeightOrder::Greater
    } else if in_preferred_band(h2) {
        HeightOrder::Less
    } else if h1 >= 25 && h2 >= 25 {
        plain_order(h1 - 24, h2 - 24)
    } else if h1 >= 25 {
        HeightOrder::Less
    } else if h2 >= 25 {
        HeightOrder::Less
    } else {
        plain_order(h1, h2)
    }
}

/// `h1` is strictly preferred to `h2`: a height in the band beats one
/// outside it; otherwise the taller one is preferred.
pub open spec fn prefers(h1: int, h2: int) -> bool {
    if in_preferred_band(h1) != in_preferred_band(h2) {
        in_preferred_band(h1)
    } else {
        h1 > h2
    }
}

/// The two heights are ones on which `height_order` is a consistent
/// comparison: not one above the band and the other below it.
pub open spec fn comparable_heights(h1: int, h2: int) -> bool {
    !(h1 >= 25 && h2 < 20) && !(h2 >= 25 && h1 < 20)
}

/// No two heights of the list are a pair above and below the band.
pub open spec fn consistently_ordered(pixmaps: Seq<IconPixmap>) -> bool {
    forall|i: int, j: int|
        0 <= i < pixmaps.len() && 0 <= j < pixmaps.len() ==> comparable_heights(
            #[trigger] pixmaps[i].height as int,
            #[trigger] pixmaps[j].height as int,
        )
}

/// Compares two pixmap heights for preference.
pub fn compare_heights(h1: i32, h2: i32) -> (order: HeightOrder)
    ensures
        order == height_order(h1 as int, h2 as int),
{
    let band1 = 20 <= h1 && h1 <= 24;
    let band2 = 20 <= h2 && h2 <= 24;
    if band1 && band2 {
        order_of(h1, h2)
    } else if band1 {
        HeightOrder::Greater
    } else if band2 {
        HeightOrder::Less
    } else if h1 >= 25 && h2 >= 25 {
        order_of(h1 - 24, h2 - 24)
    } else if h1 >= 25 {
        HeightOrder::Less
    } else if h2 >= 25 {
        HeightOrder::Less
    } else {
        order_of(h1, h2)
    }
}

fn order_of(a: i32, b: i32) -> (order: HeightOrder)
    ensures
        order == plain_order(a as int, b as int),
{
    if a < b {
        HeightOrder::Less
    } else if a == b {
        HeightOrder::Equal
    } else {
        HeightOrder::Greater
    }
}

fn is_preferred_over(h1: i32, h2: i32) -> (r: bool)
    ensures
        r == prefers(h1 as int, h2 as int),
{
    let band1 = 20 <= h1 && h1 <= 24;
    let band2 = 20 <= h2 && h2 <= 24;
    if band1 != band2 {
        band1
    } else {
        h1 > h2
    }
}

/// `i` is the first position of the list whose pixmap no other pixmap of
/// the list is preferred to.
pub open spec fn is_preferred_choice(pixmaps: Seq<IconPixmap>, i: int) -> bool {
    &&& 0 <= i < pixmaps.len()
    &&& forall|j: int|
        0 <= j < pixmaps.len() ==> !prefers(
            #[trigger] pixmaps[j].height as int,
            pixmaps[i].height as int,
        )
    &&& forall|j: int|
        0 <= j < i ==> prefers(pixmaps[i].height as int, #[trigger] pixmaps[j].height as int)
}

/// Picks the pixmap to show: the first one that no other pixmap is
/// preferred to, or `None` when there is none to pick.
pub fn preferred_pixmap(pixmaps: &Vec<IconPixmap>) -> (choice: Option<usize>)
    ensures
        choice is None <==> pixmaps@.len() == 0,
        choice matches Some(i) ==> is_preferred_choice(pixmaps@, i as int),
{
    if pixmaps.len() == 0 {
        return None;
    }
    let mut best: usize = 0;
    let mut k: usize = 1;
    while k < pixmaps.len()
        invariant
            0 < k <= pixmaps@.len(),
            best < k,
            forall|j: int|
                0 <= j < k ==> !prefers(
                    #[trigger] pixmaps@[j].height as int,
                    pixmaps@[best as int].height as int,
                ),
            forall|j: int|
                0 <= j < best ==> prefers(
                    pixmaps@[best as int].height as int,
                    #[trigger] pixmaps@[j].height as int,
                ),
        decreases pixmaps@.len() - k,
    {
        if is_preferred_over(pixmaps[k].height, pixmaps[best].height) {
            best = k;
        }
        k = k + 1;
    }
    Some(best)
}

/// The byte of an ARGB buffer that lands at position `i` of the RGBA buffer:
/// red, green and blue move one place forward, alpha moves to the end.
pub open spec fn argb_source_index(i: int) -> int {
    if i % 4 == 3 {
        i - 3
    } else {
        i + 1
    }
}

/// The RGBA bytes of the first `count` pixels of an ARGB buffer.
pub open spec fn rgba_of_argb(argb: Seq<u8>, count: nat) -> Seq<u8> {
    Seq::new(4 * count, |i: int| argb[argb_source_index(i)])
}

/// The number of pixels of a pixmap.
pub open spec fn pixel_count(p: IconPixmap) -> int {
    p.width as int * p.height as int
}

/// The pixmap's dimensions are not negative, its buffer holds every pixel,
/// and every byte offset of a pixel fits an `i32`.
pub open spec fn pixmap_readable(p: IconPixmap) -> bool {
    &&& p.width >= 0
    &&& p.height >= 0
    &&& 4 * pixel_count(p) <= p.pixels@.len()
    &&& 4 * pixel_count(p) <= 0x8000_0000
}

/// Converts the pixmap's ARGB pixels into RGBA order, pixel by pixel.
pub fn argb_to_rgba(pixmap: &IconPixmap) -> (rgba: Vec<u8>)
    requires
        pixmap_readable(*pixmap),
    ensures
        rgba@ == rgba_of_argb(pixmap.pixels@, pixel_count(*pixmap) as nat),
{
    let w = pixmap.width as usize;
    let h = pixmap.height as usize;
    assert(0 <= w * h <= 0x2000_0000) by (nonlinear_arith)
        requires
            4 * (w * h) <= 0x8000_0000,
            w >= 0,
            h >= 0,
    ;
    let count: usize = w * h;
    let ghost argb = pixmap.pixels@;
    let mut rgba: Vec<u8> = Vec::new();
    let mut k: usize = 0;
    while k < count
        invariant
            count == pixel_count(*pixmap),
            count <= 0x2000_0000,
            4 * count <= argb.len(),
            argb == pixmap.pixels@,
            k <= count,
            rgba@ == rgba_of_argb(argb, k as nat),
        decreases count - k,
    {
        let base = 4 * k;
        let a = pixmap.pixels[base];
        let r = pixmap.pixels[base + 1];
        let g = pixmap.pixels[base + 2];
        let b = pixmap.pixels[base + 3];
        rgba.push(r);
        rgba.push(g);
        rgba.push(b);
        rgba.push(a);
        proof {
            let next = rgba_of_argb(argb, (k + 1) as nat);
            assert forall|i: int| 0 <= i < 4 * (k + 1) implies rgba@[i] == next[i] by {
                if i >= 4 * k {
                    assert(argb_source_index(i) == if i == 4 * k + 3 { 4 * k as int } else { i + 1 });
                }
            }
            assert(rgba@ =~= next);
        }
        k = k + 1;
    }
    rgba
}

/// An image ready to draw: `width` by `height` pixels, four bytes per pixel
/// in RGBA order, rows one after another.
#[derive(Clone, Debug)]
pub struct PixmapImage {
    pub width: i32,
    pub height: i32,
    pub rgba: Vec<u8>,
}

/// The pixmap can be drawn: it has an area, its buffer holds every pixel,
/// and every byte offset of a pixel fits an `i32`.
pub open spec fn pixmap_drawable(p: IconPixmap) -> bool {
    &&& p.width > 0
    &&& p.height > 0
    &&& pixmap_readable(p)
}

/// The outcome of drawing the pixmap at `i` of the list.
pub open spec fn image_of(pixmaps: Seq<IconPixmap>, i: int, image: PixmapImage) -> bool {
    &&& image.width == pixmaps[i].width
    &&& image.height == pixmaps[i].height
    &&& image.rgba@ == rgba_of_argb(pixmaps[i].pixels@, pixel_count(pixmaps[i]) as nat)
}

/// The image a tray item's pixmaps give: the preferred pixmap converted to
/// RGBA. There must be a pixmap, and the chosen one must be drawable.
pub fn pixmap_image(pixmaps: &Vec<IconPixmap>) -> (image: PixmapImage)
    requires
        pixmaps@.len() > 0,
        forall|i: int| #[trigger]
            is_preferred_choice(pixmaps@, i) ==> pixmap_drawable(pixmaps@[i]),
    ensures
        exists|i: int| #[trigger] is_preferred_choice(pixmaps@, i) && image_of(pixmaps@, i, image),
{
    match preferred_pixmap(pixmaps) {
        Some(i) => {
            let p = &pixmaps[i];
            let rgba = argb_to_rgba(p);
            let image = PixmapImage { width: p.width, height: p.height, rgba };
            assert(is_preferred_choice(pixmaps@, i as int) && image_of(pixmaps@, i as int, image));
            image
        },
        None => {
            assert(false);
            PixmapImage { width: 0, height: 0, rgba: Vec::new() }
        },
    }
}

/// A list has at most one preferred choice.
pub proof fn lemma_preferred_choice_unique(pixmaps: Seq<IconPixmap>, i: int, j: int)
    requires
        is_preferred_choice(pixmaps, i),
        is_preferred_choice(pixmaps, j),
    ensures
        i == j,
{
    if i < j {
        assert(prefers(pixmaps[j].height as int, pixmaps[i].height as int));
    } else if j < i {
        assert(prefers(pixmaps[i].height as int, pixmaps[j].height as int));
    }
}

/// On two heights that are not one above the band and one below it, the
/// height comparison agrees with the preference: `Greater` exactly when the
/// first is preferred, `Less` exactly when the second is, `Equal` exactly
/// when they are the same.
pub proof fn lemma_height_order_agrees_with_preference(h1: int, h2: int)
    requires
        comparable_heights(h1, h2),
    ensures
        (height_order(h1, h2) == HeightOrder::Greater) <==> prefers(h1, h2),
        (height_order(h1, h2) == HeightOrder::Less) <==> prefers(h2, h1),
        (height_order(h1, h2) == HeightOrder::Equal) <==> h1 == h2,
{
}

/// A height above the band and one below it each compare as `Less` than
/// the other, so the comparison is no ordering on lists that hold both.
pub proof fn lemma_height_order_conflict(above: int, below: int)
    requires
        above >= 25,
        below < 20,
    ensures
        height_order(above, below) == HeightOrder::Less,
        height_order(below, above) == HeightOrder::Less,
{
}

/// The preference is a strict total order on heights.
pub proof fn lemma_preference_is_strict_total_order(a: int, b: int, c: int)
    ensures
        !prefers(a, a),
        prefers(a, b) ==> !prefers(b, a),
        prefers(a, b) && prefers(b, c) ==> prefers(a, c),
        a != b ==> prefers(a, b) || prefers(b, a),
{
}

/// When no two heights of the list conflict, the chosen pixmap compares
/// as no smaller than any pixmap of the list: it is the one that sorting
/// the list by height comparison puts last.
pub proof fn lemma_preferred_choice_is_greatest(pixmaps: Seq<IconPixmap>, i: int)
    requires
        consistently_ordered(pixmaps),
        is_preferred_choice(pixmaps, i),
    ensures
        forall|j: int|
            0 <= j < pixmaps.len() ==> height_order(
                pixmaps[i].height as int,
                #[trigger] pixmaps[j].height as int,
            ) != HeightOrder::Less,
{
    assert forall|j: int| 0 <= j < pixmaps.len() implies height_order(
        pixmaps[i].height as int,
        #[trigger] pixmaps[j].height as int,
    ) != HeightOrder::Less by {
        lemma_height_order_agrees_with_preference(
            pixmaps[i].height as int,
            pixmaps[j].height as int,
        );
    }
}

/// When some pixmap of the list has a height in the band, the chosen one
/// has too, and it is the tallest of those in the band.
pub proof fn lemma_preferred_choice_in_band(pixmaps: Seq<IconPixmap>, i: int, j: int)
    requires
        is_preferred_choice(pixmaps, i),
        0 <= j < pixmaps.len(),
        in_preferred_band(pixmaps[j].height as int),
    ensures
        in_preferred_band(pixmaps[i].height as int),
        pixmaps[j].height <= pixmaps[i].height,
{
}

/// Pixel `k` of the converted buffer holds the red, green, blue and alpha
/// bytes of pixel `k` of the ARGB buffer.
pub proof fn lemma_rgba_pixel(argb: Seq<u8>, count: nat, k: int)
    requires
        0 <= k < count,
        4 * count <= argb.len(),
    ensures
        rgba_of_argb(argb, count)[4 * k] == argb[4 * k + 1],
        rgba_of_argb(argb, count)[4 * k + 1] == argb[4 * k + 2],
        rgba_of_argb(argb, count)[4 * k + 2] == argb[4 * k + 3],
        rgba_of_argb(argb, count)[4 * k + 3] == argb[4 * k],
{
    assert(argb_source_index(4 * k) == 4 * k + 1);
    assert(argb_source_index(4 * k + 1) == 4 * k + 2);
    assert(argb_source_index(4 * k + 2) == 4 * k + 3);
    assert(argb_source_index(4 * k + 3) == 4 * k);
}

} // verus!

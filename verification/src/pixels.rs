use vstd::prelude::*;

verus! {

/// Size of a 2D texture as the GPU sees it; `depth_or_array_layers` is always 1 here.
#[derive(Clone, Copy, Debug, PartialEq, Eq)]
pub struct TextureExtent {
    pub width: u32,
    pub height: u32,
    pub depth_or_array_layers: u32,
}

/// Extent of a captured frame of `width` x `height` pixels.  The pixel counts are
/// narrowed to `u32` with truncation, as a numeric cast does.
pub fn texture_extent(width: usize, height: usize) -> (r: TextureExtent)
    ensures
        r.width == width as u32,
        r.height == height as u32,
        r.depth_or_array_layers == 1,
{
    TextureExtent { width: width as u32, height: height as u32, depth_or_array_layers: 1 }
}

/// Bytes in one row of a BGRA texture of the given width (four bytes per pixel).
pub fn bytes_per_row(width: u32) -> (r: u32)
    requires
        4 * width <= u32::MAX,
    ensures
        r == 4 * width,
{
    4 * width
}

/// The bytes of a sequence of 4-byte pixels, laid out pixel after pixel.
pub open spec fn pixel_bytes(pixels: Seq<[u8; 4]>) -> Seq<u8> {
    Seq::new(4 * pixels.len(), |j: int| pixels[j / 4]@[j % 4])
}

/// Concatenates the pixels of a frame into one byte buffer, pixel after pixel.
pub fn flatten_pixels(pixels: &[[u8; 4]]) -> (r: Vec<u8>)
    requires
        4 * pixels@.len() <= usize::MAX,
    ensures
        r@ == pixel_bytes(pixels@),
        r@.len() == 4 * pixels@.len(),
        forall|p: int, c: int|
            0 <= p < pixels@.len() && 0 <= c < 4 ==> #[trigger] r@[4 * p + c] == pixels@[p]@[c],
{
    let n = pixels.len();
    let mut out: Vec<u8> = Vec::with_capacity(4 * n);
    let mut i: usize = 0;
    while i < n
        invariant
            n == pixels@.len(),
            4 * n <= usize::MAX,
            i <= n,
            out@.len() == 4 * i,
            forall|j: int| 0 <= j < 4 * i ==> out@[j] == #[trigger] pixels@[j / 4]@[j % 4],
        decreases n - i,
    {
        let px: [u8; 4] = pixels[i];
        let mut k: usize = 0;
        while k < 4
            invariant
                n == pixels@.len(),
                i < n,
                k <= 4,
                px@ == pixels@[i as int]@,
                out@.len() == 4 * i + k,
                forall|j: int| 0 <= j < 4 * i + k ==> out@[j] == #[trigger] pixels@[j / 4]@[j % 4],
            decreases 4 - k,
        {
            out.push(px[k]);
            proof {
                let j = 4 * i + k;
                assert(j / 4 == i && j % 4 == k);
            }
            k = k + 1;
        }
        i = i + 1;
    }
    assert(out@ =~= pixel_bytes(pixels@));
    proof {
        lemma_pixel_bytes_layout(pixels@);
    }
    out
}

/// Byte `c` of pixel `p` lands at position `4 * p + c`, and there are four bytes per
/// pixel.
pub proof fn lemma_pixel_bytes_layout(pixels: Seq<[u8; 4]>)
    ensures
        pixel_bytes(pixels).len() == 4 * pixels.len(),
        forall|p: int, c: int|
            0 <= p < pixels.len() && 0 <= c < 4 ==> #[trigger] pixel_bytes(pixels)[4 * p + c]
                == pixels[p]@[c],
{
    assert forall|p: int, c: int| 0 <= p < pixels.len() && 0 <= c < 4 implies #[trigger] pixel_bytes(
        pixels,
    )[4 * p + c] == pixels[p]@[c] by {
        let j = 4 * p + c;
        assert(j / 4 == p && j % 4 == c);
    }
}

/// The bytes of two runs of pixels, one after the other, are the bytes of the first
/// run followed by the bytes of the second: packing is concatenation.
pub proof fn lemma_pixel_bytes_append(a: Seq<[u8; 4]>, b: Seq<[u8; 4]>)
    ensures
        pixel_bytes(a + b) == pixel_bytes(a) + pixel_bytes(b),
{
    let ab = a + b;
    assert forall|j: int| 0 <= j < 4 * ab.len() implies #[trigger] pixel_bytes(ab)[j] == (
    pixel_bytes(a) + pixel_bytes(b))[j] by {
        if j < 4 * a.len() {
            assert(j / 4 < a.len());
        } else {
            let k = j - 4 * a.len();
            assert(k / 4 == j / 4 - a.len() && k % 4 == j % 4);
        }
    }
    assert(pixel_bytes(ab) =~= pixel_bytes(a) + pixel_bytes(b));
}

/// A single pixel packs to its own four bytes, in order.
pub proof fn lemma_pixel_bytes_single(px: [u8; 4])
    ensures
        pixel_bytes(seq![px]) == px@,
{
    assert(px@.len() == 4);
    assert forall|j: int| 0 <= j < 4 implies #[trigger] pixel_bytes(seq![px])[j] == px@[j] by {
        assert(j / 4 == 0 && j % 4 == j);
    }
    assert(pixel_bytes(seq![px]) =~= px@);
}

} // verus!

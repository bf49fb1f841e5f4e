//! Settings and arithmetic of the perceptual image comparison.

use vstd::prelude::*;

verus! {

/// Perceptual hashes of images scaled to a square of `hash_size` pixels.
pub struct ImageSimilarity {
    pub hash_size: u32,
}

/// How many positions below the shorter length hold different values.
pub open spec fn differing(a: Seq<u8>, b: Seq<u8>, n: int) -> nat
    decreases n,
{
    if n <= 0 {
        0
    } else {
        differing(a, b, n - 1) + if a[n - 1] != b[n - 1] {
            1nat
        } else {
            0nat
        }
    }
}

/// The shorter of two lengths.
pub open spec fn shorter(a: Seq<u8>, b: Seq<u8>) -> int {
    if a.len() < b.len() {
        a.len() as int
    } else {
        b.len() as int
    }
}

impl ImageSimilarity {
    /// Hashes of 8 by 8 pixels.
    pub fn new() -> (r: Self)
        ensures
            r.hash_size == 8,
    {
        ImageSimilarity { hash_size: 8 }
    }

    pub fn with_hash_size(self, size: u32) -> (r: Self)
        ensures
            r.hash_size == size,
    {
        ImageSimilarity { hash_size: size }
    }

    /// The number of positions at which two hashes differ, over the length
    /// of the shorter one, as a `u32` (wrapping).
    pub fn hamming_distance(&self, hash1: &[u8], hash2: &[u8]) -> (r: u32)
        ensures
            r as nat == differing(hash1@, hash2@, shorter(hash1@, hash2@)) % 0x1_0000_0000,
    {
        let n = if hash1.len() < hash2.len() {
            hash1.len()
        } else {
            hash2.len()
        };
        let mut count: usize = 0;
        let mut i: usize = 0;
        while i < n
            invariant
                n == shorter(hash1@, hash2@),
                i <= n,
                count == differing(hash1@, hash2@, i as int),
                count <= i,
            decreases n - i,
        {
            if hash1[i] != hash2[i] {
                count += 1;
            }
            i += 1;
        }
        let wrapped: u64 = (count as u64) % 0x1_0000_0000;
        wrapped as u32
    }
}

/// The sum of the first `n` values of `p`.
pub open spec fn pixel_sum(p: Seq<u8>, n: int) -> int
    decreases n,
{
    if n <= 0 {
        0
    } else {
        pixel_sum(p, n - 1) + p[n - 1]
    }
}

/// The average-hash bit of a pixel: 1 when it is at least the average
/// `avg`, else 0.
pub open spec fn hash_bit(pixel: u8, avg: int) -> u8 {
    if pixel as int >= avg {
        1
    } else {
        0
    }
}

impl ImageSimilarity {
    /// The perceptual hash of an image already scaled to `hash_size` by
    /// `hash_size` gray pixels: one bit per pixel, set where the pixel is at
    /// least the (integer) average of all pixels.
    pub fn average_hash(&self, pixels: &Vec<u8>) -> (r: Vec<u8>)
        requires
            self.hash_size > 0,
            pixels@.len() == self.hash_size * self.hash_size,
        ensures
            r@.len() == pixels@.len(),
            forall|i: int|
                0 <= i < r@.len() ==> #[trigger] r@[i] == hash_bit(
                    pixels@[i],
                    pixel_sum(pixels@, pixels@.len() as int) / pixels@.len() as int,
                ),
    {
        let n = pixels.len();
        let mut sum: u128 = 0;
        let mut i: usize = 0;
        while i < n
            invariant
                n == pixels@.len(),
                i <= n,
                sum == pixel_sum(pixels@, i as int),
                sum <= 255 * i,
            decreases n - i,
        {
            sum = sum + pixels[i] as u128;
            i += 1;
        }
        assert(n > 0) by (nonlinear_arith)
            requires
                n == self.hash_size * self.hash_size,
                self.hash_size > 0,
        ;
        let avg: u128 = sum / (n as u128);
        let mut r: Vec<u8> = Vec::new();
        let mut j: usize = 0;
        while j < n
            invariant
                n == pixels@.len(),
                n > 0,
                j <= n,
                r@.len() == j,
                avg == pixel_sum(pixels@, n as int) / n as int,
                forall|k: int| 0 <= k < j ==> #[trigger] r@[k] == hash_bit(pixels@[k], avg as int),
            decreases n - j,
        {
            if pixels[j] as u128 >= avg {
                r.push(1);
            } else {
                r.push(0);
            }
            j += 1;
        }
        r
    }
}

/// The gray level of pixel `k` of interleaved RGB bytes: the integer mean of
/// its three channels.
pub open spec fn gray_of(rgb: Seq<u8>, k: int) -> int {
    (rgb[3 * k] + rgb[3 * k + 1] + rgb[3 * k + 2]) / 3
}

/// How many of the first `n` pixels have gray level `g`.
pub open spec fn gray_count(rgb: Seq<u8>, n: int, g: int) -> nat
    decreases n,
{
    if n <= 0 {
        0
    } else {
        gray_count(rgb, n - 1, g) + if gray_of(rgb, n - 1) == g {
            1nat
        } else {
            0nat
        }
    }
}

/// Colour-histogram comparison.
pub struct HistogramSimilarity;

impl HistogramSimilarity {
    pub fn new() -> (r: Self) {
        HistogramSimilarity
    }

    /// The gray-level histogram of interleaved RGB bytes: for each of the 256
    /// levels, how many pixels have it.
    pub fn compute_histogram(rgb: &Vec<u8>) -> (r: Vec<u32>)
        requires
            rgb@.len() % 3 == 0,
            rgb@.len() / 3 <= u32::MAX,
        ensures
            r@.len() == 256,
            forall|g: int| 0 <= g < 256 ==> #[trigger] r@[g] == gray_count(rgb@, (rgb@.len() / 3) as int, g),
    {
        let len = rgb.len();
        let pixels = len / 3;
        let mut histogram: Vec<u32> = vec![0u32; 256];
        let mut k: usize = 0;
        while k < pixels
            invariant
                len == rgb@.len(),
                pixels == rgb@.len() / 3,
                rgb@.len() % 3 == 0,
                pixels <= u32::MAX,
                k <= pixels,
                histogram@.len() == 256,
                forall|g: int| 0 <= g < 256 ==> #[trigger] histogram@[g] == gray_count(rgb@, k as int, g),
                forall|g: int| 0 <= g < 256 ==> #[trigger] gray_count(rgb@, k as int, g) <= k,
            decreases pixels - k,
        {
            assert(3 * k + 2 < rgb@.len()) by (nonlinear_arith)
                requires
                    k < pixels,
                    pixels == rgb@.len() / 3,
                    rgb@.len() % 3 == 0,
            ;
            let base: usize = 3 * k;
            let gray = ((rgb[base] as usize) + (rgb[base + 1] as usize) + (rgb[base + 2]
                as usize)) / 3;
            assert(gray == gray_of(rgb@, k as int));
            assert(histogram@[gray as int] == gray_count(rgb@, k as int, gray as int));
            histogram[gray] = histogram[gray] + 1;
            proof {
                assert forall|g: int| 0 <= g < 256 implies #[trigger] histogram@[g] == gray_count(
                    rgb@,
                    k + 1,
                    g,
                ) by {
                    assert(gray_count(rgb@, k + 1, g) == gray_count(rgb@, k as int, g) + if gray_of(
                        rgb@,
                        k as int,
                    ) == g {
                        1nat
                    } else {
                        0nat
                    });
                }
                assert forall|g: int| 0 <= g < 256 implies #[trigger] gray_count(rgb@, k + 1, g)
                    <= k + 1 by {
                    assert(gray_count(rgb@, k + 1, g) == gray_count(rgb@, k as int, g) + if gray_of(
                        rgb@,
                        k as int,
                    ) == g {
                        1nat
                    } else {
                        0nat
                    });
                }
            }
            k += 1;
        }
        histogram
    }
}

} // verus!

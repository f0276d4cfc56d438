use vstd::prelude::*;
use vstd::arithmetic::div_mod::lemma_fundamental_div_mod_converse;
use crate::color::Rgb;
use crate::color::average_spec;
use crate::color::average_colors;

verus! {

/// The colors of the antialiasing sub-grid that pixel (x, y) owns: its
/// aa-by-aa block of the sub-grid, whose rows are `sub_width` colors
/// wide, gathered column offset outer and row offset inner.
pub open spec fn pixel_samples(sub: Seq<Rgb>, sub_width: int, aa: int, x: int, y: int) -> Seq<
    Rgb,
> {
    Seq::new((aa * aa) as nat, (|k: int| sub[(y * aa + k % aa) * sub_width + (x * aa + k / aa)]))
}

/// A pixel strictly earlier in row-major order has a strictly smaller
/// row-major index.
proof fn lemma_row_major_below(px: int, py: int, x: int, y: int, width: int)
    by (nonlinear_arith)
    requires
        0 <= px < width,
        0 <= py,
        0 <= x,
        py < y || (py == y && px < x),
    ensures
        py * width + px < y * width + x,
{
}

/// A sub-grid cell of a pixel in range lies inside the sub-grid buffer.
proof fn lemma_sub_index_bound(x: int, y: int, i: int, j: int, width: int, height: int, aa: int)
    by (nonlinear_arith)
    requires
        0 <= x < width,
        0 <= y < height,
        0 <= i < aa,
        0 <= j < aa,
    ensures
        0 <= (y * aa + j) * (width * aa) + (x * aa + i) < (width * aa) * (height * aa),
        x * aa + i < width * aa,
        y * aa + j < height * aa,
{
}

/// Gathers each pixel's aa-by-aa block of sub-grid colors and averages
/// it into that pixel's cell of the final width-by-height image, in
/// row-major order. Every cell is written exactly once, and what it
/// holds is pinned: the truncated channel-wise average of the block.
#[verifier::loop_isolation(false)]
pub fn assemble_image(width: usize, height: usize, aa: usize, sub_colors: &Vec<Rgb>) -> (img: Vec<
    Rgb,
>)
    requires
        1 <= width,
        1 <= height,
        1 <= aa,
        aa * aa <= 257,
        sub_colors@.len() == (width * aa) * (height * aa),
    ensures
        img@.len() == width * height,
        forall|x: int, y: int|
            0 <= x < width && 0 <= y < height ==> img@[y * width + x] == average_spec(
                #[trigger] pixel_samples(sub_colors@, width as int * aa, aa as int, x, y),
            ),
{
    let slen: usize = sub_colors.len();
    proof {
        assert(width * aa <= (width * aa) * (height * aa) && height * aa <= (width * aa) * (height
            * aa) && 1 <= aa * aa) by (nonlinear_arith)
            requires
                1 <= width && 1 <= height && 1 <= aa,
        ;
    }
    let sub_width: usize = width * aa;
    let mut img: Vec<Rgb> = Vec::new();
    let mut y: usize = 0;
    while y < height
        invariant
            y <= height,
            img@.len() == y * width,
            forall|px: int, py: int|
                0 <= px < width && 0 <= py < y ==> img@[py * width + px] == average_spec(
                    #[trigger] pixel_samples(sub_colors@, width as int * aa, aa as int, px, py),
                ),
        decreases height - y,
    {
        let mut x: usize = 0;
        while x < width
            invariant
                x <= width,
                y < height,
                img@.len() == y * width + x,
                forall|px: int, py: int|
                    0 <= px < width && (0 <= py < y || (py == y && 0 <= px < x)) ==> img@[py * width
                        + px] == average_spec(
                        #[trigger] pixel_samples(sub_colors@, width as int * aa, aa as int, px, py),
                    ),
            decreases width - x,
        {
            let ghost block = pixel_samples(sub_colors@, width as int * aa, aa as int, x as int,
                y as int);
            let mut samples: Vec<Rgb> = Vec::new();
            let mut i: usize = 0;
            while i < aa
                invariant
                    i <= aa,
                    x < width,
                    y < height,
                    samples@.len() == i * aa,
                    forall|k: int| 0 <= k < samples@.len() ==> samples@[k] == block[k],
                decreases aa - i,
            {
                let mut j: usize = 0;
                while j < aa
                    invariant
                        i < aa,
                        j <= aa,
                        x < width,
                        y < height,
                        samples@.len() == i * aa + j,
                        forall|k: int| 0 <= k < samples@.len() ==> samples@[k] == block[k],
                    decreases aa - j,
                {
                    proof {
                        lemma_sub_index_bound(x as int, y as int, i as int, j as int, width as int,
                            height as int, aa as int);
                    }
                    let sx: usize = x * aa + i;
                    let sy: usize = y * aa + j;
                    let idx: usize = sy * sub_width + sx;
                    let c = sub_colors[idx];
                    proof {
                        let k: int = i as int * aa + j;
                        lemma_fundamental_div_mod_converse(k, aa as int, i as int, j as int);
                        assert(0 <= k < aa * aa) by (nonlinear_arith)
                            requires
                                0 <= i < aa && 0 <= j < aa && k == i * aa + j,
                        ;
                        assert(block[k] == c);
                    }
                    samples.push(c);
                    j = j + 1;
                }
                proof {
                    assert(i * aa + aa == (i + 1) * aa) by (nonlinear_arith);
                }
                i = i + 1;
            }
            proof {
                assert(samples@ =~= block);
            }
            let avg = average_colors(&samples);
            proof {
                assert(img@.len() == y * width + x);
                assert forall|px: int, py: int|
                    0 <= px < width && (0 <= py < y || (py == y && 0 <= px < x + 1)) implies img@.push(
                    avg,
                )[py * width + px] == average_spec(
                    #[trigger] pixel_samples(sub_colors@, width as int * aa, aa as int, px, py),
                ) by {
                    if py < y || px < x {
                        lemma_row_major_below(px, py, x as int, y as int, width as int);
                    } else {
                        assert(px == x && py == y);
                    }
                }
            }
            img.push(avg);
            x = x + 1;
        }
        proof {
            assert(y * width + width == (y + 1) * width) by (nonlinear_arith);
        }
        y = y + 1;
    }
    proof {
        assert(height * width == width * height) by (nonlinear_arith);
    }
    img
}

} // verus!

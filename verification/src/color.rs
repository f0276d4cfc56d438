use vstd::prelude::*;

verus! {

/// An 8-bit RGB color.
#[derive(Clone, Copy, Debug, PartialEq, Eq)]
pub struct Rgb {
    pub r: u8,
    pub g: u8,
    pub b: u8,
}

/// Sum of the red channel over a sequence of colors.
pub open spec fn sum_red(s: Seq<Rgb>) -> int
    decreases s.len(),
{
    if s.len() == 0 {
        0
    } else {
        sum_red(s.drop_last()) + s.last().r
    }
}

/// Sum of the green channel over a sequence of colors.
pub open spec fn sum_green(s: Seq<Rgb>) -> int
    decreases s.len(),
{
    if s.len() == 0 {
        0
    } else {
        sum_green(s.drop_last()) + s.last().g
    }
}

/// Sum of the blue channel over a sequence of colors.
pub open spec fn sum_blue(s: Seq<Rgb>) -> int
    decreases s.len(),
{
    if s.len() == 0 {
        0
    } else {
        sum_blue(s.drop_last()) + s.last().b
    }
}

/// The channel-wise integer average of a batch of colors: each channel
/// sum divided by the batch size, truncated.
pub open spec fn average_spec(s: Seq<Rgb>) -> Rgb {
    Rgb {
        r: (sum_red(s) / s.len() as int) as u8,
        g: (sum_green(s) / s.len() as int) as u8,
        b: (sum_blue(s) / s.len() as int) as u8,
    }
}

/// Each channel sum lies between 0 and 255 times the batch size.
pub proof fn lemma_sum_bounds(s: Seq<Rgb>)
    ensures
        0 <= sum_red(s) <= 255 * s.len(),
        0 <= sum_green(s) <= 255 * s.len(),
        0 <= sum_blue(s) <= 255 * s.len(),
    decreases s.len(),
{
    if s.len() == 0 {
    } else {
        lemma_sum_bounds(s.drop_last());
    }
}

/// Extending a prefix by one color adds that color's channels to the sums.
proof fn lemma_sum_take_step(s: Seq<Rgb>, k: int)
    requires
        0 <= k < s.len(),
    ensures
        sum_red(s.take(k + 1)) == sum_red(s.take(k)) + s[k].r,
        sum_green(s.take(k + 1)) == sum_green(s.take(k)) + s[k].g,
        sum_blue(s.take(k + 1)) == sum_blue(s.take(k)) + s[k].b,
{
    assert(s.take(k + 1).drop_last() =~= s.take(k));
    assert(s.take(k + 1).last() == s[k]);
}

/// Channel-wise average of a batch of colors, integer-truncated. The
/// 16-bit accumulators bound the batch to 257 colors (255 * 257 still
/// fits in a u16), which covers every antialiasing factor up to 16.
#[verifier::loop_isolation(false)]
pub fn average_colors(colors: &Vec<Rgb>) -> (r: Rgb)
    requires
        1 <= colors@.len() <= 257,
    ensures
        r == average_spec(colors@),
{
    let mut acc_r: u16 = 0;
    let mut acc_g: u16 = 0;
    let mut acc_b: u16 = 0;
    let mut i: usize = 0;
    while i < colors.len()
        invariant
            i <= colors@.len(),
            acc_r == sum_red(colors@.take(i as int)),
            acc_g == sum_green(colors@.take(i as int)),
            acc_b == sum_blue(colors@.take(i as int)),
        decreases colors@.len() - i,
    {
        proof {
            lemma_sum_bounds(colors@.take(i as int));
            lemma_sum_take_step(colors@, i as int);
            assert(colors@.take(i as int).len() == i);
        }
        let c = colors[i];
        acc_r = acc_r + c.r as u16;
        acc_g = acc_g + c.g as u16;
        acc_b = acc_b + c.b as u16;
        i = i + 1;
    }
    proof {
        assert(colors@.take(colors@.len() as int) =~= colors@);
        lemma_sum_bounds(colors@);
        assert(sum_red(colors@) / colors@.len() as int <= 255) by (nonlinear_arith)
            requires
                0 <= sum_red(colors@) <= 255 * colors@.len(),
                1 <= colors@.len(),
        ;
        assert(sum_green(colors@) / colors@.len() as int <= 255) by (nonlinear_arith)
            requires
                0 <= sum_green(colors@) <= 255 * colors@.len(),
                1 <= colors@.len(),
        ;
        assert(sum_blue(colors@) / colors@.len() as int <= 255) by (nonlinear_arith)
            requires
                0 <= sum_blue(colors@) <= 255 * colors@.len(),
                1 <= colors@.len(),
        ;
    }
    let len16: u16 = colors.len() as u16;
    Rgb { r: (acc_r / len16) as u8, g: (acc_g / len16) as u8, b: (acc_b / len16) as u8 }
}

/// Each channel sum over a uniform batch is the batch size times that
/// channel of the repeated color.
proof fn lemma_sum_uniform(c: Rgb, len: nat)
    ensures
        sum_red(Seq::new(len, (|k: int| c))) == len * c.r,
        sum_green(Seq::new(len, (|k: int| c))) == len * c.g,
        sum_blue(Seq::new(len, (|k: int| c))) == len * c.b,
    decreases len,
{
    if len == 0 {
    } else {
        assert(Seq::new(len, (|k: int| c)).drop_last() =~= Seq::new((len - 1) as nat, (|k: int| c)));
        lemma_sum_uniform(c, (len - 1) as nat);
        assert((len - 1) * c.r + c.r == len * c.r) by (nonlinear_arith)
            requires
                1 <= len,
        ;
        assert((len - 1) * c.g + c.g == len * c.g) by (nonlinear_arith)
            requires
                1 <= len,
        ;
        assert((len - 1) * c.b + c.b == len * c.b) by (nonlinear_arith)
            requires
                1 <= len,
        ;
    }
}

/// Averaging any number of copies of one color gives that color back
/// unchanged: the channel sums are exact multiples of the batch size, so
/// the truncating division loses nothing.
pub proof fn lemma_average_uniform(c: Rgb, len: nat)
    requires
        1 <= len,
    ensures
        average_spec(Seq::new(len, (|k: int| c))) == c,
{
    lemma_sum_uniform(c, len);
    assert(Seq::new(len, (|k: int| c)).len() == len);
    assert((len * c.r) / len as int == c.r) by (nonlinear_arith)
        requires
            1 <= len,
    ;
    assert((len * c.g) / len as int == c.g) by (nonlinear_arith)
        requires
            1 <= len,
    ;
    assert((len * c.b) / len as int == c.b) by (nonlinear_arith)
        requires
            1 <= len,
    ;
}

/// Final color selection: a sample that spent the full iteration budget
/// is inside the set and is painted black, whatever orbit value came
/// with it; an escaping sample takes the caller-computed HSV color with
/// its red and blue channels swapped — the palette choice baked into
/// this coloring scheme.
pub fn color(n: u32, max_iterations: u32, escape_rgb: Rgb) -> (r: Rgb)
    ensures
        n == max_iterations ==> r == (Rgb { r: 0, g: 0, b: 0 }),
        n != max_iterations ==> r == (Rgb { r: escape_rgb.b, g: escape_rgb.g, b: escape_rgb.r }),
{
    if n == max_iterations {
        Rgb { r: 0, g: 0, b: 0 }
    } else {
        Rgb { r: escape_rgb.b, g: escape_rgb.g, b: escape_rgb.r }
    }
}

} // verus!

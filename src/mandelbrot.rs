use vstd::prelude::*;

use crate::gradient::{gradient, gradient_spec};

verus! {

/// Escape-time settings: the iteration budget, at least one step.
#[derive(Clone, Copy)]
pub struct Mandelbrot {
    iters: usize,
}

/// Outcome of the escape-time iteration for one sample point.
#[derive(Clone, Copy, PartialEq, Eq, Structural, Debug)]
pub enum EscapeResult {
    /// The orbit left the radius-2 disc at this step (1-indexed).
    Escaped(usize),
    /// The orbit stayed within the disc for the whole budget.
    Bounded,
}

/// Whether an escape result can come from a run with this budget.
pub open spec fn result_within(r: EscapeResult, budget: int) -> bool {
    match r {
        EscapeResult::Escaped(k) => 1 <= k <= budget,
        EscapeResult::Bounded => true,
    }
}

/// The colour of one pixel, as channel values.
pub open spec fn color_spec(r: EscapeResult, budget: int) -> (int, int, int) {
    match r {
        EscapeResult::Escaped(k) => gradient_spec(k as int, budget),
        EscapeResult::Bounded => (0, 0, 0),
    }
}

/// The three bytes (red, green, blue) of one pixel.
pub open spec fn pixel_bytes(r: EscapeResult, budget: int) -> Seq<u8> {
    let c = color_spec(r, budget);
    seq![c.0 as u8, c.1 as u8, c.2 as u8]
}

/// The row-major RGB bytes of a run of pixels.
pub open spec fn colors_of(rs: Seq<EscapeResult>, budget: int) -> Seq<u8>
    decreases rs.len(),
{
    if rs.len() == 0 {
        Seq::empty()
    } else {
        colors_of(rs.drop_last(), budget) + pixel_bytes(rs.last(), budget)
    }
}

/// The colours of a concatenation are the concatenation of the colours.
pub proof fn lemma_colors_of_concat(a: Seq<EscapeResult>, b: Seq<EscapeResult>, budget: int)
    ensures
        colors_of(a + b, budget) == colors_of(a, budget) + colors_of(b, budget),
    decreases b.len(),
{
    if b.len() == 0 {
        assert(a + b =~= a);
        assert(colors_of(a, budget) + colors_of(b, budget) =~= colors_of(a, budget));
    } else {
        lemma_colors_of_concat(a, b.drop_last(), budget);
        assert((a + b).drop_last() =~= a + b.drop_last());
        assert((a + b).last() == b.last());
        assert(colors_of(a, budget) + colors_of(b.drop_last(), budget) + pixel_bytes(b.last(), budget)
            =~= colors_of(a, budget) + (colors_of(b.drop_last(), budget) + pixel_bytes(b.last(), budget)));
    }
}

impl Mandelbrot {
    pub closed spec fn budget(&self) -> int {
        self.iters as int
    }

    pub closed spec fn wf(&self) -> bool {
        self.iters >= 1
    }

    /// Settings with the given budget; `None` for a zero budget.
    pub fn new(iters: usize) -> (r: Option<Mandelbrot>)
        ensures
            iters == 0 <==> r is None,
            r matches Some(m) ==> m.wf() && m.budget() == iters,
    {
        if iters == 0 {
            None
        } else {
            Some(Mandelbrot { iters })
        }
    }

    pub fn iters(&self) -> (r: usize)
        ensures
            r == self.budget(),
    {
        self.iters
    }

    /// The colour of one pixel: black for a bounded orbit, else the gradient
    /// at `t = k / budget`.
    pub fn colorize(&self, r: EscapeResult) -> (c: (u8, u8, u8))
        requires
            self.wf(),
            result_within(r, self.budget()),
        ensures
            (c.0 as int, c.1 as int, c.2 as int) == color_spec(r, self.budget()),
    {
        match r {
            EscapeResult::Escaped(k) => gradient(k, self.iters),
            EscapeResult::Bounded => (0, 0, 0),
        }
    }

    /// The RGB bytes of a run of pixels, three per pixel, in order.
    pub fn colorize_run(&self, rs: &Vec<EscapeResult>) -> (out: Vec<u8>)
        requires
            self.wf(),
            forall|i: int| 0 <= i < rs@.len() ==> result_within(#[trigger] rs@[i], self.budget()),
        ensures
            out@ == colors_of(rs@, self.budget()),
    {
        let mut out: Vec<u8> = Vec::new();
        let mut i: usize = 0;
        while i < rs.len()
            invariant
                self.wf(),
                i <= rs@.len(),
                forall|j: int| 0 <= j < rs@.len() ==> result_within(#[trigger] rs@[j], self.budget()),
                out@ == colors_of(rs@.subrange(0, i as int), self.budget()),
            decreases rs.len() - i,
        {
            let c = self.colorize(rs[i]);
            proof {
                let pre = rs@.subrange(0, i as int);
                let next = rs@.subrange(0, i + 1);
                assert(next.drop_last() =~= pre);
                assert(next.last() == rs@[i as int]);
                crate::gradient::lemma_color_range(rs@[i as int], self.budget());
            }
            out.push(c.0);
            out.push(c.1);
            out.push(c.2);
            assert(out@ =~= colors_of(rs@.subrange(0, i + 1), self.budget()));
            i = i + 1;
        }
        assert(rs@.subrange(0, rs@.len() as int) =~= rs@);
        out
    }
}

/// Viewport aspect handling of the coordinate mapping.
#[derive(Clone, Copy)]
pub enum Aspect {
    /// Both axes span the full radius.
    Default,
    /// Shrink the shorter viewport dimension's axis so that pixels are square.
    InAccordenceWith((u32, u32)),
}

impl Aspect {
    pub open spec fn valid(&self) -> bool {
        match *self {
            Aspect::Default => true,
            Aspect::InAccordenceWith((w, h)) => w > 0 && h > 0,
        }
    }

    /// Per-axis scale of the radius, each as `(numerator, denominator)`:
    /// the axis of the longer viewport dimension keeps the full radius and the
    /// other is scaled by `shorter / longer`.
    pub open spec fn scales_spec(&self) -> ((u32, u32), (u32, u32)) {
        match *self {
            Aspect::Default => ((1, 1), (1, 1)),
            Aspect::InAccordenceWith((w, h)) => if w > h {
                ((1, 1), (h, w))
            } else {
                ((w, h), (1, 1))
            },
        }
    }

    /// With a viewport of `w` by `h` pixels, one pixel spans the same plane
    /// distance on both axes: `sx / w == sy / h`.
    pub open spec fn keeps_pixels_square(&self, r: ((u32, u32), (u32, u32))) -> bool {
        match *self {
            Aspect::Default => true,
            Aspect::InAccordenceWith((w, h)) => r.0.0 as int * r.1.1 as int * h as int
                == r.1.0 as int * r.0.1 as int * w as int,
        }
    }

    pub fn axis_scales(&self) -> (r: ((u32, u32), (u32, u32)))
        requires
            self.valid(),
        ensures
            r == self.scales_spec(),
            r.0.1 > 0 && r.1.1 > 0,
            r.0.0 <= r.0.1 && r.1.0 <= r.1.1,
            r.0.0 == r.0.1 || r.1.0 == r.1.1,
            self.keeps_pixels_square(r),
    {
        match *self {
            Aspect::Default => ((1, 1), (1, 1)),
            Aspect::InAccordenceWith((w, h)) => if w > h {
                assert(1 * (w as int) * (h as int) == (h as int) * 1 * (w as int)) by (nonlinear_arith);
                ((1, 1), (h, w))
            } else {
                assert((w as int) * 1 * (h as int) == 1 * (h as int) * (w as int)) by (nonlinear_arith);
                ((w, h), (1, 1))
            },
        }
    }
}

/// The raster column and row of a row-major pixel index.
pub fn pixel_position(index: u64, width: u32, height: u32) -> (r: (u32, u32))
    requires
        width > 0,
        index < width as int * height as int,
    ensures
        r.0 as int == index as int % width as int,
        r.1 as int == index as int / width as int,
        r.0 < width && r.1 < height,
{
    proof {
        assert((index as int) / (width as int) < (height as int)) by (nonlinear_arith)
            requires
                width > 0,
                index < width as int * height as int,
                index >= 0,
        ;
    }
    ((index % width as u64) as u32, (index / width as u64) as u32)
}

} // verus!

//! The renderer: it decides which sample is evaluated next, stores the colour
//! of each sample in the pixel buffer, and gives the buffer out only when every
//! pixel has its colour.
//!
//! Evaluating the expression at a sample and colouring the value are the
//! caller's work. The renderer names the pixel, the caller reports what became
//! of it, and so on until the image is complete or a sample has failed.

use crate::canvas::{
    blank_canvas, canvas_extent, canvas_pixels, channel_values, into_channel_values,
    pixel_position, put_pixel, Canvas, Rgb8,
};
use crate::grid::{
    in_grid, lemma_coordinates_in_range, lemma_position_round_trip, pixel_at, pixel_count,
    spec_pixel_index, spec_pixel_x, spec_pixel_y,
};
use vstd::prelude::*;

verus! {

/// What became of one sample.
#[derive(Clone, Copy, Debug)]
pub enum Outcome {
    /// The expression had a value there, and this is its colour.
    Colored(Rgb8),
    /// The expression could not be evaluated there.
    Failed,
}

/// What the renderer asks for next.
#[derive(Clone, Copy, Debug, PartialEq, Eq, Structural)]
pub enum Step {
    /// Evaluate the expression at the sample of pixel `(x, y)`.
    Evaluate { x: u32, y: u32 },
    /// Every pixel has its colour: the image can be taken.
    Complete,
    /// The sample of pixel `(x, y)` failed: there will be no image.
    Aborted { x: u32, y: u32 },
}

/// A rendering as the contracts see it.
pub struct RenderState {
    /// Width and height of the image.
    pub size: nat,
    /// The colours recorded so far, in row-major order.
    pub colors: Seq<Rgb8>,
    /// Whether the sample that follows them has failed.
    pub aborted: bool,
}

/// The largest image that the library renders: its channel values must fit
/// one allocation.
pub open spec fn spec_supported(size: u32) -> bool {
    0 < size && 3 * size * size <= isize::MAX
}

/// A rendering of a `size` by `size` image before its first sample.
pub open spec fn spec_initial(size: nat) -> RenderState {
    RenderState { size, colors: Seq::empty(), aborted: false }
}

/// Whether some sample is still to be evaluated.
pub open spec fn spec_in_progress(s: RenderState) -> bool {
    !s.aborted && s.colors.len() < s.size * s.size
}

/// What a rendering asks for next: samples go in row-major order, a failure
/// ends the rendering, and the image is complete after `size * size` colours.
pub open spec fn spec_pending(s: RenderState) -> Step {
    let x = spec_pixel_x(s.colors.len() as int, s.size as int) as u32;
    let y = spec_pixel_y(s.colors.len() as int, s.size as int) as u32;
    if s.aborted {
        Step::Aborted { x, y }
    } else if s.colors.len() < s.size * s.size {
        Step::Evaluate { x, y }
    } else {
        Step::Complete
    }
}

/// The rendering after the outcome of the pending sample. An outcome that
/// arrives when no sample is pending changes nothing.
pub open spec fn spec_advance(s: RenderState, outcome: Outcome) -> RenderState {
    if spec_in_progress(s) {
        match outcome {
            Outcome::Colored(color) => RenderState { colors: s.colors.push(color), ..s },
            Outcome::Failed => RenderState { aborted: true, ..s },
        }
    } else {
        s
    }
}

/// The rendering after a run of outcomes, taken in order.
pub open spec fn spec_run(s: RenderState, outcomes: Seq<Outcome>) -> RenderState
    decreases outcomes.len(),
{
    if outcomes.len() == 0 {
        s
    } else {
        spec_advance(spec_run(s, outcomes.drop_last()), outcomes.last())
    }
}

/// What holds of every rendering: the image is not empty, and no more colours
/// are recorded than it has pixels; after a failure one pixel at least is
/// without colour.
pub open spec fn spec_valid(s: RenderState) -> bool {
    &&& 0 < s.size <= u32::MAX
    &&& s.colors.len() <= s.size * s.size
    &&& s.aborted ==> s.colors.len() < s.size * s.size
}

/// A rendering in progress: the pixel buffer and how far it is filled.
pub struct Renderer {
    size: u32,
    recorded: u64,
    aborted: bool,
    canvas: Canvas,
}

impl Renderer {
    /// The buffer has the image's extent, and `recorded` pixels are filled.
    pub closed spec fn wf(&self) -> bool {
        &&& spec_supported(self.size)
        &&& canvas_extent(self.canvas) == (self.size as nat, self.size as nat)
        &&& canvas_pixels(self.canvas).len() == self.size * self.size
        &&& self.recorded <= self.size * self.size
        &&& self.aborted ==> self.recorded < self.size * self.size
    }

    pub closed spec fn view(&self) -> RenderState {
        RenderState {
            size: self.size as nat,
            colors: canvas_pixels(self.canvas).take(self.recorded as int),
            aborted: self.aborted,
        }
    }

    /// A well-formed renderer is in a valid state.
    pub proof fn lemma_valid(&self)
        requires
            self.wf(),
        ensures
            spec_valid(self@),
    {
    }

    /// Whether an image of `size` by `size` pixels can be rendered.
    pub fn supported(size: u32) -> (yes: bool)
        ensures
            yes == spec_supported(size),
    {
        proof {
            assert(3 * size * size <= 3 * 0xFFFF_FFFF * 0xFFFF_FFFF) by (nonlinear_arith)
                requires
                    0 <= size <= 0xFFFF_FFFF,
            ;
        }
        let wide: u128 = size as u128;
        let channels: u128 = 3 * wide * wide;
        size > 0 && channels <= isize::MAX as u128
    }

    /// Starts the rendering of a `size` by `size` image, with a buffer of that
    /// extent. There is none for an empty image, nor for one whose buffer
    /// could not be allocated.
    pub fn new(size: u32) -> (made: Option<Renderer>)
        ensures
            made.is_some() == spec_supported(size),
            made.is_some() ==> made.unwrap().wf() && made.unwrap()@ == spec_initial(size as nat),
    {
        if !Self::supported(size) {
            return None;
        }
        let canvas = blank_canvas(size, size);
        let renderer = Renderer { size, recorded: 0, aborted: false, canvas };
        proof {
            assert(renderer@.colors =~= Seq::empty());
        }
        Some(renderer)
    }

    /// Width and height of the image.
    pub fn size(&self) -> (size: u32)
        ensures
            size == self@.size,
    {
        self.size
    }

    /// Number of samples whose colour is recorded.
    pub fn recorded(&self) -> (count: u64)
        requires
            self.wf(),
        ensures
            count == self@.colors.len(),
    {
        self.recorded
    }

    /// What the renderer asks for next.
    pub fn pending(&self) -> (step: Step)
        requires
            self.wf(),
        ensures
            step == spec_pending(self@),
    {
        let total = pixel_count(self.size);
        if self.recorded < total {
            let (x, y) = pixel_at(self.recorded, self.size);
            if self.aborted {
                Step::Aborted { x, y }
            } else {
                Step::Evaluate { x, y }
            }
        } else {
            Step::Complete
        }
    }

    /// Takes the outcome of the pending sample: its colour is stored at its
    /// pixel, or its failure ends the rendering. Returns what is pending then.
    pub fn advance(&mut self, outcome: Outcome) -> (step: Step)
        requires
            old(self).wf(),
        ensures
            final(self).wf(),
            final(self)@ == spec_advance(old(self)@, outcome),
            step == spec_pending(final(self)@),
    {
        let total = pixel_count(self.size);
        if !self.aborted && self.recorded < total {
            match outcome {
                Outcome::Colored(color) => {
                    let (x, y) = pixel_at(self.recorded, self.size);
                    proof {
                        lemma_position_round_trip(self.recorded as int, self.size as int);
                        assert(pixel_position(x as int, y as int, self.size as int)
                            == self.recorded);
                    }
                    put_pixel(&mut self.canvas, x, y, color.0, color.1, color.2);
                    self.recorded = self.recorded + 1;
                    proof {
                        assert(self@.colors =~= old(self)@.colors.push(color));
                    }
                },
                Outcome::Failed => {
                    self.aborted = true;
                },
            }
        }
        self.pending()
    }

    /// Gives out the image once it is complete: the channel values of its
    /// pixels in row-major order, three for each pixel. A rendering that is
    /// unfinished or has failed gives out nothing.
    pub fn finish(self) -> (image: Option<Vec<u8>>)
        requires
            self.wf(),
        ensures
            image.is_some() == (spec_pending(self@) == Step::Complete),
            image.is_some() ==> image.unwrap()@ == channel_values(self@.colors),
    {
        let total = pixel_count(self.size);
        if !self.aborted && self.recorded == total {
            proof {
                assert(self@.colors =~= canvas_pixels(self.canvas));
            }
            Some(into_channel_values(self.canvas))
        } else {
            None
        }
    }
}

/// Why a rendering gave no image.
#[derive(Clone, Copy, Debug, PartialEq, Eq, Structural)]
pub enum RenderError {
    /// The image is empty, or too large for a buffer.
    Unsupported,
    /// The expression could not be evaluated at the sample of pixel `(x, y)`.
    Evaluation { x: u32, y: u32 },
}

/// The outcomes of samples that all have a colour.
pub open spec fn spec_colored(colors: Seq<Rgb8>) -> Seq<Outcome> {
    Seq::new(colors.len(), |i: int| Outcome::Colored(colors[i]))
}

/// Renders a `size` by `size` image with `worker`, which is called once for
/// each pixel `(x, y)`, row after row, and says what became of its sample. The
/// first failure ends the rendering: no later sample is evaluated, and no
/// image is given out.
pub fn render_with<F: Fn(u32, u32) -> Outcome>(size: u32, worker: F) -> (result: Result<
    Vec<u8>,
    RenderError,
>)
    requires
        forall|x: u32, y: u32|
            in_grid(x as int, y as int, size as int) ==> worker.requires((x, y)),
    ensures
        (result == Err::<Vec<u8>, RenderError>(RenderError::Unsupported)) == !spec_supported(size),
        match result {
            Ok(bytes) => exists|colors: Seq<Rgb8>|
                {
                    &&& colors.len() == size * size
                    &&& #[trigger] channel_values(colors) == bytes@
                    &&& forall|i: int|
                        0 <= i < colors.len() ==> worker.ensures(
                            (
                                spec_pixel_x(i, size as int) as u32,
                                spec_pixel_y(i, size as int) as u32,
                            ),
                            Outcome::Colored(#[trigger] colors[i]),
                        )
                },
            Err(RenderError::Evaluation { x, y }) => {
                &&& in_grid(x as int, y as int, size as int)
                &&& worker.ensures((x, y), Outcome::Failed)
                &&& exists|colors: Seq<Rgb8>|
                    {
                        &&& #[trigger] colors.len() == spec_pixel_index(
                            x as int,
                            y as int,
                            size as int,
                        )
                        &&& forall|i: int|
                            0 <= i < colors.len() ==> worker.ensures(
                                (
                                    spec_pixel_x(i, size as int) as u32,
                                    spec_pixel_y(i, size as int) as u32,
                                ),
                                Outcome::Colored(#[trigger] colors[i]),
                            )
                    }
            },
            Err(RenderError::Unsupported) => true,
        },
{
    let mut renderer = match Renderer::new(size) {
        Some(renderer) => renderer,
        None => { return Err(RenderError::Unsupported); },
    };
    let mut step = renderer.pending();
    loop
        invariant
            renderer.wf(),
            renderer@.size == size,
            spec_supported(size),
            step == spec_pending(renderer@),
            forall|x: u32, y: u32|
                in_grid(x as int, y as int, size as int) ==> worker.requires((x, y)),
            step is Aborted ==> worker.ensures((step->Aborted_x, step->Aborted_y), Outcome::Failed),
            forall|i: int|
                0 <= i < renderer@.colors.len() ==> worker.ensures(
                    (spec_pixel_x(i, size as int) as u32, spec_pixel_y(i, size as int) as u32),
                    Outcome::Colored(#[trigger] renderer@.colors[i]),
                ),
        decreases
            size * size - renderer@.colors.len() + (if spec_in_progress(renderer@) {
                1int
            } else {
                0int
            }),
    {
        proof {
            renderer.lemma_valid();
            if renderer@.colors.len() < size * size {
                lemma_coordinates_in_range(renderer@.colors.len() as int, size as int);
                lemma_position_round_trip(renderer@.colors.len() as int, size as int);
            }
        }
        match step {
            Step::Evaluate { x, y } => {
                let outcome = worker(x, y);
                step = renderer.advance(outcome);
            },
            Step::Complete => {
                let image = renderer.finish();
                return Ok(image.unwrap());
            },
            Step::Aborted { x, y } => {
                return Err(RenderError::Evaluation { x, y });
            },
        }
    }
}

/// The outcomes that follow one another can be taken in two parts.
pub proof fn lemma_run_in_parts(s: RenderState, first: Seq<Outcome>, second: Seq<Outcome>)
    ensures
        spec_run(s, first + second) == spec_run(spec_run(s, first), second),
    decreases second.len(),
{
    if second.len() == 0 {
        assert(first + second =~= first);
    } else {
        lemma_run_in_parts(s, first, second.drop_last());
        assert((first + second).drop_last() =~= first + second.drop_last());
        assert((first + second).last() == second.last());
    }
}

/// Once a rendering is complete or has failed, no outcome changes it.
pub proof fn lemma_settled_is_final(s: RenderState, outcomes: Seq<Outcome>)
    requires
        !spec_in_progress(s),
    ensures
        spec_run(s, outcomes) == s,
    decreases outcomes.len(),
{
    if outcomes.len() > 0 {
        lemma_settled_is_final(s, outcomes.drop_last());
    }
}

/// A rendering is determined by the colours of its samples: from the start,
/// the colours of the first samples in row-major order lead to the state that
/// holds exactly these colours. With `size * size` of them the image is
/// complete, so that two renderings over the same colours give the same image.
pub proof fn lemma_run_of_colors(size: nat, colors: Seq<Rgb8>)
    requires
        colors.len() <= size * size,
    ensures
        spec_run(spec_initial(size), spec_colored(colors)) == (RenderState {
            size,
            colors,
            aborted: false,
        }),
        colors.len() == size * size ==> spec_pending(
            spec_run(spec_initial(size), spec_colored(colors)),
        ) == Step::Complete,
    decreases colors.len(),
{
    if colors.len() == 0 {
        assert(colors =~= Seq::empty());
    } else {
        lemma_run_of_colors(size, colors.drop_last());
        assert(spec_colored(colors).drop_last() =~= spec_colored(colors.drop_last()));
        assert(colors.drop_last().push(colors.last()) =~= colors);
    }
}

/// The first failure ends a rendering: the colours before it stay, whatever
/// is reported after it changes nothing, and the image is never complete.
pub proof fn lemma_first_failure_aborts(size: nat, colors: Seq<Rgb8>, later: Seq<Outcome>)
    requires
        colors.len() < size * size,
    ensures
        spec_run(spec_initial(size), spec_colored(colors).push(Outcome::Failed) + later) == (
        RenderState { size, colors, aborted: true }),
        spec_pending(
            spec_run(spec_initial(size), spec_colored(colors).push(Outcome::Failed) + later),
        ) is Aborted,
{
    let failed = spec_colored(colors).push(Outcome::Failed);
    lemma_run_of_colors(size, colors);
    assert(failed.drop_last() =~= spec_colored(colors));
    lemma_run_in_parts(spec_initial(size), failed, later);
    lemma_settled_is_final(spec_run(spec_initial(size), failed), later);
}

} // verus!

//! From a byte stream to its first picture.
//!
//! The pipeline hands out the units of a stream one at a time. After each unit
//! it takes the session's answer and either goes on with the next unit or ends
//! the run: with the first picture, converted to RGB, or with the finding that
//! the stream held none.

use crate::error::Error;
use crate::nal::{nal_units, unit_bounds, NalUnit, NalUnits};
use crate::picture::{convert, DecodedYUV};
use vstd::prelude::*;

verus! {

/// A converted picture.
#[derive(Debug)]
pub struct Frame {
    /// Width in pixels.
    pub width: usize,
    /// Height in pixels.
    pub height: usize,
    /// The packed raster: `width * height * 3` bytes.
    pub rgb: Vec<u8>,
}

/// How a run ended, if it did not fail.
#[derive(Debug)]
pub enum Outcome {
    /// The first picture of the stream.
    Frame(Frame),
    /// The stream gave no picture. This is no error.
    NoFrameDecoded,
}

/// What an outcome holds, as plain mathematics.
pub enum OutcomeView {
    Frame { width: int, height: int, rgb: Seq<u8> },
    NoFrameDecoded,
}

impl View for Outcome {
    type V = OutcomeView;

    open spec fn view(&self) -> OutcomeView {
        match self {
            Outcome::Frame(frame) => OutcomeView::Frame {
                width: frame.width as int,
                height: frame.height as int,
                rgb: frame.rgb@,
            },
            Outcome::NoFrameDecoded => OutcomeView::NoFrameDecoded,
        }
    }
}

/// What the session made of the unit that was submitted last.
pub enum Answer<'p> {
    /// The unit gave no picture yet.
    NoPicture,
    /// The unit completed a picture.
    Picture(DecodedYUV<'p>),
    /// The engine failed.
    Failed(Error),
}

/// What to do next.
pub enum Step<'a> {
    /// Submit `unit` to the session and come back to `rest` with the answer.
    Submit { unit: NalUnit<'a>, rest: Pipeline<'a> },
    /// The run is over.
    Finish(Outcome),
}

/// What a step holds, as plain mathematics.
pub enum StepView {
    Submit { unit: (int, int), pending: Seq<(int, int)> },
    Finish(OutcomeView),
}

impl<'a> View for Step<'a> {
    type V = StepView;

    open spec fn view(&self) -> StepView {
        match self {
            Step::Submit { unit, rest } => StepView::Submit {
                unit: (unit.start as int, unit.end as int),
                pending: rest.pending(),
            },
            Step::Finish(outcome) => StepView::Finish(outcome@),
        }
    }
}

/// The outcome that a picture makes: the picture as a frame, unless it has no
/// pixels, which counts as no frame.
pub open spec fn outcome_of(picture: DecodedYUV) -> OutcomeView {
    if picture.width() == 0 || picture.height() == 0 {
        OutcomeView::NoFrameDecoded
    } else {
        OutcomeView::Frame {
            width: picture.width(),
            height: picture.height(),
            rgb: picture.rgb8(),
        }
    }
}

/// The step that follows `answer` while the units at `pending` wait: a failure
/// ends the run with its error, a picture ends it with its outcome, and
/// otherwise the next unit is due, or the end of a run without a frame.
pub open spec fn step(pending: Seq<(int, int)>, answer: Answer) -> Result<StepView, Error> {
    match answer {
        Answer::Failed(e) => Err(e),
        Answer::Picture(picture) => Ok(StepView::Finish(outcome_of(picture))),
        Answer::NoPicture => if pending.len() > 0 {
            Ok(StepView::Submit { unit: pending[0], pending: pending.skip(1) })
        } else {
            Ok(StepView::Finish(OutcomeView::NoFrameDecoded))
        },
    }
}

/// How a run ends that takes `answer` first and then meets `answers`, one for
/// each unit that it submits.
pub open spec fn run_from(pending: Seq<(int, int)>, answer: Answer, answers: Seq<Answer>) -> Result<
    OutcomeView,
    Error,
>
    decreases pending.len(),
{
    match step(pending, answer) {
        Err(e) => Err(e),
        Ok(StepView::Finish(outcome)) => Ok(outcome),
        Ok(StepView::Submit { unit, pending: rest }) => if pending.len() > 0 {
            run_from(rest, answers[0], answers.skip(1))
        } else {
            Ok(OutcomeView::NoFrameDecoded)
        },
    }
}

/// How the run over a stream ends when the engine answers the units, in order,
/// with `answers`.
pub open spec fn run(stream: Seq<u8>, answers: Seq<Answer>) -> Result<OutcomeView, Error> {
    run_from(unit_bounds(stream), Answer::NoPicture, answers)
}

/// The units of a stream that have not been submitted yet.
pub struct Pipeline<'a> {
    units: NalUnits<'a>,
}

impl<'a> Pipeline<'a> {
    /// The stream that the run is about.
    pub closed spec fn stream(&self) -> Seq<u8> {
        self.units.stream()
    }

    /// Bounds of the units still to be submitted, as positions in the stream.
    pub closed spec fn pending(&self) -> Seq<(int, int)> {
        self.units.pending()
    }

    /// A run over `stream`, with every unit still to be submitted.
    pub fn new(stream: &'a [u8]) -> (pipeline: Pipeline<'a>)
        ensures
            pipeline.stream() == stream@,
            pipeline.pending() == unit_bounds(stream@),
    {
        Pipeline { units: nal_units(stream) }
    }

    /// The first step of a run: the first unit, or the end if there is none.
    pub fn start(self) -> (next: Step<'a>)
        ensures
            Ok::<StepView, Error>(next@) == step(self.pending(), Answer::NoPicture),
            next matches Step::Submit { unit, rest } ==> rest.stream() == self.stream()
                && unit.bytes@ == self.stream().subrange(unit.start as int, unit.end as int),
    {
        let mut units = self.units;
        match units.next() {
            Some(unit) => Step::Submit { unit, rest: Pipeline { units } },
            None => Step::Finish(Outcome::NoFrameDecoded),
        }
    }

    /// The step that follows the session's answer to the unit submitted last.
    pub fn advance(self, answer: Answer) -> (r: Result<Step<'a>, Error>)
        requires
            answer matches Answer::Picture(picture) ==> picture.wf() && picture.width()
                * picture.height() * 3 <= usize::MAX,
        ensures
            match r {
                Ok(next) => Ok::<StepView, Error>(next@) == step(self.pending(), answer),
                Err(e) => Err::<StepView, Error>(e) == step(self.pending(), answer),
            },
            r matches Ok(Step::Submit { unit, rest }) ==> rest.stream() == self.stream()
                && unit.bytes@ == self.stream().subrange(unit.start as int, unit.end as int),
    {
        match answer {
            Answer::Failed(e) => Err(e),
            Answer::Picture(picture) => {
                let (width, height) = picture.dimensions();
                if width == 0 || height == 0 {
                    Ok(Step::Finish(Outcome::NoFrameDecoded))
                } else {
                    let rgb = convert(&picture);
                    Ok(Step::Finish(Outcome::Frame(Frame { width, height, rgb })))
                }
            },
            Answer::NoPicture => Ok(self.start()),
        }
    }
}

/// A stream whose units never give a picture ends in "no frame decoded", and
/// in no error: the engine answers every unit, and each time with no picture.
pub proof fn lemma_run_without_pictures(stream: Seq<u8>, answers: Seq<Answer>)
    requires
        answers.len() >= unit_bounds(stream).len(),
        forall|k: int| 0 <= k < unit_bounds(stream).len() ==> answers[k] is NoPicture,
    ensures
        run(stream, answers) == Ok::<OutcomeView, Error>(OutcomeView::NoFrameDecoded),
{
    lemma_run_from_without_pictures(unit_bounds(stream), answers);
}

/// While no answer names a picture or a failure, the run goes through all
/// pending units and ends without a frame.
pub proof fn lemma_run_from_without_pictures(pending: Seq<(int, int)>, answers: Seq<Answer>)
    requires
        answers.len() >= pending.len(),
        forall|k: int| 0 <= k < pending.len() ==> answers[k] is NoPicture,
    ensures
        run_from(pending, Answer::NoPicture, answers) == Ok::<OutcomeView, Error>(
            OutcomeView::NoFrameDecoded,
        ),
    decreases pending.len(),
{
    if pending.len() > 0 {
        assert(answers[0] is NoPicture);
        assert forall|k: int| 0 <= k < pending.skip(1).len() implies answers.skip(1)[k]
            is NoPicture by {
            assert(answers.skip(1)[k] == answers[k + 1]);
        }
        lemma_run_from_without_pictures(pending.skip(1), answers.skip(1));
    }
}

/// The first answer that is not "no picture" decides the run: a picture ends it
/// with the outcome of that picture, a failure with its error. Units behind the
/// deciding one are never submitted.
pub proof fn lemma_run_first_decides(pending: Seq<(int, int)>, answers: Seq<Answer>, n: int)
    requires
        0 <= n < pending.len(),
        n < answers.len(),
        forall|k: int| 0 <= k < n ==> answers[k] is NoPicture,
        !(answers[n] is NoPicture),
    ensures
        run_from(pending, Answer::NoPicture, answers) == match answers[n] {
            Answer::Picture(picture) => Ok::<OutcomeView, Error>(outcome_of(picture)),
            Answer::Failed(e) => Err(e),
            Answer::NoPicture => arbitrary(),
        },
    decreases n,
{
    reveal_with_fuel(run_from, 2);
    if n > 0 {
        assert(answers[0] is NoPicture);
        assert(answers.skip(1)[n - 1] == answers[n]);
        assert forall|k: int| 0 <= k < n - 1 implies answers.skip(1)[k] is NoPicture by {
            assert(answers.skip(1)[k] == answers[k + 1]);
        }
        lemma_run_first_decides(pending.skip(1), answers.skip(1), n - 1);
    }
}

} // verus!

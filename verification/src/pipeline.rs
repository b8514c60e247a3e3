//! The matching pipeline around the correlation primitive.
//!
//! The primitive that turns a target and a template into a correlation
//! surface is not part of this library. A matching call therefore comes in
//! two steps. The first prepares the images and decides what is to be done:
//! nothing, where the template cannot fit into the target, or a correlation,
//! which it describes in a `PendingMatch`. The caller runs the correlation
//! and hands its outcome to the second step, which extracts the matches.

use vstd::prelude::*;
use crate::buffer::{ImageBuffer, Raster};
use crate::error::MatchError;
use crate::matcher::{ImageMatchFilter, ImageMatchRegion, ImageMatchResult, ImageMatchResults};
use crate::peaks::{extract, extract_peaks, lemma_single_cell};
use crate::surface::{Grid, Surface};

verus! {

/// Which steps normalise an image before it is correlated. The library
/// reduces to grey itself; equalisation and blur are the caller's to apply,
/// to both images alike, before the correlation.
#[derive(Clone, Copy, Debug, PartialEq, Eq, Structural)]
pub struct Preprocessing {
    /// Reduce colour to grey.
    pub grayscale: bool,
    /// Equalise the histogram of the grey values.
    pub equalize: bool,
    /// Smooth with a small kernel after equalising.
    pub blur: bool,
}

/// Whether `region`, where one is given, is a valid part of `target`.
pub open spec fn region_ok(target: Raster, region: Option<ImageMatchRegion>) -> bool {
    region matches Some(r) ==> r.wf() && r.fits(target.width as int, target.height as int)
}

/// The target as it goes into the correlation: cut to the region, where one
/// is given, and then reduced to grey, where that is asked for.
pub open spec fn prepared_target(
    target: Raster,
    region: Option<ImageMatchRegion>,
    grayscale: bool,
) -> Raster {
    let cut = match region {
        Some(r) => target.cropped(r),
        None => target,
    };
    if grayscale {
        cut.grayed()
    } else {
        cut
    }
}

/// Whether a template of this size cannot lie anywhere inside the target.
pub open spec fn too_large(template: Raster, target: Raster) -> bool {
    template.width > target.width || template.height > target.height
}

/// The mathematical model of a pending match.
pub struct Pending {
    pub template: Raster,
    pub target: Raster,
    pub steps: Preprocessing,
    pub precision: i32,
    pub filter: ImageMatchFilter,
}

impl Pending {
    /// Both images are well formed and of one pixel format, and the
    /// template has pixels and fits into the target.
    pub open spec fn wf(self) -> bool {
        &&& self.template.wf()
        &&& self.target.wf()
        &&& self.template.channels == self.target.channels
        &&& !self.template.is_empty()
        &&& !too_large(self.template, self.target)
    }

    /// The number of columns of the surface: one for every horizontal
    /// placement of the template inside the target.
    pub open spec fn surface_cols(self) -> int {
        self.target.width - self.template.width + 1
    }

    /// The number of rows of the surface: one for every vertical placement
    /// of the template inside the target.
    pub open spec fn surface_rows(self) -> int {
        self.target.height - self.template.height + 1
    }

    /// Whether a surface has the extent that belongs to the two images.
    pub open spec fn accepts(self, surface: Grid) -> bool {
        surface.cols == self.surface_cols() && surface.rows == self.surface_rows()
    }

    /// The matches that the surface yields for this call.
    pub open spec fn matches(self, surface: Grid) -> Seq<ImageMatchResult> {
        extract(
            surface,
            self.precision,
            self.template.width as u32,
            self.template.height as u32,
            self.filter,
            Seq::empty(),
        )
    }
}

/// A matching call that waits for its correlation surface.
#[derive(Debug)]
pub struct PendingMatch {
    template: ImageBuffer,
    target: ImageBuffer,
    steps: Preprocessing,
    precision: i32,
    filter: ImageMatchFilter,
}

impl View for PendingMatch {
    type V = Pending;

    closed spec fn view(&self) -> Pending {
        Pending {
            template: self.template@,
            target: self.target@,
            steps: self.steps,
            precision: self.precision,
            filter: self.filter,
        }
    }
}

/// What a matching call has come to after its first step.
#[derive(Debug)]
pub enum MatchStep {
    /// The call is over. The template cannot fit into the target, so there
    /// is nothing to correlate and no match.
    Finished(ImageMatchResults),
    /// The caller is to correlate the two images and to hand the surface to
    /// `PendingMatch::finish`.
    Correlate(PendingMatch),
}

impl PendingMatch {
    /// The pending match is well formed.
    pub open spec fn wf(&self) -> bool {
        self@.wf()
    }

    /// The template to correlate.
    pub fn template(&self) -> (t: &ImageBuffer)
        ensures
            t@ == self@.template,
    {
        &self.template
    }

    /// The target to correlate; match coordinates count from its origin.
    pub fn target(&self) -> (t: &ImageBuffer)
        ensures
            t@ == self@.target,
    {
        &self.target
    }

    /// The steps of the preprocessing; those that the library does not take
    /// itself are for the caller to apply before the correlation.
    pub fn steps(&self) -> (s: Preprocessing)
        ensures
            s == self@.steps,
    {
        self.steps
    }

    /// The threshold below which no score is accepted.
    pub fn precision(&self) -> (p: i32)
        ensures
            p == self@.precision,
    {
        self.precision
    }

    /// The exclusion window of the call.
    pub fn filter(&self) -> (f: ImageMatchFilter)
        ensures
            f == self@.filter,
    {
        self.filter
    }

    /// The number of columns that the surface must have.
    pub fn surface_cols(&self) -> (n: u32)
        requires
            self.wf(),
        ensures
            n == self@.surface_cols(),
    {
        self.target.width() - self.template.width() + 1
    }

    /// The number of rows that the surface must have.
    pub fn surface_rows(&self) -> (n: u32)
        requires
            self.wf(),
        ensures
            n == self@.surface_rows(),
    {
        self.target.height() - self.template.height() + 1
    }

    /// Ends the matching call with the outcome of the correlation.
    ///
    /// A failure of the primitive is passed on with its cause. A surface
    /// whose extent is not the one that belongs to the two images is a
    /// failure of the primitive too. Any other surface is consumed by the
    /// peak extraction, and the call returns the template's size and the
    /// matches in the order of their discovery.
    pub fn finish(self, outcome: Result<Surface, String>) -> (done: Result<
        ImageMatchResults,
        MatchError,
    >)
        requires
            self.wf(),
            outcome matches Ok(s) ==> s.wf(),
        ensures
            match outcome {
                Err(cause) => done matches Err(MatchError::PrimitiveFailure(text)) && text
                    == cause,
                Ok(s) => if self@.accepts(s@) {
                    &&& done matches Ok(results)
                    &&& results.width == self@.template.width
                    &&& results.height == self@.template.height
                    &&& results.list@ == self@.matches(s@)
                } else {
                    done matches Err(MatchError::PrimitiveFailure(text)) && text@
                        == "surface size does not match the images"@
                },
            },
    {
        match outcome {
            Err(cause) => Err(MatchError::PrimitiveFailure(cause)),
            Ok(surface) => {
                if surface.cols() != self.surface_cols() || surface.rows() != self.surface_rows() {
                    return Err(
                        MatchError::PrimitiveFailure(
                            "surface size does not match the images".to_owned(),
                        ),
                    );
                }
                let width: u32 = self.template.width();
                let height: u32 = self.template.height();
                let list = extract_peaks(surface, self.precision, width, height, self.filter);
                Ok(ImageMatchResults::new(width, height, list))
            },
        }
    }
}

/// A target of the template's own size, and so a target that equals the
/// template, has a surface of a single cell. If the score in that cell
/// reaches the threshold, it is the one match of the call, at the origin.
pub proof fn lemma_self_match(pending: Pending, surface: Grid, score: i32)
    requires
        pending.target.width == pending.template.width,
        pending.target.height == pending.template.height,
        surface.wf(),
        pending.accepts(surface),
        surface.cells[0] == Some(score),
        score >= pending.precision,
    ensures
        pending.matches(surface) == seq![ImageMatchResult { left: 0, top: 0, precision: score }],
{
    assert(surface.cells.len() == 1) by (nonlinear_arith)
        requires
            surface.cells.len() == surface.cols * surface.rows,
            surface.cols == 1,
            surface.rows == 1,
    ;
    assert(surface.cells =~= seq![Some(score)]);
    lemma_single_cell(
        surface,
        pending.precision,
        pending.template.width as u32,
        pending.template.height as u32,
        pending.filter,
        score,
    );
}

/// Takes the first step of a matching call with a template and a target
/// that are ready for the correlation.
///
/// The call is
/// - rejected, if the template has no pixel or the two images differ in
///   their pixel format;
/// - finished without a match, if the template is wider or higher than the
///   target: the result names the template's size, and there is nothing for
///   the caller to correlate;
/// - pending otherwise.
pub fn plan_match(
    template: ImageBuffer,
    target: ImageBuffer,
    steps: Preprocessing,
    precision: i32,
    filter: ImageMatchFilter,
) -> (step: Result<MatchStep, MatchError>)
    requires
        template.wf(),
        target.wf(),
    ensures
        step is Ok <==> !template@.is_empty() && target@.channels == template@.channels,
        step matches Err(e) ==> e is InvalidConfiguration,
        step is Ok ==> (step matches Ok(MatchStep::Finished(_)) <==> too_large(template@, target@)),
        step matches Ok(MatchStep::Finished(results)) ==> {
            &&& too_large(template@, target@)
            &&& results.width == template@.width
            &&& results.height == template@.height
            &&& results.list@ == Seq::<ImageMatchResult>::empty()
        },
        step matches Ok(MatchStep::Correlate(pending)) ==> {
            &&& !too_large(template@, target@)
            &&& pending.wf()
            &&& pending@ == (Pending { template: template@, target: target@, steps, precision, filter })
        },
{
    if template.width() == 0 || template.height() == 0 {
        return Err(MatchError::InvalidConfiguration);
    }
    if target.channels() != template.channels() {
        return Err(MatchError::InvalidConfiguration);
    }
    if template.width() > target.width() || template.height() > target.height() {
        let results = ImageMatchResults::new(template.width(), template.height(), Vec::new());
        return Ok(MatchStep::Finished(results));
    }
    Ok(MatchStep::Correlate(PendingMatch { template, target, steps, precision, filter }))
}

} // verus!

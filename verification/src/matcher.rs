//! The matcher for one template, and its vocabulary: regions, matches and
//! the rule that tells two matches of one feature apart from two features.

use vstd::prelude::*;
use crate::buffer::{ImageBuffer, Raster};
use crate::error::MatchError;
use crate::geometry::distance;
use crate::pipeline::{
    plan_match,
    prepared_target,
    region_ok,
    too_large,
    MatchStep,
    Pending,
    Preprocessing,
};

verus! {

/// A sub-rectangle of the target to which a search is restricted.
#[derive(Clone, Copy, Debug, PartialEq, Eq, Structural)]
pub struct ImageMatchRegion {
    pub left: u32,
    pub top: u32,
    pub width: u32,
    pub height: u32,
}

impl ImageMatchRegion {
    /// A region is valid when it is not empty.
    pub open spec fn wf(self) -> bool {
        self.width > 0 && self.height > 0
    }

    /// Whether the region lies inside an image of the given size.
    pub open spec fn fits(self, width: int, height: int) -> bool {
        &&& self.left + self.width <= width
        &&& self.top + self.height <= height
    }

    /// Makes the region `width` wide and `height` high whose top-left corner
    /// is at `(left, top)`.
    pub fn region(left: u32, top: u32, width: u32, height: u32) -> (r: Self)
        requires
            width > 0,
            height > 0,
        ensures
            r == (ImageMatchRegion { left, top, width, height }),
            r.wf(),
    {
        Self { left, top, width, height }
    }
}

/// One accepted match: where the template was found, relative to the
/// searched image's own origin, and how well it scored.
#[derive(Clone, Copy, Debug, PartialEq, Eq, Structural)]
pub struct ImageMatchResult {
    pub left: u32,
    pub top: u32,
    pub precision: i32,
}

/// The outcome of a matching call: the size of the template that was
/// searched for and the matches in the order of their discovery.
#[derive(Debug)]
pub struct ImageMatchResults {
    pub width: u32,
    pub height: u32,
    pub list: Vec<ImageMatchResult>,
}

impl ImageMatchResults {
    /// Puts a template size and a list of matches together.
    pub fn new(width: u32, height: u32, list: Vec<ImageMatchResult>) -> (r: Self)
        ensures
            r.width == width,
            r.height == height,
            r.list == list,
    {
        Self { width, height, list }
    }

    /// The first match, `None` when nothing matched. In the outcome of a
    /// matching call the first match is the best one.
    pub fn first(&self) -> (r: Option<&ImageMatchResult>)
        ensures
            self.list@.len() == 0 ==> r is None,
            self.list@.len() > 0 ==> r == Some(&self.list@[0]),
    {
        if self.list.len() == 0 {
            None
        } else {
            Some(&self.list[0])
        }
    }
}

/// The exclusion window: a candidate closer than this to an accepted match,
/// on both axes, is taken for the same feature.
#[derive(Clone, Copy, Debug, PartialEq, Eq, Structural)]
pub struct ImageMatchFilter {
    pub x_delta: u32,
    pub y_delta: u32,
}

impl ImageMatchFilter {
    /// Whether the point `(x, y)` and the corner `(left, top)` of an accepted
    /// match are no further apart than the deltas, on both axes.
    pub open spec fn collides(self, x: int, y: int, left: int, top: int) -> bool {
        distance(x, left) <= self.x_delta && distance(y, top) <= self.y_delta
    }

    /// Whether the point `(x, y)` collides with one of the accepted matches.
    pub open spec fn collides_any(self, x: int, y: int, accepted: Seq<ImageMatchResult>) -> bool {
        exists|k: int|
            0 <= k < accepted.len() && #[trigger] self.collides(
                x,
                y,
                accepted[k].left as int,
                accepted[k].top as int,
            )
    }

    /// The window used where the caller names none: 5 on both axes.
    pub open spec fn standard() -> ImageMatchFilter {
        ImageMatchFilter { x_delta: 5, y_delta: 5 }
    }

    /// Makes the exclusion window with the given deltas.
    pub fn new(x_delta: u32, y_delta: u32) -> (f: Self)
        ensures
            f == (ImageMatchFilter { x_delta, y_delta }),
    {
        Self { x_delta, y_delta }
    }

    /// The given window, or the standard one where none is given.
    pub fn or_standard(filter: Option<ImageMatchFilter>) -> (f: Self)
        ensures
            f == match filter {
                Some(given) => given,
                None => Self::standard(),
            },
    {
        match filter {
            Some(given) => given,
            None => Self { x_delta: 5, y_delta: 5 },
        }
    }

    /// Decides whether the candidate at `(x, y)` is the same feature as the
    /// accepted match `result`.
    pub fn need_filter(&self, x: u32, y: u32, result: &ImageMatchResult) -> (same: bool)
        ensures
            same == self.collides(x as int, y as int, result.left as int, result.top as int),
    {
        let dx: u32 = if x >= result.left {
            x - result.left
        } else {
            result.left - x
        };
        let dy: u32 = if y >= result.top {
            y - result.top
        } else {
            result.top - y
        };
        dx <= self.x_delta && dy <= self.y_delta
    }
}

/// Whether two points collide does not depend on which of them is the
/// candidate and which the accepted match.
pub proof fn lemma_collides_symmetric(f: ImageMatchFilter, px: int, py: int, qx: int, qy: int)
    ensures
        f.collides(px, py, qx, qy) == f.collides(qx, qy, px, py),
{
}

/// The mathematical model of a matcher: its template as it goes into every
/// correlation, and whether targets are reduced to grey.
pub struct MatcherModel {
    pub template: Raster,
    pub use_gray: bool,
}

/// A matcher for one template. The template is prepared once, when the
/// matcher is built, and never changes; every matching call is independent
/// of every other.
#[derive(Debug)]
pub struct ImageMatcher {
    template: ImageBuffer,
    use_gray: bool,
}

impl View for ImageMatcher {
    type V = MatcherModel;

    closed spec fn view(&self) -> MatcherModel {
        MatcherModel { template: self.template@, use_gray: self.use_gray }
    }
}

impl ImageMatcher {
    /// The template is well formed and has pixels.
    pub open spec fn wf(&self) -> bool {
        self@.template.wf() && !self@.template.is_empty()
    }

    /// Resizes a template to the width `width`, keeping its proportions; with
    /// no width given the template stays as it is.
    pub fn resize_template(template: ImageBuffer, width: Option<u32>) -> (resized: Result<
        ImageBuffer,
        MatchError,
    >)
        requires
            template.wf(),
        ensures
            resized is Ok <==> (width matches Some(w) ==> template@.can_resize(w as int)),
            resized matches Ok(b) ==> {
                &&& b.wf()
                &&& b@.channels == template@.channels
                &&& b@.width == template@.width_after(width)
                &&& b@.height == template@.height_after(width)
                &&& template@.keeps_pixels(width) ==> b@ == template@
            },
            resized matches Err(e) ==> e is InvalidConfiguration,
    {
        match width {
            Some(w) => template.resize(w),
            None => Ok(template),
        }
    }

    /// Reduces an image to grey where `use_gray` asks for it.
    pub fn gray_image(image: ImageBuffer, use_gray: bool) -> (gray: ImageBuffer)
        requires
            image.wf(),
        ensures
            gray.wf(),
            gray@ == if use_gray {
                image@.grayed()
            } else {
                image@
            },
    {
        if use_gray {
            image.to_gray()
        } else {
            image
        }
    }

    /// Cuts a target to `region`; with no region given the target stays as
    /// it is. An empty region and a region that leaves the target are
    /// rejected.
    pub fn crop_target(target: ImageBuffer, region: Option<ImageMatchRegion>) -> (cut: Result<
        ImageBuffer,
        MatchError,
    >)
        requires
            target.wf(),
        ensures
            cut is Ok <==> region_ok(target@, region),
            cut matches Ok(b) ==> b.wf() && b@ == match region {
                Some(r) => target@.cropped(r),
                None => target@,
            },
            cut matches Err(e) ==> e is InvalidConfiguration,
    {
        match region {
            Some(r) => target.crop(r),
            None => Ok(target),
        }
    }

    /// Decides whether the candidate at `(x, y)` is the same feature as one
    /// of the matches in `list`.
    pub fn need_filter(
        x: u32,
        y: u32,
        list: &Vec<ImageMatchResult>,
        filter: &ImageMatchFilter,
    ) -> (same: bool)
        ensures
            same == filter.collides_any(x as int, y as int, list@),
    {
        let mut i: usize = 0;
        while i < list.len()
            invariant
                i <= list.len(),
                forall|k: int|
                    0 <= k < i ==> !#[trigger] filter.collides(
                        x as int,
                        y as int,
                        list@[k].left as int,
                        list@[k].top as int,
                    ),
            decreases list.len() - i,
        {
            if filter.need_filter(x, y, &list[i]) {
                return true;
            }
            i = i + 1;
        }
        false
    }

    /// Builds a matcher for `template`.
    ///
    /// The template is resized to the width `width`, where one is given, and
    /// then reduced to grey, where `use_gray` asks for it. A template without
    /// pixels and a resize that `Raster::can_resize` rules out are rejected.
    pub fn new(template: ImageBuffer, use_gray: bool, width: Option<u32>) -> (made: Result<
        Self,
        MatchError,
    >)
        requires
            template.wf(),
        ensures
            made is Ok <==> !template@.is_empty() && (width matches Some(w)
                ==> template@.can_resize(w as int)),
            made matches Ok(m) ==> {
                &&& m.wf()
                &&& m@.use_gray == use_gray
                &&& m@.template.channels == if use_gray {
                    1
                } else {
                    template@.channels
                }
                &&& m@.template.width == template@.width_after(width)
                &&& m@.template.height == template@.height_after(width)
                &&& template@.keeps_pixels(width) ==> m@.template == if use_gray {
                    template@.grayed()
                } else {
                    template@
                }
            },
            made matches Err(e) ==> e is InvalidConfiguration,
    {
        if template.width() == 0 || template.height() == 0 {
            return Err(MatchError::InvalidConfiguration);
        }
        let resized = match Self::resize_template(template, width) {
            Ok(r) => r,
            Err(e) => {
                return Err(e);
            },
        };
        let prepared = Self::gray_image(resized, use_gray);
        Ok(ImageMatcher { template: prepared, use_gray })
    }

    /// The template as it goes into every correlation.
    pub fn template(&self) -> (t: &ImageBuffer)
        ensures
            t@ == self@.template,
    {
        &self.template
    }

    /// Whether targets are reduced to grey.
    pub fn use_gray(&self) -> (g: bool)
        ensures
            g == self@.use_gray,
    {
        self.use_gray
    }

    /// Takes the first step of a matching call on `target_image`.
    ///
    /// The target is cut to `region`, where one is given, and reduced to
    /// grey, where the matcher does so. Match coordinates count from the
    /// corner of what is left, not from the corner of `target_image`. Where
    /// no filter is given the standard one is used. The call is
    /// - rejected, if the region is empty or leaves the target, or if the
    ///   prepared target's pixel format is not the template's;
    /// - finished without a match, if the template is wider or higher than
    ///   the prepared target;
    /// - pending otherwise: the caller correlates the prepared target with
    ///   the template and ends the call with `PendingMatch::finish`.
    pub fn start_matching(
        &self,
        target_image: ImageBuffer,
        precision: i32,
        region: Option<ImageMatchRegion>,
        filter: Option<ImageMatchFilter>,
    ) -> (step: Result<MatchStep, MatchError>)
        requires
            self.wf(),
            target_image.wf(),
        ensures
            step is Ok <==> region_ok(target_image@, region) && prepared_target(
                target_image@,
                region,
                self@.use_gray,
            ).channels == self@.template.channels,
            step matches Err(e) ==> e is InvalidConfiguration,
            step is Ok ==> (step matches Ok(MatchStep::Finished(_)) <==> too_large(
                self@.template,
                prepared_target(target_image@, region, self@.use_gray),
            )),
            step matches Ok(MatchStep::Finished(results)) ==> {
                &&& too_large(
                    self@.template,
                    prepared_target(target_image@, region, self@.use_gray),
                )
                &&& results.width == self@.template.width
                &&& results.height == self@.template.height
                &&& results.list@ == Seq::<ImageMatchResult>::empty()
            },
            step matches Ok(MatchStep::Correlate(pending)) ==> {
                &&& !too_large(
                    self@.template,
                    prepared_target(target_image@, region, self@.use_gray),
                )
                &&& pending.wf()
                &&& pending@ == (Pending {
                    template: self@.template,
                    target: prepared_target(target_image@, region, self@.use_gray),
                    steps: Preprocessing {
                        grayscale: self@.use_gray,
                        equalize: false,
                        blur: false,
                    },
                    precision,
                    filter: match filter {
                        Some(given) => given,
                        None => ImageMatchFilter::standard(),
                    },
                })
            },
    {
        let cut = match Self::crop_target(target_image, region) {
            Ok(c) => c,
            Err(e) => {
                return Err(e);
            },
        };
        let prepared = Self::gray_image(cut, self.use_gray);
        let steps = Preprocessing { grayscale: self.use_gray, equalize: false, blur: false };
        plan_match(
            self.template.duplicate(),
            prepared,
            steps,
            precision,
            ImageMatchFilter::or_standard(filter),
        )
    }
}

} // verus!

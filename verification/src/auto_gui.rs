//! Finding a named image on a captured screen.
//!
//! This front end takes its two images as the bytes of image files, as they
//! come out of an asset store, and runs the full preprocessing: both images
//! are reduced to grey, equalised and blurred before they are correlated.

use vstd::prelude::*;
use crate::assets::Assets;
use crate::buffer::{ImageBuffer, Raster};
use crate::error::MatchError;
use crate::matcher::{ImageMatchFilter, ImageMatchRegion, ImageMatchResult, ImageMatchResults};
use crate::pipeline::{
    plan_match,
    prepared_target,
    region_ok,
    too_large,
    MatchStep,
    Pending,
    PendingMatch,
    Preprocessing,
};
use crate::surface::Surface;

verus! {

/// A sub-rectangle of the screen to which a search is restricted.
#[derive(Clone, Copy, Debug)]
pub struct FindImageRegion {
    left: u32,
    top: u32,
    width: u32,
    height: u32,
}

impl View for FindImageRegion {
    type V = ImageMatchRegion;

    closed spec fn view(&self) -> ImageMatchRegion {
        ImageMatchRegion {
            left: self.left,
            top: self.top,
            width: self.width,
            height: self.height,
        }
    }
}

impl FindImageRegion {
    /// Makes the region `width` wide and `height` high whose top-left corner
    /// is at `(left, top)`.
    pub fn region(left: u32, top: u32, width: u32, height: u32) -> (r: Self)
        requires
            width > 0,
            height > 0,
        ensures
            r@ == (ImageMatchRegion { left, top, width, height }),
            r@.wf(),
    {
        Self { left, top, width, height }
    }
}

/// One match on the screen: where the image was found, relative to the
/// searched part of the screen, and how well it scored.
#[derive(Clone, Copy, Debug, PartialEq, Eq, Structural)]
pub struct FindImageResult {
    pub left: u32,
    pub top: u32,
    pub precision: i32,
}

impl FindImageResult {
    /// The match `m` as a match on the screen.
    pub open spec fn of(m: ImageMatchResult) -> FindImageResult {
        FindImageResult { left: m.left, top: m.top, precision: m.precision }
    }
}

/// The outcome of a search: the size of the image that was searched for and
/// the matches in the order of their discovery.
#[derive(Debug)]
pub struct FindImageResults {
    pub width: u32,
    pub height: u32,
    pub list: Vec<FindImageResult>,
}

impl FindImageResults {
    /// The first match, `None` when nothing matched. In the outcome of a
    /// matching call the first match is the best one.
    pub fn first(&self) -> (r: Option<&FindImageResult>)
        ensures
            self.list@.len() == 0 ==> r is None,
            self.list@.len() > 0 ==> r == Some(&self.list@[0]),
    {
        if self.list.len() == 0 {
            None
        } else {
            Some(&self.list[0])
        }
    }

    /// The outcome of a matching call as the outcome of a search.
    pub fn from_match(results: ImageMatchResults) -> (found: Self)
        ensures
            found.width == results.width,
            found.height == results.height,
            found.list@ == results.list@.map_values(|m: ImageMatchResult| FindImageResult::of(m)),
    {
        let mut list: Vec<FindImageResult> = Vec::new();
        let mut i: usize = 0;
        while i < results.list.len()
            invariant
                i <= results.list.len(),
                list@.len() == i,
                forall|k: int| 0 <= k < i ==> list@[k] == FindImageResult::of(results.list@[k]),
            decreases results.list.len() - i,
        {
            let m = &results.list[i];
            list.push(FindImageResult { left: m.left, top: m.top, precision: m.precision });
            i = i + 1;
        }
        assert(list@ =~= results.list@.map_values(|m: ImageMatchResult| FindImageResult::of(m)));
        FindImageResults { width: results.width, height: results.height, list }
    }
}

/// The exclusion window of a search.
#[derive(Clone, Copy, Debug)]
pub struct FindImageResultFilter {
    x_delta: u32,
    y_delta: u32,
}

impl View for FindImageResultFilter {
    type V = ImageMatchFilter;

    closed spec fn view(&self) -> ImageMatchFilter {
        ImageMatchFilter { x_delta: self.x_delta, y_delta: self.y_delta }
    }
}

impl FindImageResultFilter {
    /// Makes the exclusion window with the given deltas.
    pub fn new(x_delta: u32, y_delta: u32) -> (f: Self)
        ensures
            f@ == (ImageMatchFilter { x_delta, y_delta }),
    {
        Self { x_delta, y_delta }
    }

    /// Decides whether the candidate `info`, given as column, row and score,
    /// is the same feature as the accepted match `result`.
    pub fn need_filter(&self, result: &FindImageResult, info: (u32, u32, i32)) -> (same: bool)
        ensures
            same == self@.collides(
                info.0 as int,
                info.1 as int,
                result.left as int,
                result.top as int,
            ),
    {
        let accepted = ImageMatchResult {
            left: result.left,
            top: result.top,
            precision: result.precision,
        };
        let window = ImageMatchFilter::new(self.x_delta, self.y_delta);
        window.need_filter(info.0, info.1, &accepted)
    }
}

/// What a search has come to after its first step.
#[derive(Debug)]
pub enum FindStep {
    /// The search is over. The image cannot fit into the searched part of
    /// the screen, so there is nothing to correlate and no match.
    Finished(FindImageResults),
    /// The caller is to apply the pending match's preprocessing steps, to
    /// correlate the two images and to hand the surface to `AutoGui::finish`.
    Correlate(PendingMatch),
}

/// The searcher. With `debug` set, the caller is asked to write out what the
/// search went through; the search itself is the same either way.
#[derive(Clone, Copy, Debug, PartialEq, Eq, Structural)]
pub struct AutoGui {
    pub debug: bool,
}

/// The screen as a search prepares it: cut to the region, where one is
/// given, and reduced to grey.
pub open spec fn prepared_screen(screen: Raster, region: Option<FindImageRegion>) -> Raster {
    prepared_target(screen, AutoGui::region_of(region), true)
}

impl AutoGui {
    /// The preprocessing of every search: grey, equalised, blurred.
    pub open spec fn full() -> Preprocessing {
        Preprocessing { grayscale: true, equalize: true, blur: true }
    }

    /// The model of an optional region.
    pub open spec fn region_of(region: Option<FindImageRegion>) -> Option<ImageMatchRegion> {
        match region {
            Some(r) => Some(r@),
            None => None,
        }
    }

    /// The model of an optional filter, the standard one standing in where
    /// none is given.
    pub open spec fn filter_of(filter: Option<FindImageResultFilter>) -> ImageMatchFilter {
        match filter {
            Some(f) => f@,
            None => ImageMatchFilter::standard(),
        }
    }

    /// Makes a searcher.
    pub fn new(debug: bool) -> (made: Result<Self, MatchError>)
        ensures
            made matches Ok(gui) && gui.debug == debug,
    {
        Ok(Self { debug })
    }

    /// Resizes an image to the width `template_width`, keeping its
    /// proportions; with no width given the image stays as it is.
    pub fn resize_image(img: ImageBuffer, template_width: Option<u32>) -> (resized: Result<
        ImageBuffer,
        MatchError,
    >)
        requires
            img.wf(),
        ensures
            resized is Ok <==> (template_width matches Some(w) ==> img@.can_resize(w as int)),
            resized matches Ok(b) ==> {
                &&& b.wf()
                &&& b@.channels == img@.channels
                &&& b@.width == img@.width_after(template_width)
                &&& b@.height == img@.height_after(template_width)
                &&& img@.keeps_pixels(template_width) ==> b@ == img@
            },
            resized matches Err(e) ==> e is InvalidConfiguration,
    {
        match template_width {
            Some(w) => img.resize(w),
            None => Ok(img),
        }
    }

    /// The corner and size of a region, where one is given.
    pub fn region_parts(region: Option<FindImageRegion>) -> (parts: Option<
        (u32, u32, u32, u32),
    >)
        ensures
            parts == match region {
                Some(r) => Some((r@.left, r@.top, r@.width, r@.height)),
                None => None::<(u32, u32, u32, u32)>,
            },
    {
        match region {
            Some(r) => Some((r.left, r.top, r.width, r.height)),
            None => None,
        }
    }

    /// Takes the first step of a search for `template` on `screen`, the
    /// template having its final size.
    ///
    /// The screen is cut to `region`, where one is given, and both images
    /// are reduced to grey. Match coordinates count from the corner of the
    /// searched part, not from the corner of the screen. Where no filter is
    /// given the standard one is used. The search is
    /// - rejected, if the region is empty or leaves the screen, or if the
    ///   template has no pixel;
    /// - finished without a match, if the template is wider or higher than
    ///   the searched part;
    /// - pending otherwise.
    pub fn locate(
        &self,
        template: ImageBuffer,
        screen: ImageBuffer,
        precision: i32,
        region: Option<FindImageRegion>,
        result_filter: Option<FindImageResultFilter>,
    ) -> (step: Result<FindStep, MatchError>)
        requires
            template.wf(),
            screen.wf(),
        ensures
            step is Ok <==> region_ok(screen@, Self::region_of(region)) && !template@.is_empty(),
            step matches Err(e) ==> e is InvalidConfiguration,
            step is Ok ==> (step matches Ok(FindStep::Finished(_)) <==> too_large(
                template@.grayed(),
                prepared_screen(screen@, region),
            )),
            step matches Ok(FindStep::Finished(results)) ==> {
                &&& too_large(template@.grayed(), prepared_screen(screen@, region))
                &&& results.width == template@.width
                &&& results.height == template@.height
                &&& results.list@ == Seq::<FindImageResult>::empty()
            },
            step matches Ok(FindStep::Correlate(pending)) ==> {
                &&& !too_large(template@.grayed(), prepared_screen(screen@, region))
                &&& pending.wf()
                &&& pending@ == (Pending {
                    template: template@.grayed(),
                    target: prepared_screen(screen@, region),
                    steps: Self::full(),
                    precision,
                    filter: Self::filter_of(result_filter),
                })
            },
    {
        let cut = match Self::region_parts(region) {
            Some((left, top, width, height)) => {
                match screen.crop(ImageMatchRegion { left, top, width, height }) {
                    Ok(c) => c,
                    Err(e) => {
                        return Err(e);
                    },
                }
            },
            None => screen,
        };
        let screen_gray = cut.to_gray();
        let template_gray = template.to_gray();
        let filter = match result_filter {
            Some(f) => ImageMatchFilter::new(f.x_delta, f.y_delta),
            None => ImageMatchFilter::or_standard(None),
        };
        let steps = Preprocessing { grayscale: true, equalize: true, blur: true };
        match plan_match(template_gray, screen_gray, steps, precision, filter) {
            Ok(MatchStep::Finished(results)) => Ok(
                FindStep::Finished(FindImageResults::from_match(results)),
            ),
            Ok(MatchStep::Correlate(pending)) => Ok(FindStep::Correlate(pending)),
            Err(e) => Err(e),
        }
    }

    /// Takes the first step of a search for `template` on `screen`.
    ///
    /// The template is first resized to the width `template_width`, where
    /// one is given; the search then goes on as `locate` says. A resize that
    /// `Raster::can_resize` rules out is rejected.
    pub fn find_image(
        &self,
        template: ImageBuffer,
        screen: ImageBuffer,
        precision: i32,
        region: Option<FindImageRegion>,
        template_width: Option<u32>,
        result_filter: Option<FindImageResultFilter>,
    ) -> (step: Result<FindStep, MatchError>)
        requires
            template.wf(),
            screen.wf(),
        ensures
            step is Ok <==> {
                &&& !template@.is_empty()
                &&& template_width matches Some(w) ==> template@.can_resize(w as int)
                &&& region_ok(screen@, Self::region_of(region))
            },
            step matches Err(e) ==> e is InvalidConfiguration,
            step is Ok ==> (step matches Ok(FindStep::Finished(_)) <==> {
                ||| template@.width_after(template_width) > prepared_screen(screen@, region).width
                ||| template@.height_after(template_width) > prepared_screen(
                    screen@,
                    region,
                ).height
            }),
            step matches Ok(FindStep::Finished(results)) ==> {
                &&& results.width == template@.width_after(template_width)
                &&& results.height == template@.height_after(template_width)
                &&& results.width > prepared_screen(screen@, region).width || results.height
                    > prepared_screen(screen@, region).height
                &&& results.list@ == Seq::<FindImageResult>::empty()
            },
            step matches Ok(FindStep::Correlate(pending)) ==> {
                &&& pending.wf()
                &&& pending@.template.width == template@.width_after(template_width)
                &&& pending@.template.height == template@.height_after(template_width)
                &&& pending@.template.channels == 1
                &&& template@.keeps_pixels(template_width) ==> pending@.template
                    == template@.grayed()
                &&& pending@.target == prepared_screen(screen@, region)
                &&& pending@.steps == Self::full()
                &&& pending@.precision == precision
                &&& pending@.filter == Self::filter_of(result_filter)
            },
    {
        if template.width() == 0 || template.height() == 0 {
            return Err(MatchError::InvalidConfiguration);
        }
        let resized = match Self::resize_image(template, template_width) {
            Ok(r) => r,
            Err(e) => {
                return Err(e);
            },
        };
        self.locate(resized, screen, precision, region, result_filter)
    }

    /// Takes the first step of a search for the asset `assert_path` on the
    /// captured screen.
    ///
    /// `template_asset` holds the bytes that the asset store has under the
    /// name `assert_path`, and `screen_asset` those that it has for the
    /// screen, each `None` if the store has no such asset. A missing asset
    /// is reported under its name. The images are decoded, the template
    /// before the screen, and the search goes on as `find_image` says; what
    /// the decoder cannot read is a `DecodeError`. Whatever the decoder makes
    /// of the bytes, a search that goes on has a template of the width asked
    /// for and, where a region is given, a target of the region's size.
    pub fn find_image_on_screen(
        &mut self,
        assert_path: &str,
        template_asset: Option<Vec<u8>>,
        screen_asset: Option<Vec<u8>>,
        precision: i32,
        region: Option<FindImageRegion>,
        template_width: Option<u32>,
        result_filter: Option<FindImageResultFilter>,
    ) -> (step: Result<FindStep, MatchError>)
        ensures
            *final(self) == *old(self),
            template_asset is None ==> (step matches Err(MatchError::AssetNotFound(name)) && name@
                == assert_path@),
            step matches Err(MatchError::AssetNotFound(name)) ==> {
                ||| template_asset is None && name@ == assert_path@
                ||| template_asset is Some && screen_asset is None && name@ == Assets::SCREEN@
            },
            step matches Err(e) ==> e is AssetNotFound || e is DecodeError
                || e is InvalidConfiguration,
            step is Ok ==> template_asset is Some && screen_asset is Some,
            step is Ok ==> (template_width matches Some(w) ==> w > 0),
            step is Ok ==> (region matches Some(r) ==> r@.wf()),
            step matches Ok(FindStep::Finished(results)) ==> {
                &&& results.width > 0
                &&& results.height > 0
                &&& template_width matches Some(w) ==> results.width == w
                &&& region matches Some(r) ==> results.width > r@.width || results.height
                    > r@.height
                &&& results.list@ == Seq::<FindImageResult>::empty()
            },
            step matches Ok(FindStep::Correlate(pending)) ==> {
                &&& pending.wf()
                &&& template_width matches Some(w) ==> pending@.template.width == w
                &&& pending@.template.channels == 1
                &&& pending@.target.channels == 1
                &&& region matches Some(r) ==> pending@.target.width == r@.width
                    && pending@.target.height == r@.height
                &&& pending@.steps == Self::full()
                &&& pending@.precision == precision
                &&& pending@.filter == Self::filter_of(result_filter)
            },
    {
        let template_bytes = match template_asset {
            Some(bytes) => bytes,
            None => {
                return Err(MatchError::AssetNotFound(assert_path.to_owned()));
            },
        };
        let template = match ImageBuffer::decode(template_bytes.as_slice()) {
            Ok(t) => t,
            Err(e) => {
                return Err(e);
            },
        };
        if template.width() == 0 || template.height() == 0 {
            return Err(MatchError::InvalidConfiguration);
        }
        let template = match Self::resize_image(template, template_width) {
            Ok(t) => t,
            Err(e) => {
                return Err(e);
            },
        };
        let screen_bytes = match screen_asset {
            Some(bytes) => bytes,
            None => {
                return Err(MatchError::AssetNotFound(Assets::SCREEN.to_owned()));
            },
        };
        let screen = match ImageBuffer::decode(screen_bytes.as_slice()) {
            Ok(s) => s,
            Err(e) => {
                return Err(e);
            },
        };
        self.locate(template, screen, precision, region, result_filter)
    }

    /// Ends a search with the outcome of the correlation, as
    /// `PendingMatch::finish` does.
    pub fn finish(&self, pending: PendingMatch, outcome: Result<Surface, String>) -> (done: Result<
        FindImageResults,
        MatchError,
    >)
        requires
            pending.wf(),
            outcome matches Ok(s) ==> s.wf(),
        ensures
            match outcome {
                Err(cause) => done matches Err(MatchError::PrimitiveFailure(text)) && text
                    == cause,
                Ok(s) => if pending@.accepts(s@) {
                    &&& done matches Ok(results)
                    &&& results.width == pending@.template.width
                    &&& results.height == pending@.template.height
                    &&& results.list@ == pending@.matches(s@).map_values(
                        |m: ImageMatchResult| FindImageResult::of(m),
                    )
                } else {
                    done matches Err(MatchError::PrimitiveFailure(text)) && text@
                        == "surface size does not match the images"@
                },
            },
    {
        match pending.finish(outcome) {
            Ok(results) => Ok(FindImageResults::from_match(results)),
            Err(e) => Err(e),
        }
    }
}

} // verus!

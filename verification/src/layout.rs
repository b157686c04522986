//! A layout in progress. Measuring text is not done here: a layout says which
//! texts it wants measured at which font size, takes the widths, and goes on,
//! until it is done or has failed.

use vstd::prelude::*;
use vstd::string::*;
use crate::clamp::{ClampModel, IWordInfo, InputResultForEllipsis, LineClamp, ResultModel,
    WordInfoModel};
use crate::fit::{spec_trial_texts, WordFit, WordFitModel};
use crate::laws::law_trial;
use crate::text::{starts_with_texts, texts_view};

verus! {

/// Why a layout has failed.
#[derive(Clone, Copy, Debug, PartialEq, Eq, Structural)]
pub enum LayoutError {
    /// The widths that were asked for could not be measured.
    MeasurementFailed,
    /// The widths handed in are not as many as the texts that were to be
    /// measured.
    MeasurementCount,
}

impl LayoutError {
    /// A sentence that names the failure.
    pub fn message(&self) -> (r: String)
        ensures
            r@ == match *self {
                LayoutError::MeasurementFailed => "the text could not be measured"@,
                LayoutError::MeasurementCount => "the widths do not match the texts to measure"@,
            },
    {
        match self {
            LayoutError::MeasurementFailed => String::from_str("the text could not be measured"),
            LayoutError::MeasurementCount => String::from_str(
                "the widths do not match the texts to measure",
            ),
        }
    }
}

/// Where a layout stands.
#[derive(Clone, Debug)]
pub enum Layout {
    /// The search for a font size is under way: the tokens and the two
    /// reference texts are to be measured at `font_size`. `incomplete_width`
    /// holds the fitting prefix of the trial before.
    Trial { font_size: i32, incomplete_width: Vec<i64> },
    /// The search has settled on `words_info`, and the last visible line must
    /// end in the ellipsis: the ellipsis is to be measured at the font size of
    /// `words_info`.
    Ellipsis { words_info: IWordInfo },
    /// The layout is done.
    Done { result: InputResultForEllipsis },
    /// The layout has failed.
    Failed { error: LayoutError },
}

/// Model of [`Layout`].
pub enum LayoutModel {
    Trial { font_size: int, incomplete_width: Seq<i64> },
    Ellipsis { words_info: WordInfoModel },
    Done { result: ResultModel },
    Failed { error: LayoutError },
}

impl View for Layout {
    type V = LayoutModel;

    open spec fn view(&self) -> LayoutModel {
        match *self {
            Layout::Trial { font_size, incomplete_width } => LayoutModel::Trial {
                font_size: font_size as int,
                incomplete_width: incomplete_width@,
            },
            Layout::Ellipsis { words_info } => LayoutModel::Ellipsis { words_info: words_info@ },
            Layout::Done { result } => LayoutModel::Done { result: result@ },
            Layout::Failed { error } => LayoutModel::Failed { error },
        }
    }
}

/// The widths that were handed in, if any.
pub open spec fn measured_view(measured: Option<Vec<i32>>) -> Option<Seq<i32>> {
    match measured {
        Some(widths) => Some(widths@),
        None => None,
    }
}

impl LayoutModel {
    /// The layout is one that the configuration `c` can lead to. A trial is
    /// at a font size within the range. The widths that the search has
    /// settled on are at a font size within the range, one for each of the
    /// first tokens of the request. A result is at a font size within the
    /// range and has at least one line, and no more lines than the box has
    /// room for where it has room for a line at all.
    pub open spec fn wf(self, c: ClampModel) -> bool {
        match self {
            LayoutModel::Trial { font_size, incomplete_width } => c.min_font_size <= font_size
                <= c.max_font_size,
            LayoutModel::Ellipsis { words_info } => {
                &&& words_info.wf()
                &&& c.min_font_size <= words_info.font_size <= c.max_font_size
                &&& words_info.text.len() <= c.props.texts.len()
                &&& words_info.text == c.props.texts.take(words_info.text.len() as int)
            },
            LayoutModel::Done { result } => {
                &&& c.min_font_size <= result.font_size <= c.max_font_size
                &&& result.html.len() >= 1
                &&& c.max_lines() >= 1 ==> result.html.len() <= c.max_lines()
            },
            LayoutModel::Failed { error } => true,
        }
    }
}

impl ClampModel {
    /// How a layout begins: with the fallback where the box is unusable, else
    /// with a trial at the largest font size.
    pub open spec fn start(self) -> LayoutModel {
        if self.degenerate() {
            LayoutModel::Done { result: self.fallback() }
        } else {
            LayoutModel::Trial { font_size: self.max_font_size, incomplete_width: Seq::empty() }
        }
    }

    /// The texts that the layout wants measured, and the font size to
    /// measure them at.
    pub open spec fn wanted(self, layout: LayoutModel) -> Option<(Seq<Seq<char>>, int)> {
        match layout {
            LayoutModel::Trial { font_size, incomplete_width } => Some(
                (spec_trial_texts(self.props.texts), font_size),
            ),
            LayoutModel::Ellipsis { words_info } => Some(
                (seq![self.ellipsis], words_info.font_size),
            ),
            _ => None,
        }
    }

    /// Whether the layout of `info` depends on the width of the ellipsis.
    pub open spec fn wants_ellipsis_width(self, info: WordInfoModel) -> bool {
        &&& !self.degenerate()
        &&& self.visible(info.widths, info.ellipsis).len() > 0
        &&& self.needs_ellipsis(info.widths, info.ellipsis)
    }

    /// Where the layout stands once the search has settled on `info`.
    pub open spec fn settle(self, info: WordInfoModel) -> LayoutModel {
        if self.wants_ellipsis_width(info) {
            LayoutModel::Ellipsis { words_info: info }
        } else {
            LayoutModel::Done { result: self.calc(info, 0) }
        }
    }

    /// Where the layout stands after `measured` was handed in: the widths of
    /// the wanted texts in their order, or nothing where measuring failed. A
    /// layout that is done or has failed stays as it is.
    pub open spec fn advance(self, layout: LayoutModel, measured: Option<Seq<i32>>) -> LayoutModel {
        match layout {
            LayoutModel::Trial { font_size, incomplete_width } => match measured {
                None => LayoutModel::Failed { error: LayoutError::MeasurementFailed },
                Some(widths) => if widths.len() != self.props.texts.len() + 2 {
                    LayoutModel::Failed { error: LayoutError::MeasurementCount }
                } else {
                    match self.trial(font_size, incomplete_width, widths) {
                        WordFitModel::Retry { font_size, incomplete_width } => LayoutModel::Trial {
                            font_size,
                            incomplete_width,
                        },
                        WordFitModel::Settled(info) => self.settle(info),
                    }
                },
            },
            LayoutModel::Ellipsis { words_info } => match measured {
                None => LayoutModel::Failed { error: LayoutError::MeasurementFailed },
                Some(widths) => if widths.len() != 1 {
                    LayoutModel::Failed { error: LayoutError::MeasurementCount }
                } else {
                    LayoutModel::Done { result: self.calc(words_info, widths[0] as int) }
                },
            },
            _ => layout,
        }
    }
}

impl LineClamp {
    /// Begins a layout.
    pub fn start(&self) -> (r: Layout)
        requires
            self@.valid(),
        ensures
            r@ == self@.start(),
            r@.wf(self@),
            self@.degenerate() ==> r@ == (LayoutModel::Done { result: self@.fallback() }),
    {
        if self.is_degenerate() {
            Layout::Done { result: self.ellipsis_result().unwrap() }
        } else {
            Layout::Trial { font_size: self.max_font_size, incomplete_width: Vec::new() }
        }
    }

    /// Whether `layout` is one that this request can lead to.
    pub fn well_formed(&self, layout: &Layout) -> (r: bool)
        requires
            self@.valid(),
        ensures
            r == layout@.wf(self@),
    {
        match layout {
            Layout::Trial { font_size, incomplete_width } => self.min_font_size <= *font_size
                && *font_size <= self.max_font_size,
            Layout::Ellipsis { words_info } => words_info.text.len() == words_info.widths.len()
                && self.min_font_size <= words_info.font_size && words_info.font_size
                <= self.max_font_size && starts_with_texts(
                &self.line_clamp_props.texts,
                &words_info.text,
            ),
            Layout::Done { result } => {
                let max_line: i32 = self.max_line_count();
                self.min_font_size <= result.font_size && result.font_size <= self.max_font_size
                    && result.html.len() >= 1 && (max_line < 1 || result.html.len()
                    <= max_line as usize)
            },
            Layout::Failed { error } => true,
        }
    }

    /// The texts that `layout` wants measured, and the font size to measure
    /// them at; nothing where the layout is done or has failed.
    pub fn wanted(&self, layout: &Layout) -> (r: Option<(Vec<String>, i32)>)
        ensures
            match self@.wanted(layout@) {
                Some((texts, font_size)) => r is Some && texts_view(r->Some_0.0@) == texts
                    && r->Some_0.1 == font_size,
                None => r is None,
            },
    {
        match layout {
            Layout::Trial { font_size, incomplete_width } => Some(
                (self.trial_texts(), *font_size),
            ),
            Layout::Ellipsis { words_info } => {
                let mut texts: Vec<String> = Vec::new();
                texts.push(self.ellipsis.clone());
                proof {
                    assert(texts_view(texts@) =~= seq![self@.ellipsis]);
                }
                Some((texts, words_info.font_size))
            },
            _ => None,
        }
    }

    /// Whether the layout of `words_info` depends on the width of the
    /// ellipsis.
    pub fn wants_ellipsis_width(&self, words_info: &IWordInfo) -> (r: bool)
        requires
            self@.valid(),
        ensures
            r == self@.wants_ellipsis_width(words_info@),
    {
        if self.is_degenerate() {
            return false;
        }
        let can_widths = self.calc_word_width_can_in_content(
            words_info,
            self.line_clamp_props.content_width as i64,
        );
        let (can_heights, needs) = self.limit_lines(can_widths, words_info.ellipsis);
        can_heights.len() > 0 && needs
    }

    /// Takes the widths that `layout` wanted, in the order of the texts, or
    /// nothing where measuring failed, and says where the layout stands then.
    pub fn advance(&self, layout: Layout, measured: Option<Vec<i32>>) -> (r: Layout)
        requires
            self@.valid(),
            layout@.wf(self@),
        ensures
            r@ == self@.advance(layout@, measured_view(measured)),
            r@.wf(self@),
    {
        match layout {
            Layout::Trial { font_size, incomplete_width } => match measured {
                None => Layout::Failed { error: LayoutError::MeasurementFailed },
                Some(widths) => {
                    let n: usize = self.line_clamp_props.texts.len();
                    if widths.len() < 2 || widths.len() - 2 != n {
                        return Layout::Failed { error: LayoutError::MeasurementCount };
                    }
                    proof {
                        law_trial(self@, font_size as int, incomplete_width@, widths@);
                    }
                    match self.get_word_widths(font_size, incomplete_width, &widths) {
                        WordFit::Retry { font_size, incomplete_width } => Layout::Trial {
                            font_size,
                            incomplete_width,
                        },
                        WordFit::Settled(words_info) => {
                            if self.wants_ellipsis_width(&words_info) {
                                Layout::Ellipsis { words_info }
                            } else {
                                Layout::Done { result: self.calc(&words_info, 0) }
                            }
                        },
                    }
                },
            },
            Layout::Ellipsis { words_info } => match measured {
                None => Layout::Failed { error: LayoutError::MeasurementFailed },
                Some(widths) => {
                    if widths.len() != 1 {
                        return Layout::Failed { error: LayoutError::MeasurementCount };
                    }
                    Layout::Done { result: self.calc(&words_info, widths[0]) }
                },
            },
            Layout::Done { result } => Layout::Done { result },
            Layout::Failed { error } => Layout::Failed { error },
        }
    }
}

} // verus!

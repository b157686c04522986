//! The data of a layout: what is asked for, how it is configured, what comes
//! out, and the mathematical model of each.

use vstd::prelude::*;
use vstd::string::*;
use crate::text::{spec_html, texts_view, wrap_html};

verus! {

/// What is to be laid out: the tokens in reading order and the box in pixels.
#[derive(Clone, Debug)]
pub struct LineClampProps {
    pub texts: Vec<String>,
    pub content_width: i32,
    pub content_height: i32,
}

/// Model of [`LineClampProps`].
pub struct PropsModel {
    pub texts: Seq<Seq<char>>,
    pub content_width: int,
    pub content_height: int,
}

impl View for LineClampProps {
    type V = PropsModel;

    open spec fn view(&self) -> PropsModel {
        PropsModel {
            texts: texts_view(self.texts@),
            content_width: self.content_width as int,
            content_height: self.content_height as int,
        }
    }
}

/// The widths found for the tokens at one font size. `widths[i]` belongs to
/// `text[i]` and holds the spacing after the token, but for the last token of
/// the request. `ellipsis` is set where the search gave up on some tokens.
#[derive(Clone, Debug)]
pub struct IWordInfo {
    pub text: Vec<String>,
    pub widths: Vec<i64>,
    pub font_size: i32,
    pub ellipsis: bool,
}

/// Model of [`IWordInfo`].
pub struct WordInfoModel {
    pub text: Seq<Seq<char>>,
    pub widths: Seq<i64>,
    pub font_size: int,
    pub ellipsis: bool,
}

impl View for IWordInfo {
    type V = WordInfoModel;

    open spec fn view(&self) -> WordInfoModel {
        WordInfoModel {
            text: texts_view(self.text@),
            widths: self.widths@,
            font_size: self.font_size as int,
            ellipsis: self.ellipsis,
        }
    }
}

impl WordInfoModel {
    /// Every token has its width.
    pub open spec fn wf(self) -> bool {
        self.text.len() == self.widths.len()
    }
}

/// The rendered lines, first line first, and the font size they are meant for.
#[derive(Clone, Debug)]
pub struct InputResultForEllipsis {
    pub html: Vec<String>,
    pub font_size: i32,
}

/// Model of [`InputResultForEllipsis`].
pub struct ResultModel {
    pub html: Seq<Seq<char>>,
    pub font_size: int,
}

impl View for InputResultForEllipsis {
    type V = ResultModel;

    open spec fn view(&self) -> ResultModel {
        ResultModel { html: texts_view(self.html@), font_size: self.font_size as int }
    }
}

/// One place in a line: a token of the given width, or the ellipsis.
#[derive(Clone, Copy, Debug, PartialEq, Eq, Structural)]
pub enum Slot {
    Token(i64),
    Ellipsis,
}

/// Why a configuration is refused.
#[derive(Clone, Copy, Debug, PartialEq, Eq, Structural)]
pub enum ConfigError {
    /// The smallest font size is above the largest.
    FontSizeRange,
    /// The line height is not positive.
    LineHeight,
    /// The step is negative.
    Step,
}

/// A request together with the configuration of the layout. Sizes are whole
/// pixels. `step` is taken off the font size after a trial in which some token
/// was wider than the box; with a step of zero no smaller size is tried.
#[derive(Clone, Debug)]
pub struct LineClamp {
    pub step: i32,
    pub min_font_size: i32,
    pub max_font_size: i32,
    pub line_height: i32,
    pub min_width_height: i32,
    pub ellipsis: String,
    pub line_clamp_props: LineClampProps,
}

/// Model of [`LineClamp`].
pub struct ClampModel {
    pub step: int,
    pub min_font_size: int,
    pub max_font_size: int,
    pub line_height: int,
    pub min_width_height: int,
    pub ellipsis: Seq<char>,
    pub props: PropsModel,
}

impl View for LineClamp {
    type V = ClampModel;

    open spec fn view(&self) -> ClampModel {
        ClampModel {
            step: self.step as int,
            min_font_size: self.min_font_size as int,
            max_font_size: self.max_font_size as int,
            line_height: self.line_height as int,
            min_width_height: self.min_width_height as int,
            ellipsis: self.ellipsis@,
            props: self.line_clamp_props@,
        }
    }
}

/// The first rule that the five numbers of a configuration break, if any: the
/// font sizes are looked at first, then the line height, then the step.
pub open spec fn spec_check(step: int, min_font_size: int, max_font_size: int, line_height: int)
    -> Option<ConfigError> {
    if min_font_size > max_font_size {
        Some(ConfigError::FontSizeRange)
    } else if line_height <= 0 {
        Some(ConfigError::LineHeight)
    } else if step < 0 {
        Some(ConfigError::Step)
    } else {
        None
    }
}

impl ClampModel {
    /// The configuration is consistent.
    pub open spec fn valid(self) -> bool {
        &&& self.min_font_size <= self.max_font_size
        &&& self.line_height > 0
        &&& self.step >= 0
    }

    /// The box is too small to hold anything.
    pub open spec fn degenerate(self) -> bool {
        self.props.content_height <= self.min_width_height || self.props.content_width
            <= self.min_width_height
    }

    /// How many lines of `line_height` the box has room for.
    pub open spec fn max_lines(self) -> int {
        self.props.content_height / self.line_height
    }

    /// The result for a box that holds nothing: one line with the ellipsis
    /// alone, at the smallest font size.
    pub open spec fn fallback(self) -> ResultModel {
        ResultModel { html: seq![spec_html(self.ellipsis)], font_size: self.min_font_size }
    }
}

/// Checks the numbers of a configuration.
pub fn check_config(step: i32, min_font_size: i32, max_font_size: i32, line_height: i32) -> (r:
    Option<ConfigError>)
    ensures
        r == spec_check(step as int, min_font_size as int, max_font_size as int, line_height as int),
{
    if min_font_size > max_font_size {
        Some(ConfigError::FontSizeRange)
    } else if line_height <= 0 {
        Some(ConfigError::LineHeight)
    } else if step < 0 {
        Some(ConfigError::Step)
    } else {
        None
    }
}

impl ConfigError {
    /// A sentence that names the broken rule.
    pub fn message(&self) -> (r: String)
        ensures
            r@ == match *self {
                ConfigError::FontSizeRange => "the smallest font size is above the largest"@,
                ConfigError::LineHeight => "the line height is not positive"@,
                ConfigError::Step => "the step is negative"@,
            },
    {
        match self {
            ConfigError::FontSizeRange => String::from_str(
                "the smallest font size is above the largest",
            ),
            ConfigError::LineHeight => String::from_str("the line height is not positive"),
            ConfigError::Step => String::from_str("the step is negative"),
        }
    }
}

impl LineClamp {
    /// The request `line_clamp_props` under the default configuration: no step,
    /// font sizes from 10 to 14, lines 14 high, a box of 5 or less in either
    /// direction counts as unusable, and the ellipsis is three full stops.
    pub fn new(line_clamp_props: LineClampProps) -> (r: LineClamp)
        ensures
            r@ == (ClampModel {
                step: 0,
                min_font_size: 10,
                max_font_size: 14,
                line_height: 14,
                min_width_height: 5,
                ellipsis: "..."@,
                props: line_clamp_props@,
            }),
            r@.valid(),
    {
        LineClamp {
            step: 0,
            min_font_size: 10,
            max_font_size: 14,
            line_height: 14,
            min_width_height: 5,
            ellipsis: String::from_str("..."),
            line_clamp_props,
        }
    }

    /// The request under a configuration of the caller's, or the first rule
    /// that the configuration breaks.
    pub fn with_config(
        line_clamp_props: LineClampProps,
        step: i32,
        min_font_size: i32,
        max_font_size: i32,
        line_height: i32,
        min_width_height: i32,
        ellipsis: String,
    ) -> (r: Result<LineClamp, ConfigError>)
        ensures
            match spec_check(
                step as int,
                min_font_size as int,
                max_font_size as int,
                line_height as int,
            ) {
                Some(e) => r == Err::<LineClamp, ConfigError>(e),
                None => r is Ok && r->Ok_0@.valid() && r->Ok_0@ == (ClampModel {
                    step: step as int,
                    min_font_size: min_font_size as int,
                    max_font_size: max_font_size as int,
                    line_height: line_height as int,
                    min_width_height: min_width_height as int,
                    ellipsis: ellipsis@,
                    props: line_clamp_props@,
                }),
            },
    {
        match check_config(step, min_font_size, max_font_size, line_height) {
            Some(e) => Err(e),
            None => Ok(
                LineClamp {
                    step,
                    min_font_size,
                    max_font_size,
                    line_height,
                    min_width_height,
                    ellipsis,
                    line_clamp_props,
                },
            ),
        }
    }

    /// The first rule that this configuration breaks, if any.
    pub fn validate(&self) -> (r: Option<ConfigError>)
        ensures
            r == spec_check(
                self@.step,
                self@.min_font_size,
                self@.max_font_size,
                self@.line_height,
            ),
            r is None <==> self@.valid(),
    {
        check_config(self.step, self.min_font_size, self.max_font_size, self.line_height)
    }

    /// Whether the box is too small to hold anything.
    pub fn is_degenerate(&self) -> (r: bool)
        ensures
            r == self@.degenerate(),
    {
        self.line_clamp_props.content_height <= self.min_width_height
            || self.line_clamp_props.content_width <= self.min_width_height
    }

    /// The markup of a line whose text is `value`.
    pub fn transaction_to_html(&self, value: &str) -> (r: String)
        ensures
            r@ == spec_html(value@),
    {
        wrap_html(value)
    }

    /// The result for a box that holds nothing. It is always `Ok`.
    pub fn ellipsis_result(&self) -> (r: Result<InputResultForEllipsis, String>)
        ensures
            r is Ok,
            r->Ok_0@ == self@.fallback(),
    {
        let mut html_result: Vec<String> = Vec::new();
        let html = self.transaction_to_html(self.ellipsis.as_str());
        html_result.push(html);
        let result = InputResultForEllipsis { html: html_result, font_size: self.min_font_size };
        proof {
            assert(result@.html =~= self@.fallback().html);
        }
        Ok(result)
    }

    /// The width of one space between tokens: the width of a reference text
    /// that holds one space, less the width of the same text without it. A
    /// negative difference is handed on as it is.
    pub fn calc_space_width(&self, width: i32, word_width: i32) -> (r: i64)
        ensures
            r == width - word_width,
    {
        let wide: i64 = width as i64;
        let narrow: i64 = word_width as i64;
        wide - narrow
    }
}

} // verus!

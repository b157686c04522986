//! The search for a font size, one trial at a time. A trial measures every
//! token at one font size; it succeeds where no token by itself is wider than
//! the box. After a failed trial the search goes on at a smaller size, until
//! no smaller size is left.

use vstd::prelude::*;
use vstd::string::*;
use crate::clamp::{ClampModel, IWordInfo, LineClamp, WordInfoModel};
use crate::text::{copy_texts, texts_view};

verus! {

/// The reference text for the width of a space: a short text that holds
/// exactly one space.
pub open spec fn spec_spaced_text() -> Seq<char> {
    "5 pace"@
}

/// The reference text without its space.
pub open spec fn spec_unspaced_text() -> Seq<char> {
    "5pace"@
}

/// The texts that a trial measures: the tokens, then the reference text with
/// its one space, then the same text without the space.
pub open spec fn spec_trial_texts(texts: Seq<Seq<char>>) -> Seq<Seq<char>> {
    texts.push(spec_spaced_text()).push(spec_unspaced_text())
}

/// The width of one space, from the measures of the two reference texts that
/// follow the `count` tokens in `measured`.
pub open spec fn spec_space(measured: Seq<i32>, count: int) -> int {
    measured[count] - measured[count + 1]
}

/// The widths of the `count` tokens: the measured width of each, with the
/// width of one space added to all but the last.
pub open spec fn spec_widths(measured: Seq<i32>, count: int) -> Seq<i64> {
    Seq::new(
        count as nat,
        |i: int|
            if i != count - 1 {
                (measured[i] + spec_space(measured, count)) as i64
            } else {
                measured[i] as i64
            },
    )
}

/// The first index at or after `k` whose width is above `limit`, or the
/// length of `widths` where there is none.
pub open spec fn wide_at(widths: Seq<i64>, limit: int, k: int) -> int
    decreases widths.len() - k,
{
    if 0 <= k < widths.len() && widths[k] <= limit {
        wide_at(widths, limit, k + 1)
    } else {
        k
    }
}

/// The longest prefix of `widths` in which no width is above `limit`.
pub open spec fn fitting_prefix(widths: Seq<i64>, limit: int) -> Seq<i64> {
    widths.take(wide_at(widths, limit, 0))
}

/// How one trial ends.
#[derive(Clone, Debug)]
pub enum WordFit {
    /// The search is over, with these widths.
    Settled(IWordInfo),
    /// Some token was too wide: the next trial is due at `font_size`.
    /// `incomplete_width` holds the widths of the tokens before the first one
    /// that was too wide.
    Retry { font_size: i32, incomplete_width: Vec<i64> },
}

/// Model of [`WordFit`].
pub enum WordFitModel {
    Settled(WordInfoModel),
    Retry { font_size: int, incomplete_width: Seq<i64> },
}

impl View for WordFit {
    type V = WordFitModel;

    open spec fn view(&self) -> WordFitModel {
        match *self {
            WordFit::Settled(info) => WordFitModel::Settled(info@),
            WordFit::Retry { font_size, incomplete_width } => WordFitModel::Retry {
                font_size: font_size as int,
                incomplete_width: incomplete_width@,
            },
        }
    }
}

impl ClampModel {
    /// What the search settles on when it gives up: the tokens that
    /// `incomplete_width` has widths for, at the smallest font size.
    pub open spec fn exhausted(self, incomplete_width: Seq<i64>) -> WordInfoModel {
        WordInfoModel {
            text: self.props.texts.take(incomplete_width.len() as int),
            widths: incomplete_width,
            font_size: self.min_font_size,
            ellipsis: true,
        }
    }

    /// The end of the trial at `font_size`. Below the smallest font size
    /// nothing is measured and the search gives up with `incomplete_width`.
    /// Else `measured` holds the measures of `spec_trial_texts`: where no token
    /// is wider than the box, the search settles on all tokens at `font_size`;
    /// where one is, it goes on `step` lower with the fitting prefix, or gives
    /// up with that prefix where there is no step or the next size would be
    /// below the smallest.
    pub open spec fn trial(self, font_size: int, incomplete_width: Seq<i64>, measured: Seq<i32>)
        -> WordFitModel {
        if font_size < self.min_font_size {
            WordFitModel::Settled(self.exhausted(incomplete_width))
        } else {
            let widths = spec_widths(measured, self.props.texts.len() as int);
            if wide_at(widths, self.props.content_width, 0) == widths.len() {
                WordFitModel::Settled(
                    WordInfoModel {
                        text: self.props.texts,
                        widths,
                        font_size,
                        ellipsis: false,
                    },
                )
            } else if self.step > 0 && font_size - self.step >= self.min_font_size {
                WordFitModel::Retry {
                    font_size: font_size - self.step,
                    incomplete_width: fitting_prefix(widths, self.props.content_width),
                }
            } else {
                WordFitModel::Settled(
                    self.exhausted(fitting_prefix(widths, self.props.content_width)),
                )
            }
        }
    }
}

/// The two reference texts differ by one space and by nothing else: the
/// first holds a space at one place and nowhere else, and the second is the
/// first with that space taken out.
pub proof fn law_reference_texts()
    ensures
        spec_spaced_text()[1] == ' ',
        forall|i: int|
            0 <= i < spec_spaced_text().len() && i != 1 ==> #[trigger] spec_spaced_text()[i]
                != ' ',
        spec_unspaced_text() == spec_spaced_text().remove(1),
{
    reveal_strlit("5 pace");
    reveal_strlit("5pace");
    assert(spec_unspaced_text() =~= spec_spaced_text().remove(1));
}

/// `wide_at` stays within the sequence, and no width before it is above the
/// limit.
pub proof fn lemma_wide_at(widths: Seq<i64>, limit: int, k: int)
    requires
        0 <= k <= widths.len(),
    ensures
        k <= wide_at(widths, limit, k) <= widths.len(),
        forall|i: int| k <= i < wide_at(widths, limit, k) ==> #[trigger] widths[i] <= limit,
        wide_at(widths, limit, k) < widths.len() ==> widths[wide_at(widths, limit, k)] > limit,
    decreases widths.len() - k,
{
    if k < widths.len() && widths[k] <= limit {
        lemma_wide_at(widths, limit, k + 1);
    }
}

impl LineClamp {
    /// The two reference texts for the width of a space: first the text with
    /// its one space, then the same text without it.
    pub fn reference_texts() -> (r: (String, String))
        ensures
            r.0@ == spec_spaced_text(),
            r.1@ == spec_unspaced_text(),
    {
        (String::from_str("5 pace"), String::from_str("5pace"))
    }

    /// The texts to measure for a trial.
    pub fn trial_texts(&self) -> (r: Vec<String>)
        ensures
            texts_view(r@) == spec_trial_texts(self@.props.texts),
    {
        let mut out = copy_texts(&self.line_clamp_props.texts, self.line_clamp_props.texts.len());
        proof {
            assert(texts_view(self.line_clamp_props.texts@).take(
                self.line_clamp_props.texts.len() as int,
            ) =~= self@.props.texts);
        }
        let ghost before = out@;
        let (spaced, unspaced) = LineClamp::reference_texts();
        out.push(spaced);
        out.push(unspaced);
        proof {
            assert(texts_view(out@) =~= texts_view(before).push(spec_spaced_text()).push(
                spec_unspaced_text(),
            ));
        }
        out
    }

    /// One trial of the search for a font size. Below the smallest font size
    /// nothing is measured: the search gives up with the tokens that
    /// `incomplete_width` has widths for. Else `measured` holds the width at
    /// `font_size` of each text of `trial_texts`, in that order.
    pub fn get_word_widths(&self, font_size: i32, incomplete_width: Vec<i64>, measured: &Vec<i32>)
        -> (r: WordFit)
        requires
            font_size < self.min_font_size ==> incomplete_width.len()
                <= self.line_clamp_props.texts.len(),
            font_size >= self.min_font_size ==> measured.len() == self.line_clamp_props.texts.len()
                + 2,
        ensures
            r@ == self@.trial(font_size as int, incomplete_width@, measured@),
    {
        if font_size < self.min_font_size {
            return WordFit::Settled(
                IWordInfo {
                    text: copy_texts(&self.line_clamp_props.texts, incomplete_width.len()),
                    ellipsis: true,
                    widths: incomplete_width,
                    font_size: self.min_font_size,
                },
            );
        }
        let n: usize = self.line_clamp_props.texts.len();
        let space_width: i64 = self.calc_space_width(measured[n], measured[n + 1]);
        let ghost target = spec_widths(measured@, n as int);
        let mut widths: Vec<i64> = Vec::new();
        let mut i: usize = 0;
        while i < n
            invariant
                i <= n,
                n + 2 == measured.len(),
                n == self.line_clamp_props.texts.len(),
                space_width == spec_space(measured@, n as int),
                target == spec_widths(measured@, n as int),
                widths@ == target.take(i as int),
            decreases n - i,
        {
            let w: i64 = if n - 1 != i {
                (measured[i] as i64) + space_width
            } else {
                measured[i] as i64
            };
            widths.push(w);
            i = i + 1;
            proof {
                assert(widths@ =~= target.take(i as int));
            }
        }
        proof {
            assert(widths@ =~= target);
        }
        let limit: i64 = self.line_clamp_props.content_width as i64;
        let mut fitting: usize = 0;
        while fitting < n && widths[fitting] <= limit
            invariant
                fitting <= n,
                n == widths.len(),
                wide_at(widths@, limit as int, 0) == wide_at(widths@, limit as int, fitting as int),
            decreases n - fitting,
        {
            fitting = fitting + 1;
        }
        if fitting == n {
            proof {
                assert(texts_view(self.line_clamp_props.texts@).take(n as int)
                    =~= self@.props.texts);
            }
            return WordFit::Settled(
                IWordInfo {
                    text: copy_texts(&self.line_clamp_props.texts, n),
                    widths,
                    font_size,
                    ellipsis: false,
                },
            );
        }
        let ghost all = widths@;
        widths.truncate(fitting);
        proof {
            assert(widths@ =~= fitting_prefix(all, limit as int));
        }
        let next: i64 = (font_size as i64) - (self.step as i64);
        if self.step > 0 && next >= self.min_font_size as i64 {
            WordFit::Retry { font_size: next as i32, incomplete_width: widths }
        } else {
            WordFit::Settled(
                IWordInfo {
                    text: copy_texts(&self.line_clamp_props.texts, fitting),
                    ellipsis: true,
                    widths,
                    font_size: self.min_font_size,
                },
            )
        }
    }
}

} // verus!

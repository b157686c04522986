//! From widths to markup: the plan of the visible lines, slot by slot, and the
//! text and markup of each line of a plan.

use vstd::prelude::*;
use vstd::string::*;
use crate::clamp::{ClampModel, IWordInfo, InputResultForEllipsis, LineClamp, ResultModel, Slot,
    WordInfoModel};
use crate::lines::{fit_end, lemma_fit_end_bounds, lemma_group_from_total,
    lemma_widths_before_grows, lemma_widths_before_take, lines_view, plan_view, slots_of,
    spec_apply_ellipsis, spec_group, spec_limit, widths_before};
use crate::text::{join_words, spec_html, spec_line_text, texts_view, trim};

verus! {

/// How many slots of `line` hold a token.
pub open spec fn token_count(line: Seq<Slot>) -> nat
    decreases line.len(),
{
    if line.len() == 0 {
        0
    } else {
        token_count(line.drop_last()) + if line.last() is Token {
            1nat
        } else {
            0nat
        }
    }
}

/// How many tokens the lines before line `k` hold.
pub open spec fn tokens_before(plan: Seq<Seq<Slot>>, k: int) -> nat
    decreases k,
{
    if k <= 0 {
        0
    } else {
        tokens_before(plan, k - 1) + token_count(plan[k - 1])
    }
}

/// Whether the last slot of `line` is the ellipsis.
pub open spec fn ends_in_ellipsis(line: Seq<Slot>) -> bool {
    line.len() > 0 && line.last() == Slot::Ellipsis
}

/// The tokens of line `k`: tokens are handed out to the lines from left to
/// right, one for each token slot, so line `k` starts where the lines before
/// it have stopped.
pub open spec fn line_words(plan: Seq<Seq<Slot>>, text: Seq<Seq<char>>, k: int) -> Seq<Seq<char>> {
    text.subrange(
        tokens_before(plan, k) as int,
        (tokens_before(plan, k) + token_count(plan[k])) as int,
    )
}

/// The markup of line `k`: its tokens joined by single spaces, then the glyph
/// where the line ends in the ellipsis, trimmed and wrapped.
pub open spec fn spec_render_line(
    plan: Seq<Seq<Slot>>,
    text: Seq<Seq<char>>,
    glyph: Seq<char>,
    k: int,
) -> Seq<char> {
    spec_html(
        spec_line_text(
            line_words(plan, text, k),
            if ends_in_ellipsis(plan[k]) {
                Some(glyph)
            } else {
                None
            },
        ),
    )
}

/// The markup of every line of the plan.
pub open spec fn spec_render(plan: Seq<Seq<Slot>>, text: Seq<Seq<char>>, glyph: Seq<char>) -> Seq<
    Seq<char>,
> {
    Seq::new(plan.len(), |k: int| spec_render_line(plan, text, glyph, k))
}

impl ClampModel {
    /// The lines that stay visible of the widths packed into the box.
    pub open spec fn visible(self, widths: Seq<i64>, exhausted: bool) -> Seq<Seq<i64>> {
        spec_limit(spec_group(widths, self.props.content_width), self.max_lines(), exhausted).0
    }

    /// Whether the last visible line must end in the ellipsis.
    pub open spec fn needs_ellipsis(self, widths: Seq<i64>, exhausted: bool) -> bool {
        spec_limit(spec_group(widths, self.props.content_width), self.max_lines(), exhausted).1
    }

    /// The visible lines slot by slot. Where the ellipsis is needed, the last
    /// line makes room for it and ends in it; every other line holds its
    /// widths unchanged.
    pub open spec fn plan(self, widths: Seq<i64>, exhausted: bool, ellipsis_width: int) -> Seq<
        Seq<Slot>,
    > {
        let visible = self.visible(widths, exhausted);
        Seq::new(
            visible.len(),
            |k: int|
                if self.needs_ellipsis(widths, exhausted) && k == visible.len() - 1 {
                    spec_apply_ellipsis(visible[k], ellipsis_width, self.props.content_width)
                } else {
                    slots_of(visible[k])
                },
        )
    }

    /// The layout of the tokens of `info`: the fallback where the box is
    /// unusable or no line is visible, else the markup of the planned lines at
    /// the font size of `info`.
    pub open spec fn calc(self, info: WordInfoModel, ellipsis_width: int) -> ResultModel {
        let plan = self.plan(info.widths, info.ellipsis, ellipsis_width);
        if self.degenerate() || plan.len() == 0 {
            self.fallback()
        } else {
            ResultModel {
                html: spec_render(plan, info.text, self.ellipsis),
                font_size: info.font_size,
            }
        }
    }
}

/// The token count of a line with one more slot at its end.
pub proof fn lemma_token_count_push(line: Seq<Slot>, slot: Slot)
    ensures
        token_count(line.push(slot)) == token_count(line) + if slot is Token {
            1nat
        } else {
            0nat
        },
{
    assert(line.push(slot).drop_last() =~= line);
}

/// A line of widths holds one token for each width.
pub proof fn lemma_token_count_slots(line: Seq<i64>)
    ensures
        token_count(slots_of(line)) == line.len(),
    decreases line.len(),
{
    if line.len() > 0 {
        lemma_token_count_slots(line.drop_last());
        assert(slots_of(line).drop_last() =~= slots_of(line.drop_last()));
    }
}

/// The tokens before a line are no more than the tokens before a later line.
pub proof fn lemma_tokens_before_grows(plan: Seq<Seq<Slot>>, a: int, b: int)
    requires
        a <= b,
    ensures
        tokens_before(plan, a) <= tokens_before(plan, b),
    decreases b - a,
{
    if a < b {
        lemma_tokens_before_grows(plan, a, b - 1);
    }
}

impl ClampModel {
    /// The plan holds no more tokens than there are widths: up to line `k`, as
    /// many as the visible lines hold widths at most.
    pub proof fn lemma_plan_tokens(
        self,
        widths: Seq<i64>,
        exhausted: bool,
        ellipsis_width: int,
        k: int,
    )
        requires
            0 <= k <= self.plan(widths, exhausted, ellipsis_width).len(),
        ensures
            tokens_before(self.plan(widths, exhausted, ellipsis_width), k) <= widths_before(
                self.visible(widths, exhausted),
                k,
            ) <= widths.len(),
            k < self.plan(widths, exhausted, ellipsis_width).len() ==> tokens_before(
                self.plan(widths, exhausted, ellipsis_width),
                k,
            ) == widths_before(self.visible(widths, exhausted), k),
        decreases k,
    {
        let plan = self.plan(widths, exhausted, ellipsis_width);
        let visible = self.visible(widths, exhausted);
        let lines = spec_group(widths, self.props.content_width);
        lemma_group_from_total(widths, self.props.content_width, 0);
        assert(visible.len() <= lines.len());
        assert(visible =~= lines.take(visible.len() as int));
        lemma_widths_before_take(lines, visible.len() as int, k);
        lemma_widths_before_grows(lines, k, lines.len() as int);
        if k > 0 {
            self.lemma_plan_tokens(widths, exhausted, ellipsis_width, k - 1);
            let line = visible[k - 1];
            if self.needs_ellipsis(widths, exhausted) && k - 1 == visible.len() - 1 {
                let limit = self.props.content_width - ellipsis_width;
                let kept = fit_end(line, limit, 0, 0);
                lemma_fit_end_bounds(line, limit, 0, 0);
                lemma_token_count_slots(line.take(kept));
                lemma_token_count_push(slots_of(line.take(kept)), Slot::Ellipsis);
            } else {
                lemma_token_count_slots(line);
            }
        }
    }
}

/// How many slots of `line` hold a token.
pub fn count_tokens(line: &Vec<Slot>) -> (r: usize)
    ensures
        r == token_count(line@),
{
    let mut count: usize = 0;
    let mut i: usize = 0;
    while i < line.len()
        invariant
            i <= line.len(),
            count <= i,
            count == token_count(line@.take(i as int)),
        decreases line.len() - i,
    {
        proof {
            assert(line@.take(i as int + 1).drop_last() =~= line@.take(i as int));
        }
        match line[i] {
            Slot::Token(_) => {
                count = count + 1;
            },
            Slot::Ellipsis => {},
        }
        i = i + 1;
    }
    proof {
        assert(line@.take(line.len() as int) =~= line@);
    }
    count
}

/// The widths of `line` as token slots.
pub fn to_slots(line: &Vec<i64>) -> (r: Vec<Slot>)
    ensures
        r@ == slots_of(line@),
{
    let mut out: Vec<Slot> = Vec::new();
    let mut i: usize = 0;
    while i < line.len()
        invariant
            i <= line.len(),
            out@ == slots_of(line@.take(i as int)),
        decreases line.len() - i,
    {
        out.push(Slot::Token(line[i]));
        i = i + 1;
        proof {
            assert(out@ =~= slots_of(line@.take(i as int)));
        }
    }
    proof {
        assert(line@.take(line.len() as int) =~= line@);
    }
    out
}

impl LineClamp {
    /// Plans the visible lines for the widths of `words_info`, with an
    /// ellipsis of `ellipsis_width` where one is needed.
    pub fn plan_lines(&self, words_info: &IWordInfo, ellipsis_width: i32) -> (plan: Vec<Vec<Slot>>)
        requires
            self@.valid(),
        ensures
            plan_view(plan@) == self@.plan(
                words_info@.widths,
                words_info@.ellipsis,
                ellipsis_width as int,
            ),
    {
        let content_width: i64 = self.line_clamp_props.content_width as i64;
        let can_widths = self.calc_word_width_can_in_content(words_info, content_width);
        let (can_heights, needs) = self.limit_lines(can_widths, words_info.ellipsis);
        let ghost target = self@.plan(
            words_info@.widths,
            words_info@.ellipsis,
            ellipsis_width as int,
        );
        let n: usize = can_heights.len();
        let mut plan: Vec<Vec<Slot>> = Vec::new();
        let mut k: usize = 0;
        while k < n
            invariant
                k <= n,
                n == can_heights.len(),
                n == target.len(),
                content_width == self@.props.content_width,
                lines_view(can_heights@) == self@.visible(
                    words_info@.widths,
                    words_info@.ellipsis,
                ),
                needs == self@.needs_ellipsis(words_info@.widths, words_info@.ellipsis),
                target == self@.plan(
                    words_info@.widths,
                    words_info@.ellipsis,
                    ellipsis_width as int,
                ),
                plan.len() == k,
                forall|j: int| 0 <= j < k ==> (#[trigger] plan@[j])@ == target[j],
            decreases n - k,
        {
            assert(lines_view(can_heights@)[k as int] == can_heights@[k as int]@);
            let line = if needs && k == n - 1 {
                self.apply_ellipsis(&can_heights[k], ellipsis_width as i64, content_width)
            } else {
                to_slots(&can_heights[k])
            };
            plan.push(line);
            k = k + 1;
        }
        proof {
            assert(plan_view(plan@) =~= target);
        }
        plan
    }

    /// The markup of the lines of `plan`, with the tokens of `text` handed
    /// out to the token slots from left to right.
    pub fn render_lines(&self, plan: &Vec<Vec<Slot>>, text: &Vec<String>) -> (html: Vec<String>)
        requires
            tokens_before(plan_view(plan@), plan.len() as int) <= text.len(),
        ensures
            texts_view(html@) == spec_render(plan_view(plan@), texts_view(text@), self@.ellipsis),
    {
        let ghost lines = plan_view(plan@);
        let ghost words = texts_view(text@);
        let mut html: Vec<String> = Vec::new();
        let mut i: usize = 0;
        let mut k: usize = 0;
        while k < plan.len()
            invariant
                k <= plan.len(),
                lines == plan_view(plan@),
                words == texts_view(text@),
                tokens_before(lines, plan.len() as int) <= text.len(),
                i == tokens_before(lines, k as int),
                html.len() == k,
                forall|j: int|
                    0 <= j < k ==> (#[trigger] html@[j])@ == spec_render_line(
                        lines,
                        words,
                        self@.ellipsis,
                        j,
                    ),
            decreases plan.len() - k,
        {
            let item = &plan[k];
            let count: usize = count_tokens(item);
            proof {
                assert(lines[k as int] == item@);
                lemma_tokens_before_grows(lines, k as int + 1, plan.len() as int);
            }
            let joined = join_words(text, i, i + count);
            let len: usize = item.len();
            let ends = len > 0 && item[len - 1] == Slot::Ellipsis;
            let line = if ends {
                let mut str = String::from_str(trim(joined.as_str()));
                str.append(self.ellipsis.as_str());
                self.transaction_to_html(str.as_str())
            } else {
                self.transaction_to_html(joined.as_str())
            };
            html.push(line);
            i = i + count;
            k = k + 1;
        }
        proof {
            assert(texts_view(html@) =~= spec_render(lines, words, self@.ellipsis));
        }
        html
    }

    /// Lays out the tokens of `words_info`, which the search for a font size
    /// has settled on. `ellipsis_width` is the width of the ellipsis at the
    /// font size of `words_info`; it is looked at only where the last visible
    /// line must end in the ellipsis.
    pub fn calc(&self, words_info: &IWordInfo, ellipsis_width: i32) -> (r: InputResultForEllipsis)
        requires
            self@.valid(),
            words_info@.wf(),
        ensures
            r@ == self@.calc(words_info@, ellipsis_width as int),
            self@.degenerate() ==> r@ == self@.fallback(),
            r@.html.len() >= 1,
            self@.max_lines() >= 1 ==> r@.html.len() <= self@.max_lines(),
            r@.font_size == words_info@.font_size || r@.font_size == self@.min_font_size,
    {
        if self.is_degenerate() {
            return self.ellipsis_result().unwrap();
        }
        let plan = self.plan_lines(words_info, ellipsis_width);
        if plan.len() == 0 {
            return self.ellipsis_result().unwrap();
        }
        proof {
            self@.lemma_plan_tokens(
                words_info@.widths,
                words_info@.ellipsis,
                ellipsis_width as int,
                plan.len() as int,
            );
        }
        let html = self.render_lines(&plan, &words_info.text);
        InputResultForEllipsis { html, font_size: words_info.font_size }
    }
}

} // verus!

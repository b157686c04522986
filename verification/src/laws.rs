//! What holds of every layout, proved over the models.

use vstd::prelude::*;
use crate::clamp::{ClampModel, Slot, WordInfoModel};
use crate::fit::{lemma_wide_at, spec_space, spec_spaced_text, spec_trial_texts,
    spec_unspaced_text, spec_widths, WordFitModel};
use crate::layout::LayoutModel;
use crate::lines::{fit_end, group_from, kept_with_ellipsis, lemma_fit_end_bounds,
    lemma_group_from_line, lemma_group_from_total, spec_apply_ellipsis, spec_group, total,
    widths_before};
use crate::render::{ends_in_ellipsis, lemma_tokens_before_grows, line_words, tokens_before};
use crate::text::spec_html;

verus! {

/// The tokens of the first `k` lines of the plan, line after line.
pub open spec fn words_up_to(plan: Seq<Seq<Slot>>, text: Seq<Seq<char>>, k: int) -> Seq<Seq<char>>
    decreases k,
{
    if k <= 0 {
        Seq::empty()
    } else {
        words_up_to(plan, text, k - 1) + line_words(plan, text, k - 1)
    }
}

/// The widths of the first `k` lines, line after line.
pub open spec fn widths_up_to(lines: Seq<Seq<i64>>, k: int) -> Seq<i64>
    decreases k,
{
    if k <= 0 {
        Seq::empty()
    } else {
        widths_up_to(lines, k - 1) + lines[k - 1]
    }
}

/// An unusable box gives the fallback: one line that holds the ellipsis
/// alone, at the smallest font size. This holds at the start of a layout,
/// before anything is measured, and of the layout of any widths.
pub proof fn law_unusable_box(c: ClampModel, info: WordInfoModel, ellipsis_width: int)
    requires
        c.degenerate(),
    ensures
        c.start() == (LayoutModel::Done { result: c.fallback() }),
        c.calc(info, ellipsis_width) == c.fallback(),
        c.fallback().html.len() == 1,
        c.fallback().html[0] == spec_html(c.ellipsis),
        c.fallback().font_size == c.min_font_size,
{
}

/// A layout has at least one line, and no more lines than the box has room
/// for, as long as the box has room for one line at all.
pub proof fn law_line_count(c: ClampModel, info: WordInfoModel, ellipsis_width: int)
    ensures
        c.calc(info, ellipsis_width).html.len() >= 1,
        c.max_lines() >= 1 ==> c.calc(info, ellipsis_width).html.len() <= c.max_lines(),
{
}

/// The font size of a layout is that of the widths it was made from, or the
/// smallest: with widths at a font size within the range, the font size of
/// the layout is within the range.
pub proof fn law_font_size(c: ClampModel, info: WordInfoModel, ellipsis_width: int)
    requires
        c.valid(),
        c.min_font_size <= info.font_size <= c.max_font_size,
    ensures
        c.min_font_size <= c.calc(info, ellipsis_width).font_size <= c.max_font_size,
{
}

/// A trial at a font size within the range settles on widths at a font size
/// within the range, one width for each token it keeps, the tokens being the
/// first tokens of the request; or it goes on at a smaller font size within
/// the range.
pub proof fn law_trial(c: ClampModel, font_size: int, incomplete_width: Seq<i64>, measured: Seq<i32>)
    requires
        c.valid(),
        c.min_font_size <= font_size <= c.max_font_size,
        measured.len() == c.props.texts.len() + 2,
    ensures
        match c.trial(font_size, incomplete_width, measured) {
            WordFitModel::Settled(info) => {
                &&& info.wf()
                &&& c.min_font_size <= info.font_size <= c.max_font_size
                &&& info.text == c.props.texts.take(info.text.len() as int)
                &&& info.text.len() <= c.props.texts.len()
                &&& !info.ellipsis ==> info.font_size == font_size && info.text == c.props.texts
                &&& forall|i: int|
                    0 <= i < info.widths.len() ==> #[trigger] info.widths[i]
                        <= c.props.content_width
            },
            WordFitModel::Retry { font_size: next, incomplete_width: kept } => {
                &&& c.step > 0
                &&& next == font_size - c.step
                &&& c.min_font_size <= next < font_size
                &&& kept.len() < c.props.texts.len()
            },
        },
{
    let widths = spec_widths(measured, c.props.texts.len() as int);
    lemma_wide_at(widths, c.props.content_width, 0);
    assert(c.props.texts.take(c.props.texts.len() as int) =~= c.props.texts);
}

/// A layout begins in a well-formed state.
pub proof fn law_start_wf(c: ClampModel)
    requires
        c.valid(),
    ensures
        c.start().wf(c),
{
}

/// Every state that a layout can reach from a well-formed state is
/// well-formed: the font size stays within the range, whatever is measured.
pub proof fn law_advance_wf(c: ClampModel, layout: LayoutModel, measured: Option<Seq<i32>>)
    requires
        c.valid(),
        layout.wf(c),
    ensures
        c.advance(layout, measured).wf(c),
{
    match layout {
        LayoutModel::Trial { font_size, incomplete_width } => {
            if measured is Some && measured->Some_0.len() == c.props.texts.len() + 2 {
                law_trial(c, font_size, incomplete_width, measured->Some_0);
            }
        },
        _ => {},
    }
}

/// What measuring answers for `texts` at `font_size`: the width of each text
/// in its order, or nothing where one of them cannot be measured. `measure`
/// stands for the measuring: it gives the width of a text at a font size.
pub open spec fn answers(
    measure: spec_fn(Seq<char>, int) -> Option<i32>,
    texts: Seq<Seq<char>>,
    font_size: int,
) -> Option<Seq<i32>> {
    if forall|i: int| 0 <= i < texts.len() ==> (#[trigger] measure(texts[i], font_size)) is Some {
        Some(Seq::new(texts.len(), |i: int| measure(texts[i], font_size)->Some_0))
    } else {
        None
    }
}

/// The width of a space that a trial works with is the width of the
/// reference text with its one space, less the width of the same text
/// without the space, both measured at the font size of the trial.
pub proof fn law_space_width(
    c: ClampModel,
    measure: spec_fn(Seq<char>, int) -> Option<i32>,
    font_size: int,
    incomplete_width: Seq<i64>,
)
    ensures
        ({
            let layout = LayoutModel::Trial { font_size, incomplete_width };
            let count = c.props.texts.len() as int;
            &&& c.wanted(layout) == Some((spec_trial_texts(c.props.texts), font_size))
            &&& answers(measure, spec_trial_texts(c.props.texts), font_size) matches Some(
                measured,
            ) ==> {
                &&& measured.len() == count + 2
                &&& measure(spec_spaced_text(), font_size) is Some
                &&& measure(spec_unspaced_text(), font_size) is Some
                &&& spec_space(measured, count) == measure(spec_spaced_text(), font_size)->Some_0
                    - measure(spec_unspaced_text(), font_size)->Some_0
            }
        }),
{
    let texts = spec_trial_texts(c.props.texts);
    let count = c.props.texts.len() as int;
    assert(texts[count] == spec_spaced_text());
    assert(texts[count + 1] == spec_unspaced_text());
}

impl ClampModel {
    /// Where the layout stands after what it wanted was measured by `measure`.
    pub open spec fn step_under(
        self,
        measure: spec_fn(Seq<char>, int) -> Option<i32>,
        layout: LayoutModel,
    ) -> LayoutModel {
        match self.wanted(layout) {
            Some((texts, font_size)) => self.advance(layout, answers(measure, texts, font_size)),
            None => layout,
        }
    }

    /// Where the layout stands after `steps` rounds of measuring by `measure`.
    pub open spec fn run(
        self,
        measure: spec_fn(Seq<char>, int) -> Option<i32>,
        layout: LayoutModel,
        steps: nat,
    ) -> LayoutModel
        decreases steps,
    {
        if steps == 0 {
            layout
        } else {
            self.run(measure, self.step_under(measure, layout), (steps - 1) as nat)
        }
    }

    /// The most rounds of measuring that the layout can still ask for: one
    /// for each font size that the search can still try, and one for the
    /// ellipsis.
    pub open spec fn steps_left(self, layout: LayoutModel) -> nat {
        match layout {
            LayoutModel::Trial { font_size, incomplete_width } => if self.step > 0 && font_size
                >= self.min_font_size {
                ((font_size - self.min_font_size) / self.step + 2) as nat
            } else {
                2
            },
            LayoutModel::Ellipsis { words_info } => 1,
            _ => 0,
        }
    }
}

/// One step lower, one trial less.
pub proof fn lemma_steps_after(a: int, s: int)
    requires
        s > 0,
        a >= s,
    ensures
        a / s >= 1,
        (a - s) / s == a / s - 1,
{
    assert(a / s >= 1 && (a - s) / s == a / s - 1) by (nonlinear_arith)
        requires
            s > 0,
            a >= s,
    ;
}

/// A round of measuring brings the layout nearer to its end, whatever is
/// measured.
pub proof fn law_step_counts_down(
    c: ClampModel,
    measure: spec_fn(Seq<char>, int) -> Option<i32>,
    layout: LayoutModel,
)
    requires
        c.valid(),
        layout.wf(c),
    ensures
        c.step_under(measure, layout).wf(c),
        c.steps_left(layout) > 0 ==> c.steps_left(c.step_under(measure, layout)) < c.steps_left(
            layout,
        ),
        c.steps_left(layout) == 0 ==> c.step_under(measure, layout) == layout,
{
    match layout {
        LayoutModel::Trial { font_size, incomplete_width } => {
            let measured = answers(measure, c.wanted(layout)->Some_0.0, font_size);
            law_advance_wf(c, layout, measured);
            if measured is Some && measured->Some_0.len() == c.props.texts.len() + 2 {
                law_trial(c, font_size, incomplete_width, measured->Some_0);
                if c.trial(font_size, incomplete_width, measured->Some_0) is Retry {
                    lemma_steps_after(font_size - c.min_font_size, c.step);
                }
            }
            if c.step > 0 {
                assert((font_size - c.min_font_size) / c.step >= 0) by (nonlinear_arith)
                    requires
                        c.step > 0,
                        font_size - c.min_font_size >= 0,
                ;
            }
        },
        LayoutModel::Ellipsis { words_info } => {
            let measured = answers(measure, c.wanted(layout)->Some_0.0, words_info.font_size);
            law_advance_wf(c, layout, measured);
        },
        _ => {},
    }
}

/// A layout comes to its end: after as many rounds of measuring as
/// `steps_left` counts it is done or has failed, and further rounds change
/// nothing.
pub proof fn law_run_ends(
    c: ClampModel,
    measure: spec_fn(Seq<char>, int) -> Option<i32>,
    layout: LayoutModel,
    steps: nat,
)
    requires
        c.valid(),
        layout.wf(c),
        steps >= c.steps_left(layout),
    ensures
        c.run(measure, layout, steps) is Done || c.run(measure, layout, steps) is Failed,
        c.run(measure, layout, steps).wf(c),
        c.run(measure, layout, steps) == c.run(measure, layout, c.steps_left(layout)),
    decreases steps,
{
    law_step_counts_down(c, measure, layout);
    let next = c.step_under(measure, layout);
    if steps > 0 {
        law_run_ends(c, measure, next, (steps - 1) as nat);
        if c.steps_left(layout) > 0 {
            law_run_ends(c, measure, next, (c.steps_left(layout) - 1) as nat);
        } else {
            assert(next == layout);
            assert(c.run(measure, layout, 0) == layout);
        }
    }
}

/// The same request, measured the same way, is laid out the same way: two
/// layouts of one request that are carried to their end under one way of
/// measuring end in the same result or the same failure, however many rounds
/// each is given beyond what it needs. The rounds needed are no more than
/// the trials of the search, one for every `step` between the largest and
/// the smallest font size, and one round for the ellipsis.
pub proof fn law_same_measures_same_layout(
    c: ClampModel,
    measure: spec_fn(Seq<char>, int) -> Option<i32>,
    steps_a: nat,
    steps_b: nat,
)
    requires
        c.valid(),
        steps_a >= c.steps_left(c.start()),
        steps_b >= c.steps_left(c.start()),
    ensures
        c.run(measure, c.start(), steps_a) == c.run(measure, c.start(), steps_b),
        c.run(measure, c.start(), steps_a) is Done || c.run(measure, c.start(), steps_a) is Failed,
        c.run(measure, c.start(), steps_a).wf(c),
        c.step > 0 ==> c.steps_left(c.start()) <= (c.max_font_size - c.min_font_size) / c.step + 2,
{
    law_run_ends(c, measure, c.start(), steps_a);
    law_run_ends(c, measure, c.start(), steps_b);
}

/// The tokens of the lines of a plan, line after line, are the first tokens
/// of the text: none is left out, none comes twice, none changes its place.
pub proof fn law_words_in_order(plan: Seq<Seq<Slot>>, text: Seq<Seq<char>>, k: int)
    requires
        0 <= k <= plan.len(),
        tokens_before(plan, k) <= text.len(),
    ensures
        words_up_to(plan, text, k) == text.take(tokens_before(plan, k) as int),
    decreases k,
{
    if k > 0 {
        lemma_tokens_before_grows(plan, k - 1, k);
        law_words_in_order(plan, text, k - 1);
        assert(text.take(tokens_before(plan, k - 1) as int) + line_words(plan, text, k - 1)
            =~= text.take(tokens_before(plan, k) as int));
    } else {
        assert(text.take(0) =~= Seq::<Seq<char>>::empty());
    }
}

/// The tokens that a layout shows are the first tokens of the widths it was
/// made from, in their order; and with them the first tokens of the request,
/// where those widths belong to the first tokens of the request.
pub proof fn law_token_order(c: ClampModel, info: WordInfoModel, ellipsis_width: int)
    requires
        info.wf(),
    ensures
        ({
            let plan = c.plan(info.widths, info.ellipsis, ellipsis_width);
            let shown = tokens_before(plan, plan.len() as int);
            &&& shown <= info.text.len()
            &&& words_up_to(plan, info.text, plan.len() as int) == info.text.take(shown as int)
            &&& info.text == c.props.texts.take(info.text.len() as int) && info.text.len()
                <= c.props.texts.len() ==> words_up_to(plan, info.text, plan.len() as int)
                == c.props.texts.take(shown as int)
        }),
{
    let plan = c.plan(info.widths, info.ellipsis, ellipsis_width);
    let shown = tokens_before(plan, plan.len() as int);
    c.lemma_plan_tokens(info.widths, info.ellipsis, ellipsis_width, plan.len() as int);
    law_words_in_order(plan, info.text, plan.len() as int);
    if info.text == c.props.texts.take(info.text.len() as int) && info.text.len()
        <= c.props.texts.len() {
        assert(c.props.texts.take(info.text.len() as int).take(shown as int)
            =~= c.props.texts.take(shown as int));
    }
}

/// The ellipsis stands nowhere but in the last slot of the last line of a
/// plan, and it stands there exactly where the ellipsis is needed.
pub proof fn law_ellipsis_last(c: ClampModel, widths: Seq<i64>, exhausted: bool, ellipsis_width: int)
    ensures
        ({
            let plan = c.plan(widths, exhausted, ellipsis_width);
            &&& forall|k: int, j: int|
                0 <= k < plan.len() && 0 <= j < plan[k].len() && #[trigger] plan[k][j]
                    == Slot::Ellipsis ==> k == plan.len() - 1 && j == plan[k].len() - 1
            &&& plan.len() > 0 ==> (ends_in_ellipsis(plan.last()) <==> c.needs_ellipsis(
                widths,
                exhausted,
            ))
        }),
{
    let plan = c.plan(widths, exhausted, ellipsis_width);
    let visible = c.visible(widths, exhausted);
    assert forall|k: int, j: int|
        0 <= k < plan.len() && 0 <= j < plan[k].len() && #[trigger] plan[k][j]
            == Slot::Ellipsis implies k == plan.len() - 1 && j == plan[k].len() - 1 by {
        if c.needs_ellipsis(widths, exhausted) && k == visible.len() - 1 {
            let kept = kept_with_ellipsis(visible[k], ellipsis_width, c.props.content_width);
            lemma_fit_end_bounds(visible[k], c.props.content_width - ellipsis_width, 0, 0);
        }
    }
    if plan.len() > 0 {
        let k = plan.len() - 1;
        if c.needs_ellipsis(widths, exhausted) {
            lemma_fit_end_bounds(visible[k], c.props.content_width - ellipsis_width, 0, 0);
        }
    }
}

/// The sum of a stretch of widths with one more width in front.
pub proof fn lemma_total_front(widths: Seq<i64>, from: int, to: int)
    requires
        0 <= from < to <= widths.len(),
    ensures
        total(widths.subrange(from, to)) == widths[from] + total(widths.subrange(from + 1, to)),
    decreases to - from,
{
    let all = widths.subrange(from, to);
    if to == from + 1 {
        assert(all.drop_last() =~= Seq::<i64>::empty());
        assert(widths.subrange(from + 1, to) =~= Seq::<i64>::empty());
        assert(total(all.drop_last()) == 0);
    } else {
        lemma_total_front(widths, from, to - 1);
        assert(all.drop_last() =~= widths.subrange(from, to - 1));
        assert(widths.subrange(from + 1, to).drop_last() =~= widths.subrange(from + 1, to - 1));
    }
}

/// The widths that a run takes keep its sum within the limit.
pub proof fn lemma_fit_end_sum(widths: Seq<i64>, limit: int, k: int, sum: int)
    requires
        0 <= k <= widths.len(),
    ensures
        fit_end(widths, limit, k, sum) > k ==> sum + total(
            widths.subrange(k, fit_end(widths, limit, k, sum)),
        ) <= limit,
        fit_end(widths, limit, k, sum) == k ==> total(
            widths.subrange(k, fit_end(widths, limit, k, sum)),
        ) == 0,
        fit_end(widths, limit, k, sum) < widths.len() ==> sum + total(
            widths.subrange(k, fit_end(widths, limit, k, sum) + 1),
        ) > limit,
    decreases widths.len() - k,
{
    let end = fit_end(widths, limit, k, sum);
    lemma_fit_end_bounds(widths, limit, k, sum);
    if k < widths.len() && sum + widths[k] <= limit {
        lemma_fit_end_sum(widths, limit, k + 1, sum + widths[k]);
        lemma_fit_end_bounds(widths, limit, k + 1, sum + widths[k]);
        lemma_total_front(widths, k, end);
        if end < widths.len() {
            lemma_total_front(widths, k, end + 1);
        }
    } else {
        assert(widths.subrange(k, k) =~= Seq::<i64>::empty());
        if k < widths.len() {
            lemma_total_front(widths, k, k + 1);
            assert(widths.subrange(k + 1, k + 1) =~= Seq::<i64>::empty());
        }
    }
}

/// Greedy packing keeps every width, in its order: the lines, one after the
/// other, are the widths; no line is empty; and a line whose first width is
/// no wider than the box is no wider than the box.
pub proof fn law_lines_of_widths(widths: Seq<i64>, box_width: int)
    ensures
        ({
            let lines = spec_group(widths, box_width);
            &&& widths_up_to(lines, lines.len() as int) == widths
            &&& forall|k: int| 0 <= k < lines.len() ==> (#[trigger] lines[k]).len() > 0
            &&& forall|k: int|
                0 <= k < lines.len() && (#[trigger] lines[k])[0] <= box_width ==> total(lines[k])
                    <= box_width
        }),
{
    let lines = spec_group(widths, box_width);
    lemma_group_from_total(widths, box_width, 0);
    lemma_widths_up_to(widths, box_width, lines.len() as int);
    assert(widths.take(widths.len() as int) =~= widths);
    assert forall|k: int| 0 <= k < lines.len() implies (#[trigger] lines[k]).len() > 0 by {
        lemma_group_from_line(widths, box_width, 0, k);
    }
    assert forall|k: int|
        0 <= k < lines.len() && (#[trigger] lines[k])[0] <= box_width implies total(lines[k])
        <= box_width by {
        lemma_line_within_box(widths, box_width, 0, k);
    }
}

/// The first `k` lines of greedy packing, one after the other, are the first
/// widths.
pub proof fn lemma_widths_up_to(widths: Seq<i64>, box_width: int, k: int)
    requires
        0 <= k <= spec_group(widths, box_width).len(),
    ensures
        widths_before(spec_group(widths, box_width), k) <= widths.len(),
        widths_up_to(spec_group(widths, box_width), k) == widths.take(
            widths_before(spec_group(widths, box_width), k) as int,
        ),
    decreases k,
{
    let lines = spec_group(widths, box_width);
    if k > 0 {
        lemma_widths_up_to(widths, box_width, k - 1);
        lemma_group_from_line(widths, box_width, 0, k - 1);
        assert(widths.take(widths_before(lines, k - 1) as int) + lines[k - 1] =~= widths.take(
            widths_before(lines, k) as int,
        ));
    } else {
        assert(widths.take(0) =~= Seq::<i64>::empty());
    }
}

/// Line `k` of the lines packed from `start` on is within the box where its
/// first width is.
pub proof fn lemma_line_within_box(widths: Seq<i64>, box_width: int, start: int, k: int)
    requires
        0 <= start <= widths.len(),
        0 <= k < group_from(widths, box_width, start).len(),
        group_from(widths, box_width, start)[k][0] <= box_width,
    ensures
        total(group_from(widths, box_width, start)[k]) <= box_width,
    decreases k,
{
    let end = fit_end(widths, box_width, start + 1, widths[start] as int);
    lemma_fit_end_bounds(widths, box_width, start + 1, widths[start] as int);
    let first = widths.subrange(start, end);
    let rest = group_from(widths, box_width, end);
    let lines = group_from(widths, box_width, start);
    assert(lines == seq![first] + rest);
    if k == 0 {
        lemma_fit_end_sum(widths, box_width, start + 1, widths[start] as int);
        lemma_total_front(widths, start, end);
    } else {
        assert(lines[k] == rest[k - 1]);
        lemma_line_within_box(widths, box_width, end, k - 1);
    }
}

/// A line that ends in the ellipsis is no wider than the box, the ellipsis
/// counted in, as long as it keeps a token; and a line that would be wider
/// than the box with the ellipsis after all its widths does not keep them
/// all.
pub proof fn law_ellipsis_within_box(line: Seq<i64>, ellipsis_width: int, box_width: int)
    ensures
        ({
            let kept = kept_with_ellipsis(line, ellipsis_width, box_width);
            &&& 0 <= kept <= line.len()
            &&& spec_apply_ellipsis(line, ellipsis_width, box_width).len() == kept + 1
            &&& kept > 0 ==> total(line.take(kept)) + ellipsis_width <= box_width
            &&& kept < line.len() ==> total(line.take(kept + 1)) + ellipsis_width > box_width
            &&& line.len() > 0 && total(line) + ellipsis_width > box_width ==> kept < line.len()
        }),
{
    let limit = box_width - ellipsis_width;
    let kept = kept_with_ellipsis(line, ellipsis_width, box_width);
    lemma_fit_end_bounds(line, limit, 0, 0);
    lemma_fit_end_sum(line, limit, 0, 0);
    assert(line.take(kept) =~= line.subrange(0, kept));
    if kept < line.len() {
        assert(line.take(kept + 1) =~= line.subrange(0, kept + 1));
    } else {
        assert(line.take(kept) =~= line);
    }
}

} // verus!

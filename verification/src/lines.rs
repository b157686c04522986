//! Lines of widths: greedy packing against the width of the box, clipping to
//! the number of lines the box has room for, and making room for the ellipsis
//! on the last visible line.

use vstd::prelude::*;
use crate::clamp::{IWordInfo, LineClamp, Slot};

verus! {

/// The widths of each line of `v`, in the same order.
pub open spec fn lines_view(v: Seq<Vec<i64>>) -> Seq<Seq<i64>> {
    Seq::new(v.len(), |i: int| v[i]@)
}

/// The slots of each line of `v`, in the same order.
pub open spec fn plan_view(v: Seq<Vec<Slot>>) -> Seq<Seq<Slot>> {
    Seq::new(v.len(), |i: int| v[i]@)
}

/// The sum of the widths.
pub open spec fn total(widths: Seq<i64>) -> int
    decreases widths.len(),
{
    if widths.len() == 0 {
        0
    } else {
        total(widths.drop_last()) + widths.last()
    }
}

/// Where a run of widths ends that has reached index `k` with the sum `sum`
/// and goes on for as long as the next width keeps the sum within `limit`.
pub open spec fn fit_end(widths: Seq<i64>, limit: int, k: int, sum: int) -> int
    decreases widths.len() - k,
{
    if 0 <= k < widths.len() && sum + widths[k] <= limit {
        fit_end(widths, limit, k + 1, sum + widths[k])
    } else {
        k
    }
}

/// The lines that greedy packing makes of `widths[start..]`: a line takes its
/// first width whatever it is, and each further width for which the sum of
/// the line stays within `box_width`.
pub open spec fn group_from(widths: Seq<i64>, box_width: int, start: int) -> Seq<Seq<i64>>
    decreases widths.len() - start,
    via group_from_decreases
{
    if 0 <= start < widths.len() {
        let end = fit_end(widths, box_width, start + 1, widths[start] as int);
        seq![widths.subrange(start, end)] + group_from(widths, box_width, end)
    } else {
        Seq::empty()
    }
}

#[via_fn]
proof fn group_from_decreases(widths: Seq<i64>, box_width: int, start: int) {
    if 0 <= start < widths.len() {
        lemma_fit_end_bounds(widths, box_width, start + 1, widths[start] as int);
    }
}

/// The lines that greedy packing makes of `widths`.
pub open spec fn spec_group(widths: Seq<i64>, box_width: int) -> Seq<Seq<i64>> {
    group_from(widths, box_width, 0)
}

/// The visible lines and whether the last of them must end in the ellipsis:
/// with more lines than `max_lines` the first `max_lines` stay and the ellipsis
/// is needed; else all stay, and it is needed where the search was exhausted.
pub open spec fn spec_limit(lines: Seq<Seq<i64>>, max_lines: int, exhausted: bool) -> (
    Seq<Seq<i64>>,
    bool,
) {
    if lines.len() > max_lines {
        (
            lines.take(
                if max_lines > 0 {
                    max_lines
                } else {
                    0
                },
            ),
            true,
        )
    } else {
        (lines, exhausted)
    }
}

/// The widths as token slots.
pub open spec fn slots_of(line: Seq<i64>) -> Seq<Slot> {
    Seq::new(line.len(), |i: int| Slot::Token(line[i]))
}

/// How many widths of `line` stay when the ellipsis is added: those before
/// the first one at which the running sum and the ellipsis together pass
/// `box_width`.
pub open spec fn kept_with_ellipsis(line: Seq<i64>, ellipsis_width: int, box_width: int) -> int {
    fit_end(line, box_width - ellipsis_width, 0, 0)
}

/// The line with the ellipsis at its end, after as many of its widths as
/// leave room for it.
pub open spec fn spec_apply_ellipsis(line: Seq<i64>, ellipsis_width: int, box_width: int) -> Seq<
    Slot,
> {
    slots_of(line.take(kept_with_ellipsis(line, ellipsis_width, box_width))).push(Slot::Ellipsis)
}

/// A run ends within the sequence, not before where it stands.
pub proof fn lemma_fit_end_bounds(widths: Seq<i64>, limit: int, k: int, sum: int)
    requires
        0 <= k <= widths.len(),
    ensures
        k <= fit_end(widths, limit, k, sum) <= widths.len(),
    decreases widths.len() - k,
{
    if k < widths.len() && sum + widths[k] <= limit {
        lemma_fit_end_bounds(widths, limit, k + 1, sum + widths[k]);
    }
}

/// The floor of a quotient lies between zero and the dividend.
pub proof fn lemma_floor_bounds(a: int, d: int)
    requires
        d > 0,
    ensures
        a >= 0 ==> 0 <= a / d <= a,
        a < 0 ==> a <= a / d < 0,
{
    assert(a >= 0 ==> 0 <= a / d <= a) by (nonlinear_arith)
        requires
            d > 0,
    ;
    assert(a < 0 ==> a <= a / d < 0) by (nonlinear_arith)
        requires
            d > 0,
    ;
}

/// The floor of a negative quotient, by the quotient of natural numbers.
pub proof fn lemma_floor_of_negative(a: int, d: int)
    requires
        a < 0,
        d > 0,
    ensures
        a / d == -((-a + d - 1) / d),
{
    assert(a / d == -((-a + d - 1) / d)) by (nonlinear_arith)
        requires
            a < 0,
            d > 0,
    ;
}

/// How many widths the lines before line `k` hold.
pub open spec fn widths_before(lines: Seq<Seq<i64>>, k: int) -> nat
    decreases k,
{
    if k <= 0 {
        0
    } else {
        widths_before(lines, k - 1) + lines[k - 1].len()
    }
}

/// Counting from the second line on.
pub proof fn lemma_widths_before_shift(first: Seq<i64>, rest: Seq<Seq<i64>>, k: int)
    requires
        0 <= k <= rest.len(),
    ensures
        widths_before(seq![first] + rest, k + 1) == first.len() + widths_before(rest, k),
    decreases k,
{
    let all = seq![first] + rest;
    if k == 0 {
        assert(widths_before(all, 1) == widths_before(all, 0) + all[0].len());
    } else {
        lemma_widths_before_shift(first, rest, k - 1);
        assert(all[k] == rest[k - 1]);
    }
}

/// Greedy packing leaves no width out: the lines from `start` on hold as many
/// widths as `widths` has from there.
pub proof fn lemma_group_from_total(widths: Seq<i64>, box_width: int, start: int)
    requires
        0 <= start <= widths.len(),
    ensures
        widths_before(
            group_from(widths, box_width, start),
            group_from(widths, box_width, start).len() as int,
        ) == widths.len() - start,
    decreases widths.len() - start,
{
    if start < widths.len() {
        let end = fit_end(widths, box_width, start + 1, widths[start] as int);
        lemma_fit_end_bounds(widths, box_width, start + 1, widths[start] as int);
        let first = widths.subrange(start, end);
        let rest = group_from(widths, box_width, end);
        lemma_group_from_total(widths, box_width, end);
        lemma_widths_before_shift(first, rest, rest.len() as int);
    }
}

/// Greedy packing cuts the widths into consecutive, non-empty lines: line `k`
/// is the stretch of `widths` that starts where the lines before it stop.
pub proof fn lemma_group_from_line(widths: Seq<i64>, box_width: int, start: int, k: int)
    requires
        0 <= start <= widths.len(),
        0 <= k < group_from(widths, box_width, start).len(),
    ensures
        group_from(widths, box_width, start)[k].len() > 0,
        start + widths_before(group_from(widths, box_width, start), k + 1) <= widths.len(),
        group_from(widths, box_width, start)[k] == widths.subrange(
            start + widths_before(group_from(widths, box_width, start), k),
            start + widths_before(group_from(widths, box_width, start), k + 1),
        ),
    decreases k,
{
    let lines = group_from(widths, box_width, start);
    let end = fit_end(widths, box_width, start + 1, widths[start] as int);
    lemma_fit_end_bounds(widths, box_width, start + 1, widths[start] as int);
    let first = widths.subrange(start, end);
    let rest = group_from(widths, box_width, end);
    lemma_widths_before_shift(first, rest, 0);
    if k > 0 {
        lemma_group_from_line(widths, box_width, end, k - 1);
        lemma_widths_before_shift(first, rest, k - 1);
        lemma_widths_before_shift(first, rest, k);
    }
}

/// The widths before a line are no more than the widths before a later line.
pub proof fn lemma_widths_before_grows(lines: Seq<Seq<i64>>, a: int, b: int)
    requires
        a <= b,
    ensures
        widths_before(lines, a) <= widths_before(lines, b),
    decreases b - a,
{
    if a < b {
        lemma_widths_before_grows(lines, a, b - 1);
    }
}

/// Counting within the first lines counts the same in all lines.
pub proof fn lemma_widths_before_take(lines: Seq<Seq<i64>>, n: int, k: int)
    requires
        0 <= k <= n <= lines.len(),
    ensures
        widths_before(lines.take(n), k) == widths_before(lines, k),
    decreases k,
{
    if k > 0 {
        lemma_widths_before_take(lines, n, k - 1);
    }
}

impl LineClamp {
    /// Packs the widths of `result` greedily into lines no wider than
    /// `content_width`. A width that fits exactly stays on the line; a width
    /// that is too wide by itself gets a line of its own.
    pub fn calc_word_width_can_in_content(&self, result: &IWordInfo, content_width: i64) -> (groups:
        Vec<Vec<i64>>)
        ensures
            lines_view(groups@) == spec_group(result@.widths, content_width as int),
    {
        let n: usize = result.widths.len();
        let mut groups: Vec<Vec<i64>> = Vec::new();
        let mut current_group: Vec<i64> = Vec::new();
        let mut current_sum: i128 = 0;
        let mut i: usize = 0;
        let ghost widths = result.widths@;
        let ghost limit = content_width as int;
        let ghost mut start: int = 0;
        while i < n
            invariant
                n == widths.len(),
                widths == result.widths@,
                limit == content_width as int,
                0 <= start <= i <= n,
                i > 0 ==> start < i,
                current_group@ == widths.subrange(start, i as int),
                i == start ==> current_sum == 0,
                i > start ==> fit_end(widths, limit, start + 1, widths[start] as int) == fit_end(
                    widths,
                    limit,
                    i as int,
                    current_sum as int,
                ),
                -(i - start) * 0x8000_0000_0000_0000 <= current_sum <= (i - start)
                    * 0x8000_0000_0000_0000,
                spec_group(widths, limit) == lines_view(groups@) + group_from(widths, limit, start),
            decreases n - i,
        {
            let width: i64 = result.widths[i];
            if current_sum + (width as i128) <= content_width as i128 {
                current_group.push(width);
                current_sum = current_sum + (width as i128);
                proof {
                    assert(current_group@ =~= widths.subrange(start, i as int + 1));
                }
            } else {
                if current_group.len() > 0 {
                    proof {
                        assert(lines_view(groups@.push(current_group)) =~= lines_view(groups@).push(
                            current_group@,
                        ));
                        assert(lines_view(groups@).push(current_group@) + group_from(
                            widths,
                            limit,
                            i as int,
                        ) =~= lines_view(groups@) + group_from(widths, limit, start));
                    }
                    groups.push(current_group);
                }
                current_group = Vec::new();
                current_group.push(width);
                current_sum = width as i128;
                proof {
                    start = i as int;
                    assert(current_group@ =~= widths.subrange(start, i as int + 1));
                }
            }
            i = i + 1;
        }
        if current_group.len() > 0 {
            proof {
                assert(group_from(widths, limit, n as int) =~= Seq::<Seq<i64>>::empty());
                assert(lines_view(groups@.push(current_group)) =~= lines_view(groups@).push(
                    current_group@,
                ));
                assert(lines_view(groups@).push(current_group@) =~= lines_view(groups@)
                    + group_from(widths, limit, start));
            }
            groups.push(current_group);
        } else {
            proof {
                assert(lines_view(groups@) + group_from(widths, limit, start) =~= lines_view(
                    groups@,
                ));
            }
        }
        groups
    }

    /// How many lines the box has room for.
    pub fn max_line_count(&self) -> (r: i32)
        requires
            self@.valid(),
        ensures
            r == self@.max_lines(),
    {
        let height: i64 = self.line_clamp_props.content_height as i64;
        let line_height: i64 = self.line_height as i64;
        if height >= 0 {
            let count: i64 = height / line_height;
            proof {
                lemma_floor_bounds(height as int, line_height as int);
            }
            count as i32
        } else {
            let count: i64 = (-height + line_height - 1) / line_height;
            proof {
                lemma_floor_of_negative(height as int, line_height as int);
                lemma_floor_bounds(height as int, line_height as int);
            }
            (-count) as i32
        }
    }

    /// Clips `lines` to the number of lines the box has room for, and says
    /// whether the last visible line must end in the ellipsis. `exhausted`
    /// tells whether the search for a font size gave up on some tokens.
    pub fn limit_lines(&self, lines: Vec<Vec<i64>>, exhausted: bool) -> (r: (Vec<Vec<i64>>, bool))
        requires
            self@.valid(),
        ensures
            (lines_view(r.0@), r.1) == spec_limit(
                lines_view(lines@),
                self@.max_lines(),
                exhausted,
            ),
    {
        let max_line: i32 = self.max_line_count();
        let mut visible = lines;
        if max_line < 0 || visible.len() > max_line as usize {
            let keep: usize = if max_line > 0 {
                max_line as usize
            } else {
                0
            };
            visible.truncate(keep);
            proof {
                assert(lines_view(visible@) =~= lines_view(lines@).take(keep as int));
            }
            (visible, true)
        } else {
            (visible, exhausted)
        }
    }

    /// Ends `last_line` in the ellipsis: its widths are kept up to the first
    /// one at which the running sum and `ellipsis_width` together pass
    /// `box_width`, and the ellipsis follows in any case.
    pub fn apply_ellipsis(&self, last_line: &Vec<i64>, ellipsis_width: i64, box_width: i64) -> (r:
        Vec<Slot>)
        ensures
            r@ == spec_apply_ellipsis(last_line@, ellipsis_width as int, box_width as int),
    {
        let n: usize = last_line.len();
        let limit: i128 = (box_width as i128) - (ellipsis_width as i128);
        let mut last_words: Vec<Slot> = Vec::new();
        let mut last_width: i128 = 0;
        let mut i: usize = 0;
        while i < n && last_width + (last_line[i] as i128) <= limit
            invariant
                n == last_line@.len(),
                limit == box_width - ellipsis_width,
                0 <= i <= n,
                last_words@ == slots_of(last_line@.take(i as int)),
                fit_end(last_line@, limit as int, 0, 0) == fit_end(
                    last_line@,
                    limit as int,
                    i as int,
                    last_width as int,
                ),
                -i * 0x8000_0000_0000_0000 <= last_width <= i * 0x8000_0000_0000_0000,
            decreases n - i,
        {
            last_width = last_width + (last_line[i] as i128);
            last_words.push(Slot::Token(last_line[i]));
            i = i + 1;
            proof {
                assert(last_words@ =~= slots_of(last_line@.take(i as int)));
            }
        }
        last_words.push(Slot::Ellipsis);
        last_words
    }
}

} // verus!

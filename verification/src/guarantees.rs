//! Global guarantees of the layout core, stated and proved over its
//! specification: every accepted input yields one frame per item in input
//! order, equal inputs yield equal layouts, and the rows the fallback
//! search materializes tile the composition.

use vstd::prelude::*;

use crate::classify::spec_average_ratio;
use crate::fallback::{
    best_upto, cells_upto, row_cells_upto, row_slice, row_start, spec_attempts, spec_cell,
    spec_layout_fallback, spec_score, split2_at, split2_upto,
    split3_at, split3_inner, split3_upto, split4_at, split4_second, split4_third, split4_upto,
    valid_partition,
};
use crate::item::ItemModel;
use crate::layout::{layout_inputs, spec_layout};

verus! {

/// The layout is one item per ratio, in input order: the output has the
/// input's length, and the item at each position keeps that position's
/// aspect ratio.
pub proof fn lemma_layout_length_and_order(rs: Seq<i64>)
    requires
        layout_inputs(rs),
    ensures
        spec_layout(rs).len() == rs.len(),
        forall|i: int|
            0 <= i < rs.len() ==> #[trigger] spec_layout(rs)[i].aspect_ratio == rs[i] as int,
{
}

/// Determinism: the layout is a function of the ratios alone, so two
/// results of [`crate::layout::layout`] on equal inputs — each pinned to
/// [`spec_layout`] by its postcondition — are equal.
pub proof fn lemma_layout_deterministic(a: Seq<ItemModel>, b: Seq<ItemModel>, rs: Seq<i64>)
    requires
        a == spec_layout(rs),
        b == spec_layout(rs),
    ensures
        a == b,
{
}

proof fn lemma_split2_upto_valid(n: int, f: int)
    requires
        2 <= n,
    ensures
        forall|i: int|
            0 <= i < split2_upto(n, f).len() ==> valid_partition(
                #[trigger] split2_upto(n, f)[i],
                n,
            ),
    decreases f,
{
    if f > 1 {
        lemma_split2_upto_valid(n, f - 1);
        let pre = split2_upto(n, f - 1);
        let at = split2_at(n, f - 1);
        if at.len() > 0 {
            let p = seq![(f - 1) as usize, (n - (f - 1)) as usize];
            assert(at[0] == p);
            assert(row_start(p, 1) == row_start(p, 0) + p[0]);
            assert(row_start(p, 2) == row_start(p, 1) + p[1]);
            assert(valid_partition(p, n));
        }
        assert forall|i: int| 0 <= i < split2_upto(n, f).len() implies valid_partition(
            #[trigger] split2_upto(n, f)[i],
            n,
        ) by {
            if i < pre.len() {
                assert(split2_upto(n, f)[i] == pre[i]);
            } else {
                assert(split2_upto(n, f)[i] == at[i - pre.len()]);
            }
        }
    }
}

proof fn lemma_split3_inner_valid(n: int, avg: int, f: int, s: int)
    requires
        2 <= n,
        1 <= f,
    ensures
        forall|i: int|
            0 <= i < split3_inner(n, avg, f, s).len() ==> valid_partition(
                #[trigger] split3_inner(n, avg, f, s)[i],
                n,
            ),
    decreases s,
{
    if s > 1 {
        lemma_split3_inner_valid(n, avg, f, s - 1);
        let pre = split3_inner(n, avg, f, s - 1);
        let at = split3_at(n, avg, f, s - 1);
        if at.len() > 0 {
            let p = seq![f as usize, (s - 1) as usize, (n - f - (s - 1)) as usize];
            assert(at[0] == p);
            assert(row_start(p, 1) == row_start(p, 0) + p[0]);
            assert(row_start(p, 2) == row_start(p, 1) + p[1]);
            assert(row_start(p, 3) == row_start(p, 2) + p[2]);
            assert(valid_partition(p, n));
        }
        assert forall|i: int| 0 <= i < split3_inner(n, avg, f, s).len() implies valid_partition(
            #[trigger] split3_inner(n, avg, f, s)[i],
            n,
        ) by {
            if i < pre.len() {
                assert(split3_inner(n, avg, f, s)[i] == pre[i]);
            } else {
                assert(split3_inner(n, avg, f, s)[i] == at[i - pre.len()]);
            }
        }
    }
}

proof fn lemma_split3_upto_valid(n: int, avg: int, f: int)
    requires
        2 <= n,
    ensures
        forall|i: int|
            0 <= i < split3_upto(n, avg, f).len() ==> valid_partition(
                #[trigger] split3_upto(n, avg, f)[i],
                n,
            ),
    decreases f,
{
    if f > 1 {
        lemma_split3_upto_valid(n, avg, f - 1);
        lemma_split3_inner_valid(n, avg, f - 1, n - (f - 1));
        let pre = split3_upto(n, avg, f - 1);
        let at = split3_inner(n, avg, f - 1, n - (f - 1));
        assert forall|i: int| 0 <= i < split3_upto(n, avg, f).len() implies valid_partition(
            #[trigger] split3_upto(n, avg, f)[i],
            n,
        ) by {
            if i < pre.len() {
                assert(split3_upto(n, avg, f)[i] == pre[i]);
            } else {
                assert(split3_upto(n, avg, f)[i] == at[i - pre.len()]);
            }
        }
    }
}

proof fn lemma_split4_third_valid(n: int, f: int, s: int, t: int)
    requires
        2 <= n,
        1 <= f,
        1 <= s,
    ensures
        forall|i: int|
            0 <= i < split4_third(n, f, s, t).len() ==> valid_partition(
                #[trigger] split4_third(n, f, s, t)[i],
                n,
            ),
    decreases t,
{
    if t > 1 {
        lemma_split4_third_valid(n, f, s, t - 1);
        let pre = split4_third(n, f, s, t - 1);
        let at = split4_at(n, f, s, t - 1);
        if at.len() > 0 {
            let p = seq![
                f as usize,
                s as usize,
                (t - 1) as usize,
                (n - f - s - (t - 1)) as usize,
            ];
            assert(at[0] == p);
            assert(row_start(p, 1) == row_start(p, 0) + p[0]);
            assert(row_start(p, 2) == row_start(p, 1) + p[1]);
            assert(row_start(p, 3) == row_start(p, 2) + p[2]);
            assert(row_start(p, 4) == row_start(p, 3) + p[3]);
            assert(valid_partition(p, n));
        }
        assert forall|i: int| 0 <= i < split4_third(n, f, s, t).len() implies valid_partition(
            #[trigger] split4_third(n, f, s, t)[i],
            n,
        ) by {
            if i < pre.len() {
                assert(split4_third(n, f, s, t)[i] == pre[i]);
            } else {
                assert(split4_third(n, f, s, t)[i] == at[i - pre.len()]);
            }
        }
    }
}

proof fn lemma_split4_second_valid(n: int, f: int, s: int)
    requires
        2 <= n,
        1 <= f,
    ensures
        forall|i: int|
            0 <= i < split4_second(n, f, s).len() ==> valid_partition(
                #[trigger] split4_second(n, f, s)[i],
                n,
            ),
    decreases s,
{
    if s > 1 {
        lemma_split4_second_valid(n, f, s - 1);
        lemma_split4_third_valid(n, f, s - 1, n - f - (s - 1));
        let pre = split4_second(n, f, s - 1);
        let at = split4_third(n, f, s - 1, n - f - (s - 1));
        assert forall|i: int| 0 <= i < split4_second(n, f, s).len() implies valid_partition(
            #[trigger] split4_second(n, f, s)[i],
            n,
        ) by {
            if i < pre.len() {
                assert(split4_second(n, f, s)[i] == pre[i]);
            } else {
                assert(split4_second(n, f, s)[i] == at[i - pre.len()]);
            }
        }
    }
}

proof fn lemma_split4_upto_valid(n: int, f: int)
    requires
        2 <= n,
    ensures
        forall|i: int|
            0 <= i < split4_upto(n, f).len() ==> valid_partition(
                #[trigger] split4_upto(n, f)[i],
                n,
            ),
    decreases f,
{
    if f > 1 {
        lemma_split4_upto_valid(n, f - 1);
        lemma_split4_second_valid(n, f - 1, n - (f - 1));
        let pre = split4_upto(n, f - 1);
        let at = split4_second(n, f - 1, n - (f - 1));
        assert forall|i: int| 0 <= i < split4_upto(n, f).len() implies valid_partition(
            #[trigger] split4_upto(n, f)[i],
            n,
        ) by {
            if i < pre.len() {
                assert(split4_upto(n, f)[i] == pre[i]);
            } else {
                assert(split4_upto(n, f)[i] == at[i - pre.len()]);
            }
        }
    }
}

/// Every candidate the search enumerates is a valid partition: the row
/// sizes are positive and sum to the item count. In particular the list is
/// never empty — the single-row candidate is always present — so the
/// search always yields a layout.
pub proof fn lemma_attempts_valid(n: int, avg: int)
    requires
        2 <= n <= 400,
    ensures
        1 <= spec_attempts(n, avg).len(),
        forall|i: int|
            0 <= i < spec_attempts(n, avg).len() ==> valid_partition(
                #[trigger] spec_attempts(n, avg)[i],
                n,
            ),
{
    let single = seq![n as usize];
    assert(row_start(single, 1) == row_start(single, 0) + single[0]);
    assert(valid_partition(single, n));
    lemma_split2_upto_valid(n, n);
    lemma_split3_upto_valid(n, avg, n - 1);
    if n > 2 {
        lemma_split4_upto_valid(n, n - 2);
    }
    let two = split2_upto(n, n);
    let three = split3_upto(n, avg, n - 1);
    let four = if n > 2 {
        split4_upto(n, n - 2)
    } else {
        Seq::<Seq<usize>>::empty()
    };
    assert forall|i: int| 0 <= i < spec_attempts(n, avg).len() implies valid_partition(
        #[trigger] spec_attempts(n, avg)[i],
        n,
    ) by {
        if i < 1 {
            assert(spec_attempts(n, avg)[i] == single);
        } else if i < 1 + two.len() {
            assert(spec_attempts(n, avg)[i] == two[i - 1]);
        } else if i < 1 + two.len() + three.len() {
            assert(spec_attempts(n, avg)[i] == three[i - 1 - two.len()]);
        } else {
            assert(spec_attempts(n, avg)[i] == four[i - 1 - two.len() - three.len()]);
        }
    }
}

/// The score of a candidate with a row under the 70-unit minimum, against
/// one whose rows all reach it: at equal positive raw distance from the
/// target height and equal row-shape penalty, the narrow-row candidate's
/// score is strictly larger, so it loses the search. A raw distance of
/// exactly zero is left out: both scores are then zero and only the
/// enumeration order decides.
pub proof fn lemma_narrow_row_candidate_loses(
    c: Seq<i64>,
    narrow: Seq<usize>,
    clear: Seq<usize>,
    width: int,
)
    requires
        crate::fallback::spec_raw_distance(c, narrow, width) == crate::fallback::spec_raw_distance(
            c,
            clear,
            width,
        ),
        crate::fallback::spec_raw_distance(c, clear, width) > 0,
        crate::fallback::spec_grows(narrow) == crate::fallback::spec_grows(clear),
        crate::fallback::spec_least_height(c, narrow, width)
            < crate::config::MIN_ROW_WIDTH as int,
        crate::fallback::spec_least_height(c, clear, width)
            >= crate::config::MIN_ROW_WIDTH as int,
    ensures
        crate::fallback::spec_score(c, narrow, width) > crate::fallback::spec_score(
            c,
            clear,
            width,
        ),
{
    let d = crate::fallback::spec_raw_distance(c, clear, width);
    let base: int = if crate::fallback::spec_grows(clear) {
        6
    } else {
        4
    };
    assert(crate::fallback::spec_score(c, clear, width) == d * base);
    assert(crate::fallback::spec_score(c, narrow, width) == d * (base + base / 2));
    assert(d * (base + base / 2) > d * base) by (nonlinear_arith)
        requires
            d > 0 && (base == 4 || base == 6),
    ;
}

/// The search returns a candidate of least score, and of the least-scored
/// candidates the earliest enumerated one.
pub proof fn lemma_best_upto_minimal(c: Seq<i64>, att: Seq<Seq<usize>>, width: int, k: int, i: int)
    requires
        0 <= i < k,
    ensures
        spec_score(c, att[best_upto(c, att, width, k)], width) <= spec_score(c, att[i], width),
        spec_score(c, att[i], width) == spec_score(c, att[best_upto(c, att, width, k)], width)
            ==> best_upto(c, att, width, k) <= i,
    decreases k,
{
    if k > 1 {
        lemma_best_upto_range(c, att, width, k - 1);
        if i < k - 1 {
            lemma_best_upto_minimal(c, att, width, k - 1, i);
        }
    }
}

/// A candidate that some other candidate strictly under-scores is never
/// the one the search picks.
pub proof fn lemma_strictly_better_excludes(
    c: Seq<i64>,
    att: Seq<Seq<usize>>,
    width: int,
    m: int,
    i: int,
)
    requires
        0 <= i < att.len(),
        0 <= m < att.len(),
        spec_score(c, att[i], width) < spec_score(c, att[m], width),
    ensures
        best_upto(c, att, width, att.len() as int) != m,
{
    lemma_best_upto_minimal(c, att, width, att.len() as int, i);
}

/// The index of the winning candidate is always in range.
pub proof fn lemma_best_upto_range(c: Seq<i64>, att: Seq<Seq<usize>>, width: int, k: int)
    requires
        1 <= k,
    ensures
        0 <= best_upto(c, att, width, k) < k,
    decreases k,
{
    if k > 1 {
        lemma_best_upto_range(c, att, width, k - 1);
    }
}

/// The partition the fallback search settles on for these ratios.
pub open spec fn chosen_partition(rs: Seq<i64>, width: int) -> Seq<usize> {
    let c = crate::fallback::spec_cropped(rs);
    let att = spec_attempts(rs.len() as int, spec_average_ratio(rs));
    att[best_upto(c, att, width, att.len() as int)]
}

/// The chosen partition is valid: its row sizes are positive and sum to
/// the item count.
pub proof fn lemma_chosen_partition_valid(rs: Seq<i64>, width: int)
    requires
        2 <= rs.len() <= 400,
    ensures
        valid_partition(chosen_partition(rs, width), rs.len() as int),
{
    let c = crate::fallback::spec_cropped(rs);
    let att = spec_attempts(rs.len() as int, spec_average_ratio(rs));
    lemma_attempts_valid(rs.len() as int, spec_average_ratio(rs));
    lemma_best_upto_range(c, att, width, att.len() as int);
}

/// The cell at column `k` of a row prefix of at least `k + 1` cells.
proof fn lemma_row_cells_index(row: Seq<i64>, h: int, y: int, j: int, nrows: int, cap: int, k: int)
    requires
        0 <= k < cap,
    ensures
        row_cells_upto(row, h, y, j, nrows, cap).len() == cap,
        row_cells_upto(row, h, y, j, nrows, cap)[k] == spec_cell(row, h, y, j, nrows, k),
    decreases cap,
{
    crate::fallback::lemma_row_cells_len(row, h, y, j, nrows, cap);
    if k < cap - 1 {
        lemma_row_cells_index(row, h, y, j, nrows, cap - 1, k);
    }
}

/// The cell the whole placement holds at row `j`, column `k`.
proof fn lemma_cells_index(c: Seq<i64>, ks: Seq<usize>, hs: Seq<int>, cap: int, j: int, k: int)
    requires
        0 <= j < cap <= ks.len(),
        0 <= k < ks[j],
    ensures
        cells_upto(c, ks, hs, cap)[row_start(ks, j) + k] == spec_cell(
            row_slice(c, ks, j),
            hs[j],
            crate::fallback::total_upto(hs, j),
            j,
            ks.len() as int,
            k,
        ),
    decreases cap,
{
    crate::fallback::lemma_cells_len(c, ks, hs, cap - 1);
    crate::fallback::lemma_row_start_mono(ks, 0, j);
    if j == cap - 1 {
        lemma_row_cells_index(
            row_slice(c, ks, j),
            hs[j],
            crate::fallback::total_upto(hs, j),
            j,
            ks.len() as int,
            ks[j] as int,
            k,
        );
    } else {
        lemma_cells_index(c, ks, hs, cap - 1, j, k);
        assert(row_start(ks, j + 1) == row_start(ks, j) + ks[j]);
        crate::fallback::lemma_row_start_mono(ks, j + 1, cap - 1);
    }
}

/// Within one row of the fallback layout, neighbouring frames are
/// contiguous and non-overlapping: each item's right edge is exactly the
/// next item's left edge, at the same vertical position and row height.
pub proof fn lemma_fallback_row_contiguous(rs: Seq<i64>, width: int, j: int, k: int)
    requires
        2 <= rs.len() <= 400,
        0 <= j < chosen_partition(rs, width).len(),
        0 <= k,
        k + 1 < chosen_partition(rs, width)[j],
    ensures
        ({
            let items = spec_layout_fallback(rs, width);
            let m = row_start(chosen_partition(rs, width), j) + k;
            &&& items[m].frame.x + items[m].frame.width == items[m + 1].frame.x
            &&& items[m].frame.y == items[m + 1].frame.y
            &&& items[m].frame.height == items[m + 1].frame.height
        }),
{
    let c = crate::fallback::spec_cropped(rs);
    let ks = chosen_partition(rs, width);
    let hs = crate::fallback::heights_of(c, ks, width);
    lemma_chosen_partition_valid(rs, width);
    assert(row_start(ks, j + 1) == row_start(ks, j) + ks[j]);
    crate::fallback::lemma_row_start_mono(ks, j + 1, ks.len() as int);
    crate::fallback::lemma_row_start_mono(ks, 0, j);
    lemma_cells_index(c, ks, hs, ks.len() as int, j, k);
    lemma_cells_index(c, ks, hs, ks.len() as int, j, k + 1);
}

/// Rows of the fallback layout stack contiguously: the top edge of each
/// row is exactly the bottom edge of the row above it.
pub proof fn lemma_fallback_rows_stack(rs: Seq<i64>, width: int, j: int)
    requires
        2 <= rs.len() <= 400,
        0 <= j,
        j + 1 < chosen_partition(rs, width).len(),
    ensures
        ({
            let items = spec_layout_fallback(rs, width);
            let ks = chosen_partition(rs, width);
            items[row_start(ks, j + 1)].frame.y == items[row_start(ks, j)].frame.y + items[
                row_start(ks, j)
            ].frame.height
        }),
{
    let c = crate::fallback::spec_cropped(rs);
    let ks = chosen_partition(rs, width);
    let hs = crate::fallback::heights_of(c, ks, width);
    lemma_chosen_partition_valid(rs, width);
    assert(row_start(ks, j + 1) == row_start(ks, j) + ks[j]);
    assert(row_start(ks, j + 2) == row_start(ks, j + 1) + ks[j + 1]);
    crate::fallback::lemma_row_start_mono(ks, j + 2, ks.len() as int);
    crate::fallback::lemma_row_start_mono(ks, 0, j);
    lemma_cells_index(c, ks, hs, ks.len() as int, j, 0);
    lemma_cells_index(c, ks, hs, ks.len() as int, j + 1, 0);
    assert(crate::fallback::total_upto(hs, j + 1) == crate::fallback::total_upto(hs, j) + hs[j]);
}

/// The total width a row's cells take is bounded by the widths the heights
/// were solved for.
proof fn lemma_row_x_sum_bounds(row: Seq<i64>, h: int, k: int)
    requires
        0 <= k <= row.len(),
    ensures
        1000 * crate::fallback::row_x(row, h, k) <= crate::math::sum_to(row, k) * h,
        1000 * crate::fallback::row_x(row, h, k) >= crate::math::sum_to(row, k) * h - 999 * k,
    decreases k,
{
    if k > 0 {
        lemma_row_x_sum_bounds(row, h, k - 1);
        vstd::arithmetic::div_mod::lemma_fundamental_div_mod(row[k - 1] as int * h, 1000);
        vstd::arithmetic::div_mod::lemma_mod_bound(row[k - 1] as int * h, 1000);
        assert(crate::math::sum_to(row, k) * h == crate::math::sum_to(row, k - 1) * h + row[k
            - 1] as int * h) by (nonlinear_arith)
            requires
                crate::math::sum_to(row, k) == crate::math::sum_to(row, k - 1) + row[k - 1] as int,
        ;
    }
}

/// The sum of the frame widths in any fallback row reaches the target
/// width, less the one-unit inter-item gap budget, within the rounding
/// tolerance of one unit per item plus one thousandth of the row's ratio
/// sum: the last cell's right edge `right` obeys
/// `width - (cnt - 1) * 1000 - tolerance < right <= width - (cnt - 1) * 1000`.
pub proof fn lemma_fallback_row_width(rs: Seq<i64>, width: int, j: int)
    requires
        2 <= rs.len() <= 400,
        crate::fallback::fallback_ratios(rs),
        0 <= j < chosen_partition(rs, width).len(),
    ensures
        ({
            let items = spec_layout_fallback(rs, width);
            let ks = chosen_partition(rs, width);
            let row = row_slice(crate::fallback::spec_cropped(rs), ks, j);
            let cnt = ks[j] as int;
            let m = row_start(ks, j) + cnt - 1;
            let right = items[m].frame.x + items[m].frame.width;
            &&& right <= width - (cnt - 1) * 1000
            &&& 1000 * right > (width - (cnt - 1) * 1000) * 1000 - crate::math::sum_of(row)
                - 1000 * cnt
        }),
{
    let c = crate::fallback::spec_cropped(rs);
    let ks = chosen_partition(rs, width);
    let hs = crate::fallback::heights_of(c, ks, width);
    lemma_chosen_partition_valid(rs, width);
    let cnt = ks[j] as int;
    let row = row_slice(c, ks, j);
    assert(row_start(ks, j + 1) == row_start(ks, j) + ks[j]);
    crate::fallback::lemma_row_start_mono(ks, j + 1, ks.len() as int);
    crate::fallback::lemma_row_start_mono(ks, 0, j);
    assert(row.len() == cnt);
    lemma_cells_index(c, ks, hs, ks.len() as int, j, cnt - 1);
    let h = hs[j];
    let big_a = (width - (cnt - 1) * 1000) * 1000;
    let big_s = crate::math::sum_of(row);
    assert forall|t: int| 0 <= t < row.len() implies 1 <= #[trigger] row[t] by {
        assert(row[t] == c[row_start(ks, j) + t]);
        assert(c[row_start(ks, j) + t] == crate::fallback::spec_crop_one(
            rs[row_start(ks, j) + t],
            spec_average_ratio(rs),
        ));
    }
    crate::math::lemma_sum_to_bounds(row, cnt, 1, 1_000_000_000);
    assert(cnt * 1 == cnt) by (nonlinear_arith);
    assert(big_s >= 1);
    assert(h == big_a / big_s);
    vstd::arithmetic::div_mod::lemma_fundamental_div_mod(big_a, big_s);
    vstd::arithmetic::div_mod::lemma_mod_bound(big_a, big_s);
    assert(big_s * h <= big_a);
    assert(big_s * h > big_a - big_s);
    lemma_row_x_sum_bounds(row, h, cnt);
    assert(crate::math::sum_to(row, cnt) == big_s);
    assert(crate::fallback::row_x(row, h, cnt) == crate::fallback::row_x(row, h, cnt - 1) + row[cnt
        - 1] as int * h / 1000);
}

/// Cropping keeps every ratio a positive thousandth within magnitude.
proof fn lemma_cropped_ratios(rs: Seq<i64>)
    requires
        crate::fallback::fallback_ratios(rs),
    ensures
        crate::fallback::fallback_ratios(crate::fallback::spec_cropped(rs)),
        crate::fallback::spec_cropped(rs).len() == rs.len(),
{
    let c = crate::fallback::spec_cropped(rs);
    assert forall|i: int| 0 <= i < c.len() implies crate::config::MIN_ASPECT_RATIO
        <= #[trigger] c[i] <= crate::config::MAX_ASPECT_RATIO by {
        assert(c[i] == crate::fallback::spec_crop_one(rs[i], spec_average_ratio(rs)));
    }
}

/// Every row height of a valid partition is nonnegative at an accepted
/// width.
proof fn lemma_height_nonneg(c: Seq<i64>, ks: Seq<usize>, width: int, j: int)
    requires
        crate::fallback::fallback_ratios(c),
        valid_partition(ks, c.len() as int),
        crate::fallback::fallback_width(width, c.len() as int),
        0 <= j < ks.len(),
    ensures
        crate::fallback::heights_of(c, ks, width)[j] >= 0,
{
    let row = row_slice(c, ks, j);
    let cnt = ks[j] as int;
    assert(row_start(ks, j + 1) == row_start(ks, j) + ks[j]);
    crate::fallback::lemma_row_start_mono(ks, j + 1, ks.len() as int);
    crate::fallback::lemma_row_start_mono(ks, 0, j);
    assert(row.len() == cnt);
    assert forall|t: int| 0 <= t < row.len() implies 1 <= #[trigger] row[t] by {
        assert(row[t] == c[row_start(ks, j) + t]);
    }
    crate::math::lemma_sum_to_bounds(row, cnt, 1, crate::config::MAX_ASPECT_RATIO as int);
    assert(cnt * 1 == cnt) by (nonlinear_arith);
    vstd::arithmetic::div_mod::lemma_div_pos_is_pos(
        (width - (cnt - 1) * 1000) * 1000,
        crate::math::sum_of(row),
    );
}

/// A sum of nonnegative row heights is nonnegative.
proof fn lemma_total_upto_nonneg(hs: Seq<int>, j: int)
    requires
        0 <= j <= hs.len(),
        forall|t: int| 0 <= t < hs.len() ==> #[trigger] hs[t] >= 0,
    ensures
        crate::fallback::total_upto(hs, j) >= 0,
    decreases j,
{
    if j > 0 {
        lemma_total_upto_nonneg(hs, j - 1);
    }
}

/// A cell's horizontal offset is nonnegative at a nonnegative row height.
proof fn lemma_row_x_nonneg(row: Seq<i64>, h: int, k: int)
    requires
        0 <= k <= row.len(),
        0 <= h,
        forall|t: int| 0 <= t < row.len() ==> 1 <= #[trigger] row[t],
    ensures
        crate::fallback::row_x(row, h, k) >= 0,
    decreases k,
{
    if k > 0 {
        lemma_row_x_nonneg(row, h, k - 1);
        vstd::arithmetic::div_mod::lemma_div_pos_is_pos(row[k - 1] as int * h, 1000);
        assert(row[k - 1] as int * h >= 0) by (nonlinear_arith)
            requires
                row[k - 1] as int >= 1 && h >= 0,
        ;
    }
}

/// Every frame the fallback layout computes has nonnegative position and
/// nonnegative extent; with the row contiguity this makes neighbouring
/// frames non-overlapping.
pub proof fn lemma_fallback_frame_nonnegative(rs: Seq<i64>, width: int, j: int, k: int)
    requires
        2 <= rs.len() <= 400,
        crate::fallback::fallback_ratios(rs),
        crate::fallback::fallback_width(width, rs.len() as int),
        0 <= j < chosen_partition(rs, width).len(),
        0 <= k < chosen_partition(rs, width)[j],
    ensures
        ({
            let items = spec_layout_fallback(rs, width);
            let m = row_start(chosen_partition(rs, width), j) + k;
            &&& items[m].frame.x >= 0
            &&& items[m].frame.y >= 0
            &&& items[m].frame.width >= 0
            &&& items[m].frame.height >= 0
        }),
{
    let c = crate::fallback::spec_cropped(rs);
    let ks = chosen_partition(rs, width);
    let hs = crate::fallback::heights_of(c, ks, width);
    lemma_chosen_partition_valid(rs, width);
    lemma_cropped_ratios(rs);
    assert(row_start(ks, j + 1) == row_start(ks, j) + ks[j]);
    crate::fallback::lemma_row_start_mono(ks, j + 1, ks.len() as int);
    crate::fallback::lemma_row_start_mono(ks, 0, j);
    lemma_cells_index(c, ks, hs, ks.len() as int, j, k);
    let row = row_slice(c, ks, j);
    assert forall|t: int| 0 <= t < row.len() implies 1 <= #[trigger] row[t] by {
        assert(row[t] == c[row_start(ks, j) + t]);
    }
    assert forall|t: int| 0 <= t < hs.len() implies #[trigger] hs[t] >= 0 by {
        lemma_height_nonneg(c, ks, width, t);
    }
    lemma_total_upto_nonneg(hs, j);
    lemma_row_x_nonneg(row, hs[j], k);
    vstd::arithmetic::div_mod::lemma_div_pos_is_pos(row[k] as int * hs[j], 1000);
    assert(row[k] as int * hs[j] >= 0) by (nonlinear_arith)
        requires
            row[k] as int >= 1 && hs[j] >= 0,
    ;
}

} // verus!
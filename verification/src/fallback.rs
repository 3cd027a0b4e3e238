//! The general fallback layout: a search over row partitions.
//!
//! For an arbitrary item count (or when an extreme ratio forces it), the
//! items are split into one to four consecutive rows. Every candidate
//! partition under the per-row size bounds is enumerated in a fixed order,
//! scored by how far its total height lands from the 600-unit target — with
//! penalties for row sizes that grow downwards and for rows narrower than
//! 70 units — and the first candidate with the least score wins. The winner
//! is then materialized row by row, top to bottom and left to right.

use vstd::prelude::*;

use crate::classify::spec_average_ratio;
use crate::config::{MAX_ASPECT_RATIO, MIN_ASPECT_RATIO, MIN_ROW_WIDTH, TARGET_TOTAL_HEIGHT};
use crate::item::{Frame, FrameModel, ItemModel, LayoutItem};
use crate::math::{sum_of, sum_to};
use crate::position_flags::PositionFlags;
use vstd::math::min;

verus! {

/// Every ratio is a positive thousandth within the accepted magnitude.
pub open spec fn fallback_ratios(rs: Seq<i64>) -> bool {
    forall|i: int|
        0 <= i < rs.len() ==> MIN_ASPECT_RATIO <= #[trigger] rs[i] <= MAX_ASPECT_RATIO
}

/// Accepted widths leave room for the one-unit gap between any two items
/// of a single row holding all `n` items.
pub open spec fn fallback_width(width: int, n: int) -> bool {
    n * 1000 <= width <= 1_000_000
}

/// One ratio cropped toward 1.0: collections that are wide on average keep
/// no ratio below 1.0, others keep none above it. Used only for the layout
/// math, never returned.
pub open spec fn spec_crop_one(r: i64, avg: int) -> i64 {
    if avg > 1100 {
        if r < 1000 {
            1000
        } else {
            r
        }
    } else {
        if r > 1000 {
            1000
        } else {
            r
        }
    }
}

/// All ratios cropped toward 1.0, against the collection's average ratio.
pub open spec fn spec_cropped(rs: Seq<i64>) -> Seq<i64> {
    rs.map_values(|r: i64| spec_crop_one(r, spec_average_ratio(rs)))
}

/// Sum of the first `j` row sizes: the index of the first item of row `j`.
pub open spec fn row_start(ks: Seq<usize>, j: int) -> int
    decreases j,
{
    if j <= 0 {
        0
    } else {
        row_start(ks, j - 1) + ks[j - 1]
    }
}

/// A partition into rows: at least one row, every row holds at least one
/// item, and the row sizes sum to the item count.
pub open spec fn valid_partition(ks: Seq<usize>, n: int) -> bool {
    &&& 1 <= ks.len()
    &&& forall|j: int| 0 <= j < ks.len() ==> 1 <= #[trigger] ks[j]
    &&& row_start(ks, ks.len() as int) == n
}

/// The cropped ratios of row `j` of the partition.
pub open spec fn row_slice(c: Seq<i64>, ks: Seq<usize>, j: int) -> Seq<i64> {
    c.subrange(row_start(ks, j), row_start(ks, j) + ks[j])
}

/// The height a row of these cropped ratios takes at the given width: one
/// milli-unit gap budget is reserved per neighbouring pair, and the rest is
/// shared in proportion to the ratio sum.
pub open spec fn spec_multi_height(row: Seq<i64>, width: int) -> int {
    (width - (row.len() - 1) * 1000) * 1000 / sum_of(row)
}

/// The per-row heights of a whole partition.
pub open spec fn heights_of(c: Seq<i64>, ks: Seq<usize>, width: int) -> Seq<int> {
    Seq::new(ks.len(), |j: int| spec_multi_height(row_slice(c, ks, j), width))
}

/// Crops all ratios toward 1.0. See [`spec_cropped`].
fn crop_ratios(ratios: &Vec<i64>, average_aspect_ratio: i64) -> (r: Vec<i64>)
    requires
        fallback_ratios(ratios@),
        average_aspect_ratio as int == spec_average_ratio(ratios@),
    ensures
        r@ == spec_cropped(ratios@),
        r@.len() == ratios@.len(),
        fallback_ratios(r@),
{
    let mut out: Vec<i64> = Vec::new();
    let mut i: usize = 0;
    while i < ratios.len()
        invariant
            i <= ratios.len(),
            fallback_ratios(ratios@),
            average_aspect_ratio as int == spec_average_ratio(ratios@),
            out@ == spec_cropped(ratios@).take(i as int),
            fallback_ratios(out@),
        decreases ratios.len() - i,
    {
        let r = ratios[i];
        let cropped = if average_aspect_ratio > 1100 {
            if r < 1000 {
                1000
            } else {
                r
            }
        } else {
            if r > 1000 {
                1000
            } else {
                r
            }
        };
        out.push(cropped);
        assert(out@ =~= spec_cropped(ratios@).take(i + 1));
        i = i + 1;
    }
    assert(out@ =~= spec_cropped(ratios@));
    out
}

/// Computes the height of the row holding `count` cropped ratios starting
/// at `start`. See [`spec_multi_height`].
fn row_height(cropped: &Vec<i64>, start: usize, count: usize, width: i64) -> (h: i64)
    requires
        fallback_ratios(cropped@),
        cropped@.len() <= 1000,
        1 <= count,
        start + count <= cropped@.len(),
        count * 1000 <= width <= 1_000_000,
    ensures
        h as int == spec_multi_height(cropped@.subrange(start as int, start as int + count as int), width as int),
        0 <= h <= 1_000_000_000,
{
    let ghost row: Seq<i64> = cropped@.subrange(start as int, start as int + count as int);
    let mut sum: i64 = 0;
    let mut t: usize = 0;
    while t < count
        invariant
            t <= count,
            fallback_ratios(cropped@),
            cropped@.len() <= 1000,
            start + count <= cropped@.len(),
            count * 1000 <= 1_000_000,
            row == cropped@.subrange(start as int, start as int + count as int),
            sum == sum_to(row, t as int),
            0 <= sum <= 1_000_000_000,
        decreases count - t,
    {
        proof {
            assert(fallback_ratios(row));
            crate::math::lemma_sum_to_bounds(row, t as int + 1, 1, MAX_ASPECT_RATIO as int);
            assert((t as int + 1) * (MAX_ASPECT_RATIO as int) <= 1_000_000_000)
                by (nonlinear_arith)
                requires
                    0 <= t as int + 1 <= 1000,
            ;
            assert(row[t as int] == cropped@[start as int + t]);
        }
        sum = sum + cropped[start + t];
        t = t + 1;
    }
    proof {
        assert(fallback_ratios(row));
        crate::math::lemma_sum_to_bounds(row, count as int, 1, MAX_ASPECT_RATIO as int);
        assert(count * 1 == count as int) by (nonlinear_arith);
    }
    let gap_budget = (count as i64 - 1) * 1000;
    let h = (width - gap_budget) * 1000 / sum;
    proof {
        vstd::arithmetic::div_mod::lemma_div_pos_is_pos(
            (width as int - gap_budget as int) * 1000,
            sum as int,
        );
        vstd::arithmetic::div_mod::lemma_div_is_ordered_by_denominator(
            (width as int - gap_budget as int) * 1000,
            1,
            sum as int,
        );
    }
    h
}

/// The two-row split at first-row size `f`, when both rows hold at most
/// three items; empty otherwise.
pub open spec fn split2_at(n: int, f: int) -> Seq<Seq<usize>> {
    if 1 <= f <= 3 && 1 <= n - f <= 3 {
        seq![seq![f as usize, (n - f) as usize]]
    } else {
        Seq::empty()
    }
}

/// All two-row splits with first-row size below `f`, in order.
pub open spec fn split2_upto(n: int, f: int) -> Seq<Seq<usize>>
    decreases f,
{
    if f <= 1 {
        Seq::empty()
    } else {
        split2_upto(n, f - 1) + split2_at(n, f - 1)
    }
}

/// How many items the middle row of a three-row split may hold: four when
/// the collection is narrow on average, three otherwise.
pub open spec fn middle_row_cap(avg: int) -> int {
    if avg < 850 {
        4
    } else {
        3
    }
}

/// The three-row split at row sizes `(f, s, n - f - s)`, under the per-row
/// bounds; empty otherwise.
pub open spec fn split3_at(n: int, avg: int, f: int, s: int) -> Seq<Seq<usize>> {
    if 1 <= f <= 3 && 1 <= s <= middle_row_cap(avg) && 1 <= n - f - s <= 3 {
        seq![seq![f as usize, s as usize, (n - f - s) as usize]]
    } else {
        Seq::empty()
    }
}

/// Three-row splits with first-row size `f` and second-row size below `s`.
pub open spec fn split3_inner(n: int, avg: int, f: int, s: int) -> Seq<Seq<usize>>
    decreases s,
{
    if s <= 1 {
        Seq::empty()
    } else {
        split3_inner(n, avg, f, s - 1) + split3_at(n, avg, f, s - 1)
    }
}

/// All three-row splits with first-row size below `f`, in order.
pub open spec fn split3_upto(n: int, avg: int, f: int) -> Seq<Seq<usize>>
    decreases f,
{
    if f <= 1 {
        Seq::empty()
    } else {
        split3_upto(n, avg, f - 1) + split3_inner(n, avg, f - 1, n - (f - 1))
    }
}

/// The four-row split at row sizes `(f, s, t, n - f - s - t)`, when every
/// row holds at most three items; empty otherwise.
pub open spec fn split4_at(n: int, f: int, s: int, t: int) -> Seq<Seq<usize>> {
    if 1 <= f <= 3 && 1 <= s <= 3 && 1 <= t <= 3 && 1 <= n - f - s - t <= 3 {
        seq![seq![f as usize, s as usize, t as usize, (n - f - s - t) as usize]]
    } else {
        Seq::empty()
    }
}

/// Four-row splits with first two row sizes `(f, s)` and third below `t`.
pub open spec fn split4_third(n: int, f: int, s: int, t: int) -> Seq<Seq<usize>>
    decreases t,
{
    if t <= 1 {
        Seq::empty()
    } else {
        split4_third(n, f, s, t - 1) + split4_at(n, f, s, t - 1)
    }
}

/// Four-row splits with first-row size `f` and second-row size below `s`.
pub open spec fn split4_second(n: int, f: int, s: int) -> Seq<Seq<usize>>
    decreases s,
{
    if s <= 1 {
        Seq::empty()
    } else {
        split4_second(n, f, s - 1) + split4_third(n, f, s - 1, n - f - (s - 1))
    }
}

/// All four-row splits with first-row size below `f`, in order.
pub open spec fn split4_upto(n: int, f: int) -> Seq<Seq<usize>>
    decreases f,
{
    if f <= 1 {
        Seq::empty()
    } else {
        split4_upto(n, f - 1) + split4_second(n, f - 1, n - (f - 1))
    }
}

/// Every candidate partition, in enumeration order: the single row first,
/// then the two-row, three-row and four-row splits (the last only for more
/// than two items).
pub open spec fn spec_attempts(n: int, avg: int) -> Seq<Seq<usize>> {
    seq![seq![n as usize]] + split2_upto(n, n) + split3_upto(n, avg, n - 1) + (if n > 2 {
        split4_upto(n, n - 2)
    } else {
        Seq::empty()
    })
}

/// The partitions a list of row-size vectors holds, in order.
pub open spec fn count_views(s: Seq<Vec<usize>>) -> Seq<Seq<usize>> {
    s.map_values(|v: Vec<usize>| v@)
}

proof fn lemma_count_views_push(s: Seq<Vec<usize>>, v: Vec<usize>)
    ensures
        count_views(s.push(v)) =~= count_views(s).push(v@),
{
    assert forall|i: int| 0 <= i < s.len() + 1 implies count_views(s.push(v))[i] == count_views(
        s,
    ).push(v@)[i] by {
        if i < s.len() {
            assert(s.push(v)[i] == s[i]);
        } else {
            assert(s.push(v)[i] == v);
        }
    }
}

proof fn lemma_valid_partition1(a: usize, n: int)
    requires
        1 <= a,
        a == n,
    ensures
        valid_partition(seq![a], n),
{
    let s = seq![a];
    assert(row_start(s, 1) == row_start(s, 0) + a);
}

proof fn lemma_valid_partition2(a: usize, b: usize, n: int)
    requires
        1 <= a,
        1 <= b,
        a + b == n,
    ensures
        valid_partition(seq![a, b], n),
{
    let s = seq![a, b];
    assert(row_start(s, 1) == row_start(s, 0) + a);
    assert(row_start(s, 2) == row_start(s, 1) + b);
}

proof fn lemma_valid_partition3(a: usize, b: usize, c: usize, n: int)
    requires
        1 <= a,
        1 <= b,
        1 <= c,
        a + b + c == n,
    ensures
        valid_partition(seq![a, b, c], n),
{
    let s = seq![a, b, c];
    assert(row_start(s, 1) == row_start(s, 0) + a);
    assert(row_start(s, 2) == row_start(s, 1) + b);
    assert(row_start(s, 3) == row_start(s, 2) + c);
}

proof fn lemma_valid_partition4(a: usize, b: usize, c: usize, d: usize, n: int)
    requires
        1 <= a,
        1 <= b,
        1 <= c,
        1 <= d,
        a + b + c + d == n,
    ensures
        valid_partition(seq![a, b, c, d], n),
{
    let s = seq![a, b, c, d];
    assert(row_start(s, 1) == row_start(s, 0) + a);
    assert(row_start(s, 2) == row_start(s, 1) + b);
    assert(row_start(s, 3) == row_start(s, 2) + c);
    assert(row_start(s, 4) == row_start(s, 3) + d);
}

/// Enumerates every candidate partition of `n` items, in the fixed order of
/// [`spec_attempts`].
fn build_attempts(n: usize, average_aspect_ratio: i64) -> (r: Vec<Vec<usize>>)
    requires
        2 <= n <= 400,
    ensures
        count_views(r@) == spec_attempts(n as int, average_aspect_ratio as int),
        1 <= r@.len(),
        forall|i: int|
            0 <= i < r@.len() ==> valid_partition(#[trigger] count_views(r@)[i], n as int),
        forall|i: int| 0 <= i < r@.len() ==> #[trigger] count_views(r@)[i].len() <= 4,
{
    let ghost avg: int = average_aspect_ratio as int;
    let middle_cap: usize = if average_aspect_ratio < 850 {
        4
    } else {
        3
    };
    let mut att: Vec<Vec<usize>> = Vec::new();

    let mut single: Vec<usize> = Vec::new();
    single.push(n);
    proof {
        assert(single@ =~= seq![n]);
        lemma_valid_partition1(n, n as int);
        lemma_count_views_push(att@, single);
    }
    att.push(single);
    assert(count_views(att@) =~= seq![seq![n]]);

    let mut f: usize = 1;
    while f < n
        invariant
            1 <= f <= n,
            2 <= n <= 400,
            count_views(att@) =~= seq![seq![n]] + split2_upto(n as int, f as int),
            forall|i: int|
                0 <= i < att@.len() ==> valid_partition(#[trigger] count_views(att@)[i], n as int),
            forall|i: int| 0 <= i < att@.len() ==> #[trigger] count_views(att@)[i].len() <= 4,
        decreases n - f,
    {
        if f <= 3 && n - f <= 3 {
            let rest: usize = n - f;
            let mut two: Vec<usize> = Vec::new();
            two.push(f);
            two.push(rest);
            proof {
                assert(two@ =~= seq![f, rest]);
                lemma_valid_partition2(f, rest, n as int);
                lemma_count_views_push(att@, two);
            }
            att.push(two);
        }
        proof {
            assert(split2_upto(n as int, f as int + 1) == split2_upto(n as int, f as int)
                + split2_at(n as int, f as int));
            assert(count_views(att@) =~= seq![seq![n]] + split2_upto(n as int, f as int + 1));
        }
        f = f + 1;
    }
    let ghost base2: Seq<Seq<usize>> = seq![seq![n]] + split2_upto(n as int, n as int);
    assert(count_views(att@) =~= base2);

    let mut f: usize = 1;
    while f + 1 < n
        invariant
            1 <= f,
            f + 1 <= n || f == 1,
            2 <= n <= 400,
            middle_cap as int == middle_row_cap(avg),
            base2 == seq![seq![n]] + split2_upto(n as int, n as int),
            count_views(att@) =~= base2 + split3_upto(n as int, avg, f as int),
            forall|i: int|
                0 <= i < att@.len() ==> valid_partition(#[trigger] count_views(att@)[i], n as int),
            forall|i: int| 0 <= i < att@.len() ==> #[trigger] count_views(att@)[i].len() <= 4,
        decreases n - f,
    {
        let mut s: usize = 1;
        while s < n - f
            invariant
                1 <= s,
                s <= n - f,
                1 <= f,
                f + 1 < n,
                2 <= n <= 400,
                middle_cap as int == middle_row_cap(avg),
                base2 == seq![seq![n]] + split2_upto(n as int, n as int),
                count_views(att@) =~= base2 + split3_upto(n as int, avg, f as int)
                    + split3_inner(n as int, avg, f as int, s as int),
                forall|i: int|
                    0 <= i < att@.len() ==> valid_partition(
                        #[trigger] count_views(att@)[i],
                        n as int,
                    ),
                forall|i: int| 0 <= i < att@.len() ==> #[trigger] count_views(att@)[i].len() <= 4,
            decreases n - f - s,
        {
            let third: usize = n - f - s;
            if f <= 3 && s <= middle_cap && third <= 3 {
                let mut three: Vec<usize> = Vec::new();
                three.push(f);
                three.push(s);
                three.push(third);
                proof {
                    assert(three@ =~= seq![f, s, third]);
                    lemma_valid_partition3(f, s, third, n as int);
                    lemma_count_views_push(att@, three);
                }
                att.push(three);
            }
            proof {
                assert(split3_inner(n as int, avg, f as int, s as int + 1) == split3_inner(
                    n as int,
                    avg,
                    f as int,
                    s as int,
                ) + split3_at(n as int, avg, f as int, s as int));
                assert(count_views(att@) =~= base2 + split3_upto(n as int, avg, f as int)
                    + split3_inner(n as int, avg, f as int, s as int + 1));
            }
            s = s + 1;
        }
        proof {
            assert(split3_upto(n as int, avg, f as int + 1) == split3_upto(n as int, avg, f as int)
                + split3_inner(n as int, avg, f as int, n - f as int));
            assert(count_views(att@) =~= base2 + split3_upto(n as int, avg, f as int + 1));
        }
        f = f + 1;
    }
    proof {
        if n == 2 {
            assert(split3_upto(n as int, avg, 1) == Seq::<Seq<usize>>::empty());
        }
        assert(count_views(att@) =~= base2 + split3_upto(n as int, avg, n as int - 1));
    }
    let ghost base3: Seq<Seq<usize>> = base2 + split3_upto(n as int, avg, n as int - 1);

    if n > 2 {
        let mut f: usize = 1;
        while f + 2 < n
            invariant
                1 <= f,
                f + 2 <= n || f == 1,
                3 <= n <= 400,
                base3 == seq![seq![n]] + split2_upto(n as int, n as int) + split3_upto(
                    n as int,
                    avg,
                    n as int - 1,
                ),
                count_views(att@) =~= base3 + split4_upto(n as int, f as int),
                forall|i: int|
                    0 <= i < att@.len() ==> valid_partition(
                        #[trigger] count_views(att@)[i],
                        n as int,
                    ),
                forall|i: int| 0 <= i < att@.len() ==> #[trigger] count_views(att@)[i].len() <= 4,
            decreases n - f,
        {
            let mut s: usize = 1;
            while s < n - f
                invariant
                    1 <= s,
                    s <= n - f,
                    1 <= f,
                    f + 2 < n,
                    3 <= n <= 400,
                    base3 == seq![seq![n]] + split2_upto(n as int, n as int) + split3_upto(
                        n as int,
                        avg,
                        n as int - 1,
                    ),
                    count_views(att@) =~= base3 + split4_upto(n as int, f as int) + split4_second(
                        n as int,
                        f as int,
                        s as int,
                    ),
                    forall|i: int|
                        0 <= i < att@.len() ==> valid_partition(
                            #[trigger] count_views(att@)[i],
                            n as int,
                        ),
                    forall|i: int|
                        0 <= i < att@.len() ==> #[trigger] count_views(att@)[i].len() <= 4,
                decreases n - f - s,
            {
                let mut t: usize = 1;
                while t < n - f - s
                    invariant
                        1 <= t,
                        t <= n - f - s,
                        1 <= s,
                        s < n - f,
                        1 <= f,
                        f + 2 < n,
                        3 <= n <= 400,
                        base3 == seq![seq![n]] + split2_upto(n as int, n as int) + split3_upto(
                            n as int,
                            avg,
                            n as int - 1,
                        ),
                        count_views(att@) =~= base3 + split4_upto(n as int, f as int)
                            + split4_second(n as int, f as int, s as int) + split4_third(
                            n as int,
                            f as int,
                            s as int,
                            t as int,
                        ),
                        forall|i: int|
                            0 <= i < att@.len() ==> valid_partition(
                                #[trigger] count_views(att@)[i],
                                n as int,
                            ),
                        forall|i: int|
                            0 <= i < att@.len() ==> #[trigger] count_views(att@)[i].len() <= 4,
                    decreases n - f - s - t,
                {
                    let fourth: usize = n - f - s - t;
                    if f <= 3 && s <= 3 && t <= 3 && fourth <= 3 {
                        let mut four: Vec<usize> = Vec::new();
                        four.push(f);
                        four.push(s);
                        four.push(t);
                        four.push(fourth);
                        proof {
                            assert(four@ =~= seq![f, s, t, fourth]);
                            lemma_valid_partition4(f, s, t, fourth, n as int);
                            lemma_count_views_push(att@, four);
                        }
                        att.push(four);
                    }
                    proof {
                        assert(split4_third(n as int, f as int, s as int, t as int + 1)
                            == split4_third(n as int, f as int, s as int, t as int) + split4_at(
                            n as int,
                            f as int,
                            s as int,
                            t as int,
                        ));
                        assert(count_views(att@) =~= base3 + split4_upto(n as int, f as int)
                            + split4_second(n as int, f as int, s as int) + split4_third(
                            n as int,
                            f as int,
                            s as int,
                            t as int + 1,
                        ));
                    }
                    t = t + 1;
                }
                proof {
                    assert(split4_second(n as int, f as int, s as int + 1) == split4_second(
                        n as int,
                        f as int,
                        s as int,
                    ) + split4_third(n as int, f as int, s as int, n - f as int - s as int));
                    assert(count_views(att@) =~= base3 + split4_upto(n as int, f as int)
                        + split4_second(n as int, f as int, s as int + 1));
                }
                s = s + 1;
            }
            proof {
                assert(split4_upto(n as int, f as int + 1) == split4_upto(n as int, f as int)
                    + split4_second(n as int, f as int, n - f as int));
                assert(count_views(att@) =~= base3 + split4_upto(n as int, f as int + 1));
            }
            f = f + 1;
        }
        proof {
            if n == 3 {
                assert(split4_upto(n as int, 1) == Seq::<Seq<usize>>::empty());
            }
            assert(count_views(att@) =~= base3 + split4_upto(n as int, n as int - 2));
            assert(count_views(att@) =~= spec_attempts(n as int, avg));
        }
    } else {
        proof {
            assert(count_views(att@) =~= spec_attempts(n as int, avg));
        }
    }
    att
}

/// Whether some row among the first `k` holds more items than the row
/// above it: the partition "grows" downwards at that point.
pub open spec fn grows_upto(ks: Seq<usize>, k: int) -> bool
    decreases k,
{
    if k <= 1 {
        false
    } else {
        grows_upto(ks, k - 1) || ks[k - 2] < ks[k - 1]
    }
}

/// A row-size sequence that is not non-increasing: some adjacent pair grows.
pub open spec fn spec_grows(ks: Seq<usize>) -> bool {
    grows_upto(ks, ks.len() as int)
}

/// Total of the first `k` row heights.
pub open spec fn total_upto(hs: Seq<int>, k: int) -> int
    decreases k,
{
    if k <= 0 {
        0
    } else {
        total_upto(hs, k - 1) + hs[k - 1]
    }
}

/// Least of the first `k` row heights, starting from the machine maximum
/// so that an empty prefix never wins.
pub open spec fn min_upto(hs: Seq<int>, k: int) -> int
    decreases k,
{
    if k <= 0 {
        0x7fff_ffff_ffff_ffff
    } else {
        min(min_upto(hs, k - 1), hs[k - 1])
    }
}

/// How far the candidate's total height lands from the 600-unit target.
pub open spec fn spec_raw_distance(c: Seq<i64>, ks: Seq<usize>, width: int) -> int {
    let total = total_upto(heights_of(c, ks, width), ks.len() as int);
    if total < TARGET_TOTAL_HEIGHT as int {
        TARGET_TOTAL_HEIGHT as int - total
    } else {
        total - TARGET_TOTAL_HEIGHT as int
    }
}

/// The least row height of the candidate.
pub open spec fn spec_least_height(c: Seq<i64>, ks: Seq<usize>, width: int) -> int {
    min_upto(heights_of(c, ks, width), ks.len() as int)
}

/// The score of a candidate partition, in quarter milli-units: the distance
/// of the total height from the 600-unit target, times four, grown by half
/// once if the row sizes grow downwards anywhere and once more if any row
/// is lower than the 70-unit minimum. Smaller is better.
pub open spec fn spec_score(c: Seq<i64>, ks: Seq<usize>, width: int) -> int {
    let base: int = if spec_grows(ks) {
        6
    } else {
        4
    };
    let factor = if spec_least_height(c, ks, width) < MIN_ROW_WIDTH as int {
        base + base / 2
    } else {
        base
    };
    spec_raw_distance(c, ks, width) * factor
}

/// Row starts never decrease as the row index grows.
pub proof fn lemma_row_start_mono(ks: Seq<usize>, a: int, b: int)
    requires
        0 <= a <= b <= ks.len(),
    ensures
        row_start(ks, a) <= row_start(ks, b),
    decreases b,
{
    if a < b {
        lemma_row_start_mono(ks, a, b - 1);
    }
}

/// The mathematical values of a list of machine integers.
pub open spec fn ints_of(s: Seq<i64>) -> Seq<int> {
    s.map_values(|v: i64| v as int)
}

/// Scores one candidate partition. See [`spec_score`].
fn score_of(cropped: &Vec<i64>, counts: &Vec<usize>, width: i64) -> (sc: i64)
    requires
        fallback_ratios(cropped@),
        cropped@.len() <= 400,
        valid_partition(counts@, cropped@.len() as int),
        counts@.len() <= 4,
        fallback_width(width as int, cropped@.len() as int),
    ensures
        sc as int == spec_score(cropped@, counts@, width as int),
        0 <= sc <= 36_000_000_000,
{
    let ghost hs: Seq<int> = heights_of(cropped@, counts@, width as int);
    let k = counts.len();
    let mut start: usize = 0;
    let mut total: i64 = 0;
    let mut least: i64 = 0x7fff_ffff_ffff_ffff;
    let mut j: usize = 0;
    while j < k
        invariant
            j <= k,
            k == counts@.len() <= 4,
            fallback_ratios(cropped@),
            cropped@.len() <= 400,
            valid_partition(counts@, cropped@.len() as int),
            fallback_width(width as int, cropped@.len() as int),
            hs == heights_of(cropped@, counts@, width as int),
            start == row_start(counts@, j as int),
            total == total_upto(hs, j as int),
            least == min_upto(hs, j as int),
            0 <= total <= j * 1_000_000_000,
        decreases k - j,
    {
        let cnt = counts[j];
        proof {
            lemma_row_start_mono(counts@, j as int + 1, k as int);
            assert(row_start(counts@, j as int + 1) == start + cnt);
            assert(start + cnt <= cropped@.len());
        }
        let h = row_height(cropped, start, cnt, width);
        proof {
            assert(cropped@.subrange(start as int, start as int + cnt as int) == row_slice(
                cropped@,
                counts@,
                j as int,
            ));
            assert(hs[j as int] == spec_multi_height(
                row_slice(cropped@, counts@, j as int),
                width as int,
            ));
            assert((j as int + 1) * 1_000_000_000 == j as int * 1_000_000_000 + 1_000_000_000)
                by (nonlinear_arith);
        }
        total = total + h;
        least = if h < least {
            h
        } else {
            least
        };
        start = start + cnt;
        j = j + 1;
    }
    let diff = if total < TARGET_TOTAL_HEIGHT {
        TARGET_TOTAL_HEIGHT - total
    } else {
        total - TARGET_TOTAL_HEIGHT
    };
    assert(0 <= diff <= 4_000_000_000);

    let mut growing = false;
    let mut j: usize = 1;
    while j < k
        invariant
            1 <= j,
            j <= k || (k <= 1 && j == 1),
            k == counts@.len(),
            growing == grows_upto(counts@, j as int),
        decreases k - j,
    {
        growing = growing || counts[j - 1] < counts[j];
        j = j + 1;
    }
    assert(growing == spec_grows(counts@));

    let base: i64 = if growing {
        6
    } else {
        4
    };
    let factor: i64 = if least < MIN_ROW_WIDTH {
        base + base / 2
    } else {
        base
    };
    proof {
        assert(0 <= diff as int * factor as int <= 36_000_000_000) by (nonlinear_arith)
            requires
                0 <= diff as int <= 4_000_000_000 && 4 <= factor as int <= 9,
        ;
    }
    diff * factor
}

/// The per-row heights of one partition, in row order. See [`heights_of`].
fn heights_for(cropped: &Vec<i64>, counts: &Vec<usize>, width: i64) -> (r: Vec<i64>)
    requires
        fallback_ratios(cropped@),
        cropped@.len() <= 400,
        valid_partition(counts@, cropped@.len() as int),
        fallback_width(width as int, cropped@.len() as int),
    ensures
        ints_of(r@) == heights_of(cropped@, counts@, width as int),
        r@.len() == counts@.len(),
        forall|j: int| 0 <= j < r@.len() ==> 0 <= #[trigger] r@[j] <= 1_000_000_000,
{
    let ghost hs: Seq<int> = heights_of(cropped@, counts@, width as int);
    let k = counts.len();
    let mut out: Vec<i64> = Vec::new();
    let mut start: usize = 0;
    let mut j: usize = 0;
    while j < k
        invariant
            j <= k,
            k == counts@.len(),
            fallback_ratios(cropped@),
            cropped@.len() <= 400,
            valid_partition(counts@, cropped@.len() as int),
            fallback_width(width as int, cropped@.len() as int),
            hs == heights_of(cropped@, counts@, width as int),
            start == row_start(counts@, j as int),
            out@.len() == j,
            ints_of(out@) == hs.take(j as int),
            forall|t: int| 0 <= t < out@.len() ==> 0 <= #[trigger] out@[t] <= 1_000_000_000,
        decreases k - j,
    {
        let cnt = counts[j];
        proof {
            lemma_row_start_mono(counts@, j as int + 1, k as int);
            assert(row_start(counts@, j as int + 1) == start + cnt);
            assert(start + cnt <= cropped@.len());
        }
        let h = row_height(cropped, start, cnt, width);
        proof {
            assert(cropped@.subrange(start as int, start as int + cnt as int) == row_slice(
                cropped@,
                counts@,
                j as int,
            ));
            assert(hs[j as int] == spec_multi_height(
                row_slice(cropped@, counts@, j as int),
                width as int,
            ));
        }
        out.push(h);
        assert(ints_of(out@) =~= hs.take(j as int + 1));
        start = start + cnt;
        j = j + 1;
    }
    assert(ints_of(out@) =~= hs);
    out
}

/// The edge flags of the item at column `k` of `cnt` in row `j` of
/// `nrows`: the first row touches the top, the last row the bottom (a
/// single row touches both), the first and last columns the left and
/// right, and an item touching no edge is inside.
pub open spec fn spec_item_flags(j: int, nrows: int, k: int, cnt: int) -> PositionFlags {
    PositionFlags::spec_edges(j == 0, k == 0, k == cnt - 1, j == nrows - 1)
}

/// Horizontal offset of item `k` within its row: the widths of the items
/// before it, each the cropped ratio times the row height.
pub open spec fn row_x(row: Seq<i64>, h: int, k: int) -> int
    decreases k,
{
    if k <= 0 {
        0
    } else {
        row_x(row, h, k - 1) + row[k - 1] * h / 1000
    }
}

/// The frame and flags of the item at column `k` of row `j`, for a row of
/// the given cropped ratios at height `h` starting at vertical offset `y`.
pub open spec fn spec_cell(row: Seq<i64>, h: int, y: int, j: int, nrows: int, k: int) -> (
    FrameModel,
    PositionFlags,
) {
    (
        FrameModel { x: row_x(row, h, k), y, width: row[k] * h / 1000, height: h },
        spec_item_flags(j, nrows, k, row.len() as int),
    )
}

/// The first `k` cells of one row, left to right.
pub open spec fn row_cells_upto(
    row: Seq<i64>,
    h: int,
    y: int,
    j: int,
    nrows: int,
    k: int,
) -> Seq<(FrameModel, PositionFlags)>
    decreases k,
{
    if k <= 0 {
        Seq::empty()
    } else {
        row_cells_upto(row, h, y, j, nrows, k - 1).push(spec_cell(row, h, y, j, nrows, k - 1))
    }
}

/// All cells of the first `j` rows, in reading order. Row `j` starts at
/// the vertical offset that the heights of the rows above it sum to.
pub open spec fn cells_upto(c: Seq<i64>, ks: Seq<usize>, hs: Seq<int>, j: int) -> Seq<
    (FrameModel, PositionFlags),
>
    decreases j,
{
    if j <= 0 {
        Seq::empty()
    } else {
        cells_upto(c, ks, hs, j - 1) + row_cells_upto(
            row_slice(c, ks, j - 1),
            hs[j - 1],
            total_upto(hs, j - 1),
            j - 1,
            ks.len() as int,
            ks[j - 1] as int,
        )
    }
}

/// Every frame and flag pair the winning partition places, in input order.
pub open spec fn spec_place(c: Seq<i64>, ks: Seq<usize>, width: int) -> Seq<
    (FrameModel, PositionFlags),
> {
    cells_upto(c, ks, heights_of(c, ks, width), ks.len() as int)
}

/// Ties each input ratio to its placed frame and flags.
pub open spec fn spec_zip_items(rs: Seq<i64>, placed: Seq<(FrameModel, PositionFlags)>) -> Seq<
    ItemModel,
> {
    Seq::new(rs.len(), |i: int| ItemModel { aspect_ratio: rs[i] as int, frame: placed[i].0, flags: placed[i].1 })
}

/// The index of the winning candidate among the first `k`: the least score
/// wins, and between equals the earlier one.
pub open spec fn best_upto(c: Seq<i64>, att: Seq<Seq<usize>>, width: int, k: int) -> int
    decreases k,
{
    if k <= 1 {
        0
    } else {
        let b = best_upto(c, att, width, k - 1);
        if spec_score(c, att[k - 1], width) < spec_score(c, att[b], width) {
            k - 1
        } else {
            b
        }
    }
}

/// A row holds as many cells as items.
pub proof fn lemma_row_cells_len(row: Seq<i64>, h: int, y: int, j: int, nrows: int, k: int)
    requires
        0 <= k,
    ensures
        row_cells_upto(row, h, y, j, nrows, k).len() == k,
    decreases k,
{
    if k > 0 {
        lemma_row_cells_len(row, h, y, j, nrows, k - 1);
    }
}

/// The first `j` rows hold exactly the items before row `j`'s start.
pub proof fn lemma_cells_len(c: Seq<i64>, ks: Seq<usize>, hs: Seq<int>, j: int)
    requires
        0 <= j <= ks.len(),
    ensures
        cells_upto(c, ks, hs, j).len() == row_start(ks, j),
    decreases j,
{
    if j > 0 {
        lemma_cells_len(c, ks, hs, j - 1);
        lemma_row_cells_len(
            row_slice(c, ks, j - 1),
            hs[j - 1],
            total_upto(hs, j - 1),
            j - 1,
            ks.len() as int,
            ks[j - 1] as int,
        );
    }
}

proof fn lemma_views_push(s: Seq<LayoutItem>, it: LayoutItem)
    ensures
        crate::item::views_of(s.push(it)) =~= crate::item::views_of(s).push(it@),
{
    assert forall|i: int| 0 <= i < s.len() + 1 implies crate::item::views_of(s.push(it))[i]
        == crate::item::views_of(s).push(it@)[i] by {
        if i < s.len() {
            assert(s.push(it)[i] == s[i]);
        } else {
            assert(s.push(it)[i] == it);
        }
    }
}

/// Writes the winning partition into frames and flags, walking rows top to
/// bottom while the vertical offset accumulates, and each row left to
/// right while the horizontal offset accumulates.
fn materialize(
    ratios: &Vec<i64>,
    cropped: &Vec<i64>,
    counts: &Vec<usize>,
    heights: &Vec<i64>,
    width: i64,
) -> (r: Vec<LayoutItem>)
    requires
        ratios@.len() == cropped@.len(),
        ratios@.len() <= 400,
        fallback_ratios(cropped@),
        valid_partition(counts@, cropped@.len() as int),
        counts@.len() <= 400,
        counts@.len() == heights@.len(),
        ints_of(heights@) == heights_of(cropped@, counts@, width as int),
        forall|j: int| 0 <= j < heights@.len() ==> 0 <= #[trigger] heights@[j] <= 1_000_000_000,
    ensures
        r@.len() == ratios@.len(),
        crate::item::views_of(r@) == spec_zip_items(
            ratios@,
            spec_place(cropped@, counts@, width as int),
        ),
{
    let ghost hs: Seq<int> = heights_of(cropped@, counts@, width as int);
    let n = ratios.len();
    let k = counts.len();
    let mut out: Vec<LayoutItem> = Vec::new();
    let mut idx: usize = 0;
    let mut y: i64 = 0;
    let mut j: usize = 0;
    proof {
        lemma_row_start_mono(counts@, 0, k as int);
    }
    while j < k
        invariant
            j <= k,
            k == counts@.len() == heights@.len(),
            k <= 400,
            n == ratios@.len() == cropped@.len() <= 400,
            fallback_ratios(cropped@),
            valid_partition(counts@, n as int),
            ints_of(heights@) == heights_of(cropped@, counts@, width as int),
            hs == heights_of(cropped@, counts@, width as int),
            forall|t: int| 0 <= t < heights@.len() ==> 0 <= #[trigger] heights@[t]
                <= 1_000_000_000,
            idx == row_start(counts@, j as int),
            idx <= n,
            y == total_upto(hs, j as int),
            0 <= y <= j as int * 1_000_000_000,
            out@.len() == idx,
            crate::item::views_of(out@) == spec_zip_items(
                ratios@.take(idx as int),
                cells_upto(cropped@, counts@, hs, j as int),
            ),
        decreases k - j,
    {
        let cnt = counts[j];
        let h = heights[j];
        let ghost row: Seq<i64> = row_slice(cropped@, counts@, j as int);
        proof {
            lemma_row_start_mono(counts@, j as int + 1, k as int);
            assert(row_start(counts@, j as int + 1) == idx + cnt);
            assert(idx + cnt <= n);
            assert(h as int == hs[j as int]);
            lemma_cells_len(cropped@, counts@, hs, j as int);
            assert(row.len() == cnt);
        }
        let mut x: i64 = 0;
        let mut kk: usize = 0;
        while kk < cnt
            invariant
                kk <= cnt,
                cnt == counts@[j as int],
                j < k,
                k == counts@.len() == heights@.len(),
                n == ratios@.len() == cropped@.len() <= 400,
                fallback_ratios(cropped@),
                valid_partition(counts@, n as int),
                hs == heights_of(cropped@, counts@, width as int),
                h as int == hs[j as int],
                0 <= h <= 1_000_000_000,
                row == row_slice(cropped@, counts@, j as int),
                row.len() == cnt,
                idx == row_start(counts@, j as int),
                idx + cnt <= n,
                y == total_upto(hs, j as int),
                0 <= y <= j as int * 1_000_000_000,
                x == row_x(row, h as int, kk as int),
                0 <= x <= kk as int * 1_000_000_000_000,
                out@.len() == idx + kk,
                crate::item::views_of(out@) == spec_zip_items(
                    ratios@.take(idx as int + kk as int),
                    cells_upto(cropped@, counts@, hs, j as int) + row_cells_upto(
                        row,
                        h as int,
                        y as int,
                        j as int,
                        k as int,
                        kk as int,
                    ),
                ),
            decreases cnt - kk,
        {
            let ratio = cropped[idx + kk];
            proof {
                assert(row[kk as int] == cropped@[idx as int + kk as int]);
                crate::math::lemma_mul_bounds_abs(ratio as int, h as int, 1_000_000, 1_000_000_000);
                vstd::arithmetic::div_mod::lemma_div_pos_is_pos(ratio as int * h as int, 1000);
                vstd::arithmetic::div_mod::lemma_div_is_ordered(
                    ratio as int * h as int,
                    1_000_000_000_000_000,
                    1000,
                );
            }
            let w = ratio * h / 1000;
            let flags = PositionFlags::from_edges(
                j == 0,
                kk == 0,
                kk + 1 == cnt,
                j + 1 == k,
            );
            let item = LayoutItem {
                aspect_ratio: ratios[idx + kk],
                frame: Frame { x, y, width: w, height: h },
                flags,
            };
            proof {
                lemma_views_push(out@, item);
            }
            out.push(item);
            proof {
                lemma_row_cells_len(row, h as int, y as int, j as int, k as int, kk as int);
                lemma_cells_len(cropped@, counts@, hs, j as int);
                assert(row_cells_upto(row, h as int, y as int, j as int, k as int, kk as int + 1)
                    == row_cells_upto(row, h as int, y as int, j as int, k as int, kk as int).push(
                    spec_cell(row, h as int, y as int, j as int, k as int, kk as int),
                ));
                assert(item@.frame == spec_cell(
                    row,
                    h as int,
                    y as int,
                    j as int,
                    k as int,
                    kk as int,
                ).0);
                assert(item@.flags == spec_cell(
                    row,
                    h as int,
                    y as int,
                    j as int,
                    k as int,
                    kk as int,
                ).1);
                assert(crate::item::views_of(out@) =~= spec_zip_items(
                    ratios@.take(idx as int + kk as int + 1),
                    cells_upto(cropped@, counts@, hs, j as int) + row_cells_upto(
                        row,
                        h as int,
                        y as int,
                        j as int,
                        k as int,
                        kk as int + 1,
                    ),
                ));
                assert((kk as int + 1) * 1_000_000_000_000 <= 400_000_000_000_000
                    && (kk as int + 1) * 1_000_000_000_000 == kk as int * 1_000_000_000_000
                    + 1_000_000_000_000) by (nonlinear_arith)
                    requires
                        0 <= kk as int + 1 <= 400,
                ;
                assert(x as int + w as int == row_x(row, h as int, kk as int + 1));
            }
            x = x + w;
            kk = kk + 1;
        }
        proof {
            assert(cells_upto(cropped@, counts@, hs, j as int + 1) == cells_upto(
                cropped@,
                counts@,
                hs,
                j as int,
            ) + row_cells_upto(
                row,
                hs[j as int],
                total_upto(hs, j as int),
                j as int,
                k as int,
                counts@[j as int] as int,
            ));
            assert(total_upto(hs, j as int + 1) == total_upto(hs, j as int) + hs[j as int]);
            assert((j as int + 1) * 1_000_000_000 == j as int * 1_000_000_000 + 1_000_000_000
                && j as int * 1_000_000_000 <= 400_000_000_000) by (nonlinear_arith)
                requires
                    0 <= j as int <= 400,
            ;
        }
        y = y + h;
        idx = idx + cnt;
        j = j + 1;
    }
    proof {
        assert(idx == n);
        assert(ratios@.take(n as int) == ratios@);
        assert(crate::item::views_of(out@) =~= spec_zip_items(
            ratios@,
            spec_place(cropped@, counts@, width as int),
        ));
    }
    out
}

/// The whole fallback layout: crop, enumerate, score, pick the first best,
/// materialize.
pub open spec fn spec_layout_fallback(rs: Seq<i64>, width: int) -> Seq<ItemModel> {
    let c = spec_cropped(rs);
    let att = spec_attempts(rs.len() as int, spec_average_ratio(rs));
    let best = best_upto(c, att, width, att.len() as int);
    spec_zip_items(rs, spec_place(c, att[best], width))
}

/// Lays out any number of items by the row-partition search. The
/// proportion signature plays no part here; it is taken for interface
/// uniformity with the fixed templates. See [`spec_layout_fallback`].
pub fn layout_fallback(
    ratios: &Vec<i64>,
    proportions: &Vec<crate::classify::ProportionClass>,
    average_aspect_ratio: i64,
    width: i64,
) -> (r: Vec<LayoutItem>)
    requires
        2 <= ratios@.len() <= 400,
        fallback_ratios(ratios@),
        fallback_width(width as int, ratios@.len() as int),
        proportions@ == crate::classify::spec_signature(ratios@),
        average_aspect_ratio as int == spec_average_ratio(ratios@),
    ensures
        crate::item::views_of(r@) == spec_layout_fallback(ratios@, width as int),
        r@.len() == ratios@.len(),
{
    let n = ratios.len();
    let cropped = crop_ratios(ratios, average_aspect_ratio);
    let attempts = build_attempts(n, average_aspect_ratio);
    let ghost att: Seq<Seq<usize>> = count_views(attempts@);

    let mut best: usize = 0;
    assert(att[0] == attempts@[0]@);
    let mut best_score: i64 = score_of(&cropped, &attempts[0], width);
    let mut i: usize = 1;
    while i < attempts.len()
        invariant
            1 <= i <= attempts@.len(),
            best < i,
            n == ratios@.len() == cropped@.len(),
            2 <= n <= 400,
            fallback_ratios(cropped@),
            fallback_width(width as int, n as int),
            att == count_views(attempts@),
            forall|t: int| 0 <= t < att.len() ==> valid_partition(#[trigger] att[t], n as int),
            forall|t: int| 0 <= t < att.len() ==> #[trigger] att[t].len() <= 4,
            best as int == best_upto(cropped@, att, width as int, i as int),
            best_score as int == spec_score(cropped@, att[best as int], width as int),
        decreases attempts@.len() - i,
    {
        assert(att[i as int] == attempts@[i as int]@);
        let sc = score_of(&cropped, &attempts[i], width);
        if sc < best_score {
            best = i;
            best_score = sc;
        }
        i = i + 1;
    }

    let winner = &attempts[best];
    let heights = heights_for(&cropped, winner, width);
    let out = materialize(ratios, &cropped, winner, &heights, width);
    proof {
        assert(att[best as int] == attempts@[best as int]@);
        assert(crate::item::views_of(out@) =~= spec_layout_fallback(ratios@, width as int));
    }
    out
}

} // verus!

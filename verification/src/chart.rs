//! The bar that shows how the tokens of a session are made up.
use vstd::arithmetic::div_mod::*;
use vstd::arithmetic::power2::*;
use vstd::prelude::*;
use vstd::string::*;

use crate::binary64::{share_of, stretch_of, Binary64};
use crate::order::{stable_order, Ranked};
use crate::text::push_repeated;

verus! {

/// The token counts of a session.
#[derive(Clone, Copy, Debug, PartialEq, Eq, Structural)]
pub struct TokenUsage {
    pub input_tokens: u64,
    pub cached_input_tokens: u64,
    pub output_tokens: u64,
    pub reasoning_output_tokens: u64,
    pub total_tokens: u64,
}

/// How many of the values are not zero.
pub open spec fn nonzero_count(values: Seq<u64>) -> nat
    decreases values.len(),
{
    if values.len() == 0 {
        0
    } else {
        nonzero_count(values.drop_last()) + (if values.last() > 0 {
            1nat
        } else {
            0
        })
    }
}

/// Every value that is not zero has one cell of its own, where the width allows that.
pub open spec fn reserves(values: Seq<u64>, width: nat) -> bool {
    width >= nonzero_count(values)
}

/// The number of cells that are set aside in that way.
pub open spec fn reserved(values: Seq<u64>, width: nat) -> nat {
    if reserves(values, width) {
        nonzero_count(values)
    } else {
        0
    }
}

/// The shares of the values in the cells that are left.
pub open spec fn shares(values: Seq<u64>, total: u64, width: nat) -> Seq<nat> {
    values.map_values(
        |v: u64|
            crate::binary64::share(
                v as nat,
                (width - reserved(values, width)) as nat,
                total as nat,
            ),
    )
}

pub open spec fn sum(s: Seq<nat>) -> nat
    decreases s.len(),
{
    if s.len() == 0 {
        0
    } else {
        sum(s.drop_last()) + s.last()
    }
}

/// The cells of each value before what is left over is handed out: its own cell and the whole part
/// of its share.
pub open spec fn first_lengths(values: Seq<u64>, total: u64, width: nat) -> Seq<nat> {
    Seq::new(
        values.len(),
        |i: int|
            (if reserves(values, width) && values[i] > 0 {
                1nat
            } else {
                0
            }) + crate::binary64::floor(shares(values, total, width)[i]),
    )
}

/// The share with the greater fraction comes first.
pub open spec fn by_fraction(s: Seq<nat>) -> spec_fn(int, int) -> bool {
    |i: int, j: int| crate::binary64::fraction(s[i]) > crate::binary64::fraction(s[j])
}

/// `lengths` with one more at each of the first `k` indices of `order`.
pub open spec fn handed_out(lengths: Seq<nat>, order: Seq<int>, k: nat) -> Seq<nat>
    decreases k,
{
    if k == 0 {
        lengths
    } else {
        let before = handed_out(lengths, order, (k - 1) as nat);
        before.update(order[k - 1], before[order[k - 1]] + 1)
    }
}

/// How many cells are left over after the first lengths.
pub open spec fn spare(values: Seq<u64>, total: u64, width: nat) -> nat {
    let used = sum(first_lengths(values, total, width));
    if used < width {
        (width - used) as nat
    } else {
        0
    }
}

/// `width` cells divided among the values in proportion to them: what is left over after the first
/// lengths goes, one cell each, to the shares with the greatest fractions.
pub open spec fn proportional(values: Seq<u64>, total: u64, width: nat) -> Seq<nat> {
    if total == 0 || width == 0 {
        Seq::new(values.len(), |i: int| 0nat)
    } else {
        let n = values.len();
        let left = spare(values, total, width);
        handed_out(
            first_lengths(values, total, width),
            crate::order::order_by(n, by_fraction(shares(values, total, width))),
            if left < n {
                left
            } else {
                n
            },
        )
    }
}

/// The first lengths add up within `usize`.
pub open spec fn lengths_fit(values: Seq<u64>, total: u64, width: nat) -> bool {
    total > 0 && width > 0 ==> sum(first_lengths(values, total, width)) <= usize::MAX
}

pub open spec fn as_nats(v: Seq<usize>) -> Seq<nat> {
    v.map_values(|i: usize| i as nat)
}

proof fn lemma_sum_update(s: Seq<nat>, i: int)
    requires
        0 <= i < s.len(),
    ensures
        sum(s.update(i, s[i] + 1)) == sum(s) + 1,
    decreases s.len(),
{
    let t = s.update(i, s[i] + 1);
    if i == s.len() - 1 {
        assert(t.drop_last() == s.drop_last());
    } else {
        assert(t.drop_last() == s.drop_last().update(i, s[i] + 1));
        lemma_sum_update(s.drop_last(), i);
    }
}

proof fn lemma_sum_bounds(s: Seq<nat>, i: int)
    requires
        0 <= i < s.len(),
    ensures
        s[i] <= sum(s),
    decreases s.len(),
{
    if i < s.len() - 1 {
        lemma_sum_bounds(s.drop_last(), i);
    }
}

proof fn lemma_sum_take(s: Seq<nat>, i: int)
    requires
        0 <= i <= s.len(),
    ensures
        sum(s.take(i)) <= sum(s),
        i < s.len() ==> sum(s.take(i + 1)) == sum(s.take(i)) + s[i],
    decreases s.len() - i,
{
    if i < s.len() {
        assert(s.take(i + 1).drop_last() == s.take(i));
        lemma_sum_take(s, i + 1);
    } else {
        assert(s.take(i) == s);
    }
}

proof fn lemma_handed_out(lengths: Seq<nat>, order: Seq<int>, k: nat)
    requires
        k <= order.len(),
        forall|p: int| 0 <= p < order.len() ==> 0 <= #[trigger] order[p] < lengths.len(),
    ensures
        handed_out(lengths, order, k).len() == lengths.len(),
        sum(handed_out(lengths, order, k)) == sum(lengths) + k,
        forall|i: int|
            0 <= i < lengths.len() ==> lengths[i] <= #[trigger] handed_out(lengths, order, k)[i],
    decreases k,
{
    if k > 0 {
        lemma_handed_out(lengths, order, (k - 1) as nat);
        lemma_sum_update(handed_out(lengths, order, (k - 1) as nat), order[k - 1]);
    }
}

/// The fraction of a share; greater fractions come first.
struct Fraction {
    value: Binary64,
}

impl Ranked for Fraction {
    open spec fn before(self, other: Self) -> bool {
        self.fraction() > other.fraction()
    }

    proof fn lemma_asymmetric(a: Self, b: Self) {
    }

    proof fn lemma_weak(a: Self, b: Self, c: Self) {
    }

    fn is_before(&self, other: &Self) -> bool {
        !self.value.le(other.value)
    }
}

impl Fraction {
    pub closed spec fn fraction(self) -> nat {
        self.value@
    }
}

/// The number of values that are not zero.
fn count_nonzero(values: &[u64]) -> (r: usize)
    ensures
        r == nonzero_count(values@),
        r <= values@.len(),
{
    let mut r: usize = 0;
    for i in 0..values.len()
        invariant
            r == nonzero_count(values@.take(i as int)),
            r <= i,
    {
        if values[i] > 0 {
            r = r + 1;
        }
        assert(values@.take(i + 1).drop_last() == values@.take(i as int));
    }
    assert(values@.take(values@.len() as int) == values@);
    r
}

/// `width` cells divided among the values in proportion to them. The cells have to be counted within
/// `usize`.
pub fn proportional_lengths(values: &[u64], total: u64, width: usize) -> (r: Vec<usize>)
    requires
        is_ordinary(values@, total, width as nat) || lengths_fit(values@, total, width as nat),
    ensures
        as_nats(r@) == proportional(values@, total, width as nat),
{
    proof {
        if is_ordinary(values@, total, width as nat) {
            lemma_ordinary_fits(values@, total, width as nat);
        }
    }
    let n: usize = values.len();
    let mut lengths: Vec<usize> = Vec::new();
    if total == 0 || width == 0 {
        for i in 0..n
            invariant
                lengths.len() == i,
                forall|k: int| 0 <= k < i ==> lengths[k] == 0,
        {
            lengths.push(0);
        }
        assert(as_nats(lengths@) =~= proportional(values@, total, width as nat));
        return lengths;
    }
    let count = count_nonzero(values);
    let reserve: bool = width >= count;
    let remaining: usize = if reserve {
        width - count
    } else {
        width
    };
    let ghost all = shares(values@, total, width as nat);
    let ghost first = first_lengths(values@, total, width as nat);
    let mut fractions: Vec<Fraction> = Vec::new();
    let mut used: usize = 0;
    for i in 0..n
        invariant
            n == values@.len(),
            total > 0,
            reserve == reserves(values@, width as nat),
            remaining == width - reserved(values@, width as nat),
            all == shares(values@, total, width as nat),
            first == first_lengths(values@, total, width as nat),
            sum(first) <= usize::MAX,
            lengths.len() == i,
            fractions.len() == i,
            used == sum(first.take(i as int)),
            forall|k: int| 0 <= k < i ==> #[trigger] lengths[k] == first[k],
            forall|k: int|
                0 <= k < i ==> (#[trigger] fractions[k]).fraction() == crate::binary64::fraction(
                    all[k],
                ),
    {
        let share = share_of(values[i], remaining as u64, total);
        let base: usize = if reserve && values[i] > 0 {
            1
        } else {
            0
        };
        let whole: u64 = share.floor();
        proof {
            assert(share@ == all[i as int]);
            lemma_sum_take(first, i as int);
            lemma_sum_take(first, i + 1);
        }
        let length: usize = base + whole as usize;
        used = used + length;
        lengths.push(length);
        fractions.push(Fraction { value: share.fraction() });
    }
    assert(first.take(n as int) == first);
    let order = stable_order(&fractions);
    let ghost less = by_fraction(all);
    proof {
        let given = crate::order::by_keys(fractions@);
        let found = crate::order::as_ints(order@);
        assert forall|i: int, j: int| 0 <= i < n && 0 <= j < n implies #[trigger] given(i, j)
            == less(i, j) by {
            assert(fractions[i].fraction() == crate::binary64::fraction(all[i]));
            assert(fractions[j].fraction() == crate::binary64::fraction(all[j]));
        }
        assert forall|p: int, q: int| 0 <= p < q < n implies #[trigger] crate::order::precedes(
            less,
            #[trigger] found[p],
            #[trigger] found[q],
        ) by {
            assert(crate::order::precedes(given, found[p], found[q]));
            assert(given(found[p], found[q]) == less(found[p], found[q]));
            assert(given(found[q], found[p]) == less(found[q], found[p]));
        }
        crate::order::lemma_order_found(n as nat, less, found);
        assert(as_nats(lengths@) =~= first);
    }
    let left: usize = if used < width {
        width - used
    } else {
        0
    };
    let hand: usize = if left < n {
        left
    } else {
        n
    };
    let ghost places = crate::order::order_by(n as nat, less);
    for k in 0..hand
        invariant
            hand <= n,
            hand <= left,
            left > 0 ==> used + left == width,
            n == lengths.len() == order.len() == first.len(),
            used == sum(first),
            places == crate::order::as_ints(order@),
            crate::order::is_order(n as nat, less, places),
            as_nats(lengths@) == handed_out(first, places, k as nat),
    {
        let index: usize = order[k];
        proof {
            assert(places[k as int] == index);
            lemma_handed_out(first, places, k as nat);
            lemma_sum_bounds(as_nats(lengths@), index as int);
            assert(as_nats(lengths@)[index as int] == lengths[index as int]);
        }
        let ghost was = lengths@;
        let length: usize = lengths[index];
        lengths.set(index, length + 1);
        assert(as_nats(lengths@) =~= as_nats(was).update(index as int, (length + 1) as nat));
    }
    lengths
}

impl TokenUsage {
    /// The cached part of the input.
    pub open spec fn cached(self) -> u64 {
        if self.cached_input_tokens <= self.input_tokens {
            self.cached_input_tokens
        } else {
            self.input_tokens
        }
    }

    /// The reasoning part of the output.
    pub open spec fn reasoning(self) -> u64 {
        if self.reasoning_output_tokens <= self.output_tokens {
            self.reasoning_output_tokens
        } else {
            self.output_tokens
        }
    }

    /// Cached input, other input, visible output and reasoning.
    pub open spec fn components(self) -> Seq<u64> {
        seq![
            self.cached(),
            (self.input_tokens - self.cached()) as u64,
            (self.output_tokens - self.reasoning()) as u64,
            self.reasoning(),
        ]
    }

    /// What the components are measured against: their sum within `u64`, and no less than the total.
    pub open spec fn component_total(self) -> u64 {
        let all = self.input_tokens + self.output_tokens;
        if all > u64::MAX {
            u64::MAX
        } else if all > self.total_tokens {
            all as u64
        } else {
            self.total_tokens
        }
    }

    /// The cells of the whole bar: the width drawn in by the quotient of the total and the greatest
    /// total, at least one cell.
    pub open spec fn scaled_width(self, max_total: u64, width: nat) -> nat {
        let w = crate::binary64::round_half_up(
            crate::binary64::stretch(self.total_tokens as nat, max_total as nat, width),
        );
        if w < 1 {
            1
        } else if w > width {
            width
        } else {
            w
        }
    }

    /// The numbers of cells of the four components.
    pub open spec fn cells(self, max_total: u64, width: nat) -> Seq<nat> {
        proportional(
            self.components(),
            self.component_total(),
            self.scaled_width(max_total, width),
        )
    }

    /// The bar: a run of cells for each component.
    pub open spec fn bar(self, max_total: u64, width: nat) -> Seq<char> {
        if self.total_tokens == 0 || max_total == 0 || width == 0 {
            Seq::empty()
        } else {
            let c = self.cells(max_total, width);
            crate::text::repeated('C', c[0]) + crate::text::repeated('I', c[1])
                + crate::text::repeated('O', c[2]) + crate::text::repeated('R', c[3])
        }
    }
}

/// No value is more than the total, and there are few of them and few cells.
pub open spec fn is_ordinary(values: Seq<u64>, total: u64, width: nat) -> bool {
    &&& values.len() <= 4
    &&& width <= 0x1000_0000
    &&& forall|i: int| 0 <= i < values.len() ==> #[trigger] values[i] <= total
}

/// The lengths of ordinary values fit.
pub proof fn lemma_ordinary_fits(values: Seq<u64>, total: u64, width: nat)
    requires
        is_ordinary(values, total, width),
    ensures
        lengths_fit(values, total, width),
{
    if total > 0 && width > 0 {
        let first = first_lengths(values, total, width);
        assert forall|i: int| 0 <= i < first.len() implies #[trigger] first[i] <= 0x2000_0001 by {
            assert(values[i] <= total);
            crate::binary64::lemma_share_bound(
                values[i] as nat,
                (width - reserved(values, width)) as nat,
                total as nat,
            );
        }
        lemma_sum_bound(first, 0x2000_0001);
        assert(first.len() * 0x2000_0001 <= 4 * 0x2000_0001);
    }
}

proof fn lemma_sum_bound(s: Seq<nat>, bound: nat)
    requires
        forall|i: int| 0 <= i < s.len() ==> #[trigger] s[i] <= bound,
    ensures
        sum(s) <= s.len() * bound,
    decreases s.len(),
{
    if s.len() > 0 {
        let front = s.drop_last();
        assert(forall|i: int| 0 <= i < front.len() ==> front[i] == s[i]);
        lemma_sum_bound(front, bound);
        assert(s.len() * bound == front.len() * bound + bound) by (nonlinear_arith)
            requires
                s.len() == front.len() + 1,
        ;
    } else {
        assert(0 * bound == 0);
    }
}

proof fn lemma_sum_of_four(s: Seq<nat>)
    requires
        s.len() == 4,
    ensures
        sum(s) == s[0] + s[1] + s[2] + s[3],
{
    reveal_with_fuel(sum, 5);
    let a = s.drop_last();
    let b = a.drop_last();
    let c = b.drop_last();
    assert(c.drop_last() =~= Seq::<nat>::empty());
}

/// The bar of a session, as wide against `width` as its total is against `max_total`. Its cells have
/// to be counted within `usize`, which is always so at ordinary widths.
pub fn usage_chart_bar(usage: &TokenUsage, max_total: u64, width: usize) -> (r: String)
    requires
        width <= 0x1000_0000 || lengths_fit(
            usage.components(),
            usage.component_total(),
            usage.scaled_width(max_total, width as nat),
        ),
    ensures
        r@ == usage.bar(max_total, width as nat),
{
    let mut bar = String::new();
    if usage.total_tokens == 0 || max_total == 0 || width == 0 {
        return bar;
    }
    let cached_input: u64 = if usage.cached_input_tokens <= usage.input_tokens {
        usage.cached_input_tokens
    } else {
        usage.input_tokens
    };
    let uncached_input: u64 = usage.input_tokens - cached_input;
    let reasoning_output: u64 = if usage.reasoning_output_tokens <= usage.output_tokens {
        usage.reasoning_output_tokens
    } else {
        usage.output_tokens
    };
    let visible_output: u64 = usage.output_tokens - reasoning_output;
    let all: u64 = cached_input.saturating_add(uncached_input).saturating_add(
        visible_output,
    ).saturating_add(reasoning_output);
    let component_total: u64 = if all > usage.total_tokens {
        all
    } else {
        usage.total_tokens
    };
    let stretched: u64 = stretch_of(usage.total_tokens, max_total, width as u64);
    let scaled_width: usize = if stretched < 1 {
        1
    } else if stretched > width as u64 {
        width
    } else {
        stretched as usize
    };
    let values: [u64; 4] = [cached_input, uncached_input, visible_output, reasoning_output];
    proof {
        assert(values@ =~= usage.components());
        assert(component_total == usage.component_total());
        if width <= 0x1000_0000 {
            lemma_ordinary_fits(values@, component_total, scaled_width as nat);
        }
    }
    let lengths = proportional_lengths(&values, component_total, scaled_width);
    proof {
        let cells = usage.cells(max_total, width as nat);
        lemma_proportional_len(values@, component_total, scaled_width as nat);
        assert(as_nats(lengths@).len() == 4);
        assert(forall|i: int| 0 <= i < 4 ==> lengths[i] == #[trigger] as_nats(lengths@)[i]);
        assert(cells[0] == lengths[0] && cells[1] == lengths[1] && cells[2] == lengths[2]
            && cells[3] == lengths[3]);
    }
    push_repeated(&mut bar, 'C', lengths[0]);
    push_repeated(&mut bar, 'I', lengths[1]);
    push_repeated(&mut bar, 'O', lengths[2]);
    push_repeated(&mut bar, 'R', lengths[3]);
    assert(bar@ =~= usage.bar(max_total, width as nat));
    bar
}

/// The indices of shares have an order, which lists indices of the shares only.
proof fn lemma_fraction_order(s: Seq<nat>)
    ensures
        crate::order::is_order(
            s.len(),
            by_fraction(s),
            crate::order::order_by(s.len(), by_fraction(s)),
        ),
{
    let less = by_fraction(s);
    crate::order::lemma_order_exists(s.len(), less);
}

/// There is one length for each value, and none is below its first length.
pub proof fn lemma_proportional_len(values: Seq<u64>, total: u64, width: nat)
    ensures
        proportional(values, total, width).len() == values.len(),
        total > 0 && width > 0 ==> forall|i: int|
            0 <= i < values.len() ==> first_lengths(values, total, width)[i]
                <= #[trigger] proportional(values, total, width)[i],
{
    if total > 0 && width > 0 {
        let n = values.len();
        let s = shares(values, total, width);
        lemma_fraction_order(s);
        let left = spare(values, total, width);
        lemma_handed_out(
            first_lengths(values, total, width),
            crate::order::order_by(n, by_fraction(s)),
            if left < n {
                left
            } else {
                n
            },
        );
    }
}

/// The values added up.
pub open spec fn total_of(values: Seq<u64>) -> nat
    decreases values.len(),
{
    if values.len() == 0 {
        0
    } else {
        total_of(values.drop_last()) + values.last() as nat
    }
}

/// A value that is not zero has at least one cell, where the width allows one for each.
pub proof fn lemma_every_value_shows(values: Seq<u64>, total: u64, width: nat, i: int)
    requires
        total > 0,
        width > 0,
        reserves(values, width),
        0 <= i < values.len(),
        values[i] > 0,
    ensures
        proportional(values, total, width)[i] >= 1,
{
    lemma_proportional_len(values, total, width);
}

/// Where binary64 does not round before it divides, the first lengths are the whole parts of the exact
/// quotients.
pub proof fn lemma_first_lengths_exact(values: Seq<u64>, total: u64, width: nat, i: int)
    requires
        0 <= i < values.len(),
        values[i] <= total,
        0 < total,
        total * (width - reserved(values, width)) < crate::binary64::HIGH,
        0 < width - reserved(values, width),
    ensures
        first_lengths(values, total, width)[i] == (if reserves(values, width) && values[i] > 0 {
            1nat
        } else {
            0
        }) + (values[i] * (width - reserved(values, width))) as nat / total as nat,
{
    let rest = (width - reserved(values, width)) as nat;
    let v = values[i] as nat;
    assert(v * rest < crate::binary64::HIGH && rest < crate::binary64::HIGH && total
        < crate::binary64::HIGH) by (nonlinear_arith)
        requires
            v <= total,
            rest >= 1,
            total * rest < crate::binary64::HIGH,
            total > 0,
    ;
    crate::binary64::lemma_share_exact(v, rest, total as nat);
}

/// The lengths never exceed the width, and fill it where the values add up to the total.
pub proof fn lemma_lengths_fill_width(values: Seq<u64>, total: u64, width: nat)
    requires
        0 < total,
        0 < width <= 0x1000_0000,
        total_of(values) <= total,
    ensures
        sum(proportional(values, total, width)) <= width,
        total_of(values) == total ==> sum(proportional(values, total, width)) == width,
{
    let n = values.len();
    let u = crate::binary64::unit();
    let first = first_lengths(values, total, width);
    let s = shares(values, total, width);
    let rest = (width - reserved(values, width)) as nat;
    lemma_pow2_pos(1074);
    lemma_prefix_sums(values, total, width, n);
    assert(values.take(n as int) == values);
    assert(first.take(n as int) == first);
    assert(s.take(n as int) == s);
    let whole = (sum(first) - reserved(values, width)) as nat;
    let all = sum(s);
    let given = total_of(values);
    lemma_sum_near(all, given, total as nat, rest, u);
    assert(whole <= rest) by (nonlinear_arith)
        requires
            whole * u <= all,
            all < (rest + 1) * u,
            u > 0,
    ;
    let left = spare(values, total, width);
    assert(left == width - sum(first));
    if given == total && n > 0 {
        assert(rest <= whole + n) by (nonlinear_arith)
            requires
                all < (whole + n) * u,
                rest * u < all + u,
                u > 0,
        ;
    }
    lemma_fraction_order(s);
    lemma_handed_out(
        first,
        crate::order::order_by(n, by_fraction(s)),
        if left < n {
            left
        } else {
            n
        },
    );
}

/// Shares that add up to about the whole width differ from it by less than one cell.
proof fn lemma_sum_near(all: nat, given: nat, total: nat, rest: nat, u: nat)
    requires
        0 < total,
        given <= total,
        rest <= 0x1000_0000,
        u > 0,
        crate::binary64::HIGH * (all * total) <= (crate::binary64::HIGH + 8) * ((given * rest) * u),
        (crate::binary64::HIGH - 8) * ((given * rest) * u) <= crate::binary64::HIGH * (all * total),
    ensures
        all < (rest + 1) * u,
        given == total ==> rest * u < all + u,
{
    let high = crate::binary64::HIGH as int;
    let ru = rest * u;
    assert((given * rest) * u == given * ru) by (nonlinear_arith)
        requires
            ru == rest * u,
    ;
    assert(high * all <= (high + 8) * ru) by (nonlinear_arith)
        requires
            high * (all * total) <= (high + 8) * (given * ru),
            given <= total,
            total > 0,
            high > 0,
    ;
    assert(8 * ru < high * u) by (nonlinear_arith)
        requires
            ru == rest * u,
            rest <= 0x1000_0000,
            u > 0,
            high == 0x20_0000_0000_0000,
    ;
    assert(all < ru + u) by (nonlinear_arith)
        requires
            high * all <= (high + 8) * ru,
            8 * ru < high * u,
            high > 0,
    ;
    assert((rest + 1) * u == ru + u) by (nonlinear_arith)
        requires
            ru == rest * u,
    ;
    if given == total {
        assert((high - 8) * ru <= high * all) by (nonlinear_arith)
            requires
                (high - 8) * (given * ru) <= high * (all * total),
                given == total,
                total > 0,
        ;
        assert(ru < all + u) by (nonlinear_arith)
            requires
                (high - 8) * ru <= high * all,
                8 * ru < high * u,
                high > 0,
        ;
    }
}

#[verifier::spinoff_prover]
proof fn lemma_prefix_sums(values: Seq<u64>, total: u64, width: nat, k: nat)
    requires
        0 < total,
        width <= 0x1000_0000,
        k <= values.len(),
    ensures
        ({
            let u = crate::binary64::unit();
            let high = crate::binary64::HIGH as int;
            let rest = (width - reserved(values, width)) as nat;
            let own = if reserves(values, width) {
                nonzero_count(values.take(k as int))
            } else {
                0
            };
            let cells = sum(first_lengths(values, total, width).take(k as int));
            let all = sum(shares(values, total, width).take(k as int));
            let given = total_of(values.take(k as int));
            &&& own <= cells
            &&& high * (all * total) <= (high + 8) * ((given * rest) * u)
            &&& (high - 8) * ((given * rest) * u) <= high * (all * total)
            &&& (cells - own) * u <= all
            &&& all <= (cells - own + k) * u
            &&& k > 0 ==> all < (cells - own + k) * u
        }),
    decreases k,
{
    let u = crate::binary64::unit();
    let high = crate::binary64::HIGH as int;
    let rest = (width - reserved(values, width)) as nat;
    let first = first_lengths(values, total, width);
    let s = shares(values, total, width);
    lemma_pow2_pos(1074);
    if k == 0 {
        assert(values.take(0) =~= Seq::<u64>::empty());
        assert(first.take(0) =~= Seq::<nat>::empty());
        assert(s.take(0) =~= Seq::<nat>::empty());
        assert((0 * rest) * u == 0 && 0 * total == 0 && 0 * u == 0) by (nonlinear_arith);
    } else {
        let j = (k - 1) as nat;
        lemma_prefix_sums(values, total, width, j);
        assert(values.take(k as int).drop_last() == values.take(j as int));
        assert(first.take(k as int).drop_last() == first.take(j as int));
        assert(s.take(k as int).drop_last() == s.take(j as int));
        let v = values[j as int] as nat;
        let q = s[j as int];
        assert(values.take(k as int).last() == v);
        assert(first.take(k as int).last() == first[j as int]);
        assert(s.take(k as int).last() == q);
        crate::binary64::lemma_share_close(v, rest, total as nat);
        let w = crate::binary64::floor(q);
        lemma_fundamental_div_mod(q as int, u as int);
        let own = if reserves(values, width) {
            nonzero_count(values.take(j as int))
        } else {
            0
        };
        let own_now = if reserves(values, width) {
            nonzero_count(values.take(k as int))
        } else {
            0
        };
        let cells = sum(first.take(j as int));
        let cells_now = sum(first.take(k as int));
        let all = sum(s.take(j as int));
        let all_now = sum(s.take(k as int));
        let given = total_of(values.take(j as int));
        let given_now = total_of(values.take(k as int));
        let f = cells - own;
        assert(all_now == all + q);
        assert(given_now == given + v);
        assert(cells_now - own_now == f + w);
        assert(all_now * total == all * total + q * total) by (nonlinear_arith)
            requires
                all_now == all + q,
        ;
        assert((given_now * rest) * u == (given * rest) * u + (v * rest) * u) by (nonlinear_arith)
            requires
                given_now == given + v,
        ;
        lemma_add_bounds(
            high,
            all * total,
            q * total,
            ((given * rest) * u) as int,
            ((v * rest) * u) as int,
        );
        assert((f + w) * u == f * u + u * w) by (nonlinear_arith);
        assert((f + w + k) * u == (f + j) * u + u * w + u) by (nonlinear_arith)
            requires
                k == j + 1,
        ;
    }
}

/// Bounds on two quotients bound that of their sums.
proof fn lemma_add_bounds(high: int, a: int, b: int, x: int, y: int)
    requires
        high * a <= (high + 8) * x,
        high * b <= (high + 8) * y,
        (high - 8) * x <= high * a,
        (high - 8) * y <= high * b,
    ensures
        high * (a + b) <= (high + 8) * (x + y),
        (high - 8) * (x + y) <= high * (a + b),
{
    assert(high * (a + b) == high * a + high * b) by (nonlinear_arith);
    assert((high + 8) * (x + y) == (high + 8) * x + (high + 8) * y) by (nonlinear_arith);
    assert((high - 8) * (x + y) == (high - 8) * x + (high - 8) * y) by (nonlinear_arith);
}

/// The bar is never longer than its scaled width, which is never more than the width, and it has
/// exactly its scaled width where input and output add up to the total or more. This does not hold
/// where `u64` cannot hold the sum of input and output.
pub proof fn lemma_bar_width(usage: TokenUsage, max_total: u64, width: nat)
    requires
        usage.total_tokens > 0,
        max_total > 0,
        0 < width <= 0x1000_0000,
        usage.input_tokens + usage.output_tokens <= u64::MAX,
    ensures
        usage.bar(max_total, width).len() <= usage.scaled_width(max_total, width),
        usage.scaled_width(max_total, width) <= width,
        usage.input_tokens + usage.output_tokens >= usage.total_tokens ==> usage.bar(
            max_total,
            width,
        ).len() == usage.scaled_width(max_total, width),
{
    let c = usage.components();
    let w = usage.scaled_width(max_total, width);
    reveal_with_fuel(total_of, 5);
    assert(c.drop_last().drop_last().drop_last().drop_last() =~= Seq::<u64>::empty());
    assert(total_of(c) == usage.input_tokens + usage.output_tokens);
    lemma_lengths_fill_width(c, usage.component_total(), w);
    lemma_proportional_len(c, usage.component_total(), w);
    lemma_sum_of_four(usage.cells(max_total, width));
}

/// What is left over goes to each value once at most, and to those whose shares have the greatest
/// fractions.
pub proof fn lemma_greatest_fractions_first(
    values: Seq<u64>,
    total: u64,
    width: nat,
    i: int,
    j: int,
)
    requires
        total > 0,
        width > 0,
        0 <= i < values.len(),
        0 <= j < values.len(),
    ensures
        ({
            let first = first_lengths(values, total, width);
            let lengths = proportional(values, total, width);
            let s = shares(values, total, width);
            &&& first[i] <= lengths[i] <= first[i] + 1
            &&& lengths[i] > first[i] && lengths[j] == first[j] ==> crate::binary64::fraction(s[i])
                >= crate::binary64::fraction(s[j])
        }),
{
    let n = values.len();
    let s = shares(values, total, width);
    let first = first_lengths(values, total, width);
    let order = crate::order::order_by(n, by_fraction(s));
    let left = spare(values, total, width);
    let k = if left < n {
        left
    } else {
        n
    };
    lemma_fraction_order(s);
    assert(order.no_duplicates()) by {
        assert forall|p: int, q: int| 0 <= p < q < order.len() implies order[p] != order[q] by {
            assert(crate::order::precedes(by_fraction(s), order[p], order[q]));
        }
    }
    lemma_handed_once(first, order, k, i);
    lemma_handed_once(first, order, k, j);
    if handed_out(first, order, k)[i] > first[i] && handed_out(first, order, k)[j] == first[j] {
        let p = choose|p: int| 0 <= p < k && #[trigger] order[p] == i;
        assert(order.contains(j));
        let q = choose|q: int| 0 <= q < order.len() && order[q] == j;
        assert(crate::order::precedes(by_fraction(s), order[p], order[q]));
    }
}

proof fn lemma_handed_once(lengths: Seq<nat>, order: Seq<int>, k: nat, i: int)
    requires
        k <= order.len(),
        order.no_duplicates(),
        forall|p: int| 0 <= p < order.len() ==> 0 <= #[trigger] order[p] < lengths.len(),
        0 <= i < lengths.len(),
    ensures
        handed_out(lengths, order, k).len() == lengths.len(),
        handed_out(lengths, order, k)[i] == lengths[i] + (if exists|p: int|
            0 <= p < k && #[trigger] order[p] == i {
            1nat
        } else {
            0
        }),
    decreases k,
{
    if k > 0 {
        lemma_handed_once(lengths, order, (k - 1) as nat, i);
        if order[k - 1] == i {
            assert(forall|p: int| 0 <= p < k - 1 ==> #[trigger] order[p] != order[k - 1]);
        } else {
            let was = exists|p: int| 0 <= p < k - 1 && #[trigger] order[p] == i;
            if exists|p: int| 0 <= p < k && #[trigger] order[p] == i {
                let p = choose|p: int| 0 <= p < k && #[trigger] order[p] == i;
                assert(p < k - 1);
                assert(was);
            }
        }
    }
}

/// The parts of a bar: the input is the cached part and the rest, the output is what can be seen and
/// the reasoning. Neither part is more than the whole.
pub proof fn lemma_components(usage: TokenUsage)
    ensures
        ({
            let c = usage.components();
            &&& c.len() == 4
            &&& c[0] + c[1] == usage.input_tokens
            &&& c[2] + c[3] == usage.output_tokens
            &&& usage.cached_input_tokens <= usage.input_tokens ==> c[0]
                == usage.cached_input_tokens
            &&& usage.cached_input_tokens > usage.input_tokens ==> c[0] == usage.input_tokens
            &&& usage.reasoning_output_tokens <= usage.output_tokens ==> c[3]
                == usage.reasoning_output_tokens
            &&& usage.reasoning_output_tokens > usage.output_tokens ==> c[3] == usage.output_tokens
        }),
{
}

/// The letters of a bar: C for cached input, then I for other input, O for output that can be seen, and
/// R for reasoning, as many of each as the part has cells.
pub proof fn lemma_bar_letters(usage: TokenUsage, max_total: u64, width: nat, k: int)
    requires
        0 <= k < usage.bar(max_total, width).len(),
    ensures
        ({
            let c = usage.cells(max_total, width);
            let bar = usage.bar(max_total, width);
            &&& bar.len() == c[0] + c[1] + c[2] + c[3]
            &&& bar[k] == 'C' <==> k < c[0]
            &&& bar[k] == 'I' <==> c[0] <= k < c[0] + c[1]
            &&& bar[k] == 'O' <==> c[0] + c[1] <= k < c[0] + c[1] + c[2]
            &&& bar[k] == 'R' <==> c[0] + c[1] + c[2] <= k
        }),
{
}

proof fn lemma_nonzero_counted(values: Seq<u64>)
    ensures
        nonzero_count(values) == values.filter(|v: u64| v > 0).len(),
    decreases values.len(),
{
    reveal(Seq::filter);
    if values.len() > 0 {
        lemma_nonzero_counted(values.drop_last());
    }
}

/// Where there are as many cells as values above zero, or more, each such value has a cell of its own;
/// where there are fewer, no cell is set aside and all are divided by share.
pub proof fn lemma_room_for_each(values: Seq<u64>, total: u64, width: nat, i: int)
    requires
        0 <= i < values.len(),
        total > 0,
        width > 0,
    ensures
        values.filter(|v: u64| v > 0).len() <= width && values[i] > 0 ==> proportional(
            values,
            total,
            width,
        )[i] >= 1,
        values.filter(|v: u64| v > 0).len() > width ==> first_lengths(values, total, width)[i]
            == crate::binary64::floor(
            crate::binary64::share(values[i] as nat, width, total as nat),
        ),
{
    lemma_nonzero_counted(values);
    lemma_proportional_len(values, total, width);
    assert(first_lengths(values, total, width)[i] <= proportional(values, total, width)[i]);
}

/// The cells of a part are in proportion to its tokens: one for a part that is not empty, the whole
/// cells of its share of the others, and at most one more.
pub proof fn lemma_cells_in_proportion(usage: TokenUsage, max_total: u64, width: nat, i: int)
    requires
        0 <= i < 4,
        usage.total_tokens > 0,
        width > 0,
        usage.input_tokens + usage.output_tokens <= u64::MAX,
        usage.scaled_width(max_total, width) > 4,
        usage.component_total() * usage.scaled_width(max_total, width) < crate::binary64::HIGH,
    ensures
        ({
            let w = usage.scaled_width(max_total, width);
            let v = usage.components()[i] as nat;
            let own = nonzero_count(usage.components());
            let least = (if v > 0 {
                1nat
            } else {
                0
            }) + (v * (w - own)) as nat / usage.component_total() as nat;
            &&& own <= 4
            &&& least <= usage.cells(max_total, width)[i] <= least + 1
        }),
{
    let values = usage.components();
    let total = usage.component_total();
    let w = usage.scaled_width(max_total, width);
    lemma_components(usage);
    reveal_with_fuel(nonzero_count, 5);
    assert(nonzero_count(values) <= 4) by {
        let a = values.drop_last();
        let b = a.drop_last();
        let c = b.drop_last();
        assert(c.drop_last() =~= Seq::<u64>::empty());
    }
    assert(values[i] <= total);
    let rest = w - reserved(values, w);
    assert(total * rest < crate::binary64::HIGH) by (nonlinear_arith)
        requires
            rest <= w,
            total * w < crate::binary64::HIGH,
            total >= 0,
    ;
    lemma_first_lengths_exact(values, total, w, i);
    lemma_greatest_fractions_first(values, total, w, i, i);
}

/// The session with the greatest total has a bar of the whole width, and a session with a smaller total
/// never has a longer bar than one with a greater.
pub proof fn lemma_scaled_width(a: TokenUsage, b: TokenUsage, max_total: u64, width: nat)
    requires
        0 < width <= 0x1000_0000,
        a.total_tokens <= b.total_tokens <= max_total,
        max_total > 0,
    ensures
        a.scaled_width(max_total, width) <= b.scaled_width(max_total, width),
        b.total_tokens == max_total ==> b.scaled_width(max_total, width) == width,
        1 <= a.scaled_width(max_total, width) <= width,
{
    let u = crate::binary64::unit();
    lemma_pow2_pos(1074);
    lemma2_to64();
    let x = crate::binary64::of_int(a.total_tokens as nat);
    let y = crate::binary64::of_int(b.total_tokens as nat);
    let m = crate::binary64::of_int(max_total as nat);
    let w = crate::binary64::of_int(width);
    crate::binary64::lemma_of_int_positive(max_total as nat);
    assert(a.total_tokens * u <= b.total_tokens * u) by (nonlinear_arith)
        requires
            a.total_tokens <= b.total_tokens,
            u >= 0,
    ;
    crate::binary64::lemma_nearest_monotone(
        a.total_tokens as nat * u,
        b.total_tokens as nat * u,
        1,
    );
    assert(x * u <= y * u) by (nonlinear_arith)
        requires
            x <= y,
    ;
    crate::binary64::lemma_nearest_monotone(x * u, y * u, m);
    let p = crate::binary64::over(x, m);
    let q = crate::binary64::over(y, m);
    assert(p * w <= q * w) by (nonlinear_arith)
        requires
            p <= q,
    ;
    crate::binary64::lemma_nearest_monotone(p * w, q * w, u);
    lemma_div_is_ordered(
        (2 * crate::binary64::times(p, w) + u) as int,
        (2 * crate::binary64::times(q, w) + u) as int,
        (2 * u) as int,
    );
    if b.total_tokens == max_total {
        crate::binary64::lemma_nearest_short(1, 1074);
        crate::binary64::lemma_nearest_short(width, 1074);
        assert((y * u) * 1 == u * m) by (nonlinear_arith)
            requires
                y == m,
        ;
        crate::binary64::lemma_nearest_ratio(y * u, m, u, 1);
        assert(1 * u == u);
        assert(q == u);
        assert((q * w) * 1 == w * u) by (nonlinear_arith)
            requires
                q == u,
        ;
        crate::binary64::lemma_nearest_ratio(q * w, u, w, 1);
        assert(crate::binary64::times(q, w) == width * u);
        let n = 2 * (width * u) + u;
        assert(n == (2 * u) * width + u) by (nonlinear_arith)
            requires
                n == 2 * (width * u) + u,
        ;
        lemma_fundamental_div_mod_converse(n as int, (2 * u) as int, width as int, u as int);
    }
}

/// The parts are measured against the input and the output together, or against the total where that is
/// more.
pub proof fn lemma_component_total(usage: TokenUsage)
    requires
        usage.input_tokens + usage.output_tokens <= u64::MAX,
    ensures
        usage.component_total() >= usage.total_tokens,
        usage.component_total() >= usage.input_tokens + usage.output_tokens,
        usage.component_total() == usage.total_tokens || usage.component_total()
            == usage.input_tokens + usage.output_tokens,
{
}

/// A session with half of the greatest total has a bar of half the width, rounded up.
pub proof fn lemma_half_width(usage: TokenUsage, max_total: u64, width: nat)
    requires
        0 < width <= 0x1000_0000,
        0 < usage.total_tokens < 0x8_0000_0000_0000,
        max_total == 2 * usage.total_tokens,
    ensures
        usage.scaled_width(max_total, width) == (width + 1) / 2,
{
    let u = crate::binary64::unit();
    let h = pow2(1073);
    let t = usage.total_tokens as nat;
    lemma_pow2_pos(1073);
    lemma2_to64();
    lemma_pow2_unfold(1074);
    assert(u == 2 * h);
    crate::binary64::lemma_nearest_short(t, 1074);
    crate::binary64::lemma_nearest_short(2 * t, 1074);
    crate::binary64::lemma_nearest_short(width, 1074);
    crate::binary64::lemma_nearest_short(1, 1073);
    crate::binary64::lemma_nearest_short(width, 1073);
    let x = t * u;
    let m = (2 * t) * u;
    let w = width * u;
    assert(m > 0) by (nonlinear_arith)
        requires
            m == (2 * t) * u,
            t > 0,
            u > 0,
    ;
    assert((x * u) * 1 == h * m) by (nonlinear_arith)
        requires
            x == t * u,
            m == (2 * t) * u,
            u == 2 * h,
    ;
    crate::binary64::lemma_nearest_ratio(x * u, m, h, 1);
    assert(1 * h == h);
    let q = crate::binary64::over(x, m);
    assert(q == h);
    assert((q * w) * 1 == (width * h) * u) by (nonlinear_arith)
        requires
            q == h,
            w == width * u,
    ;
    crate::binary64::lemma_nearest_ratio(q * w, u, width * h, 1);
    let n = 2 * (width * h) + u;
    let half = (width + 1) / 2;
    let r = n - (2 * u) * half;
    assert(r == if width % 2 == 0 {
        u as int
    } else {
        0
    }) by (nonlinear_arith)
        requires
            r == n - (2 * u) * half,
            n == 2 * (width * h) + u,
            u == 2 * h,
            half == (width + 1) / 2,
            width > 0,
    ;
    lemma_fundamental_div_mod_converse(n as int, (2 * u) as int, half as int, r);
}

} // verus!

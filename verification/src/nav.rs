//! Positions on a board whose columns hold a number of cards each.

use vstd::arithmetic::div_mod::{
    lemma_add_mod_noop, lemma_add_mod_noop_right, lemma_mod_add_multiples_vanish,
    lemma_mod_bound, lemma_small_mod, lemma_sub_mod_noop_right,
};
use vstd::prelude::*;

verus! {

/// The number of cards in the first `col` columns.
pub open spec fn cards_before(counts: Seq<nat>, col: int) -> int
    decreases col,
{
    if col <= 0 {
        0
    } else {
        cards_before(counts, col - 1) + counts[col - 1]
    }
}

/// The number of cards on the board.
pub open spec fn all_cards(counts: Seq<nat>) -> int {
    cards_before(counts, counts.len() as int)
}

/// Column and row of the card that `rank` cards precede, where the count begins with
/// column `col`.
pub open spec fn place_from(counts: Seq<nat>, rank: int, col: int) -> (int, int)
    decreases counts.len() - col,
{
    if col >= counts.len() || rank < counts[col] {
        (col, rank)
    } else {
        place_from(counts, rank - counts[col], col + 1)
    }
}

/// Column and row of the card that `rank` cards precede, column by column.
pub open spec fn place_at(counts: Seq<nat>, rank: int) -> (int, int) {
    place_from(counts, rank, 0)
}

/// The number of cards that precede the card in a column and row.
pub open spec fn rank_of(counts: Seq<nat>, col: int, row: int) -> int {
    cards_before(counts, col) + row
}

/// The card that a step in a direction leads to: from a card, as many cards further,
/// around the ends of the board; from a place without a card, forward to the first card
/// that follows, backward to the last one that precedes.
pub open spec fn step_from(counts: Seq<nat>, col: int, row: int, direction: int) -> int {
    if row < counts[col] {
        (rank_of(counts, col, row) + direction) % all_cards(counts)
    } else if direction > 0 {
        if cards_before(counts, col) < all_cards(counts) {
            cards_before(counts, col)
        } else {
            0
        }
    } else {
        if cards_before(counts, col + 1) > 0 {
            cards_before(counts, col + 1) - 1
        } else {
            all_cards(counts) - 1
        }
    }
}

// ---------------------------------------------------------------------------
// Laws
// ---------------------------------------------------------------------------

/// More columns hold no fewer cards.
pub proof fn cards_before_grows(counts: Seq<nat>, a: int, b: int)
    requires
        0 <= a <= b,
    ensures
        0 <= cards_before(counts, a) <= cards_before(counts, b),
    decreases b,
{
    if a < b {
        cards_before_grows(counts, a, b - 1);
    } else if a > 0 {
        cards_before_grows(counts, a - 1, b - 1);
    }
}

proof fn place_from_is(counts: Seq<nat>, rank: int, from: int, col: int, row: int)
    requires
        0 <= from <= col < counts.len(),
        0 <= row < counts[col],
        rank == cards_before(counts, col) - cards_before(counts, from) + row,
    ensures
        place_from(counts, rank, from) == (col, row),
    decreases col - from,
{
    if from < col {
        cards_before_grows(counts, from + 1, col);
        place_from_is(counts, rank - counts[from], from + 1, col, row);
    }
}

/// The card with the rank of a place stands at that place.
pub proof fn place_of_rank(counts: Seq<nat>, col: int, row: int)
    requires
        0 <= col < counts.len(),
        0 <= row < counts[col],
    ensures
        place_at(counts, rank_of(counts, col, row)) == (col, row),
        0 <= rank_of(counts, col, row) < all_cards(counts),
{
    place_from_is(counts, rank_of(counts, col, row), 0, col, row);
    cards_before_grows(counts, 0, col);
    cards_before_grows(counts, col + 1, counts.len() as int);
}

proof fn place_from_exists(counts: Seq<nat>, rank: int, from: int)
    requires
        0 <= from <= counts.len(),
        0 <= rank < all_cards(counts) - cards_before(counts, from),
    ensures
        ({
            let (col, row) = place_from(counts, rank, from);
            &&& from <= col < counts.len()
            &&& 0 <= row < counts[col]
            &&& rank_of(counts, col, row) == rank + cards_before(counts, from)
        }),
    decreases counts.len() - from,
{
    if from < counts.len() && rank >= counts[from] {
        place_from_exists(counts, rank - counts[from], from + 1);
    }
}

/// Every rank below the number of cards belongs to a card, and the place of that card
/// has the rank.
pub proof fn rank_of_place(counts: Seq<nat>, rank: int)
    requires
        0 <= rank < all_cards(counts),
    ensures
        ({
            let (col, row) = place_at(counts, rank);
            &&& 0 <= col < counts.len()
            &&& 0 <= row < counts[col]
            &&& rank_of(counts, col, row) == rank
        }),
{
    place_from_exists(counts, rank, 0);
}

/// A step on a board with a card leads to a card.
pub proof fn step_leads_to_a_card(counts: Seq<nat>, col: int, row: int, direction: int)
    requires
        0 <= col < counts.len(),
        0 <= row,
        all_cards(counts) > 0,
    ensures
        0 <= step_from(counts, col, row, direction) < all_cards(counts),
{
    cards_before_grows(counts, 0, col);
    cards_before_grows(counts, col, counts.len() as int);
    cards_before_grows(counts, col + 1, counts.len() as int);
    lemma_mod_bound(rank_of(counts, col, row) + direction, all_cards(counts));
}

/// A step forward and a step backward by as much lead back to the card they began with.
pub proof fn steps_undo_each_other(counts: Seq<nat>, col: int, row: int, direction: int)
    requires
        0 <= col < counts.len(),
        0 <= row < counts[col],
    ensures
        ({
            let (c, r) = place_at(counts, step_from(counts, col, row, direction));
            place_at(counts, step_from(counts, c, r, -direction)) == (col, row)
        }),
{
    let n = all_cards(counts);
    let k = rank_of(counts, col, row);
    place_of_rank(counts, col, row);
    let m = (k + direction) % n;
    lemma_mod_bound(k + direction, n);
    rank_of_place(counts, m);
    let (c, r) = place_at(counts, m);
    assert((m + (-direction)) % n == k) by {
        lemma_add_mod_noop(k + direction, -direction, n);
        lemma_add_mod_noop(m, -direction, n);
        lemma_small_mod(m as nat, n as nat);
        lemma_small_mod(k as nat, n as nat);
    }
}

/// `steps` single steps forward from a card lead to the card as many ranks further,
/// around the end of the board. As many steps as there are cards lead back.
pub proof fn cycle_visits_every_card(counts: Seq<nat>, col: int, row: int, steps: nat)
    requires
        0 <= col < counts.len(),
        0 <= row < counts[col],
    ensures
        steps_forward(counts, col, row, steps) == place_at(
            counts,
            (rank_of(counts, col, row) + steps) % all_cards(counts),
        ),
        steps == all_cards(counts) ==> steps_forward(counts, col, row, steps) == (col, row),
    decreases steps,
{
    let n = all_cards(counts);
    let k = rank_of(counts, col, row);
    place_of_rank(counts, col, row);
    lemma_small_mod(k as nat, n as nat);
    if steps > 0 {
        let before = (steps - 1) as nat;
        cycle_visits_every_card(counts, col, row, before);
        let m = (k + before) % n;
        lemma_mod_bound(k + before, n);
        rank_of_place(counts, m);
        assert((m + 1) % n == (k + steps) % n) by {
            lemma_add_mod_noop(k + before, 1, n);
            lemma_add_mod_noop(m, 1, n);
            lemma_small_mod(m as nat, n as nat);
        }
    }
    if steps == n {
        lemma_mod_add_multiples_vanish(k, n);
    }
}

/// Where `steps` single steps forward lead to.
pub open spec fn steps_forward(counts: Seq<nat>, col: int, row: int, steps: nat) -> (int, int)
    decreases steps,
{
    if steps == 0 {
        (col, row)
    } else {
        let (c, r) = steps_forward(counts, col, row, (steps - 1) as nat);
        place_at(counts, step_from(counts, c, r, 1))
    }
}

// ---------------------------------------------------------------------------
// Operations
// ---------------------------------------------------------------------------

/// The models of the numbers of cards in the columns.
pub open spec fn count_views(counts: Seq<usize>) -> Seq<nat> {
    counts.map_values(|n: usize| n as nat)
}

fn count_before(counts: &Vec<usize>, col: usize) -> (r: usize)
    requires
        col <= counts.len(),
        all_cards(count_views(counts@)) <= usize::MAX,
    ensures
        r == cards_before(count_views(counts@), col as int),
{
    let ghost cs = count_views(counts@);
    let mut sum: usize = 0;
    let mut k: usize = 0;
    while k < col
        invariant
            k <= col <= counts.len(),
            cs == count_views(counts@),
            all_cards(cs) <= usize::MAX,
            sum == cards_before(cs, k as int),
        decreases col - k,
    {
        proof {
            cards_before_grows(cs, k + 1, cs.len() as int);
            assert(cs[k as int] == counts@[k as int]);
        }
        sum = sum + counts[k];
        k = k + 1;
    }
    sum
}

fn wrapped(rank: usize, direction: i32, total: usize) -> (r: usize)
    requires
        rank < total,
    ensures
        r == (rank + direction) % (total as int),
{
    let n: u128 = total as u128;
    if direction >= 0 {
        let d: u128 = direction as u128 % n;
        proof {
            lemma_add_mod_noop_right(rank as int, direction as int, total as int);
            lemma_mod_bound(rank + direction, total as int);
        }
        ((rank as u128 + d) % n) as usize
    } else {
        let back: i64 = -(direction as i64);
        let b: u128 = back as u128 % n;
        proof {
            lemma_sub_mod_noop_right(rank as int, back as int, total as int);
            lemma_mod_add_multiples_vanish(rank - b, total as int);
            lemma_mod_bound(rank + direction, total as int);
        }
        ((rank as u128 + (n - b)) % n) as usize
    }
}

/// The rank of the card that a step leads to.
pub fn step(counts: &Vec<usize>, col: usize, row: usize, direction: i32) -> (r: usize)
    requires
        col < counts.len(),
        0 < all_cards(count_views(counts@)) <= usize::MAX,
    ensures
        r == step_from(count_views(counts@), col as int, row as int, direction as int),
        r < all_cards(count_views(counts@)),
{
    let ghost cs = count_views(counts@);
    proof {
        step_leads_to_a_card(cs, col as int, row as int, direction as int);
        assert(cs[col as int] == counts@[col as int]);
    }
    let total: usize = count_before(counts, counts.len());
    let before: usize = count_before(counts, col);
    if row < counts[col] {
        proof {
            place_of_rank(cs, col as int, row as int);
        }
        wrapped(before + row, direction, total)
    } else if direction > 0 {
        if before < total {
            before
        } else {
            0
        }
    } else {
        let through: usize = count_before(counts, col + 1);
        if through > 0 {
            through - 1
        } else {
            total - 1
        }
    }
}

/// Column and row of the card with a rank.
pub fn find_place(counts: &Vec<usize>, rank: usize) -> (r: (usize, usize))
    requires
        rank < all_cards(count_views(counts@)),
    ensures
        (r.0 as int, r.1 as int) == place_at(count_views(counts@), rank as int),
        r.0 < counts.len(),
        r.1 < counts@[r.0 as int],
{
    let ghost cs = count_views(counts@);
    let mut col: usize = 0;
    let mut left: usize = rank;
    proof {
        rank_of_place(cs, rank as int);
    }
    while col < counts.len() && left >= counts[col]
        invariant
            col <= counts.len(),
            cs == count_views(counts@),
            place_at(cs, rank as int) == place_from(cs, left as int, col as int),
        decreases counts.len() - col,
    {
        assert(cs[col as int] == counts@[col as int]);
        left = left - counts[col];
        col = col + 1;
    }
    proof {
        if col < counts.len() {
            assert(cs[col as int] == counts@[col as int]);
        }
        assert(place_at(cs, rank as int) == (col as int, left as int));
    }
    (col, left)
}

/// From a column without cards, a step forward leads to the first card of the next column
/// that has any, and a step backward to the last card of the nearest one before it.
pub proof fn steps_leave_an_empty_column(counts: Seq<nat>, col: int, row: int, other: int)
    requires
        0 <= col < counts.len(),
        0 <= row,
        counts[col] == 0,
        0 <= other < counts.len(),
        counts[other] > 0,
        forall|c: int| col < c < other || other < c < col ==> #[trigger] counts[c] == 0,
    ensures
        other > col ==> place_at(counts, step_from(counts, col, row, 1)) == (other, 0int),
        other < col ==> place_at(counts, step_from(counts, col, row, -1)) == (
            other,
            counts[other] - 1,
        ),
{
    place_of_rank(counts, other, 0);
    place_of_rank(counts, other, counts[other] - 1);
    if other > col {
        empty_columns_add_nothing(counts, col, other);
    } else {
        empty_columns_add_nothing(counts, other + 1, col + 1);
    }
}

proof fn empty_columns_add_nothing(counts: Seq<nat>, from: int, to: int)
    requires
        0 <= from <= to <= counts.len(),
        forall|c: int| from <= c < to ==> #[trigger] counts[c] == 0,
    ensures
        cards_before(counts, from) == cards_before(counts, to),
    decreases to - from,
{
    if from < to {
        empty_columns_add_nothing(counts, from, to - 1);
    }
}

} // verus!

//! Similarity of two melodies: the score of their best local alignment.

use vstd::prelude::*;
use crate::settings::TuneSettings;
use crate::transcription::{Token, Transcription};

verus! {

/// Longest query that can be scored: with it no score leaves the range of
/// `u64`, whatever the weights.
pub const MAX_QUERY_TOKENS: usize = 0x7fff_ffff;

/// The distance between two integers.
pub open spec fn distance(a: int, b: int) -> int {
    if a >= b {
        a - b
    } else {
        b - a
    }
}

/// The larger of two integers.
pub open spec fn larger(a: int, b: int) -> int {
    if a >= b {
        a
    } else {
        b
    }
}

/// What it costs to align token `a` with token `b`: nothing where they are
/// equal, more the further their pitches and durations lie apart, and a flat
/// amount where one is a note and the other a rest.
pub open spec fn pair_cost(a: Token, b: Token, w: TuneSettings) -> int {
    match (a, b) {
        (Token::Note { pitch: pa, duration: da }, Token::Note { pitch: pb, duration: db }) => {
            w.pitch_penalty * distance(pa as int, pb as int) + w.duration_penalty * distance(
                da as int,
                db as int,
            )
        },
        (Token::Rest { duration: da }, Token::Rest { duration: db }) => {
            w.duration_penalty * distance(da as int, db as int)
        },
        _ => w.mismatch_penalty as int,
    }
}

/// The score of a cell from its three neighbours: extend the diagonal by one
/// aligned pair, skip a token on either side, or start afresh at zero.
pub open spec fn step(diag: int, up: int, left: int, cost: int, w: TuneSettings) -> int {
    larger(
        0,
        larger(diag + w.match_reward - cost, larger(up - w.gap_penalty, left - w.gap_penalty)),
    )
}

/// The best score of a local alignment that ends with the `i`-th token of
/// `q` and the `j`-th token of `t` (both counted from one).
pub open spec fn cell(q: Seq<Token>, t: Seq<Token>, w: TuneSettings, i: nat, j: nat) -> int
    decreases i + j,
{
    if i == 0 || j == 0 {
        0
    } else {
        step(
            cell(q, t, w, (i - 1) as nat, (j - 1) as nat),
            cell(q, t, w, (i - 1) as nat, j),
            cell(q, t, w, i, (j - 1) as nat),
            pair_cost(q[i - 1], t[j - 1], w),
            w,
        )
    }
}

/// The largest of `cell(.., i', j)` over `i' <= i`.
pub open spec fn column_best(q: Seq<Token>, t: Seq<Token>, w: TuneSettings, i: nat, j: nat) -> int
    decreases i,
{
    if i == 0 {
        0
    } else {
        larger(column_best(q, t, w, (i - 1) as nat, j), cell(q, t, w, i, j))
    }
}

/// The largest of `cell(.., i, j')` over `i <= q.len()` and `j' <= j`.
pub open spec fn table_best(q: Seq<Token>, t: Seq<Token>, w: TuneSettings, j: nat) -> int
    decreases j,
{
    if j == 0 {
        0
    } else {
        larger(table_best(q, t, w, (j - 1) as nat), column_best(q, t, w, q.len(), j))
    }
}

/// The similarity of `q` and `t`: the best score of any local alignment of
/// the two.
pub open spec fn alignment_score(q: Seq<Token>, t: Seq<Token>, w: TuneSettings) -> int {
    table_best(q, t, w, t.len())
}

/// No cell is negative, and none exceeds the reward of aligning every token
/// of the shorter prefix.
pub proof fn lemma_cell_bounds(q: Seq<Token>, t: Seq<Token>, w: TuneSettings, i: nat, j: nat)
    ensures
        0 <= cell(q, t, w, i, j),
        cell(q, t, w, i, j) <= w.match_reward * i,
        cell(q, t, w, i, j) <= w.match_reward * j,
    decreases i + j,
{
    if i > 0 && j > 0 {
        let i1 = (i - 1) as nat;
        let j1 = (j - 1) as nat;
        lemma_cell_bounds(q, t, w, i1, j1);
        lemma_cell_bounds(q, t, w, i1, j);
        lemma_cell_bounds(q, t, w, i, j1);
        assert(w.match_reward * i1 + w.match_reward == w.match_reward * i) by (nonlinear_arith)
            requires
                i1 + 1 == i,
        ;
        assert(w.match_reward * j1 + w.match_reward == w.match_reward * j) by (nonlinear_arith)
            requires
                j1 + 1 == j,
        ;
    }
}

/// Aligning two tokens never costs less than nothing.
pub proof fn lemma_pair_cost_nonnegative(a: Token, b: Token, w: TuneSettings)
    ensures
        pair_cost(a, b, w) >= 0,
{
}

/// Aligning a token with itself costs nothing.
pub proof fn lemma_pair_cost_same(a: Token, w: TuneSettings)
    ensures
        pair_cost(a, a, w) == 0,
{
}

/// `column_best` lies between zero and the reward of `i` aligned tokens,
/// and no cell of the column up to `i` exceeds it.
pub proof fn lemma_column_best(q: Seq<Token>, t: Seq<Token>, w: TuneSettings, i: nat, j: nat)
    ensures
        0 <= column_best(q, t, w, i, j) <= w.match_reward * i,
        forall|x: nat| x <= i ==> cell(q, t, w, x, j) <= column_best(q, t, w, i, j),
    decreases i,
{
    if i > 0 {
        let i1 = (i - 1) as nat;
        lemma_column_best(q, t, w, i1, j);
        lemma_cell_bounds(q, t, w, i, j);
        assert(w.match_reward * i1 <= w.match_reward * i) by (nonlinear_arith)
            requires
                i1 <= i,
                w.match_reward >= 0,
        ;
    }
}

/// `table_best` lies between zero and the reward of aligning all of `q`, and
/// no cell of the columns up to `j` exceeds it.
pub proof fn lemma_table_best(q: Seq<Token>, t: Seq<Token>, w: TuneSettings, j: nat)
    ensures
        0 <= table_best(q, t, w, j) <= w.match_reward * q.len(),
        forall|x: nat, y: nat|
            x <= q.len() && y <= j ==> cell(q, t, w, x, y) <= table_best(q, t, w, j),
    decreases j,
{
    if j > 0 {
        lemma_table_best(q, t, w, (j - 1) as nat);
        lemma_column_best(q, t, w, q.len(), j);
    }
}

/// Whether some cell with `i <= q.len()` and `j <= bound` holds `value`.
pub open spec fn is_cell_value(
    q: Seq<Token>,
    t: Seq<Token>,
    w: TuneSettings,
    bound: nat,
    value: int,
) -> bool {
    exists|i: nat, j: nat| i <= q.len() && j <= bound && #[trigger] cell(q, t, w, i, j) == value
}

/// `column_best` is the value of a cell of its column.
pub proof fn lemma_column_best_attained(
    q: Seq<Token>,
    t: Seq<Token>,
    w: TuneSettings,
    i: nat,
    j: nat,
) -> (x: nat)
    ensures
        x <= i,
        cell(q, t, w, x, j) == column_best(q, t, w, i, j),
    decreases i,
{
    if i == 0 {
        0
    } else if column_best(q, t, w, i, j) == cell(q, t, w, i, j) {
        i
    } else {
        lemma_column_best_attained(q, t, w, (i - 1) as nat, j)
    }
}

/// `table_best` is the value of a cell of the table.
pub proof fn lemma_table_best_attained(q: Seq<Token>, t: Seq<Token>, w: TuneSettings, j: nat)
    ensures
        is_cell_value(q, t, w, j, table_best(q, t, w, j)),
    decreases j,
{
    if j == 0 {
        assert(cell(q, t, w, 0, 0) == 0);
    } else if table_best(q, t, w, j) == column_best(q, t, w, q.len(), j) {
        let x = lemma_column_best_attained(q, t, w, q.len(), j);
        assert(cell(q, t, w, x, j) == table_best(q, t, w, j));
    } else {
        lemma_table_best_attained(q, t, w, (j - 1) as nat);
        let (x, y) = choose|x: nat, y: nat|
            x <= q.len() && y <= (j - 1) as nat && #[trigger] cell(q, t, w, x, y) == table_best(
                q,
                t,
                w,
                (j - 1) as nat,
            );
        assert(cell(q, t, w, x, y) == table_best(q, t, w, j));
    }
}

/// The similarity is the largest value of any cell: the best score of a
/// local alignment, wherever in the two melodies it ends.
pub proof fn lemma_score_is_largest_cell(q: Seq<Token>, t: Seq<Token>, w: TuneSettings)
    ensures
        is_cell_value(q, t, w, t.len(), alignment_score(q, t, w)),
        forall|i: nat, j: nat|
            i <= q.len() && j <= t.len() ==> cell(q, t, w, i, j) <= alignment_score(q, t, w),
{
    lemma_table_best(q, t, w, t.len());
    lemma_table_best_attained(q, t, w, t.len());
}

/// A similarity is never negative, and never more than the reward of
/// aligning every token of the query.
pub proof fn lemma_score_bounds(q: Seq<Token>, t: Seq<Token>, w: TuneSettings)
    ensures
        0 <= alignment_score(q, t, w) <= w.match_reward * q.len(),
{
    lemma_table_best(q, t, w, t.len());
}

/// Along the diagonal of a melody aligned with itself every token earns the
/// full reward.
pub proof fn lemma_diagonal(q: Seq<Token>, w: TuneSettings, i: nat)
    requires
        i <= q.len(),
    ensures
        cell(q, q, w, i, i) == w.match_reward * i,
    decreases i,
{
    lemma_cell_bounds(q, q, w, i, i);
    if i > 0 {
        let i1 = (i - 1) as nat;
        lemma_diagonal(q, w, i1);
        assert(w.match_reward * i1 + w.match_reward == w.match_reward * i) by (nonlinear_arith)
            requires
                i1 + 1 == i,
        ;
    } else {
        assert(w.match_reward * 0 == 0);
    }
}

/// A melody is as similar to itself as a query can be to anything: the
/// score is the reward of aligning every token.
pub proof fn lemma_self_score(q: Seq<Token>, w: TuneSettings)
    ensures
        alignment_score(q, q, w) == w.match_reward * q.len(),
{
    lemma_table_best(q, q, w, q.len());
    lemma_diagonal(q, w, q.len());
}

/// Computes `pair_cost`.
fn token_cost(a: Token, b: Token, w: &TuneSettings) -> (c: u128)
    ensures
        c == pair_cost(a, b, *w),
{
    match (a, b) {
        (Token::Note { pitch: pa, duration: da }, Token::Note { pitch: pb, duration: db }) => {
            let dp: u8 = if pa >= pb {
                pa - pb
            } else {
                pb - pa
            };
            let dd: u64 = if da >= db {
                da - db
            } else {
                db - da
            };
            assert(0 <= w.pitch_penalty * dp <= 0xffff_ffff * 0xff) by (nonlinear_arith)
                requires
                    0 <= w.pitch_penalty <= 0xffff_ffff,
                    0 <= dp <= 0xff,
            ;
            assert(0 <= w.duration_penalty * dd <= 0xffff_ffff * 0xffff_ffff_ffff_ffff)
                by (nonlinear_arith)
                requires
                    0 <= w.duration_penalty <= 0xffff_ffff,
                    0 <= dd <= 0xffff_ffff_ffff_ffff,
            ;
            (w.pitch_penalty as u128) * (dp as u128) + (w.duration_penalty as u128) * (dd as u128)
        },
        (Token::Rest { duration: da }, Token::Rest { duration: db }) => {
            let dd: u64 = if da >= db {
                da - db
            } else {
                db - da
            };
            assert(0 <= w.duration_penalty * dd <= 0xffff_ffff * 0xffff_ffff_ffff_ffff)
                by (nonlinear_arith)
                requires
                    0 <= w.duration_penalty <= 0xffff_ffff,
                    0 <= dd <= 0xffff_ffff_ffff_ffff,
            ;
            (w.duration_penalty as u128) * (dd as u128)
        },
        _ => w.mismatch_penalty as u128,
    }
}

/// Computes `step` for a cell whose diagonal neighbour is the cell
/// `(i, j)` of some table, with `i` within the longest query.
fn next_cell(diag: u64, up: u64, left: u64, cost: u128, w: &TuneSettings, Ghost(i): Ghost<nat>) -> (value: u64)
    requires
        i < MAX_QUERY_TOKENS,
        diag <= w.match_reward * i,
        up <= w.match_reward * i,
        left <= w.match_reward * (i + 1),
    ensures
        value == step(diag as int, up as int, left as int, cost as int, *w),
{
    assert(w.match_reward * i + w.match_reward <= 0xffff_ffff * 0x7fff_ffff) by (nonlinear_arith)
        requires
            0 <= w.match_reward <= 0xffff_ffff,
            0 <= i < 0x7fff_ffff,
    ;
    let gain: u128 = diag as u128 + w.match_reward as u128;
    let along: u64 = if gain > cost {
        (gain - cost) as u64
    } else {
        0
    };
    let skip_up: u64 = if up > w.gap_penalty as u64 {
        up - w.gap_penalty as u64
    } else {
        0
    };
    let skip_left: u64 = if left > w.gap_penalty as u64 {
        left - w.gap_penalty as u64
    } else {
        0
    };
    let skip: u64 = if skip_up >= skip_left {
        skip_up
    } else {
        skip_left
    };
    if along >= skip {
        along
    } else {
        skip
    }
}

/// The similarity of a query and a tune: the best score of any local
/// alignment of the two, under the weights of `settings`.
pub fn similarity(query: &Transcription, tune: &Transcription, settings: &TuneSettings) -> (score:
    u64)
    requires
        query@.len() <= MAX_QUERY_TOKENS,
    ensures
        score == alignment_score(query@, tune@, *settings),
{
    let n: usize = query.tokens.len();
    let m: usize = tune.tokens.len();
    let ghost q = query@;
    let ghost t = tune@;
    let ghost w = *settings;
    let mut row: Vec<u64> = Vec::new();
    let mut k: usize = 0;
    while k <= n
        invariant
            n <= MAX_QUERY_TOKENS,
            k <= n + 1,
            row.len() == k,
            forall|x: int| 0 <= x < k ==> row[x] == 0,
        decreases n + 1 - k,
    {
        row.push(0);
        k += 1;
    }
    let mut best: u64 = 0;
    let mut j: usize = 0;
    while j < m
        invariant
            n == q.len(),
            m == t.len(),
            q == query@,
            t == tune@,
            w == *settings,
            n <= MAX_QUERY_TOKENS,
            j <= m,
            row.len() == n + 1,
            forall|x: int| 0 <= x <= n ==> row[x] == cell(q, t, w, x as nat, j as nat),
            best == table_best(q, t, w, j as nat),
        decreases m - j,
    {
        let mut diag: u64 = row[0];
        let mut i: usize = 0;
        while i < n
            invariant
                n == q.len(),
                m == t.len(),
                q == query@,
                t == tune@,
                w == *settings,
                n <= MAX_QUERY_TOKENS,
                j < m,
                i <= n,
                row.len() == n + 1,
                forall|x: int| 0 <= x <= i ==> row[x] == cell(q, t, w, x as nat, (j + 1) as nat),
                forall|x: int| i < x <= n ==> row[x] == cell(q, t, w, x as nat, j as nat),
                diag == cell(q, t, w, i as nat, j as nat),
                best == larger(
                    table_best(q, t, w, j as nat),
                    column_best(q, t, w, i as nat, (j + 1) as nat),
                ),
            decreases n - i,
        {
            let up: u64 = row[i];
            let left: u64 = row[i + 1];
            let cost: u128 = token_cost(query.tokens[i], tune.tokens[j], settings);
            proof {
                lemma_cell_bounds(q, t, w, i as nat, j as nat);
                lemma_cell_bounds(q, t, w, i as nat, (j + 1) as nat);
                lemma_cell_bounds(q, t, w, (i + 1) as nat, j as nat);
            }
            let value: u64 = next_cell(diag, up, left, cost, settings, Ghost(i as nat));
            diag = left;
            row.set(i + 1, value);
            if value > best {
                best = value;
            }
            i += 1;
        }
        j += 1;
    }
    best
}

} // verus!

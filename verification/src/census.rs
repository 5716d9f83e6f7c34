//! Counting over the whole grid: how many cells are alive, and how many
//! live neighbours the cells count together.

use crate::model::{lemma_wrap, wrap, UniverseModel};
use vstd::prelude::*;

verus! {

/// The sum of the numbers of `s`.
pub open spec fn total(s: Seq<nat>) -> nat
    decreases s.len(),
{
    if s.len() == 0 {
        0
    } else {
        total(s.drop_last()) + s.last()
    }
}

/// The cells of the universe as numbers: 1 for a live cell, 0 for a dead
/// one.
pub open spec fn cell_numbers(u: UniverseModel) -> Seq<nat> {
    Seq::new(u.cells.len(), |i: int| u.cells[i] as nat)
}

/// For each cell of the universe, in the order of `cells`, how many live
/// neighbours it counts.
pub open spec fn count_numbers(u: UniverseModel) -> Seq<nat> {
    Seq::new(
        u.cells.len(),
        |i: int| u.live_neighbors((i / u.width as int) as nat, (i % u.width as int) as nat),
    )
}

/// How many cells of the universe are alive: the sum of its cells.
pub open spec fn live_cells(u: UniverseModel) -> nat {
    total(cell_numbers(u))
}

/// How many live neighbours the cells of the universe count together: the
/// sum, over all cells, of the live neighbours of each.
pub open spec fn neighbors_counted(u: UniverseModel) -> nat {
    total(count_numbers(u))
}

/// The sum of two sequences one after the other is the sum of their sums.
pub proof fn lemma_total_concat(a: Seq<nat>, b: Seq<nat>)
    ensures
        total(a + b) == total(a) + total(b),
    decreases b.len(),
{
    if b.len() == 0 {
        assert(a + b =~= a);
    } else {
        assert((a + b).drop_last() =~= a + b.drop_last());
        lemma_total_concat(a, b.drop_last());
    }
}

/// Turning a sequence round its ring by one place, either way, keeps its
/// sum.
pub proof fn lemma_total_rotate(s: Seq<nat>, t: Seq<nat>, d: int)
    requires
        s.len() == t.len(),
        s.len() > 0,
        -1 <= d <= 1,
        forall|i: int| 0 <= i < s.len() ==> #[trigger] t[i] == s[wrap(i + d, s.len()) as int],
    ensures
        total(t) == total(s),
{
    let n = s.len() as int;
    if d == 0 {
        assert forall|i: int| 0 <= i < n implies t[i] == s[i] by {
            lemma_wrap(i + d, s.len());
            assert(t[i] == s[wrap(i + d, s.len()) as int]);
        }
        assert(t =~= s);
    } else if d == 1 {
        let rest = s.subrange(1, n);
        assert forall|i: int| 0 <= i < n implies t[i] == (rest + seq![s[0]])[i] by {
            lemma_wrap(i + d, s.len());
            assert(t[i] == s[wrap(i + d, s.len()) as int]);
        }
        assert(t =~= rest + seq![s[0]]);
        assert(s =~= seq![s[0]] + rest);
        lemma_total_concat(rest, seq![s[0]]);
        lemma_total_concat(seq![s[0]], rest);
    } else {
        let rest = s.subrange(0, n - 1);
        assert forall|i: int| 0 <= i < n implies t[i] == (seq![s[n - 1]] + rest)[i] by {
            lemma_wrap(i + d, s.len());
            assert(t[i] == s[wrap(i + d, s.len()) as int]);
        }
        assert(t =~= seq![s[n - 1]] + rest);
        assert(s =~= rest + seq![s[n - 1]]);
        lemma_total_concat(rest, seq![s[n - 1]]);
        lemma_total_concat(seq![s[n - 1]], rest);
    }
}

/// Where each number of `c` is the sum of the numbers of eight sequences
/// at its place, the sum of `c` is the sum of the eight sums.
pub proof fn lemma_total_of_sums(
    a0: Seq<nat>,
    a1: Seq<nat>,
    a2: Seq<nat>,
    a3: Seq<nat>,
    a4: Seq<nat>,
    a5: Seq<nat>,
    a6: Seq<nat>,
    a7: Seq<nat>,
    c: Seq<nat>,
)
    requires
        a0.len() == c.len(),
        a1.len() == c.len(),
        a2.len() == c.len(),
        a3.len() == c.len(),
        a4.len() == c.len(),
        a5.len() == c.len(),
        a6.len() == c.len(),
        a7.len() == c.len(),
        forall|i: int|
            0 <= i < c.len() ==> #[trigger] c[i] == a0[i] + a1[i] + a2[i] + a3[i] + a4[i] + a5[i]
                + a6[i] + a7[i],
    ensures
        total(c) == total(a0) + total(a1) + total(a2) + total(a3) + total(a4) + total(a5) + total(
            a6,
        ) + total(a7),
    decreases c.len(),
{
    if c.len() > 0 {
        lemma_total_of_sums(
            a0.drop_last(),
            a1.drop_last(),
            a2.drop_last(),
            a3.drop_last(),
            a4.drop_last(),
            a5.drop_last(),
            a6.drop_last(),
            a7.drop_last(),
            c.drop_last(),
        );
    }
}

/// The cells that the cells of row `row` see at the offset (`dr`, `dc`) on
/// the torus. At the offset (0, 0) these are the cells of the row.
spec fn row_at_offset(u: UniverseModel, row: nat, dr: int, dc: int) -> Seq<nat> {
    Seq::new(u.width, |c: int| u.torus(row + dr, c + dc) as nat)
}

/// For each row, how many live cells its cells see at the offset (`dr`,
/// `dc`). At the offset (0, 0) this is the number of live cells of the row.
spec fn rows_at_offset(u: UniverseModel, dr: int, dc: int) -> Seq<nat> {
    Seq::new(u.height, |r: int| total(row_at_offset(u, r as nat, dr, dc)))
}

/// For each cell of row `row`, how many live neighbours it counts.
spec fn neighbor_counts(u: UniverseModel, row: nat) -> Seq<nat> {
    Seq::new(u.width, |c: int| u.live_neighbors(row, c as nat))
}

/// Looking from every cell at one offset, one sees every cell once: as
/// many live cells as there are.
proof fn lemma_offset_sees_every_cell(u: UniverseModel, dr: int, dc: int)
    requires
        u.width > 0,
        u.height > 0,
        -1 <= dr <= 1,
        -1 <= dc <= 1,
    ensures
        total(rows_at_offset(u, dr, dc)) == total(rows_at_offset(u, 0, 0)),
{
    let plain = rows_at_offset(u, 0, 0);
    let moved = rows_at_offset(u, dr, dc);
    assert forall|r: int| 0 <= r < u.height implies #[trigger] moved[r] == plain[wrap(
        r + dr,
        u.height,
    ) as int] by {
        lemma_wrap(r + dr, u.height);
        let from = wrap(r + dr, u.height);
        lemma_wrap(from as int, u.height);
        let s = row_at_offset(u, from, 0, 0);
        let t = row_at_offset(u, r as nat, dr, dc);
        assert forall|c: int| 0 <= c < u.width implies #[trigger] t[c] == s[wrap(
            c + dc,
            u.width,
        ) as int] by {
            lemma_wrap(c + dc, u.width);
            lemma_wrap(wrap(c + dc, u.width) as int, u.width);
        }
        lemma_total_rotate(s, t, dc);
    }
    lemma_total_rotate(plain, moved, dr);
}

/// A sequence of `h` rows of `w` numbers each sums up row by row.
pub proof fn lemma_total_by_rows(s: Seq<nat>, w: nat, h: nat)
    requires
        s.len() == h * w,
    ensures
        total(s) == total(Seq::new(h, |r: int| total(s.subrange(r * w, r * w + w)))),
    decreases h,
{
    let rows = Seq::new(h, |r: int| total(s.subrange(r * w, r * w + w)));
    if h == 0 {
        assert(h * w == 0) by (nonlinear_arith)
            requires
                h == 0,
        ;
    } else {
        let k = (h - 1) as nat;
        assert(k * w + w == h * w) by (nonlinear_arith)
            requires
                k + 1 == h,
        ;
        let cut = (k * w) as int;
        let head = s.subrange(0, cut);
        let last = s.subrange(cut, cut + w);
        assert(s =~= head + last);
        lemma_total_concat(head, last);
        lemma_total_by_rows(head, w, k);
        let head_rows = Seq::new(k, |r: int| total(head.subrange(r * w, r * w + w)));
        assert forall|r: int| 0 <= r < k implies #[trigger] head_rows[r] == rows[r] by {
            assert(r * w + w <= k * w) by (nonlinear_arith)
                requires
                    0 <= r < k,
            ;
            assert(0 <= r * w) by (nonlinear_arith)
                requires
                    0 <= r,
            ;
            assert(head.subrange(r * w, r * w + w) =~= s.subrange(r * w, r * w + w));
        }
        assert(rows.drop_last() =~= head_rows);
        assert(rows.last() == total(last));
    }
}

/// The cells of a row, and what they count, lie in one stretch of the
/// cells of the universe.
proof fn lemma_row_is_a_stretch(u: UniverseModel, r: int)
    requires
        u.wf(),
        0 <= r < u.height,
    ensures
        cell_numbers(u).subrange(r * u.width, r * u.width + u.width) == row_at_offset(
            u,
            r as nat,
            0,
            0,
        ),
        count_numbers(u).subrange(r * u.width, r * u.width + u.width) == neighbor_counts(
            u,
            r as nat,
        ),
{
    let w = u.width;
    let row = r as nat;
    lemma_wrap(r, u.height);
    assert forall|c: int| 0 <= c < w implies 0 <= r * w + c < u.cells.len() && (r * w + c)
        / w as int == r && (r * w + c) % w as int == c && #[trigger] wrap(c, w) == c by {
        u.lemma_index(row, c as nat);
        lemma_wrap(c, w);
    }
    u.lemma_index(row, 0);
    u.lemma_index(row, (w - 1) as nat);
    assert(cell_numbers(u).subrange(r * w, r * w + w) =~= row_at_offset(u, row, 0, 0));
    assert(count_numbers(u).subrange(r * w, r * w + w) =~= neighbor_counts(u, row));
}

/// Both counts can be taken row by row.
proof fn lemma_counted_by_rows(u: UniverseModel)
    requires
        u.wf(),
    ensures
        live_cells(u) == total(rows_at_offset(u, 0, 0)),
        neighbors_counted(u) == total(
            Seq::new(u.height, |r: int| total(neighbor_counts(u, r as nat))),
        ),
{
    let w = u.width;
    let h = u.height;
    assert(h * w == w * h) by (nonlinear_arith);
    let cells = cell_numbers(u);
    let counts = count_numbers(u);
    lemma_total_by_rows(cells, w, h);
    lemma_total_by_rows(counts, w, h);
    let cell_rows = Seq::new(h, |r: int| total(cells.subrange(r * w, r * w + w)));
    let count_rows = Seq::new(h, |r: int| total(counts.subrange(r * w, r * w + w)));
    let by_rows = Seq::new(u.height, |r: int| total(neighbor_counts(u, r as nat)));
    assert forall|r: int| 0 <= r < h implies #[trigger] cell_rows[r] == rows_at_offset(u, 0, 0)[r] by {
        lemma_row_is_a_stretch(u, r);
    }
    assert forall|r: int| 0 <= r < h implies #[trigger] count_rows[r] == by_rows[r] by {
        lemma_row_is_a_stretch(u, r);
    }
    assert(cell_rows =~= rows_at_offset(u, 0, 0));
    assert(count_rows =~= by_rows);
}

/// Every cell is a neighbour of eight cells, so the live neighbours that
/// the cells count together are eight times the live cells.
pub proof fn neighbors_counted_is_eightfold(u: UniverseModel)
    requires
        u.wf(),
    ensures
        neighbors_counted(u) == 8 * live_cells(u),
{
    lemma_counted_by_rows(u);
    let counts = Seq::new(u.height, |r: int| total(neighbor_counts(u, r as nat)));
    assert forall|r: int| 0 <= r < u.height implies #[trigger] counts[r] == rows_at_offset(
        u,
        -1,
        -1,
    )[r] + rows_at_offset(u, -1, 0)[r] + rows_at_offset(u, -1, 1)[r] + rows_at_offset(u, 0, -1)[r]
        + rows_at_offset(u, 0, 1)[r] + rows_at_offset(u, 1, -1)[r] + rows_at_offset(u, 1, 0)[r]
        + rows_at_offset(u, 1, 1)[r] by {
        let row = r as nat;
        lemma_total_of_sums(
            row_at_offset(u, row, -1, -1),
            row_at_offset(u, row, -1, 0),
            row_at_offset(u, row, -1, 1),
            row_at_offset(u, row, 0, -1),
            row_at_offset(u, row, 0, 1),
            row_at_offset(u, row, 1, -1),
            row_at_offset(u, row, 1, 0),
            row_at_offset(u, row, 1, 1),
            neighbor_counts(u, row),
        );
    }
    lemma_total_of_sums(
        rows_at_offset(u, -1, -1),
        rows_at_offset(u, -1, 0),
        rows_at_offset(u, -1, 1),
        rows_at_offset(u, 0, -1),
        rows_at_offset(u, 0, 1),
        rows_at_offset(u, 1, -1),
        rows_at_offset(u, 1, 0),
        rows_at_offset(u, 1, 1),
        counts,
    );
    lemma_offset_sees_every_cell(u, -1, -1);
    lemma_offset_sees_every_cell(u, -1, 0);
    lemma_offset_sees_every_cell(u, -1, 1);
    lemma_offset_sees_every_cell(u, 0, -1);
    lemma_offset_sees_every_cell(u, 0, 1);
    lemma_offset_sees_every_cell(u, 1, -1);
    lemma_offset_sees_every_cell(u, 1, 0);
    lemma_offset_sees_every_cell(u, 1, 1);
}

} // verus!

//! Properties of the parser and of the batch split, stated over their models.
use vstd::prelude::*;

use crate::decimal::unsigned_value;
use crate::export::{
    count_value, opt_seq, parse_document_spec, parse_spec, row_cells, row_records, rows_parsed,
    side_record, Field, NameView, ParseErrorView, YearNamesView,
};
use crate::schedule::batch_split;

verus! {

/// The rank that row `k` of `cells` reads as, if its rank cell is a number.
pub open spec fn row_rank(cells: Seq<Seq<char>>, k: int) -> Option<usize> {
    unsigned_value(cells[5 * k])
}

/// The readable ranks of the table's rows rise strictly from row to row.
pub open spec fn ranks_ascending(cells: Seq<Seq<char>>) -> bool {
    forall|i: int, j: int|
        0 <= i < j < cells.len() / 5 && (#[trigger] row_rank(cells, i)) is Some && (
        #[trigger] row_rank(cells, j)) is Some ==> row_rank(cells, i)->0 < row_rank(cells, j)->0
}

/// The records' ranks rise strictly.
pub open spec fn strictly_ranked(s: Seq<NameView>) -> bool {
    forall|i: int, j: int| 0 <= i < j < s.len() ==> (#[trigger] s[i]).rank < (#[trigger] s[j]).rank
}

/// Every record of `s` has the rank of one of the first `k` rows.
pub open spec fn ranks_from_rows(s: Seq<NameView>, cells: Seq<Seq<char>>, k: int) -> bool {
    forall|i: int|
        0 <= i < s.len() ==> exists|r: int|
            0 <= r < k && #[trigger] row_rank(cells, r) == Some((#[trigger] s[i]).rank)
}

proof fn lemma_side_rank(rank: Seq<char>, name: Seq<char>, uses: Seq<char>, field: Field)
    requires
        side_record(rank, name, uses, field) is Ok,
    ensures
        match side_record(rank, name, uses, field)->Ok_0 {
            Some(n) => unsigned_value(rank) == Some(n.rank),
            None => true,
        },
{
}

proof fn lemma_extend_ranked(
    s: Seq<NameView>,
    o: Option<NameView>,
    cells: Seq<Seq<char>>,
    k: int,
)
    requires
        0 <= k < cells.len() / 5,
        ranks_from_rows(s, cells, k),
        ranks_ascending(cells) ==> strictly_ranked(s),
        o is Some ==> row_rank(cells, k) == Some(o->0.rank),
    ensures
        ranks_from_rows(s + opt_seq(o), cells, k + 1),
        ranks_ascending(cells) ==> strictly_ranked(s + opt_seq(o)),
{
    let t = s + opt_seq(o);
    assert forall|i: int| 0 <= i < t.len() implies exists|r: int|
        0 <= r < k + 1 && #[trigger] row_rank(cells, r) == Some((#[trigger] t[i]).rank) by {
        if i < s.len() {
            assert(t[i] == s[i]);
            let r = choose|r: int| 0 <= r < k && #[trigger] row_rank(cells, r) == Some(s[i].rank);
            assert(row_rank(cells, r) == Some(t[i].rank));
        } else {
            assert(t[i] == o->0);
            assert(row_rank(cells, k) == Some(t[i].rank));
        }
    }
    if ranks_ascending(cells) {
        assert forall|i: int, j: int| 0 <= i < j < t.len() implies (#[trigger] t[i]).rank < (
        #[trigger] t[j]).rank by {
            if j < s.len() {
                assert(t[i] == s[i] && t[j] == s[j]);
            } else {
                assert(t[i] == s[i]);
                let r = choose|r: int| 0 <= r < k && #[trigger] row_rank(cells, r) == Some(s[i].rank);
                assert(row_rank(cells, r) is Some && row_rank(cells, k) is Some);
            }
        }
    }
}

proof fn lemma_rows_ranked(cells: Seq<Seq<char>>, k: nat)
    requires
        k <= cells.len() / 5,
        rows_parsed(cells, k) is Ok,
    ensures
        rows_parsed(cells, k)->Ok_0.male.len() <= k,
        rows_parsed(cells, k)->Ok_0.female.len() <= k,
        ranks_from_rows(rows_parsed(cells, k)->Ok_0.male, cells, k as int),
        ranks_from_rows(rows_parsed(cells, k)->Ok_0.female, cells, k as int),
        ranks_ascending(cells) ==> strictly_ranked(rows_parsed(cells, k)->Ok_0.male),
        ranks_ascending(cells) ==> strictly_ranked(rows_parsed(cells, k)->Ok_0.female),
    decreases k,
{
    if k > 0 {
        let j = (k - 1) as nat;
        lemma_rows_ranked(cells, j);
        let y = rows_parsed(cells, j)->Ok_0;
        let b = 5 * (j as int);
        lemma_side_rank(cells[b], cells[b + 1], cells[b + 2], Field::MaleUses);
        let (m, f) = row_records(cells, j as int)->Ok_0;
        lemma_side_rank(cells[b], cells[b + 3], cells[b + 4], Field::FemaleUses);
        lemma_extend_ranked(y.male, m, cells, j as int);
        lemma_extend_ranked(y.female, f, cells, j as int);
    }
}

/// A parsed table has at most one record per row and sex (so at most 1000 of
/// each where the table has at most 1000 rows), and where the ranks rise down
/// the table, the records of each sex come in strictly rising rank.
pub proof fn lemma_parse_bounded_and_ranked(cells: Seq<Seq<char>>)
    requires
        parse_spec(cells) is Ok,
    ensures
        parse_spec(cells)->Ok_0.male.len() <= cells.len() / 5,
        parse_spec(cells)->Ok_0.female.len() <= cells.len() / 5,
        cells.len() <= 5000 ==> parse_spec(cells)->Ok_0.male.len() <= 1000,
        cells.len() <= 5000 ==> parse_spec(cells)->Ok_0.female.len() <= 1000,
        ranks_ascending(cells) ==> strictly_ranked(parse_spec(cells)->Ok_0.male),
        ranks_ascending(cells) ==> strictly_ranked(parse_spec(cells)->Ok_0.female),
{
    lemma_rows_ranked(cells, cells.len() / 5);
}

/// The outcome of parsing a body depends on its row cells alone, so the same
/// body parses to the same names, or the same error, every time.
pub proof fn lemma_parse_deterministic(body: Seq<char>, again: Seq<char>)
    requires
        row_cells(body) == row_cells(again),
    ensures
        parse_document_spec(body) == parse_document_spec(again),
{
}

/// Row `k` names someone whose rank or use count does not read as a number.
pub open spec fn bad_row(cells: Seq<Seq<char>>, k: int) -> bool {
    let b = 5 * k;
    ||| cells[b + 1].len() > 0 && (unsigned_value(cells[b]) is None || count_value(
        cells[b + 2],
    ) is None)
    ||| cells[b + 3].len() > 0 && (unsigned_value(cells[b]) is None || count_value(
        cells[b + 4],
    ) is None)
}

proof fn lemma_rows_outcome(cells: Seq<Seq<char>>, k: nat)
    requires
        k <= cells.len() / 5,
    ensures
        rows_parsed(cells, k) is Ok <==> forall|r: int| 0 <= r < k ==> !#[trigger] bad_row(cells, r),
        rows_parsed(cells, k) is Err ==> rows_parsed(cells, k)->Err_0 is Number,
    decreases k,
{
    if k > 0 {
        let j = (k - 1) as nat;
        lemma_rows_outcome(cells, j);
        if rows_parsed(cells, j) is Ok {
            assert(row_records(cells, j as int) is Err <==> bad_row(cells, j as int));
        }
        if forall|r: int| 0 <= r < k ==> !#[trigger] bad_row(cells, r) {
            assert forall|r: int| 0 <= r < j implies !#[trigger] bad_row(cells, r) by {
                assert(!bad_row(cells, r));
            }
            assert(!bad_row(cells, j as int));
        } else {
            let r = choose|r: int| 0 <= r < k && #[trigger] bad_row(cells, r);
            if r < j {
                assert(rows_parsed(cells, j) is Err);
            }
        }
    }
}

/// A parse yields names, or one of its two errors: a malformed document
/// exactly when the cells do not split into whole rows, and otherwise a
/// number error exactly when some row names someone whose rank or use count
/// does not read as a number.
pub proof fn lemma_parse_outcomes(cells: Seq<Seq<char>>)
    ensures
        (parse_spec(cells) is Err && parse_spec(cells)->Err_0 is Malformed) <==> cells.len() % 5
            != 0,
        cells.len() % 5 == 0 ==> (parse_spec(cells) is Ok <==> forall|r: int|
            0 <= r < cells.len() / 5 ==> !#[trigger] bad_row(cells, r)),
        cells.len() % 5 == 0 && parse_spec(cells) is Err ==> parse_spec(cells)->Err_0 is Number,
{
    if cells.len() % 5 == 0 {
        lemma_rows_outcome(cells, cells.len() / 5);
    }
}

/// A table without cells holds no names, and that is no error.
pub proof fn lemma_no_cells_no_names()
    ensures
        parse_spec(Seq::empty()) == Ok::<YearNamesView, ParseErrorView>(
            YearNamesView { male: Seq::empty(), female: Seq::empty() },
        ),
{
}

/// Cells that do not split into whole rows of five are a malformed document.
pub proof fn lemma_partial_row_malformed(cells: Seq<Seq<char>>)
    requires
        cells.len() % 5 != 0,
    ensures
        parse_spec(cells) == Err::<YearNamesView, ParseErrorView>(
            ParseErrorView::Malformed { leftover: (cells.len() % 5) as usize },
        ),
{
}

/// A row with an empty male name gives no male record, and still gives its
/// female record where the female name is there.
pub proof fn lemma_row_without_male(cells: Seq<Seq<char>>)
    requires
        cells.len() == 5,
        cells[1].len() == 0,
        cells[3].len() > 0,
        unsigned_value(cells[0]) is Some,
        count_value(cells[4]) is Some,
    ensures
        parse_spec(cells) == Ok::<YearNamesView, ParseErrorView>(
            YearNamesView {
                male: Seq::empty(),
                female: seq![
                    NameView {
                        rank: unsigned_value(cells[0])->0,
                        name: cells[3],
                        uses: count_value(cells[4])->0,
                    },
                ],
            },
        ),
{
    reveal_with_fuel(rows_parsed, 2);
    assert(Seq::<NameView>::empty() + opt_seq(None) =~= Seq::<NameView>::empty());
    let n = NameView {
        rank: unsigned_value(cells[0])->0,
        name: cells[3],
        uses: count_value(cells[4])->0,
    };
    assert(Seq::<NameView>::empty() + opt_seq(Some(n)) =~= seq![n]);
}

/// A row with an empty female name gives no female record, and still gives
/// its male record where the male name is there.
pub proof fn lemma_row_without_female(cells: Seq<Seq<char>>)
    requires
        cells.len() == 5,
        cells[3].len() == 0,
        cells[1].len() > 0,
        unsigned_value(cells[0]) is Some,
        count_value(cells[2]) is Some,
    ensures
        parse_spec(cells) == Ok::<YearNamesView, ParseErrorView>(
            YearNamesView {
                male: seq![
                    NameView {
                        rank: unsigned_value(cells[0])->0,
                        name: cells[1],
                        uses: count_value(cells[2])->0,
                    },
                ],
                female: Seq::empty(),
            },
        ),
{
    reveal_with_fuel(rows_parsed, 2);
    assert(Seq::<NameView>::empty() + opt_seq(None) =~= Seq::<NameView>::empty());
    let n = NameView {
        rank: unsigned_value(cells[0])->0,
        name: cells[1],
        uses: count_value(cells[2])->0,
    };
    assert(Seq::<NameView>::empty() + opt_seq(Some(n)) =~= seq![n]);
}

/// The batches of a year list, joined in order, are the list again; each
/// holds between one and `size` years, and all but the last hold `size`.
pub proof fn lemma_batches_cover(years: Seq<i32>, size: nat)
    requires
        size > 0,
    ensures
        batch_split(years, size).flatten() == years,
        forall|i: int|
            0 <= i < batch_split(years, size).len() ==> 0 < (#[trigger] batch_split(
                years,
                size,
            )[i]).len() <= size,
        forall|i: int|
            0 <= i < batch_split(years, size).len() - 1 ==> (#[trigger] batch_split(
                years,
                size,
            )[i]).len() == size,
    decreases years.len(),
{
    let b = batch_split(years, size);
    if years.len() == 0 {
    } else if years.len() <= size {
        assert(b.drop_first() =~= Seq::<Seq<i32>>::empty());
        assert(b.drop_first().flatten() =~= Seq::<i32>::empty());
        assert(b.first() == years);
        assert(years + Seq::<i32>::empty() =~= years);
    } else {
        let rest = years.skip(size as int);
        lemma_batches_cover(rest, size);
        assert(b.drop_first() =~= batch_split(rest, size));
        assert(b.first() == years.take(size as int));
        assert(b.flatten() == b.first() + b.drop_first().flatten());
        assert(years.take(size as int) + rest =~= years);
        assert forall|i: int| 0 < i < b.len() implies b[i] == batch_split(rest, size)[i - 1] by {}
    }
}

} // verus!

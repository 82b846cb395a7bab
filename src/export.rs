//! Name records and the parser that turns one year's table into them.
use vstd::prelude::*;

use crate::cells::{select_cells, selected_cells, texts};
use crate::decimal::{chars_of, parse_unsigned, strip_commas, unsigned_value, without_commas};

verus! {

/// The selector for the cells of the name table: the cells of right-aligned rows.
pub const ROW_CELLS: &'static str = "tr[align=\"right\"] > td";

/// One name's popularity entry for one sex in one year.
#[derive(Debug)]
pub struct Name {
    pub rank: usize,
    pub name: String,
    pub uses: usize,
}

/// The model of a [`Name`].
pub struct NameView {
    pub rank: usize,
    pub name: Seq<char>,
    pub uses: usize,
}

impl View for Name {
    type V = NameView;

    open spec fn view(&self) -> NameView {
        NameView { rank: self.rank, name: self.name@, uses: self.uses }
    }
}

/// The names of one year, split by sex, each in table order.
#[derive(Debug)]
pub struct YearNames {
    pub male: Vec<Name>,
    pub female: Vec<Name>,
}

/// The model of a [`YearNames`].
pub struct YearNamesView {
    pub male: Seq<NameView>,
    pub female: Seq<NameView>,
}

/// The models of a sequence of names.
pub open spec fn name_views(v: Seq<Name>) -> Seq<NameView> {
    v.map_values(|n: Name| n@)
}

impl View for YearNames {
    type V = YearNamesView;

    open spec fn view(&self) -> YearNamesView {
        YearNamesView { male: name_views(self.male@), female: name_views(self.female@) }
    }
}

/// The numeric cells of a table row.
#[derive(Debug, Clone, Copy, PartialEq, Eq, Structural)]
pub enum Field {
    Rank,
    MaleUses,
    FemaleUses,
}

/// Why a year's document could not be turned into names.
#[derive(Debug)]
pub enum ParseError {
    /// The cells do not split into whole rows; `leftover` cells remain.
    Malformed { leftover: usize },
    /// A numeric cell does not hold a non-negative integer.
    Number { field: Field, text: String },
}

/// The model of a [`ParseError`].
pub enum ParseErrorView {
    Malformed { leftover: usize },
    Number { field: Field, text: Seq<char> },
}

impl View for ParseError {
    type V = ParseErrorView;

    open spec fn view(&self) -> ParseErrorView {
        match self {
            ParseError::Malformed { leftover } => ParseErrorView::Malformed { leftover: *leftover },
            ParseError::Number { field, text } => ParseErrorView::Number {
                field: *field,
                text: text@,
            },
        }
    }
}

/// The model of a parse outcome.
pub open spec fn outcome_view(r: Result<YearNames, ParseError>) -> Result<
    YearNamesView,
    ParseErrorView,
> {
    match r {
        Ok(y) => Ok(y@),
        Err(e) => Err(e@),
    }
}

/// The value of a count cell: thousands separators are ignored.
pub open spec fn count_value(text: Seq<char>) -> Option<usize> {
    unsigned_value(without_commas(text))
}

/// The record for one side of a row whose rank cell is `rank`: none where the
/// name cell is empty.
pub open spec fn side_record(
    rank: Seq<char>,
    name: Seq<char>,
    uses: Seq<char>,
    uses_field: Field,
) -> Result<Option<NameView>, ParseErrorView> {
    if name.len() == 0 {
        Ok(None)
    } else {
        match unsigned_value(rank) {
            None => Err(ParseErrorView::Number { field: Field::Rank, text: rank }),
            Some(r) => match count_value(uses) {
                None => Err(ParseErrorView::Number { field: uses_field, text: uses }),
                Some(u) => Ok(Some(NameView { rank: r, name, uses: u })),
            },
        }
    }
}

/// An optional record as a sequence of zero or one records.
pub open spec fn opt_seq(o: Option<NameView>) -> Seq<NameView> {
    match o {
        Some(n) => seq![n],
        None => Seq::empty(),
    }
}

/// The records of row `k` of `cells` (male first), or the first error in it.
pub open spec fn row_records(cells: Seq<Seq<char>>, k: int) -> Result<
    (Option<NameView>, Option<NameView>),
    ParseErrorView,
> {
    let b = 5 * k;
    match side_record(cells[b], cells[b + 1], cells[b + 2], Field::MaleUses) {
        Err(e) => Err(e),
        Ok(m) => match side_record(cells[b], cells[b + 3], cells[b + 4], Field::FemaleUses) {
            Err(e) => Err(e),
            Ok(f) => Ok((m, f)),
        },
    }
}

/// The names of the first `k` rows of `cells`, or the first error among them.
pub open spec fn rows_parsed(cells: Seq<Seq<char>>, k: nat) -> Result<YearNamesView, ParseErrorView>
    decreases k,
{
    if k == 0 {
        Ok(YearNamesView { male: Seq::empty(), female: Seq::empty() })
    } else {
        match rows_parsed(cells, (k - 1) as nat) {
            Err(e) => Err(e),
            Ok(y) => match row_records(cells, k - 1) {
                Err(e) => Err(e),
                Ok((m, f)) => Ok(
                    YearNamesView { male: y.male + opt_seq(m), female: y.female + opt_seq(f) },
                ),
            },
        }
    }
}

/// What a sequence of table cells reads as: rows of five cells, in order.
pub open spec fn parse_spec(cells: Seq<Seq<char>>) -> Result<YearNamesView, ParseErrorView> {
    if cells.len() % 5 != 0 {
        Err(ParseErrorView::Malformed { leftover: (cells.len() % 5) as usize })
    } else {
        rows_parsed(cells, cells.len() / 5)
    }
}

/// The cells that [`ROW_CELLS`] selects in a document body.
pub open spec fn row_cells(body: Seq<char>) -> Seq<Seq<char>> {
    selected_cells(body, ROW_CELLS@)->Some_0
}

/// What a document body reads as: its row cells, read as by [`parse_spec`].
pub open spec fn parse_document_spec(body: Seq<char>) -> Result<YearNamesView, ParseErrorView> {
    parse_spec(row_cells(body))
}

/// The model of an optional record.
pub open spec fn opt_name_view(o: Option<Name>) -> Option<NameView> {
    match o {
        Some(n) => Some(n@),
        None => None,
    }
}

/// An error met in row `k` stays the outcome of every longer prefix.
proof fn lemma_error_persists(cells: Seq<Seq<char>>, k: nat, n: nat, e: ParseErrorView)
    requires
        k <= n,
        rows_parsed(cells, k) == Err::<YearNamesView, ParseErrorView>(e),
    ensures
        rows_parsed(cells, n) == Err::<YearNamesView, ParseErrorView>(e),
    decreases n - k,
{
    if k < n {
        lemma_error_persists(cells, k + 1, n, e);
    }
}

/// Reads one side of a row: no record where the name cell is empty.
fn read_side(rank: &String, name: &String, uses: &String, uses_field: Field) -> (r: Result<
    Option<Name>,
    ParseError,
>)
    ensures
        match r {
            Ok(o) => side_record(rank@, name@, uses@, uses_field) == Ok::<
                Option<NameView>,
                ParseErrorView,
            >(opt_name_view(o)),
            Err(e) => side_record(rank@, name@, uses@, uses_field) == Err::<
                Option<NameView>,
                ParseErrorView,
            >(e@),
        },
{
    if name.as_str().unicode_len() == 0 {
        return Ok(None);
    }
    let rank_chars = chars_of(rank.as_str());
    let rank_value = match parse_unsigned(rank_chars.as_slice()) {
        Some(v) => v,
        None => {
            return Err(ParseError::Number { field: Field::Rank, text: rank.clone() });
        },
    };
    let uses_chars = chars_of(uses.as_str());
    let digits = strip_commas(uses_chars.as_slice());
    let uses_value = match parse_unsigned(digits.as_slice()) {
        Some(v) => v,
        None => {
            return Err(ParseError::Number { field: uses_field, text: uses.clone() });
        },
    };
    Ok(Some(Name { rank: rank_value, name: name.clone(), uses: uses_value }))
}

/// Turns a sequence of table cells into names: five cells per row (rank,
/// male name, male uses, female name, female uses), an empty name cell
/// meaning that the row has no name of that sex.
pub fn parse_cells(cells: &Vec<String>) -> (r: Result<YearNames, ParseError>)
    ensures
        outcome_view(r) == parse_spec(texts(cells@)),
{
    let ghost t = texts(cells@);
    if cells.len() % 5 != 0 {
        return Err(ParseError::Malformed { leftover: cells.len() % 5 });
    }
    let n = cells.len();
    let rows = n / 5;
    let mut male: Vec<Name> = Vec::new();
    let mut female: Vec<Name> = Vec::new();
    let mut k: usize = 0;
    proof {
        assert(name_views(male@) =~= Seq::<NameView>::empty());
        assert(name_views(female@) =~= Seq::<NameView>::empty());
    }
    while k < rows
        invariant
            t == texts(cells@),
            n == cells@.len(),
            rows == cells@.len() / 5,
            cells@.len() % 5 == 0,
            k <= rows,
            rows_parsed(t, k as nat) == Ok::<YearNamesView, ParseErrorView>(
                YearNames { male, female }@,
            ),
        decreases rows - k,
    {
        assert(k * 5 + 4 < cells@.len()) by (nonlinear_arith)
            requires
                k < rows,
                rows == cells@.len() / 5,
        ;
        let b = k * 5;
        let m = read_side(&cells[b], &cells[b + 1], &cells[b + 2], Field::MaleUses);
        let m = match m {
            Ok(m) => m,
            Err(e) => {
                proof {
                    lemma_error_persists(t, (k + 1) as nat, rows as nat, e@);
                }
                return Err(e);
            },
        };
        let f = read_side(&cells[b], &cells[b + 3], &cells[b + 4], Field::FemaleUses);
        let f = match f {
            Ok(f) => f,
            Err(e) => {
                proof {
                    lemma_error_persists(t, (k + 1) as nat, rows as nat, e@);
                }
                return Err(e);
            },
        };
        let ghost old_male = male@;
        let ghost old_female = female@;
        match m {
            Some(n) => male.push(n),
            None => {},
        }
        match f {
            Some(n) => female.push(n),
            None => {},
        }
        proof {
            assert(name_views(male@) =~= name_views(old_male) + opt_seq(opt_name_view(m)));
            assert(name_views(female@) =~= name_views(old_female) + opt_seq(opt_name_view(f)));
        }
        k = k + 1;
    }
    Ok(YearNames { male, female })
}

/// Parses one year's document body: the cells that [`ROW_CELLS`] selects,
/// read as by [`parse_cells`].
pub fn parse_document(body: &str) -> (r: Result<YearNames, ParseError>)
    ensures
        selected_cells(body@, ROW_CELLS@) is Some,
        outcome_view(r) == parse_document_spec(body@),
{
    match select_cells(body, ROW_CELLS) {
        None => unreached(),
        Some(cells) => parse_cells(&cells),
    }
}

impl YearNames {
    /// Parses one year's response body into its names.
    pub fn parse_request(body: String) -> (r: Result<YearNames, ParseError>)
        ensures
            selected_cells(body@, ROW_CELLS@) is Some,
            outcome_view(r) == parse_document_spec(body@),
    {
        parse_document(body.as_str())
    }
}

} // verus!

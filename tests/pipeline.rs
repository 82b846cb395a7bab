use baby_names::aggregate::{settle_batch, ResultSet};
use baby_names::export::{parse_cells, ParseError};
use baby_names::request::{form_body, CONTENT_TYPE, ENDPOINT};
use baby_names::schedule::{BatchPlan, RunError};

fn all_batches(start: i32, end: i32, size: usize) -> Vec<Vec<i32>> {
    let mut plan = BatchPlan::new(start, end, size).unwrap();
    let mut out = Vec::new();
    while let Some(batch) = plan.next_batch() {
        out.push(batch);
    }
    assert!(plan.is_done());
    out
}

fn one_row(rank: &str) -> baby_names::export::YearNames {
    let cells: Vec<String> = [rank, "John", "10", "Mary", "20"].iter().map(|t| t.to_string()).collect();
    parse_cells(&cells).unwrap()
}

#[test]
fn form_body_names_the_year() {
    assert_eq!(form_body(2000), "year=2000&top=1000&number=n&token=Submit");
    assert_eq!(form_body(1880), "year=1880&top=1000&number=n&token=Submit");
    assert_eq!(form_body(7), "year=7&top=1000&number=n&token=Submit");
    assert_eq!(form_body(0), "year=0&top=1000&number=n&token=Submit");
    assert_eq!(form_body(-45), "year=-45&top=1000&number=n&token=Submit");
    assert_eq!(form_body(i32::MIN), "year=-2147483648&top=1000&number=n&token=Submit");
    assert_eq!(ENDPOINT, "https://www.ssa.gov/cgi-bin/popularnames.cgi");
    assert_eq!(CONTENT_TYPE, "application/x-www-form-urlencoded");
}

#[test]
fn single_year_is_one_batch() {
    assert_eq!(all_batches(1880, 1880, 10), vec![vec![1880]]);
}

#[test]
fn six_years_in_batches_of_three() {
    assert_eq!(all_batches(2000, 2005, 3), vec![vec![2000, 2001, 2002], vec![2003, 2004, 2005]]);
}

#[test]
fn short_last_batch() {
    assert_eq!(all_batches(1880, 1886, 3), vec![vec![1880, 1881, 1882], vec![1883, 1884, 1885], vec![1886]]);
    assert_eq!(all_batches(i32::MAX - 1, i32::MAX, 10), vec![vec![i32::MAX - 1, i32::MAX]]);
}

#[test]
fn start_after_end_is_refused() {
    match BatchPlan::new(1990, 1880, 10) {
        Err(RunError::StartAfterEnd { start_year, end_year }) => {
            assert_eq!((start_year, end_year), (1990, 1880));
        }
        other => panic!("unexpected {:?}", other),
    }
}

#[test]
fn failed_fetch_aborts_the_batch() {
    let outcomes = vec![Ok(("a".to_string(), 2000)), Err(2001), Ok(("c".to_string(), 2002)), Err(2002)];
    match settle_batch(&outcomes) {
        Err(RunError::Transport { year }) => assert_eq!(year, 2001),
        other => panic!("unexpected {:?}", other),
    }
}

#[test]
fn fetched_batch_keeps_body_year_pairs() {
    let outcomes = vec![Ok(("a".to_string(), 2001)), Ok(("b".to_string(), 2000))];
    let bodies = settle_batch(&outcomes).unwrap();
    assert_eq!(bodies, vec![("a".to_string(), 2001), ("b".to_string(), 2000)]);
}

#[test]
fn result_set_orders_years() {
    let mut set = ResultSet::new();
    for year in [2005, 2000, 2003, 2001, 2004, 2002] {
        set.record(year, Ok(one_row("1"))).unwrap();
    }
    assert_eq!(set.len(), 6);
    assert_eq!(set.get(2003).unwrap().male[0].name, "John");
    assert!(set.get(1999).is_none());
    let years: Vec<i32> = set.into_map().keys().copied().collect();
    assert_eq!(years, vec![2000, 2001, 2002, 2003, 2004, 2005]);
}

#[test]
fn parse_failure_aborts_the_run() {
    let mut set = ResultSet::new();
    set.record(1880, Ok(one_row("1"))).unwrap();
    match set.record(1881, Err(ParseError::Malformed { leftover: 3 })) {
        Err(RunError::Parse { year, error: ParseError::Malformed { leftover } }) => {
            assert_eq!((year, leftover), (1881, 3));
        }
        other => panic!("unexpected {:?}", other),
    }
    assert_eq!(set.len(), 1);
}

//! Fan-in: fetched bodies checked batch by batch, parsed years collected by year.
use vstd::prelude::*;

use std::collections::BTreeMap;

use crate::export::{ParseError, YearNames, YearNamesView};
use crate::schedule::RunError;

verus! {

/// Whether every fetch of a batch came back.
pub open spec fn all_fetched(outcomes: Seq<Result<(String, i32), i32>>) -> bool {
    forall|i: int| 0 <= i < outcomes.len() ==> (#[trigger] outcomes[i]) is Ok
}

/// Settles one batch of fetch outcomes, each a body with its year or the year
/// whose request failed: all bodies, in order, or a transport error for the
/// first failed year.
pub fn settle_batch(outcomes: &Vec<Result<(String, i32), i32>>) -> (r: Result<
    Vec<(String, i32)>,
    RunError,
>)
    ensures
        r is Ok <==> all_fetched(outcomes@),
        match r {
            Ok(v) => v@.len() == outcomes@.len() && forall|i: int|
                0 <= i < v@.len() ==> outcomes@[i] == Ok::<(String, i32), i32>(#[trigger] v@[i]),
            Err(e) => exists|k: int|
                0 <= k < outcomes@.len() && all_fetched(outcomes@.take(k)) && (
                #[trigger] outcomes@[k]) is Err && e == (RunError::Transport {
                    year: outcomes@[k]->Err_0,
                }),
        },
{
    let mut bodies: Vec<(String, i32)> = Vec::new();
    let mut i: usize = 0;
    while i < outcomes.len()
        invariant
            i <= outcomes@.len(),
            all_fetched(outcomes@.take(i as int)),
            bodies@.len() == i,
            forall|j: int|
                0 <= j < i ==> outcomes@[j] == Ok::<(String, i32), i32>(#[trigger] bodies@[j]),
        decreases outcomes@.len() - i,
    {
        match &outcomes[i] {
            Ok((body, year)) => {
                bodies.push((body.clone(), *year));
            },
            Err(year) => {
                assert(outcomes@[i as int] == Err::<(String, i32), i32>(*year));
                return Err(RunError::Transport { year: *year });
            },
        }
        i = i + 1;
        assert(outcomes@.take(i as int).drop_last() =~= outcomes@.take(i - 1));
    }
    assert(outcomes@.take(i as int) =~= outcomes@);
    Ok(bodies)
}

/// The parsed names of a run, by year, ascending.
#[derive(Debug)]
pub struct ResultSet {
    years: BTreeMap<i32, YearNames>,
}

impl View for ResultSet {
    type V = Map<i32, YearNamesView>;

    closed spec fn view(&self) -> Map<i32, YearNamesView> {
        self.years@.map_values(|y: YearNames| y@)
    }
}

impl ResultSet {
    /// An empty result set.
    pub fn new() -> (r: ResultSet)
        ensures
            r@ == Map::<i32, YearNamesView>::empty(),
    {
        let r = ResultSet { years: BTreeMap::new() };
        assert(r@ =~= Map::<i32, YearNamesView>::empty());
        r
    }

    /// Records the parse outcome of `year`: its names go in, or the run stops
    /// with the parse error and the set is left as it was.
    pub fn record(&mut self, year: i32, outcome: Result<YearNames, ParseError>) -> (r: Result<
        (),
        RunError,
    >)
        ensures
            match outcome {
                Ok(y) => r is Ok && final(self)@ == old(self)@.insert(year, y@),
                Err(e) => r == Err::<(), RunError>(RunError::Parse { year, error: e })
                    && final(self)@ == old(self)@,
            },
    {
        match outcome {
            Ok(names) => {
                let ghost v = names@;
                self.years.insert(year, names);
                assert(self@ =~= old(self)@.insert(year, v));
                Ok(())
            },
            Err(error) => Err(RunError::Parse { year, error }),
        }
    }

    /// The number of years held.
    pub fn len(&self) -> (r: usize)
        ensures
            r == self@.len(),
    {
        assert(self@.dom() =~= self.years@.dom());
        self.years.len()
    }

    /// The names of `year`, if held.
    pub fn get(&self, year: i32) -> (r: Option<&YearNames>)
        ensures
            match r {
                Some(y) => self@.contains_key(year) && self@[year] == y@,
                None => !self@.contains_key(year),
            },
    {
        self.years.get(&year)
    }

    /// The map from year to names.
    pub fn into_map(self) -> (r: BTreeMap<i32, YearNames>)
        ensures
            r@.map_values(|y: YearNames| y@) == self@,
    {
        self.years
    }
}

} // verus!

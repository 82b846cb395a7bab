//! The year range of a run and its split into fetch batches.
use vstd::prelude::*;

use crate::export::ParseError;

verus! {

/// Why a run stopped.
#[derive(Debug)]
pub enum RunError {
    /// The range starts after it ends; nothing was fetched.
    StartAfterEnd { start_year: i32, end_year: i32 },
    /// The request for `year` failed.
    Transport { year: i32 },
    /// The body for `year` could not be parsed.
    Parse { year: i32, error: ParseError },
}

/// The years `from..=to` in ascending order (empty where `from > to`).
pub open spec fn years_between(from: int, to: int) -> Seq<i32> {
    if from > to {
        Seq::empty()
    } else {
        Seq::new((to - from + 1) as nat, |i: int| (from + i) as i32)
    }
}

/// The split of `years` into batches of `size`, all full but the last.
pub open spec fn batch_split(years: Seq<i32>, size: nat) -> Seq<Seq<i32>>
    decreases years.len(),
{
    if years.len() == 0 || size == 0 {
        Seq::empty()
    } else if years.len() <= size {
        seq![years]
    } else {
        seq![years.take(size as int)] + batch_split(years.skip(size as int), size)
    }
}

/// The years of a run that are still to be fetched, handed out in batches.
#[derive(Debug)]
pub struct BatchPlan {
    next: i64,
    end: i64,
    size: usize,
}

impl BatchPlan {
    /// The years not yet handed out, ascending.
    pub closed spec fn remaining(&self) -> Seq<i32> {
        years_between(self.next as int, self.end as int)
    }

    /// The number of years per batch.
    pub closed spec fn batch_size(&self) -> nat {
        self.size as nat
    }

    /// The plan's fields stay within the years of an `i32`.
    pub closed spec fn wf(&self) -> bool {
        &&& i32::MIN <= self.end <= i32::MAX
        &&& i32::MIN <= self.next <= self.end + 1
        &&& self.size > 0
    }

    /// The plan for the years `start_year..=end_year` in batches of
    /// `batch_size`; a range that starts after it ends is refused before any
    /// work.
    pub fn new(start_year: i32, end_year: i32, batch_size: usize) -> (r: Result<
        BatchPlan,
        RunError,
    >)
        requires
            batch_size > 0,
        ensures
            start_year > end_year <==> r is Err,
            match r {
                Ok(p) => p.wf() && p.remaining() == years_between(
                    start_year as int,
                    end_year as int,
                ) && p.batch_size() == batch_size,
                Err(e) => e == (RunError::StartAfterEnd { start_year, end_year }),
            },
    {
        if start_year > end_year {
            return Err(RunError::StartAfterEnd { start_year, end_year });
        }
        Ok(BatchPlan { next: start_year as i64, end: end_year as i64, size: batch_size })
    }

    /// Whether every year has been handed out.
    pub fn is_done(&self) -> (r: bool)
        requires
            self.wf(),
        ensures
            r == (self.remaining().len() == 0),
    {
        self.next > self.end
    }

    /// Hands out the next batch: the first `batch_size` remaining years, or
    /// all of them where fewer remain; `None` once none remain.
    pub fn next_batch(&mut self) -> (r: Option<Vec<i32>>)
        requires
            old(self).wf(),
        ensures
            final(self).wf(),
            final(self).batch_size() == old(self).batch_size(),
            old(self).remaining().len() == 0 ==> r is None && final(self).remaining() == old(
                self,
            ).remaining(),
            old(self).remaining().len() > 0 ==> r is Some && r->0@ == batch_split(
                old(self).remaining(),
                old(self).batch_size(),
            )[0] && batch_split(old(self).remaining(), old(self).batch_size()) == seq![r->0@]
                + batch_split(final(self).remaining(), final(self).batch_size()),
    {
        if self.next > self.end {
            return None;
        }
        let ghost before = self.remaining();
        let left = (self.end - self.next + 1) as u64;
        let take: i64 = if left <= self.size as u64 {
            left as i64
        } else {
            self.size as i64
        };
        let mut batch: Vec<i32> = Vec::new();
        let mut i: i64 = 0;
        while i < take
            invariant
                self.wf(),
                before == self.remaining(),
                0 <= i <= take <= before.len(),
                take <= self.size,
                batch@ == before.take(i as int),
            decreases take - i,
        {
            batch.push((self.next + i) as i32);
            i = i + 1;
            assert(batch@ =~= before.take(i as int));
        }
        self.next = self.next + take;
        proof {
            let s = old(self).size as nat;
            assert(self.remaining() =~= before.skip(take as int));
            if before.len() <= s {
                assert(before.take(take as int) =~= before);
                assert(batch_split(self.remaining(), s) =~= Seq::<Seq<i32>>::empty());
                assert(batch_split(before, s) =~= seq![batch@]);
            } else {
                assert(batch_split(before, s) == seq![before.take(s as int)] + batch_split(
                    before.skip(s as int),
                    s,
                ));
            }
        }
        Some(batch)
    }
}

} // verus!

//! The batch ingestor: drives lines through the parser in order, counts
//! accepted and rejected lines, and hands the accepted records out in their
//! original order for the caller to forward to the sink's bulk-append path.
//! A record the sink then refuses is moved from accepted to rejected; a
//! single bad line never aborts a run.

use vstd::prelude::*;

use crate::parser::{parse_line, spec_parse_line, LogRow, ParseError, RowModel};

verus! {

/// Aggregate counters of one ingestion run.
#[derive(Clone, Copy, Debug, PartialEq, Eq, Structural)]
pub struct IngestionOutcome {
    /// Records parsed and not refused by the sink.
    pub accepted: u64,
    /// Lines that failed to parse, plus records the sink refused.
    pub rejected: u64,
    /// Lines seen in total.
    pub total: u64,
}

/// The state of one ingestion run. Every line offered is counted exactly
/// once, so the counters always partition the total.
pub struct BatchIngestor {
    pub accepted: u64,
    pub rejected: u64,
    pub total: u64,
}

/// How often a progress diagnostic is due, in lines.
pub const PROGRESS_INTERVAL: u64 = 10000;

impl BatchIngestor {
    /// Every line counted exactly once.
    pub open spec fn wf(self) -> bool {
        self.accepted + self.rejected == self.total
    }

    pub fn new() -> (r: Self)
        ensures
            r.accepted == 0,
            r.rejected == 0,
            r.total == 0,
            r.wf(),
    {
        BatchIngestor { accepted: 0, rejected: 0, total: 0 }
    }

    /// Feed the next line: parse it and count it. On success the record is
    /// handed back for the caller to append to the sink; on failure the
    /// reason is handed back for the caller's diagnostic, and the run goes
    /// on.
    pub fn offer_line(&mut self, line: &str) -> (r: Result<LogRow, ParseError>)
        requires
            old(self).wf(),
            old(self).total < u64::MAX,
        ensures
            final(self).wf(),
            final(self).total == old(self).total + 1,
            ({
                let m = spec_parse_line(line@);
                match r {
                    Ok(row) => m == Ok::<RowModel, ParseError>(row@) && final(self).accepted
                        == old(self).accepted + 1 && final(self).rejected == old(self).rejected,
                    Err(e) => m == Err::<RowModel, ParseError>(e) && final(self).rejected == old(
                        self,
                    ).rejected + 1 && final(self).accepted == old(self).accepted,
                }
            }),
    {
        self.total = self.total + 1;
        match parse_line(line) {
            Ok(row) => {
                self.accepted = self.accepted + 1;
                Ok(row)
            },
            Err(e) => {
                self.rejected = self.rejected + 1;
                Err(e)
            },
        }
    }

    /// The sink refused the record counted by the last successful
    /// [`Self::offer_line`]: it is rejected after all.
    pub fn append_rejected(&mut self)
        requires
            old(self).wf(),
            old(self).accepted >= 1,
        ensures
            final(self).wf(),
            final(self).accepted == old(self).accepted - 1,
            final(self).rejected == old(self).rejected + 1,
            final(self).total == old(self).total,
    {
        self.accepted = self.accepted - 1;
        self.rejected = self.rejected + 1;
    }

    /// A progress diagnostic is due after every [`PROGRESS_INTERVAL`] lines.
    pub fn progress_due(&self) -> (r: bool)
        ensures
            r == (self.total > 0 && self.total % PROGRESS_INTERVAL == 0),
    {
        self.total > 0 && self.total % PROGRESS_INTERVAL == 0
    }

    /// The counters of the run so far.
    pub fn outcome(&self) -> (r: IngestionOutcome)
        ensures
            r.accepted == self.accepted,
            r.rejected == self.rejected,
            r.total == self.total,
    {
        IngestionOutcome { accepted: self.accepted, rejected: self.rejected, total: self.total }
    }
}

/// The records of the well-formed lines, in input order.
pub open spec fn accepted_rows(ls: Seq<Seq<char>>) -> Seq<RowModel>
    decreases ls.len(),
{
    if ls.len() == 0 {
        Seq::empty()
    } else {
        let rest = accepted_rows(ls.drop_last());
        match spec_parse_line(ls.last()) {
            Ok(m) => rest.push(m),
            Err(_) => rest,
        }
    }
}

/// How many lines are malformed.
pub open spec fn rejected_count(ls: Seq<Seq<char>>) -> int
    decreases ls.len(),
{
    if ls.len() == 0 {
        0
    } else {
        rejected_count(ls.drop_last()) + if spec_parse_line(ls.last()) is Err {
            1int
        } else {
            0int
        }
    }
}

/// Law: every line is counted exactly once, so over any batch of `N` lines
/// of which `K` are malformed, accepted is `N - K` and rejected is `K`.
pub proof fn lemma_counts_partition(ls: Seq<Seq<char>>)
    ensures
        accepted_rows(ls).len() + rejected_count(ls) == ls.len(),
    decreases ls.len(),
{
    if ls.len() > 0 {
        lemma_counts_partition(ls.drop_last());
    }
}

/// Ingest a batch of lines: parse each in order and collect the records of
/// the well-formed ones, in their original order, together with the
/// counters of the run. Appending the returned records to the sink one by
/// one preserves input order at the sink.
pub fn ingest_lines(lines: &Vec<String>) -> (r: (Vec<LogRow>, BatchIngestor))
    ensures
        r.1.wf(),
        r.1.total == lines@.len(),
        r.0.deep_view() == accepted_rows(lines.deep_view()),
        r.1.accepted == accepted_rows(lines.deep_view()).len(),
        r.1.rejected == rejected_count(lines.deep_view()),
{
    let mut ing = BatchIngestor::new();
    let mut rows: Vec<LogRow> = Vec::new();
    let mut i: usize = 0;
    while i < lines.len()
        invariant
            i <= lines@.len(),
            ing.wf(),
            ing.total == i as int,
            rows.deep_view() == accepted_rows(lines.deep_view().take(i as int)),
            ing.accepted == accepted_rows(lines.deep_view().take(i as int)).len(),
            ing.rejected == rejected_count(lines.deep_view().take(i as int)),
        decreases lines@.len() - i,
    {
        let ghost lv = lines.deep_view();
        let ghost prev_rows = rows.deep_view();
        let line: &String = &lines[i];
        let res = ing.offer_line(line.as_str());
        match res {
            Ok(row) => {
                rows.push(row);
            },
            Err(_) => {},
        }
        proof {
            assert(lv.take(i + 1).drop_last() =~= lv.take(i as int));
            assert(lv.take(i + 1).last() == lv[i as int]);
            assert(lv[i as int] == lines@[i as int]@);
            if spec_parse_line(lv[i as int]) is Ok {
                assert(rows.deep_view() =~= prev_rows.push(rows@.last()@));
            }
        }
        i = i + 1;
    }
    proof {
        assert(lines.deep_view().take(lines@.len() as int) =~= lines.deep_view());
    }
    (rows, ing)
}

} // verus!

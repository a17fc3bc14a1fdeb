//! The results of a run, collected in the order in which the probes ended.
use vstd::prelude::*;
use crate::response::{ResponseInfo, Verdict};

verus! {

/// What an outcome adds to the collected results: the record of an accepted
/// response, nothing for a rejected or failed probe.
pub open spec fn recorded(v: Verdict) -> Seq<(Seq<char>, u16, Seq<char>)> {
    match v {
        Verdict::Accepted { info, line } => seq![info@],
        _ => seq![],
    }
}

/// Whether a verdict asks for one warning.
pub open spec fn warns(v: Verdict) -> bool {
    v is Rejected || v is Failed
}

/// A probe that failed or was rejected adds no record, so never reaches the
/// collected results, and asks for exactly one warning.
pub proof fn law_unaccepted_adds_nothing(v: Verdict)
    requires
        !(v is Accepted),
    ensures
        recorded(v) == Seq::<(Seq<char>, u16, Seq<char>)>::empty(),
        warns(v),
{
    assert(recorded(v) =~= Seq::<(Seq<char>, u16, Seq<char>)>::empty());
}

/// Collects the accepted responses of a run, where they are kept, and counts
/// the outcomes.
pub struct Collector {
    keep: bool,
    results: Vec<ResponseInfo>,
    processed: u64,
    warnings: u64,
}

impl Collector {
    /// No more warnings than outcomes.
    pub closed spec fn wf(&self) -> bool {
        self.warnings <= self.processed
    }

    pub closed spec fn keeps(&self) -> bool {
        self.keep
    }

    /// The records collected so far, in order.
    pub closed spec fn records(&self) -> Seq<(Seq<char>, u16, Seq<char>)> {
        self.results@.map_values(|i: ResponseInfo| i@)
    }

    pub closed spec fn processed_count(&self) -> nat {
        self.processed as nat
    }

    pub closed spec fn warning_count(&self) -> nat {
        self.warnings as nat
    }

    /// A collector with nothing in it, that keeps the accepted responses
    /// where `keep` is set.
    pub fn new(keep: bool) -> (r: Self)
        ensures
            r.wf(),
            r.keeps() == keep,
            r.records() == Seq::<(Seq<char>, u16, Seq<char>)>::empty(),
            r.processed_count() == 0,
            r.warning_count() == 0,
    {
        let r = Collector { keep, results: Vec::new(), processed: 0, warnings: 0 };
        assert(r.records() =~= Seq::<(Seq<char>, u16, Seq<char>)>::empty());
        r
    }

    /// Takes in what became of one outcome: an accepted response is added to
    /// the records where they are kept; a rejected or failed probe adds no
    /// record and one warning.
    pub fn record(&mut self, verdict: &Verdict)
        requires
            old(self).wf(),
            old(self).processed_count() < u64::MAX,
        ensures
            final(self).wf(),
            final(self).keeps() == old(self).keeps(),
            final(self).records() == old(self).records() + (if old(self).keeps() { recorded(*verdict) } else { seq![] }),
            final(self).processed_count() == old(self).processed_count() + 1,
            final(self).warning_count() == old(self).warning_count() + (if warns(*verdict) { 1int } else { 0int }),
    {
        let ghost before = self.results@;
        match verdict {
            Verdict::Accepted { info, line } => {
                if self.keep {
                    self.results.push(info.duplicate());
                    assert forall|k: int| 0 <= k < before.len() implies self.results@[k]@ == before[k]@ by {
                        assert(self.results@[k] == before[k]);
                    }
                    assert(self.records() =~= before.map_values(|i: ResponseInfo| i@) + seq![info@]);
                } else {
                    assert(self.results@ == before);
                }
            },
            _ => {
                self.warnings = self.warnings + 1;
            },
        }
        self.processed = self.processed + 1;
    }

    /// How many outcomes were taken in.
    pub fn processed(&self) -> (r: u64)
        ensures
            r as nat == self.processed_count(),
    {
        self.processed
    }

    /// How many warnings the outcomes asked for.
    pub fn warnings(&self) -> (r: u64)
        ensures
            r as nat == self.warning_count(),
    {
        self.warnings
    }

    /// The collected records, in the order in which they were taken in.
    pub fn into_results(self) -> (r: Vec<ResponseInfo>)
        ensures
            r@.map_values(|i: ResponseInfo| i@) == self.records(),
    {
        self.results
    }
}

} // verus!

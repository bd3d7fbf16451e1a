use vstd::prelude::*;

use crate::index::{FundingRow, HistoryRow, SpendRow};

verus! {

/// Pending transactions bucketed by fee rate: pairs of
/// (fee rate in sat/vbyte, total virtual size of the bucket).
pub struct FeeHistogram {
    pub bins: Vec<(u64, u64)>,
}

/// A snapshot of the pending transactions: for each one, a row per script
/// hash that it touches, the outputs it creates and the outpoints it spends
/// (all with height zero); and the fee histogram.
pub struct Mempool {
    rows: Vec<HistoryRow>,
    funding: Vec<FundingRow>,
    spending: Vec<SpendRow>,
    histogram: FeeHistogram,
}

impl Mempool {
    pub closed spec fn rows_view(&self) -> Seq<HistoryRow> {
        self.rows@
    }

    pub closed spec fn funding_view(&self) -> Seq<FundingRow> {
        self.funding@
    }

    pub closed spec fn spending_view(&self) -> Seq<SpendRow> {
        self.spending@
    }

    pub closed spec fn bins_view(&self) -> Seq<(u64, u64)> {
        self.histogram.bins@
    }

    /// An empty mempool, before the first sync.
    pub fn new() -> (r: Mempool)
        ensures
            r.rows_view().len() == 0,
            r.funding_view().len() == 0,
            r.spending_view().len() == 0,
            r.bins_view().len() == 0,
    {
        Mempool {
            rows: Vec::new(),
            funding: Vec::new(),
            spending: Vec::new(),
            histogram: FeeHistogram { bins: Vec::new() },
        }
    }

    /// A snapshot holding the given rows and histogram.
    pub fn from_parts(
        rows: Vec<HistoryRow>,
        funding: Vec<FundingRow>,
        spending: Vec<SpendRow>,
        histogram: FeeHistogram,
    ) -> (r: Mempool)
        ensures
            r.rows_view() == rows@,
            r.funding_view() == funding@,
            r.spending_view() == spending@,
            r.bins_view() == histogram.bins@,
    {
        Mempool { rows, funding, spending, histogram }
    }

    pub fn funding(&self) -> (r: &Vec<FundingRow>)
        ensures
            r@ == self.funding_view(),
    {
        &self.funding
    }

    pub fn spending(&self) -> (r: &Vec<SpendRow>)
        ensures
            r@ == self.spending_view(),
    {
        &self.spending
    }

    pub fn rows(&self) -> (r: &Vec<HistoryRow>)
        ensures
            r@ == self.rows_view(),
    {
        &self.rows
    }

    pub fn fees_histogram(&self) -> (r: &FeeHistogram)
        ensures
            r.bins@ == self.bins_view(),
    {
        &self.histogram
    }
}

} // verus!

//! The aggregator: merges the per-account fetch results of one cycle into
//! a single due-date-indexed structure, keeping every successful account's
//! records and reporting the first failure, if any.

use vstd::prelude::*;

use crate::dates::Date;
use crate::errors::{FetchError, FetchErrorView, RowError};
use crate::rows::{datum_of, DatumView, IopacDatum, IopacRow, RowView};

verus! {

broadcast use vstd::seq_lib::group_filter_ensures;

/// One account's name together with what its fetch returned this cycle:
/// loan rows, no loan table at all, or a failure.
pub struct AccountFetch {
    pub account: String,
    pub result: Result<Option<Vec<IopacRow>>, FetchError>,
}

/// The spec-level face of `AccountFetch`.
pub struct AccountFetchView {
    pub account: Seq<char>,
    pub result: Result<Option<Seq<RowView>>, FetchErrorView>,
}

impl View for AccountFetch {
    type V = AccountFetchView;

    open spec fn view(&self) -> AccountFetchView {
        AccountFetchView {
            account: self.account@,
            result: match self.result {
                Result::Ok(Option::Some(rows)) => Result::Ok(Option::Some(rows.deep_view())),
                Result::Ok(Option::None) => Result::Ok(Option::None),
                Result::Err(e) => Result::Err(e@),
            },
        }
    }
}

impl DeepView for AccountFetch {
    type V = AccountFetchView;

    open spec fn deep_view(&self) -> AccountFetchView {
        self.view()
    }
}

/// The records one account contributes: each row tagged with the account,
/// in row order; a failed or loan-less account contributes nothing.
pub open spec fn account_records(af: AccountFetchView) -> Seq<DatumView> {
    match af.result {
        Result::Ok(Option::Some(rows)) => rows.map_values(|r: RowView| datum_of(af.account, r)),
        Result::Ok(Option::None) => Seq::empty(),
        Result::Err(_) => Seq::empty(),
    }
}

/// All records of one cycle: every account's contribution, in account
/// order, rows kept in arrival order.
pub open spec fn success_records(afs: Seq<AccountFetchView>) -> Seq<DatumView>
    decreases afs.len(),
{
    if afs.len() == 0 {
        Seq::empty()
    } else {
        success_records(afs.drop_last()) + account_records(afs.last())
    }
}

/// Holds of a record exactly when it is due on `d`.
pub open spec fn on_date(d: Date) -> spec_fn(DatumView) -> bool {
    |r: DatumView| r.return_on == d
}

/// The cycle's records that are due on `d`, in arrival order.
pub open spec fn records_on(afs: Seq<AccountFetchView>, d: Date) -> Seq<DatumView> {
    success_records(afs).filter(on_date(d))
}

/// The first failure of the cycle, in account order.
pub open spec fn first_error(afs: Seq<AccountFetchView>) -> Option<FetchErrorView>
    decreases afs.len(),
{
    if afs.len() == 0 {
        None
    } else {
        let pre = first_error(afs.drop_last());
        if pre is Some {
            pre
        } else {
            match afs.last().result {
                Result::Err(e) => Some(e),
                _ => None,
            }
        }
    }
}

/// The distinct due dates of a record list, in first-arrival order.
pub open spec fn distinct_dates_spec(rs: Seq<DatumView>) -> Seq<Date>
    decreases rs.len(),
{
    if rs.len() == 0 {
        Seq::empty()
    } else {
        let pre = distinct_dates_spec(rs.drop_last());
        if pre.contains(rs.last().return_on) {
            pre
        } else {
            pre.push(rs.last().return_on)
        }
    }
}

/// The distinct due dates of a record list are pairwise distinct: the
/// renderer makes one event per due date, never two.
pub proof fn lemma_distinct_dates_distinct(rs: Seq<DatumView>)
    ensures
        forall|k1: int, k2: int|
            0 <= k1 < k2 < distinct_dates_spec(rs).len() ==> distinct_dates_spec(rs)[k1]
                != distinct_dates_spec(rs)[k2],
    decreases rs.len(),
{
    if rs.len() > 0 {
        lemma_distinct_dates_distinct(rs.drop_last());
        let pre = distinct_dates_spec(rs.drop_last());
        let d = rs.last().return_on;
        if !pre.contains(d) {
            assert forall|k1: int, k2: int|
                0 <= k1 < k2 < distinct_dates_spec(rs).len() implies distinct_dates_spec(rs)[k1]
                != distinct_dates_spec(rs)[k2] by {
                if k2 == pre.len() {
                    assert(distinct_dates_spec(rs)[k1] == pre[k1]);
                    if pre[k1] == d {
                        assert(pre.contains(d));
                    }
                }
            }
        }
    }
}

/// The due-date-indexed aggregation result of one cycle: all records in
/// arrival order; the date-indexed reading is `records_for`.
pub struct IopacData {
    pub records: Vec<IopacDatum>,
}

impl IopacData {
    /// The records due on `d`, in arrival order.
    pub open spec fn records_for(self, d: Date) -> Seq<DatumView> {
        self.records.deep_view().filter(on_date(d))
    }

    /// Every record's due date is a valid calendar date.
    pub open spec fn wf(self) -> bool {
        forall|i: int|
            0 <= i < self.records.deep_view().len() ==> (#[trigger] self.records.deep_view()[i]).return_on.wf()
    }

    /// An empty aggregation, as served before the first cycle completes.
    pub fn new() -> (r: Self)
        ensures
            r.records.deep_view() == Seq::<DatumView>::empty(),
            r.wf(),
    {
        let r = IopacData { records: Vec::new() };
        proof {
            assert(r.records.deep_view() =~= Seq::<DatumView>::empty());
        }
        r
    }

    /// The records due on `d`, in arrival order.
    pub fn records_on_date(&self, d: Date) -> (out: Vec<IopacDatum>)
        ensures
            out.deep_view() == self.records_for(d),
    {
        let ghost rv = self.records.deep_view();
        let ghost pred = on_date(d);
        let n = self.records.len();
        let mut out: Vec<IopacDatum> = Vec::new();
        let mut i: usize = 0;
        while i < n
            invariant
                rv == self.records.deep_view(),
                pred == on_date(d),
                n == rv.len(),
                n == self.records@.len(),
                0 <= i <= n,
                out.deep_view() == rv.subrange(0, i as int).filter(pred),
            decreases n - i,
        {
            proof {
                let pre = rv.subrange(0, i as int);
                let post = rv.subrange(0, i + 1 as int);
                assert(post.drop_last() =~= pre);
                assert(post.last() == rv[i as int]);
                assert(rv[i as int] == self.records@[i as int]@);
                reveal_with_fuel(Seq::filter, 2);
                if pred(rv[i as int]) {
                    assert(post.filter(pred) == pre.filter(pred).push(rv[i as int]));
                } else {
                    assert(post.filter(pred) == pre.filter(pred));
                }
            }
            let ghost pre_deep = out.deep_view();
            if self.records[i].return_on == d {
                out.push(self.records[i].duplicate());
                proof {
                    assert(out.deep_view() =~= pre_deep.push(rv[i as int]));
                    assert(out.deep_view() =~= rv.subrange(0, i + 1 as int).filter(pred));
                }
            } else {
                proof {
                    assert(!pred(rv[i as int]));
                    assert(out.deep_view() =~= rv.subrange(0, i + 1 as int).filter(pred));
                }
            }
            i = i + 1;
        }
        proof {
            assert(rv.subrange(0, n as int) =~= rv);
        }
        out
    }

    /// The distinct due dates, each at its first arrival position.
    pub fn distinct_dates(&self) -> (out: Vec<Date>)
        ensures
            out@ == distinct_dates_spec(self.records.deep_view()),
            forall|k: int|
                0 <= k < out@.len() ==> self.records_for(#[trigger] out@[k]).len() != 0,
            forall|k: int|
                #![trigger out@[k]]
                0 <= k < out@.len() ==> exists|i: int|
                    0 <= i < self.records.deep_view().len()
                        && (#[trigger] self.records.deep_view()[i]).return_on == out@[k],
            forall|k1: int, k2: int|
                0 <= k1 < k2 < out@.len() ==> out@[k1] != out@[k2],
            forall|i: int|
                0 <= i < self.records.deep_view().len() ==> out@.contains(
                    (#[trigger] self.records.deep_view()[i]).return_on,
                ),
    {
        let ghost rv = self.records.deep_view();
        let n = self.records.len();
        let mut out: Vec<Date> = Vec::new();
        let mut i: usize = 0;
        while i < n
            invariant
                rv == self.records.deep_view(),
                n == rv.len(),
                n == self.records@.len(),
                0 <= i <= n,
                out@ == distinct_dates_spec(rv.take(i as int)),
                forall|k: int|
                    0 <= k < out@.len() ==> self.records_for(#[trigger] out@[k]).len() != 0,
                forall|k: int|
                    #![trigger out@[k]]
                    0 <= k < out@.len() ==> exists|j: int|
                        0 <= j < rv.len() && (#[trigger] rv[j]).return_on == out@[k],
                forall|k1: int, k2: int| 0 <= k1 < k2 < out@.len() ==> out@[k1] != out@[k2],
                forall|j: int| 0 <= j < i ==> out@.contains((#[trigger] rv[j]).return_on),
            decreases n - i,
        {
            proof {
                assert(rv[i as int] == self.records@[i as int]@);
            }
            let d = self.records[i].return_on;
            let mut seen = false;
            let m = out.len();
            let mut k: usize = 0;
            while k < m
                invariant
                    m == out@.len(),
                    0 <= k <= m,
                    seen <==> exists|k2: int| 0 <= k2 < k && out@[k2] == d,
                decreases m - k,
            {
                if out[k] == d {
                    seen = true;
                    proof {
                        assert(out@[k as int] == d);
                    }
                }
                k = k + 1;
            }
            let ghost pre = out@;
            if !seen {
                proof {
                    let pred = on_date(d);
                    rv.lemma_filter_contains(pred, i as int);
                    assert(self.records_for(d).len() != 0) by {
                        assert(rv.filter(pred).contains(rv[i as int]));
                    }
                }
                out.push(d);
            }
            proof {
                assert(rv.take(i + 1 as int).drop_last() =~= rv.take(i as int));
                assert(rv.take(i + 1 as int).last() == rv[i as int]);
                assert(seen == pre.contains(d)) by {
                    if pre.contains(d) {
                        let k2 = choose|k2: int| 0 <= k2 < pre.len() && pre[k2] == d;
                        assert(pre[k2] == d);
                    }
                }
                assert(out@ == distinct_dates_spec(rv.take(i + 1 as int)));
                assert(out@.contains(d)) by {
                    if seen {
                        let k2 = choose|k2: int| 0 <= k2 < pre.len() && pre[k2] == d;
                        assert(out@[k2] == d);
                    } else {
                        assert(out@.last() == d);
                    }
                }
                assert forall|j: int| 0 <= j < i + 1 implies out@.contains(
                    (#[trigger] rv[j]).return_on,
                ) by {
                    if j < i {
                        let k2 = choose|k2: int| 0 <= k2 < pre.len() && pre[k2] == rv[j].return_on;
                        assert(out@[k2] == rv[j].return_on);
                    } else {
                        assert(out@.contains(d));
                    }
                }
            }
            i = i + 1;
        }
        proof {
            assert(rv.take(n as int) =~= rv);
        }
        out
    }
}

impl IopacRow {
    /// A field-for-field copy of the row.
    pub fn duplicate(&self) -> (r: Self)
        ensures
            r@ == self@,
    {
        IopacRow {
            title: self.title.clone(),
            media_type: self.media_type.clone(),
            return_on: self.return_on,
            reserved: self.reserved,
        }
    }
}

impl IopacDatum {
    /// A field-for-field copy of the record.
    pub fn duplicate(&self) -> (r: Self)
        ensures
            r@ == self@,
    {
        IopacDatum {
            account: self.account.clone(),
            title: self.title.clone(),
            media_type: self.media_type.clone(),
            return_on: self.return_on,
            reserved: self.reserved,
        }
    }
}

/// One cycle's outcome: the full aggregation of every successful account,
/// plus the first failure encountered, which is informational only.
pub struct CycleOutcome {
    pub data: IopacData,
    pub error: Option<FetchError>,
}

/// Merges one cycle's per-account results: every successful account's rows
/// are tagged with their account and kept in arrival order; failures are
/// skipped, and the first one is reported without blocking the rest.
pub fn aggregate(results: &Vec<AccountFetch>) -> (out: CycleOutcome)
    ensures
        out.data.records.deep_view() == success_records(results.deep_view()),
        match out.error {
            Some(e) => first_error(results.deep_view()) == Some(e@),
            None => first_error(results.deep_view()) is None,
        },
{
    let ghost av = results.deep_view();
    let n = results.len();
    let mut data = IopacData::new();
    let mut error: Option<FetchError> = None;
    let mut i: usize = 0;
    while i < n
        invariant
            av == results.deep_view(),
            n == av.len(),
            n == results@.len(),
            0 <= i <= n,
            data.records.deep_view() == success_records(av.take(i as int)),
            match error {
                Some(e) => first_error(av.take(i as int)) == Some(e@),
                None => first_error(av.take(i as int)) is None,
            },
        decreases n - i,
    {
        proof {
            assert(av[i as int] == results@[i as int]@);
            assert(av.take(i + 1 as int).drop_last() =~= av.take(i as int));
            assert(av.take(i + 1 as int).last() == av[i as int]);
        }
        match &results[i].result {
            Ok(Some(rows)) => {
                let ghost rowsv = av[i as int].result->Ok_0->Some_0;
                let ghost tag = |r: RowView| datum_of(av[i as int].account, r);
                proof {
                    assert(rows.deep_view() == rowsv);
                }
                let m = rows.len();
                let mut j: usize = 0;
                while j < m
                    invariant
                        av == results.deep_view(),
                        0 <= i < av.len(),
                        i < results@.len(),
                        av[i as int] == results@[i as int]@,
                        rows.deep_view() == rowsv,
                        tag == (|r: RowView| datum_of(av[i as int].account, r)),
                        m == rowsv.len(),
                        m == rows@.len(),
                        0 <= j <= m,
                        data.records.deep_view() == success_records(av.take(i as int)) + rowsv.take(
                            j as int,
                        ).map_values(tag),
                    decreases m - j,
                {
                    let ghost pre_deep = data.records.deep_view();
                    let row = &rows[j];
                    let datum = IopacDatum::from_row(results[i].account.clone(), row.duplicate());
                    data.records.push(datum);
                    proof {
                        assert(rowsv[j as int] == rows@[j as int]@);
                        assert(datum@ == tag(rowsv[j as int]));
                        assert(data.records.deep_view() =~= pre_deep.push(datum@));
                        assert(rowsv.take(j + 1 as int).drop_last() =~= rowsv.take(j as int));
                        assert(rowsv.take(j + 1 as int).map_values(tag) =~= rowsv.take(
                            j as int,
                        ).map_values(tag).push(tag(rowsv[j as int])));
                        assert(data.records.deep_view() =~= success_records(av.take(i as int))
                            + rowsv.take(j + 1 as int).map_values(tag));
                    }
                    j = j + 1;
                }
                proof {
                    assert(rowsv.take(m as int) =~= rowsv);
                    assert(account_records(av[i as int]) =~= rowsv.map_values(tag));
                    assert(data.records.deep_view() =~= success_records(av.take(i + 1 as int)));
                }
            },
            Ok(None) => {
                proof {
                    assert(account_records(av[i as int]) =~= Seq::<DatumView>::empty());
                    assert(data.records.deep_view() =~= success_records(av.take(i + 1 as int)));
                }
            },
            Err(e) => {
                if error.is_none() {
                    error = Some(e.duplicate());
                }
                proof {
                    assert(account_records(av[i as int]) =~= Seq::<DatumView>::empty());
                    assert(data.records.deep_view() =~= success_records(av.take(i + 1 as int)));
                }
            },
        }
        i = i + 1;
    }
    proof {
        assert(av.take(n as int) =~= av);
    }
    CycleOutcome { data, error }
}

/// What one account's entry adds to the records due on `d`, counted as a
/// multiset.
pub open spec fn date_contrib(af: AccountFetchView, d: Date) -> vstd::multiset::Multiset<
    DatumView,
> {
    account_records(af).filter(on_date(d)).to_multiset()
}

proof fn lemma_records_on_remove(afs: Seq<AccountFetchView>, d: Date, i: int)
    requires
        0 <= i < afs.len(),
    ensures
        records_on(afs, d).to_multiset() == records_on(afs.remove(i), d).to_multiset().add(
            date_contrib(afs[i], d),
        ),
    decreases afs.len(),
{
    broadcast use vstd::seq_lib::group_to_multiset_ensures;
    broadcast use vstd::multiset::group_multiset_axioms;

    let p = on_date(d);
    Seq::filter_distributes_over_add(
        success_records(afs.drop_last()),
        account_records(afs.last()),
        p,
    );
    vstd::seq_lib::lemma_multiset_commutative(
        success_records(afs.drop_last()).filter(p),
        account_records(afs.last()).filter(p),
    );
    if i == afs.len() - 1 {
        assert(afs.remove(i) =~= afs.drop_last());
        assert(records_on(afs, d).to_multiset() =~= records_on(afs.remove(i), d).to_multiset().add(
            date_contrib(afs[i], d),
        ));
    } else {
        assert(afs.remove(i).drop_last() =~= afs.drop_last().remove(i));
        assert(afs.remove(i).last() == afs.last());
        lemma_records_on_remove(afs.drop_last(), d, i);
        Seq::filter_distributes_over_add(
            success_records(afs.remove(i).drop_last()),
            account_records(afs.remove(i).last()),
            p,
        );
        vstd::seq_lib::lemma_multiset_commutative(
            success_records(afs.remove(i).drop_last()).filter(p),
            account_records(afs.remove(i).last()).filter(p),
        );
        assert(records_on(afs, d).to_multiset() =~= records_on(afs.remove(i), d).to_multiset().add(
            date_contrib(afs[i], d),
        ));
    }
}

/// Aggregation is order-independent across accounts: two cycles whose
/// per-account results are the same up to order yield, for every due
/// date, the same records up to order.
pub proof fn lemma_aggregate_order_independent(
    afs1: Seq<AccountFetchView>,
    afs2: Seq<AccountFetchView>,
    d: Date,
)
    requires
        afs1.to_multiset() == afs2.to_multiset(),
    ensures
        records_on(afs1, d).to_multiset() == records_on(afs2, d).to_multiset(),
    decreases afs2.len(),
{
    broadcast use vstd::seq_lib::group_to_multiset_ensures;
    broadcast use vstd::multiset::group_multiset_axioms;

    if afs2.len() == 0 {
        assert(afs1.len() == afs1.to_multiset().len());
        assert(afs1 =~= Seq::<AccountFetchView>::empty());
        assert(records_on(afs1, d).to_multiset() =~= records_on(afs2, d).to_multiset());
    } else {
        let x = afs2.last();
        assert(afs2.contains(x));
        assert(afs1.to_multiset().count(x) > 0);
        assert(afs1.contains(x));
        let i = choose|i: int| 0 <= i < afs1.len() && afs1[i] == x;
        assert(afs2.drop_last().push(x) =~= afs2);
        assert(afs2.to_multiset() == afs2.drop_last().to_multiset().insert(x));
        assert(afs1.remove(i).to_multiset() == afs1.to_multiset().remove(x));
        assert(afs1.remove(i).to_multiset() =~= afs2.drop_last().to_multiset());
        lemma_aggregate_order_independent(afs1.remove(i), afs2.drop_last(), d);
        lemma_records_on_remove(afs1, d, i);
        lemma_records_on_remove(afs2, d, afs2.len() - 1);
        assert(afs2.remove(afs2.len() - 1) =~= afs2.drop_last());
        assert(records_on(afs1, d).to_multiset() =~= records_on(afs2, d).to_multiset());
    }
}

/// One account's failure never empties or corrupts the others'
/// contributions: dropping a failed entry from the cycle leaves the
/// aggregated records — every date's records included — exactly as they
/// were.
pub proof fn lemma_failure_contributes_nothing(afs: Seq<AccountFetchView>, i: int)
    requires
        0 <= i < afs.len(),
        afs[i].result is Err,
    ensures
        success_records(afs) == success_records(afs.remove(i)),
    decreases afs.len(),
{
    if i == afs.len() - 1 {
        assert(afs.remove(i) =~= afs.drop_last());
        assert(account_records(afs[i]) =~= Seq::<DatumView>::empty());
        assert(success_records(afs) =~= success_records(afs.drop_last()) + account_records(
            afs.last(),
        ));
        assert(success_records(afs) =~= success_records(afs.remove(i)));
    } else {
        assert(afs.remove(i).drop_last() =~= afs.drop_last().remove(i));
        assert(afs.remove(i).last() == afs.last());
        lemma_failure_contributes_nothing(afs.drop_last(), i);
        assert(success_records(afs) =~= success_records(afs.remove(i)));
    }
}

impl RowError {
    /// A field-for-field copy of the error.
    pub fn duplicate(&self) -> (r: Self)
        ensures
            r@ == self@,
    {
        match self {
            RowError::MissingColumn(name) => RowError::MissingColumn(name.clone()),
            RowError::UnparsableDate => RowError::UnparsableDate,
        }
    }
}

impl FetchError {
    /// A field-for-field copy of the error.
    pub fn duplicate(&self) -> (r: Self)
        ensures
            r@ == self@,
    {
        match self {
            FetchError::Network => FetchError::Network,
            FetchError::AuthFailed(id) => FetchError::AuthFailed(id.clone()),
            FetchError::ParseError(e) => FetchError::ParseError(e.duplicate()),
        }
    }
}

} // verus!

//! The listing of available reports: one report per period, most recent
//! period first.

use vstd::prelude::*;
use crate::calendar::CalendarDate;
use crate::report::Report;

verus! {

pub open spec fn report_date(r: Report) -> CalendarDate {
    r.report.metadata.date
}

/// Each report covers a strictly earlier period than the one before it.
pub open spec fn strictly_descending(s: Seq<Report>) -> bool {
    forall|i: int, j: int|
        0 <= i < j < s.len() ==> #[trigger] report_date(s[j]).before(#[trigger] report_date(s[i]))
}

/// `s[k]` is the first report of `s` with its date.
pub open spec fn first_of_its_date(s: Seq<Report>, k: int) -> bool {
    &&& 0 <= k < s.len()
    &&& forall|j: int| 0 <= j < k ==> report_date(#[trigger] s[j]) != report_date(s[k])
}

/// `x` is the first report of `s` with its date.
pub open spec fn kept_from(s: Seq<Report>, x: Report) -> bool {
    exists|k: int| first_of_its_date(s, k) && x == #[trigger] s[k]
}

pub open spec fn has_date(s: Seq<Report>, d: CalendarDate) -> bool {
    exists|i: int| 0 <= i < s.len() && report_date(#[trigger] s[i]) == d
}

/// `r` lists `s`: the reports of `s` sorted by date, most recent first,
/// with only the first report of `s` kept for each date. This is what a
/// stable sort in descending order followed by dropping each report whose
/// date equals that of the report before it yields.
pub open spec fn is_listing_of(r: Seq<Report>, s: Seq<Report>) -> bool {
    &&& strictly_descending(r)
    &&& forall|i: int| 0 <= i < r.len() ==> kept_from(s, #[trigger] r[i])
    &&& forall|k: int| 0 <= k < s.len() ==> has_date(r, report_date(#[trigger] s[k]))
}

fn date_before(a: &CalendarDate, b: &CalendarDate) -> (r: bool)
    ensures
        r == a.before(*b),
{
    a.year < b.year || (a.year == b.year && (a.month < b.month || (a.month == b.month && a.day
        < b.day)))
}

/// The reports sorted by date, most recent first, keeping for each date
/// the report that comes first in `reports`.
pub fn list_reports(reports: Vec<Report>) -> (r: Vec<Report>)
    ensures
        is_listing_of(r@, reports@),
{
    let ghost s = reports@;
    let mut rest = reports;
    let mut out: Vec<Report> = Vec::new();
    let ghost mut k: int = 0;
    while rest.len() > 0
        invariant
            0 <= k <= s.len(),
            rest@ == s.subrange(k, s.len() as int),
            is_listing_of(out@, s.subrange(0, k)),
        decreases rest@.len(),
    {
        let x = rest.remove(0);
        let ghost p = s.subrange(0, k);
        let ghost p1 = s.subrange(0, k + 1);
        assert(x == s[k]);
        let ghost old_out = out@;
        let mut i: usize = 0;
        while i < out.len() && date_before(
            &x.report.metadata.date,
            &out[i].report.metadata.date,
        )
            invariant
                i <= out@.len(),
                out@ == old_out,
                forall|j: int| 0 <= j < i ==> report_date(x).before(#[trigger] report_date(out@[j])),
            decreases out@.len() - i,
        {
            i = i + 1;
        }
        let duplicate = i < out.len() && out[i].report.metadata.date == x.report.metadata.date;
        if duplicate {
            proof {
                assert forall|i2: int| 0 <= i2 < out@.len() implies kept_from(
                    p1,
                    #[trigger] out@[i2],
                ) by {
                    let k2 = choose|k2: int| first_of_its_date(p, k2) && out@[i2] == #[trigger] p[k2];
                    assert(p1[k2] == p[k2]);
                    assert(first_of_its_date(p1, k2));
                }
                assert forall|k2: int| 0 <= k2 < p1.len() implies has_date(
                    out@,
                    report_date(#[trigger] p1[k2]),
                ) by {
                    if k2 < k {
                        assert(p1[k2] == p[k2]);
                    } else {
                        assert(report_date(out@[i as int]) == report_date(p1[k2]));
                    }
                }
            }
            proof { k = k + 1; }
        } else {
            proof {
                // No earlier report has the date of `x`: it would be listed at `i`.
                assert forall|j: int| 0 <= j < k implies report_date(#[trigger] p1[j]) != report_date(
                    p1[k],
                ) by {
                    assert(p1[j] == p[j]);
                    if report_date(p[j]) == report_date(x) {
                        assert(has_date(old_out, report_date(p[j])));
                        let q = choose|q: int|
                            0 <= q < old_out.len() && report_date(#[trigger] old_out[q])
                                == report_date(p[j]);
                        if q < i {
                            assert(report_date(x).before(report_date(old_out[q])));
                        } else if q > i {
                            assert(report_date(old_out[q]).before(report_date(old_out[i as int])));
                        }
                    }
                }
                assert(first_of_its_date(p1, k));
            }
            out.insert(i, x);
            proof {
                let n = out@;
                assert forall|q: int| i <= q < old_out.len() implies #[trigger] report_date(
                    old_out[q],
                ).before(report_date(x)) by {
                    if q > i {
                        assert(report_date(old_out[q]).before(report_date(old_out[i as int])));
                    }
                }
                assert forall|a: int, b: int| 0 <= a < b < n.len() implies #[trigger] report_date(
                    n[b],
                ).before(#[trigger] report_date(n[a])) by {
                    if b > i {
                        assert(n[b] == old_out[b - 1]);
                        assert(report_date(old_out[b - 1]).before(report_date(x)));
                    }
                    if a < i {
                        assert(n[a] == old_out[a]);
                        assert(report_date(x).before(report_date(old_out[a])));
                    }
                    if a > i {
                        assert(n[a] == old_out[a - 1]);
                    }
                    if b < i {
                        assert(n[b] == old_out[b]);
                    }
                }
                assert forall|i2: int| 0 <= i2 < n.len() implies kept_from(p1, #[trigger] n[i2]) by {
                    if i2 == i {
                        assert(n[i2] == p1[k]);
                    } else {
                        let o = if i2 < i { i2 } else { i2 - 1 };
                        assert(n[i2] == old_out[o]);
                        assert(kept_from(p, old_out[o]));
                        let k2 = choose|k2: int| first_of_its_date(p, k2) && old_out[o] == #[trigger] p[k2];
                        assert(p1[k2] == p[k2]);
                        assert(first_of_its_date(p1, k2));
                    }
                }
                assert forall|k2: int| 0 <= k2 < p1.len() implies has_date(
                    n,
                    report_date(#[trigger] p1[k2]),
                ) by {
                    if k2 < k {
                        assert(p1[k2] == p[k2]);
                        let q = choose|q: int|
                            0 <= q < old_out.len() && report_date(#[trigger] old_out[q])
                                == report_date(p[k2]);
                        if q < i {
                            assert(n[q] == old_out[q]);
                        } else {
                            assert(n[q + 1] == old_out[q]);
                        }
                    } else {
                        assert(n[i as int] == x);
                    }
                }
            }
            proof { k = k + 1; }
        }
    }
    assert(s.subrange(0, k) =~= s);
    out
}


/// A listing holds one report per date of its input, whatever the input.
pub proof fn lemma_listing_one_per_date(r: Seq<Report>, s: Seq<Report>)
    requires
        is_listing_of(r, s),
    ensures
        forall|i: int, j: int|
            0 <= i < r.len() && 0 <= j < r.len() && report_date(#[trigger] r[i]) == report_date(
                #[trigger] r[j],
            ) ==> i == j,
        forall|k: int| 0 <= k < s.len() ==> has_date(r, report_date(#[trigger] s[k])),
{
    assert forall|i: int, j: int|
        0 <= i < r.len() && 0 <= j < r.len() && report_date(#[trigger] r[i]) == report_date(
            #[trigger] r[j],
        ) implies i == j by {
        if i < j {
            assert(report_date(r[j]).before(report_date(r[i])));
        } else if j < i {
            assert(report_date(r[i]).before(report_date(r[j])));
        }
    }
}

/// When no two reports of the input share a date, the listing holds each
/// of them exactly once, most recent first.
pub proof fn lemma_listing_of_distinct_dates(r: Seq<Report>, s: Seq<Report>)
    requires
        is_listing_of(r, s),
        forall|i: int, j: int|
            0 <= i < j < s.len() ==> report_date(#[trigger] s[i]) != report_date(#[trigger] s[j]),
    ensures
        r.len() == s.len(),
        strictly_descending(r),
        forall|k: int| 0 <= k < s.len() ==> r.contains(#[trigger] s[k]),
        forall|i: int| 0 <= i < r.len() ==> s.contains(#[trigger] r[i]),
{
    lemma_listing_one_per_date(r, s);
    assert forall|k: int| 0 <= k < s.len() implies r.contains(#[trigger] s[k]) by {
        let q = choose|q: int| 0 <= q < r.len() && report_date(#[trigger] r[q]) == report_date(s[k]);
        assert(kept_from(s, r[q]));
        let k2 = choose|k2: int| first_of_its_date(s, k2) && r[q] == #[trigger] s[k2];
        if k2 < k {
            assert(report_date(s[k2]) != report_date(s[k]));
        } else if k < k2 {
            assert(report_date(s[k]) != report_date(s[k2]));
        }
        assert(r[q] == s[k]);
    }
    assert forall|i: int| 0 <= i < r.len() implies s.contains(#[trigger] r[i]) by {
        assert(kept_from(s, r[i]));
        let k2 = choose|k2: int| first_of_its_date(s, k2) && r[i] == #[trigger] s[k2];
    }
    assert(r.no_duplicates()) by {
        assert forall|i: int, j: int| 0 <= i < r.len() && 0 <= j < r.len() && i != j implies r[i]
            != r[j] by {
            if r[i] == r[j] {
                assert(report_date(r[i]) == report_date(r[j]));
            }
        }
    }
    assert(s.no_duplicates()) by {
        assert forall|i: int, j: int| 0 <= i < s.len() && 0 <= j < s.len() && i != j implies s[i]
            != s[j] by {
            if i < j {
                assert(report_date(s[i]) != report_date(s[j]));
            } else {
                assert(report_date(s[j]) != report_date(s[i]));
            }
        }
    }
    assert(r.to_set() =~= s.to_set()) by {
        assert forall|x: Report| r.to_set().contains(x) <==> s.to_set().contains(x) by {
            if r.contains(x) {
                let i = choose|i: int| 0 <= i < r.len() && r[i] == x;
                assert(s.contains(r[i]));
            }
            if s.contains(x) {
                let k = choose|k: int| 0 <= k < s.len() && s[k] == x;
                assert(r.contains(s[k]));
            }
        }
    }
    r.unique_seq_to_set();
    s.unique_seq_to_set();
}

} // verus!

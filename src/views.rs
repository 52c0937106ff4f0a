//! The state behind the screens of the application: the overall view of
//! every day, and the inspection of reports one by one.

use vstd::prelude::*;
use crate::report::{aggregate, all_days, DisplayReport, Report};
use crate::store::{has_date, is_listing_of, list_reports, report_date};

verus! {

/// The report of every day, and which of its charts is shown.
#[derive(Clone, Debug)]
pub struct Dashboard {
    maxi_report: Report,
    displaying: DisplayReport,
}

impl Dashboard {
    pub closed spec fn report_view(self) -> Report {
        self.maxi_report
    }

    pub closed spec fn displaying_view(self) -> DisplayReport {
        self.displaying
    }

    /// All the days of `reports` in one report, shown as temperatures.
    pub fn new(reports: &[Report]) -> (r: Dashboard)
        requires
            reports@.len() > 0,
        ensures
            r.report_view().days() == all_days(reports@),
            r.report_view().report.metadata == reports@[0].report.metadata,
            reports@.len() > 1 ==> r.report_view().original.is_none(),
            r.displaying_view() == DisplayReport::Temperature,
    {
        Dashboard { maxi_report: aggregate(reports), displaying: DisplayReport::default() }
    }

    pub fn report(&self) -> (r: &Report)
        ensures
            *r == self.report_view(),
    {
        &self.maxi_report
    }

    pub fn displaying(&self) -> (r: DisplayReport)
        ensures
            r == self.displaying_view(),
    {
        self.displaying
    }

    pub fn set_displaying(&mut self, d: DisplayReport)
        ensures
            final(self).displaying_view() == d,
            final(self).report_view() == old(self).report_view(),
    {
        self.displaying = d;
    }
}

/// Whether the window of one report is open, and which of its charts it
/// shows.
#[derive(Clone, Copy, Debug, PartialEq, Eq, Structural)]
pub struct Parameter {
    pub selected: bool,
    pub displaying: DisplayReport,
}

/// One window per report, the last report's window open at first.
#[derive(Clone, Debug)]
pub struct InspectReports {
    parameters: Vec<Parameter>,
}

impl InspectReports {
    pub closed spec fn parameters_view(self) -> Seq<Parameter> {
        self.parameters@
    }

    pub fn new(reports: &[Report]) -> (r: InspectReports)
        ensures
            r.parameters_view().len() == reports@.len(),
            forall|i: int|
                0 <= i < reports@.len() ==> #[trigger] r.parameters_view()[i] == (Parameter {
                    selected: i == reports@.len() - 1,
                    displaying: DisplayReport::Temperature,
                }),
    {
        let n = reports.len();
        let mut parameters: Vec<Parameter> = Vec::new();
        let mut i: usize = 0;
        while i < n
            invariant
                n == reports@.len(),
                i <= n,
                parameters@.len() == i,
                forall|j: int|
                    0 <= j < i ==> #[trigger] parameters@[j] == (Parameter {
                        selected: j == n - 1,
                        displaying: DisplayReport::Temperature,
                    }),
            decreases n - i,
        {
            parameters.push(
                Parameter { selected: i == n - 1, displaying: DisplayReport::default() },
            );
            i = i + 1;
        }
        InspectReports { parameters }
    }

    pub fn len(&self) -> (r: usize)
        ensures
            r == self.parameters_view().len(),
    {
        self.parameters.len()
    }

    pub fn parameter(&self, i: usize) -> (r: Parameter)
        requires
            i < self.parameters_view().len(),
        ensures
            r == self.parameters_view()[i as int],
    {
        self.parameters[i]
    }

    /// Opens or closes the window of report `i`, or changes its chart.
    pub fn set_parameter(&mut self, i: usize, p: Parameter)
        requires
            i < old(self).parameters_view().len(),
        ensures
            final(self).parameters_view() == old(self).parameters_view().update(i as int, p),
    {
        self.parameters.set(i, p);
    }
}

/// The screen the application shows.
#[derive(Clone, Copy, Debug, PartialEq, Eq, Structural)]
pub enum Screen {
    Dashboard,
    Inspect,
    About,
}

impl Default for Screen {
    fn default() -> (r: Screen)
        ensures
            r == Screen::Dashboard,
    {
        Screen::Dashboard
    }
}

/// The application: the listing of the available reports and the state of
/// each screen.
#[derive(Clone, Debug)]
pub struct MeteoApp {
    reports: Vec<Report>,
    viewing: Screen,
    dashboard: Dashboard,
    inspect_view: InspectReports,
}

impl MeteoApp {
    pub closed spec fn reports_view(self) -> Seq<Report> {
        self.reports@
    }

    pub closed spec fn viewing_view(self) -> Screen {
        self.viewing
    }

    pub closed spec fn dashboard_view(self) -> Dashboard {
        self.dashboard
    }

    pub closed spec fn inspect_view_view(self) -> InspectReports {
        self.inspect_view
    }

    /// The application over `reports`: listed most recent first with one
    /// report per period, all of the listed days in the overall view, one
    /// window per listed report, the overall view shown.
    pub fn new(reports: Vec<Report>) -> (r: MeteoApp)
        requires
            reports@.len() > 0,
        ensures
            is_listing_of(r.reports_view(), reports@),
            r.reports_view().len() > 0,
            r.dashboard_view().report_view().days() == all_days(r.reports_view()),
            r.dashboard_view().report_view().report.metadata == r.reports_view()[0].report.metadata,
            r.dashboard_view().displaying_view() == DisplayReport::Temperature,
            r.inspect_view_view().parameters_view().len() == r.reports_view().len(),
            forall|i: int|
                0 <= i < r.reports_view().len() ==> #[trigger] r.inspect_view_view().parameters_view()[i]
                    == (Parameter {
                    selected: i == r.reports_view().len() - 1,
                    displaying: DisplayReport::Temperature,
                }),
            r.viewing_view() == Screen::Dashboard,
    {
        let ghost s = reports@;
        let reports = list_reports(reports);
        proof {
            assert(has_date(reports@, report_date(s[0])));
        }
        MeteoApp {
            inspect_view: InspectReports::new(reports.as_slice()),
            dashboard: Dashboard::new(reports.as_slice()),
            viewing: Screen::default(),
            reports,
        }
    }

    pub fn reports(&self) -> (r: &Vec<Report>)
        ensures
            r@ == self.reports_view(),
    {
        &self.reports
    }

    pub fn viewing(&self) -> (r: Screen)
        ensures
            r == self.viewing_view(),
    {
        self.viewing
    }

    pub fn set_viewing(&mut self, v: Screen)
        ensures
            final(self).viewing_view() == v,
            final(self).reports_view() == old(self).reports_view(),
            final(self).dashboard_view() == old(self).dashboard_view(),
            final(self).inspect_view_view() == old(self).inspect_view_view(),
    {
        self.viewing = v;
    }

    pub fn dashboard(&self) -> (r: &Dashboard)
        ensures
            *r == self.dashboard_view(),
    {
        &self.dashboard
    }

    pub fn inspect_view(&self) -> (r: &InspectReports)
        ensures
            *r == self.inspect_view_view(),
    {
        &self.inspect_view
    }
}

} // verus!

//! The bar at the bottom of the results panel: what it says, and who may take it down.

use vstd::prelude::*;
use crate::plan::copy_value;
use crate::text::{cut, digits, plural_s, squeeze};
use crate::text::{decimal, one_line, plural, truncate};

verus! {

/// A streamed export that is running: which one, and the tab that started it.
#[derive(Clone, Copy, Debug, PartialEq, Eq, Structural)]
pub struct ExportRun {
    pub id: u64,
    pub tab: usize,
}

/// The numbers given to the exports of a process.
pub struct ExportRuns {
    pub next: u64,
}

impl ExportRuns {
    /// No export yet.
    pub fn new() -> (r: ExportRuns)
        ensures
            r.next == 1,
    {
        ExportRuns { next: 1 }
    }

    /// A fresh run for a tab. No two runs have the same number.
    pub fn start(&mut self, tab: usize) -> (r: ExportRun)
        requires
            old(self).next < u64::MAX,
        ensures
            r.id == old(self).next,
            r.tab == tab,
            final(self).next == old(self).next + 1,
    {
        let id: u64 = self.next;
        self.next = id + 1;
        ExportRun { id, tab }
    }
}

/// What the flag reads once `finished` has reported: only the run that holds it takes it down.
pub open spec fn flag_after(current: Option<ExportRun>, finished: ExportRun) -> Option<ExportRun> {
    if current == Some(finished) {
        None
    } else {
        current
    }
}

/// What the flag reads once `finished` has reported.
pub fn export_finished(current: Option<ExportRun>, finished: ExportRun) -> (r: Option<ExportRun>)
    ensures
        r == flag_after(current, finished),
{
    match current {
        Some(run) if run == finished => None,
        other => other,
    }
}

/// A run that was started later than the one that holds the flag leaves the flag alone, whichever
/// tab it is of.
pub proof fn a_later_run_keeps_the_flag(holder: ExportRun, later: ExportRun)
    requires
        holder.id < later.id,
    ensures
        flag_after(Some(holder), later) == Some(holder),
        flag_after(Some(holder), holder) is None,
{
}

/// A write that has not come back: what to say of it, and the one transaction of the user's own
/// that could be rolled back to let it through, by its tab and the tab's title.
pub struct WaitNote {
    pub text: String,
    pub rollback: Option<(usize, String)>,
}

/// Everything the bar can be asked to say.
pub struct Bar {
    pub batch_err: Option<String>,
    pub commit_err: Option<String>,
    pub commit_note: Option<String>,
    pub view_err: Option<String>,
    pub commit_wait: Option<WaitNote>,
    pub exporting: Option<ExportRun>,
    pub tab_id: usize,
}

/// Which of its states the bar is in, without the text.
#[derive(Clone, Copy, Debug, PartialEq, Eq, Structural)]
pub enum BarState {
    Error,
    Wait,
    Exporting,
    Note,
}

impl Bar {
    /// Whether the export that is running was started in this tab.
    pub open spec fn export_is_here(self) -> bool {
        self.exporting matches Some(run) && run.tab == self.tab_id
    }

    /// The error to show: that of the statement, else that of the write, else that of the
    /// filter.
    pub open spec fn error(self) -> Option<String> {
        if self.batch_err is Some {
            self.batch_err
        } else if self.commit_err is Some {
            self.commit_err
        } else {
            self.view_err
        }
    }

    /// An error before a write that waits, that before a running export, and that before a note.
    pub open spec fn state(self) -> Option<BarState> {
        if self.error() is Some {
            Some(BarState::Error)
        } else if self.commit_wait is Some {
            Some(BarState::Wait)
        } else if self.export_is_here() {
            Some(BarState::Exporting)
        } else if self.commit_note is Some {
            Some(BarState::Note)
        } else {
            None
        }
    }

    /// The bar without what it says of the last write.
    pub open spec fn cleared(self) -> Bar {
        Bar { commit_err: None, commit_note: None, ..self }
    }

    /// Whether the export that is running was started in this tab. The flag is the window's, and
    /// outlives a change of tab.
    pub fn exporting_here(&self) -> (r: bool)
        ensures
            r == self.export_is_here(),
    {
        match self.exporting {
            Some(run) => run.tab == self.tab_id,
            None => false,
        }
    }

    /// Whether the bar is up at all.
    pub fn any_up(&self) -> (r: bool)
        ensures
            r == (self.state() is Some),
    {
        self.batch_err.is_some() || self.commit_err.is_some() || self.commit_note.is_some()
            || self.view_err.is_some() || self.commit_wait.is_some() || self.exporting_here()
    }

    /// Which of its states the bar is in.
    pub fn grid_error_bar(&self) -> (r: Option<BarState>)
        ensures
            r == self.state(),
    {
        if self.batch_err.is_some() || self.commit_err.is_some() || self.view_err.is_some() {
            Some(BarState::Error)
        } else if self.commit_wait.is_some() {
            Some(BarState::Wait)
        } else if self.exporting_here() {
            Some(BarState::Exporting)
        } else if self.commit_note.is_some() {
            Some(BarState::Note)
        } else {
            None
        }
    }

    /// What the bar prints, on one line.
    pub open spec fn says(self) -> Option<Seq<char>> {
        match self.state() {
            None => None,
            Some(BarState::Error) => Some(squeeze(self.error()->0@)),
            Some(BarState::Wait) => Some(self.commit_wait->0.text@),
            Some(BarState::Exporting) => Some("Exporting…"@),
            Some(BarState::Note) => Some(self.commit_note->0@),
        }
    }

    /// What the bar prints. An error of several lines is put on one.
    pub fn message(&self) -> (r: Option<String>)
        ensures
            r is Some <==> self.says() is Some,
            r matches Some(m) ==> m@ == self.says()->0,
    {
        if let Some(e) = &self.batch_err {
            return Some(one_line(e.as_str()));
        }
        if let Some(e) = &self.commit_err {
            return Some(one_line(e.as_str()));
        }
        if let Some(e) = &self.view_err {
            return Some(one_line(e.as_str()));
        }
        if let Some(w) = &self.commit_wait {
            return Some(w.text.clone());
        }
        if self.exporting_here() {
            return Some("Exporting…".to_owned());
        }
        match &self.commit_note {
            Some(n) => Some(n.clone()),
            None => None,
        }
    }

    /// The error that the bar shows, in full.
    pub fn full_error(&self) -> (r: Option<String>)
        ensures
            r == self.error(),
    {
        if self.batch_err.is_some() {
            copy_value(&self.batch_err)
        } else if self.commit_err.is_some() {
            copy_value(&self.commit_err)
        } else {
            copy_value(&self.view_err)
        }
    }

    /// The tab whose transaction is in the way of a write that waits, where it can be ended.
    pub fn rollback_tab(&self) -> (r: Option<usize>)
        ensures
            r == match self.commit_wait {
                Some(w) => match w.rollback {
                    Some((tab, title)) => Some(tab),
                    None => None,
                },
                None => None,
            },
    {
        match &self.commit_wait {
            Some(w) => match &w.rollback {
                Some((tab, _)) => Some(*tab),
                None => None,
            },
            None => None,
        }
    }

    /// The label of the bar's action, where the state has one: the full error where the line
    /// hides a part of it, the end of the transaction that is in the way, the end of the export.
    pub open spec fn action_label(self, hides_detail: bool) -> Option<Seq<char>> {
        match self.state() {
            Some(BarState::Error) => if hides_detail {
                Some("View"@)
            } else {
                None
            },
            Some(BarState::Wait) => match self.commit_wait->0.rollback {
                Some((tab, title)) => Some("Roll back "@ + cut(title@, 10)),
                None => None,
            },
            Some(BarState::Exporting) => Some("Cancel"@),
            _ => None,
        }
    }

    /// The label of the bar's action. A tab's title is cut to fit.
    pub fn action(&self, hides_detail: bool) -> (r: Option<String>)
        ensures
            r is Some <==> self.action_label(hides_detail) is Some,
            r matches Some(m) ==> m@ == self.action_label(hides_detail)->0,
    {
        match self.grid_error_bar() {
            Some(BarState::Error) => if hides_detail {
                Some("View".to_owned())
            } else {
                None
            },
            Some(BarState::Wait) => match &self.commit_wait {
                Some(w) => match &w.rollback {
                    Some((_, title)) => {
                        let mut out: String = "Roll back ".to_owned();
                        out.append(truncate(title.as_str(), 10).as_str());
                        Some(out)
                    },
                    None => None,
                },
                None => None,
            },
            Some(BarState::Exporting) => Some("Cancel".to_owned()),
            _ => None,
        }
    }

    /// Take down what the bar says of the last write.
    pub fn clear_bar(&mut self)
        ensures
            *final(self) == old(self).cleared(),
    {
        self.commit_err = None;
        self.commit_note = None;
    }

    /// Take down everything that a click on the table dismisses: also a filter's error.
    pub fn dismiss(&mut self)
        ensures
            *final(self) == (Bar { view_err: None, ..old(self).cleared() }),
    {
        self.clear_bar();
        self.view_err = None;
    }

    /// Raise the flag of an export that is starting. Only a streamed one has a flag; what the bar
    /// still says of earlier work goes first, as an error would hide the export's Cancel.
    pub fn export_started(&mut self, run: ExportRun, streaming: bool)
        ensures
            *final(self) == if streaming {
                (Bar { view_err: None, exporting: Some(run), ..old(self).cleared() })
            } else {
                *old(self)
            },
    {
        if streaming {
            self.dismiss();
            self.exporting = Some(run);
        }
    }

    /// The report of an export: what it says goes up, then the flag comes down if it is this
    /// run's.
    pub fn export_reported(&mut self, run: ExportRun, outcome: ExportOutcome, name: &str)
        ensures
            final(self).exporting == flag_after(old(self).exporting, run),
            match outcome {
                ExportOutcome::Done(None) => final(self).commit_note == old(self).commit_note
                    && final(self).commit_err == old(self).commit_err,
                ExportOutcome::Done(Some(note)) => final(self).commit_note == Some(note)
                    && final(self).commit_err == old(self).commit_err,
                ExportOutcome::Cancelled => final(self).commit_note is Some
                    && final(self).commit_note->0@ == "Export cancelled — "@ + name@
                    + " is incomplete"@ && final(self).commit_err == old(self).commit_err,
                ExportOutcome::Failed(message) => final(self).commit_err == Some(message)
                    && final(self).commit_note == old(self).commit_note,
            },
            *final(self) == (Bar {
                exporting: final(self).exporting,
                commit_note: final(self).commit_note,
                commit_err: final(self).commit_err,
                ..*old(self)
            }),
    {
        match outcome {
            ExportOutcome::Done(None) => {},
            ExportOutcome::Done(Some(note)) => {
                self.commit_note = Some(note);
            },
            ExportOutcome::Cancelled => {
                let mut out: String = "Export cancelled — ".to_owned();
                out.append(name);
                out.append(" is incomplete");
                self.commit_note = Some(out);
            },
            ExportOutcome::Failed(message) => {
                self.commit_err = Some(message);
            },
        }
        self.exporting = export_finished(self.exporting, run);
    }
}

/// How an export ended: done, with what there is to say of it; stopped; or failed.
pub enum ExportOutcome {
    Done(Option<String>),
    Cancelled,
    Failed(String),
}

/// The name an export is reported by: that of its file, where it has one.
pub fn export_name(shown: &Option<String>) -> (r: String)
    ensures
        r@ == match *shown {
            Some(n) => n@,
            None => "the file"@,
        },
{
    match shown {
        Some(n) => n.clone(),
        None => "the file".to_owned(),
    }
}

/// While an export runs in the tab, a report that it ended with something to say leaves the bar
/// up.
pub proof fn a_reported_export_leaves_the_bar_up(bar: Bar, note: String)
    ensures
        (Bar { commit_note: Some(note), exporting: None, ..bar }).state() is Some,
        (Bar { commit_err: Some(note), exporting: None, ..bar }).state() is Some,
{
}

/// An export that runs in another tab does not put this tab's bar up.
pub proof fn an_export_elsewhere_is_not_shown(bar: Bar, run: ExportRun)
    requires
        run.tab != bar.tab_id,
    ensures
        (Bar { exporting: Some(run), ..bar }).state() == (Bar { exporting: None, ..bar }).state(),
{
}

/// The line shown for a statement that returned no rows.
pub open spec fn affected_text(n: nat, ms: nat) -> Seq<char> {
    digits(n) + " row"@ + plural_s(n) + " affected · "@ + digits(ms) + " ms"@
}

/// The line shown for a statement that returned no rows, or `None` where a grid is shown.
pub fn loaded_view(affected: Option<u64>, elapsed_ms: u128) -> (r: Option<String>)
    ensures
        r is Some <==> affected is Some,
        affected matches Some(n) ==> r->0@ == affected_text(n as nat, elapsed_ms as nat),
{
    match affected {
        Some(n) => {
            let mut out: String = decimal(n as u128);
            out.append(" row");
            out.append(plural(n, "", "s"));
            out.append(" affected · ");
            out.append(decimal(elapsed_ms).as_str());
            out.append(" ms");
            Some(out)
        },
        None => None,
    }
}

/// The stages of a query.
#[derive(Clone, Copy, Debug, PartialEq, Eq, Structural)]
pub enum Phase {
    Idle,
    Running,
    Loaded,
    Failed,
    Cancelled,
}

/// A query and what came of it.
pub enum QueryState<R> {
    Idle,
    Running,
    Loaded(R),
    Failed(String),
    Cancelled,
}

/// The stage of a query, whatever it holds. Two loaded results are in one stage.
pub fn phase_of<R>(qs: &QueryState<R>) -> (r: Phase)
    ensures
        r == match *qs {
            QueryState::Idle => Phase::Idle,
            QueryState::Running => Phase::Running,
            QueryState::Loaded(_) => Phase::Loaded,
            QueryState::Failed(_) => Phase::Failed,
            QueryState::Cancelled => Phase::Cancelled,
        },
{
    match qs {
        QueryState::Idle => Phase::Idle,
        QueryState::Running => Phase::Running,
        QueryState::Loaded(_) => Phase::Loaded,
        QueryState::Failed(_) => Phase::Failed,
        QueryState::Cancelled => Phase::Cancelled,
    }
}

/// What the results panel prints in a stage without rows.
pub open spec fn phase_text(p: Phase) -> Option<Seq<char>> {
    match p {
        Phase::Idle => Some("Run a query  (Ctrl+Enter)"@),
        Phase::Failed => Some("Query failed."@),
        Phase::Cancelled => Some("Query cancelled."@),
        Phase::Running | Phase::Loaded => None,
    }
}

/// What the results panel prints in a stage without rows; a running query has a spinner.
pub fn results_view(p: Phase) -> (r: Option<&'static str>)
    ensures
        r is Some <==> phase_text(p) is Some,
        r matches Some(m) ==> m@ == phase_text(p)->0,
{
    match p {
        Phase::Idle => Some("Run a query  (Ctrl+Enter)"),
        Phase::Failed => Some("Query failed."),
        Phase::Cancelled => Some("Query cancelled."),
        Phase::Running => None,
        Phase::Loaded => None,
    }
}

/// An error goes before everything else, that of the statement before that of the write, and that before
/// the filter's; then a write that waits, then an export of this tab, and a note comes last.
pub proof fn an_error_goes_first(b: Bar)
    ensures
        b.batch_err is Some ==> b.state() == Some(BarState::Error) && b.error() == b.batch_err,
        b.batch_err is None && b.commit_err is Some ==> b.state() == Some(BarState::Error) && b.error()
            == b.commit_err,
        b.batch_err is None && b.commit_err is None && b.view_err is Some ==> b.state() == Some(
            BarState::Error,
        ) && b.error() == b.view_err,
        b.batch_err is None && b.commit_err is None && b.view_err is None ==> {
            let here = b.exporting is Some && b.exporting->0.tab == b.tab_id;
            &&& b.commit_wait is Some ==> b.state() == Some(BarState::Wait)
            &&& b.commit_wait is None && here ==> b.state() == Some(BarState::Exporting)
            &&& b.commit_wait is None && !here && b.commit_note is Some ==> b.state() == Some(
                BarState::Note,
            )
            &&& b.commit_wait is None && !here && b.commit_note is None ==> b.state() is None
        },
{
}

/// What is taken down is what was said of the last write, and nothing else.
pub proof fn clearing_takes_down_the_last_write(b: Bar)
    ensures
        b.cleared().commit_err is None,
        b.cleared().commit_note is None,
        b.cleared().batch_err == b.batch_err,
        b.cleared().view_err == b.view_err,
        b.cleared().commit_wait == b.commit_wait,
        b.cleared().exporting == b.exporting,
        b.cleared().tab_id == b.tab_id,
{
}

/// What is printed is what the bar is up for: the error on one line, the wait or the note as it reads.
pub proof fn the_bar_prints_what_it_is_up_for(b: Bar)
    ensures
        b.state() is None <==> b.says() is None,
        b.state() == Some(BarState::Error) ==> b.says() == Some(squeeze(b.error()->0@)),
        b.state() == Some(BarState::Wait) ==> b.says() == Some(b.commit_wait->0.text@),
        b.state() == Some(BarState::Note) ==> b.says() == Some(b.commit_note->0@),
        b.state() == Some(BarState::Exporting) ==> b.says() == Some("Exporting…"@)
            && b.action_label(true) == Some("Cancel"@) && b.action_label(false) == Some("Cancel"@),
        b.state() == Some(BarState::Note) ==> b.action_label(true) is None && b.action_label(false) is None,
        b.state() == Some(BarState::Error) ==> b.action_label(true) is Some && b.action_label(false) is None,
        b.state() == Some(BarState::Wait) ==> (b.action_label(true) is Some
            <==> b.commit_wait->0.rollback is Some),
{
}

/// The bar's button says what it does: it shows an error that does not fit, and rolls back the tab that
/// holds up the write.
pub proof fn the_bars_button_says_what_it_does(b: Bar, tab: usize, title: String)
    ensures
        b.state() == Some(BarState::Error) ==> b.action_label(true) == Some("View"@),
        b.state() == Some(BarState::Wait) && b.commit_wait->0.rollback == Some((tab, title))
            ==> b.action_label(true) == Some("Roll back "@ + cut(title@, 10)) && b.action_label(false)
            == b.action_label(true),
{
}

/// A statement that returns no rows says how many it changed, one in the singular, and how long it took.
pub proof fn changed_rows_are_counted(n: nat, ms: nat)
    ensures
        affected_text(1, ms) == digits(1) + " row affected · "@ + digits(ms) + " ms"@,
        n != 1 ==> affected_text(n, ms) == digits(n) + " rows affected · "@ + digits(ms) + " ms"@,
{
    reveal_strlit(" row");
    reveal_strlit("s");
    reveal_strlit("");
    reveal_strlit(" affected · ");
    reveal_strlit(" row affected · ");
    reveal_strlit(" rows affected · ");
    assert(" row"@ + ""@ + " affected · "@ =~= " row affected · "@);
    assert(" row"@ + "s"@ + " affected · "@ =~= " rows affected · "@);
    assert(affected_text(1, ms) =~= digits(1) + (" row"@ + ""@ + " affected · "@) + digits(ms)
        + " ms"@);
    assert(n != 1 ==> affected_text(n, ms) =~= digits(n) + (" row"@ + "s"@ + " affected · "@)
        + digits(ms) + " ms"@);
}

/// An empty pane says why it is empty; one whose statement runs, or has run, says nothing.
pub proof fn an_empty_pane_says_why(p: Phase)
    ensures
        phase_text(Phase::Idle) == Some("Run a query  (Ctrl+Enter)"@),
        phase_text(Phase::Failed) == Some("Query failed."@),
        phase_text(Phase::Cancelled) == Some("Query cancelled."@),
        p == Phase::Running || p == Phase::Loaded ==> phase_text(p) is None,
{
}

} // verus!

//! One invocation, as a sequence of decisions.
//!
//! An invocation checks that the configuration tool is there, finds the
//! project root, runs the user's command, stores where and how it was run,
//! and snapshots the configuration directory. All of that work is done
//! outside: a [`Session`] says which [`Action`] is due, the caller performs
//! it and reports the [`Event`], and [`Session::advance`] decides what
//! follows. A failure ends the session at once, with one exception: a
//! snapshot that fails leaves a warning and the session still succeeds.

use crate::config::Config;
use crate::config_helper::{
    check_c2rust_config_exists, get_c2rust_config_path, probe_call, save_call, save_call_of,
    save_field_result, save_verdict, SaveField,
};
use crate::error::{prefixed, CleanError, CleanErrorView};
use crate::executor::{
    command_line, command_line_text, command_result, command_verdict, execute_command, launch_of,
    Launch, LaunchView,
};
use crate::git_helper::StoreState;
use crate::path::{relative_dir, NormalPath, PathView};
use crate::process::{ProcessOutcome, ToolCall, ToolCallView};
use crate::root::{project_root_of, resolve_root, resolved_root, MarkerProbe, RootOverride};
use crate::text::{chars_of, texts};
use vstd::prelude::*;
use vstd::string::*;

verus! {

/// What the user asked for, fixed when the session starts.
#[derive(Debug)]
pub struct Request {
    /// The program to run as the configuration tool.
    pub tool: String,
    /// The feature under which the record is stored.
    pub feature: String,
    /// The user's command, token by token.
    pub command: Vec<String>,
    /// Whether the configuration directory is snapshotted at the end.
    pub auto_commit: bool,
}

/// The mathematical value of a [`Request`].
pub struct RequestView {
    pub tool: Seq<char>,
    pub feature: Seq<char>,
    pub command: Seq<Seq<char>>,
    pub auto_commit: bool,
}

impl View for Request {
    type V = RequestView;

    open spec fn view(&self) -> RequestView {
        RequestView {
            tool: self.tool@,
            feature: self.feature@,
            command: texts(self.command@),
            auto_commit: self.auto_commit,
        }
    }
}

/// Where the invocation takes place, known once the root is resolved.
#[derive(Debug)]
pub struct Place {
    pub current_dir: NormalPath,
    pub root: NormalPath,
}

/// The mathematical value of a [`Place`].
pub struct PlaceView {
    pub current_dir: PathView,
    pub root: PathView,
}

impl View for Place {
    type V = PlaceView;

    open spec fn view(&self) -> PlaceView {
        PlaceView { current_dir: self.current_dir@, root: self.root@ }
    }
}

/// What the caller found out about the place of the invocation.
#[derive(Debug)]
pub struct Location {
    /// The directory in which the invocation was started.
    pub current_dir: NormalPath,
    /// The root handed in from outside, if any.
    pub root_override: Option<RootOverride>,
    /// The markers of each directory from `current_dir` upwards.
    pub probes: Vec<MarkerProbe>,
}

/// The mathematical value of a [`Location`].
pub struct LocationView {
    pub current_dir: PathView,
    pub root_override: Option<RootOverride>,
    pub probes: Seq<MarkerProbe>,
}

impl View for Location {
    type V = LocationView;

    open spec fn view(&self) -> LocationView {
        LocationView {
            current_dir: self.current_dir@,
            root_override: self.root_override,
            probes: self.probes@,
        }
    }
}

/// How a session ended.
#[derive(Debug)]
pub struct Report {
    /// The exit code of the process.
    pub code: i32,
    /// The failure that ended the session, if one did.
    pub error: Option<CleanError>,
    /// What went wrong without ending the session, if anything.
    pub warning: Option<String>,
}

/// The mathematical value of a [`Report`].
pub struct ReportView {
    pub code: int,
    pub error: Option<CleanErrorView>,
    pub warning: Option<Seq<char>>,
}

impl View for Report {
    type V = ReportView;

    open spec fn view(&self) -> ReportView {
        ReportView {
            code: self.code as int,
            error: match self.error {
                Some(e) => Some(e@),
                None => None,
            },
            warning: match self.warning {
                Some(w) => Some(w@),
                None => None,
            },
        }
    }
}

/// The state of an invocation: what is being waited for, or how it ended.
#[derive(Debug)]
pub enum Session {
    /// Waiting for the probe of the configuration tool.
    CheckingTool(Request),
    /// Waiting for the current directory and its markers.
    Locating(Request),
    /// Waiting for the user's command to end.
    Executing(Request, Place),
    /// Waiting for the directory to be stored.
    SavingDir(Request, Place),
    /// Waiting for the command line to be stored.
    SavingCommand(Request, Place),
    /// Waiting for the snapshot of the configuration directory.
    Committing(Request, Place),
    /// Over.
    Finished(Report),
}

/// The mathematical value of a [`Session`].
pub enum SessionView {
    CheckingTool(RequestView),
    Locating(RequestView),
    Executing(RequestView, PlaceView),
    SavingDir(RequestView, PlaceView),
    SavingCommand(RequestView, PlaceView),
    Committing(RequestView, PlaceView),
    Finished(ReportView),
}

impl View for Session {
    type V = SessionView;

    open spec fn view(&self) -> SessionView {
        match *self {
            Session::CheckingTool(q) => SessionView::CheckingTool(q@),
            Session::Locating(q) => SessionView::Locating(q@),
            Session::Executing(q, p) => SessionView::Executing(q@, p@),
            Session::SavingDir(q, p) => SessionView::SavingDir(q@, p@),
            Session::SavingCommand(q, p) => SessionView::SavingCommand(q@, p@),
            Session::Committing(q, p) => SessionView::Committing(q@, p@),
            Session::Finished(r) => SessionView::Finished(r@),
        }
    }
}

/// What the caller reports back after performing an action.
#[derive(Debug)]
pub enum Event {
    /// The probe of the configuration tool ended.
    ToolProbed(ProcessOutcome),
    /// The place of the invocation was looked up, or could not be.
    Located(Result<Location, CleanError>),
    /// The user's command ended.
    Executed(ProcessOutcome),
    /// A call that stores one field ended.
    FieldStored(ProcessOutcome),
    /// The snapshot was attempted.
    AutoCommitted(Result<StoreState, CleanError>),
}

/// The mathematical value of an [`Event`].
pub enum EventView {
    ToolProbed(ProcessOutcome),
    Located(Result<LocationView, CleanErrorView>),
    Executed(ProcessOutcome),
    FieldStored(ProcessOutcome),
    AutoCommitted(Result<StoreState, CleanErrorView>),
}

impl View for Event {
    type V = EventView;

    open spec fn view(&self) -> EventView {
        match *self {
            Event::ToolProbed(o) => EventView::ToolProbed(o),
            Event::Located(r) => EventView::Located(
                match r {
                    Ok(l) => Ok(l@),
                    Err(e) => Err(e@),
                },
            ),
            Event::Executed(o) => EventView::Executed(o),
            Event::FieldStored(o) => EventView::FieldStored(o),
            Event::AutoCommitted(r) => EventView::AutoCommitted(
                match r {
                    Ok(s) => Ok(s),
                    Err(e) => Err(e@),
                },
            ),
        }
    }
}

/// What the caller is asked to do next.
#[derive(Debug)]
pub enum Action {
    /// Run the liveness probe of the configuration tool.
    ProbeTool(ToolCall),
    /// Look up the current directory, the root override and the markers.
    Locate,
    /// Run the user's command.
    Execute(Launch),
    /// Run a call of the configuration tool that stores one field.
    StoreField(ToolCall),
    /// Snapshot the configuration directory of the project at this root.
    AutoCommit(NormalPath),
    /// Leave; the session holds the report.
    Exit,
}

/// The mathematical value of an [`Action`].
pub enum ActionView {
    ProbeTool(ToolCallView),
    Locate,
    Execute(LaunchView),
    StoreField(ToolCallView),
    AutoCommit(PathView),
    Exit,
}

impl View for Action {
    type V = ActionView;

    open spec fn view(&self) -> ActionView {
        match *self {
            Action::ProbeTool(c) => ActionView::ProbeTool(c@),
            Action::Locate => ActionView::Locate,
            Action::Execute(l) => ActionView::Execute(l@),
            Action::StoreField(c) => ActionView::StoreField(c@),
            Action::AutoCommit(p) => ActionView::AutoCommit(p@),
            Action::Exit => ActionView::Exit,
        }
    }
}

/// The report of a session that a failure ended.
pub open spec fn failure(e: CleanErrorView) -> ReportView {
    ReportView { code: 1, error: Some(e), warning: None }
}

/// The report of a session that went through without complaint.
pub open spec fn success() -> ReportView {
    ReportView { code: 0, error: None, warning: None }
}

/// The warning left by a snapshot that failed.
pub open spec fn commit_warning(e: CleanErrorView) -> Seq<char> {
    "Warning: Auto-commit failed: "@ + crate::error::message_text(e)
}

/// The report of a session whose snapshot was attempted: a success in any
/// case, with a warning when the snapshot failed.
pub open spec fn commit_report(outcome: Result<StoreState, CleanErrorView>) -> ReportView {
    match outcome {
        Ok(_) => success(),
        Err(e) => ReportView { code: 0, error: None, warning: Some(commit_warning(e)) },
    }
}

/// The root for a location: the override decides if there is one, the
/// markers decide otherwise.
pub open spec fn located_root(l: LocationView) -> Result<PathView, CleanErrorView> {
    match l.root_override {
        Some(_) => project_root_of(l.root_override),
        None => Ok(resolved_root(l.current_dir, l.probes)),
    }
}

/// The feature to store under when none was asked for.
pub open spec fn default_feature() -> Seq<char> {
    "default"@
}

/// Whether `v` spells `false`, in any mix of upper and lower case.
pub open spec fn spells_false(v: Seq<char>) -> bool {
    &&& v.len() == 5
    &&& (v[0] == 'f' || v[0] == 'F')
    &&& (v[1] == 'a' || v[1] == 'A')
    &&& (v[2] == 'l' || v[2] == 'L')
    &&& (v[3] == 's' || v[3] == 'S')
    &&& (v[4] == 'e' || v[4] == 'E')
}

/// Whether a setting switches the snapshot off: any value does, except
/// the empty one, `0`, and `false` in any case.
pub open spec fn switches_off(setting: Option<Seq<char>>) -> bool {
    match setting {
        None => false,
        Some(v) => v.len() > 0 && v != seq!['0'] && !spells_false(v),
    }
}

/// The session after an event.
///
/// Each state accepts the one event that answers its action; any other
/// event leaves the session as it is.
pub open spec fn step(s: SessionView, e: EventView) -> SessionView {
    match (s, e) {
        (SessionView::CheckingTool(q), EventView::ToolProbed(o)) => if o.succeeded() {
            SessionView::Locating(q)
        } else {
            SessionView::Finished(failure(CleanErrorView::ConfigToolNotFound))
        },
        (SessionView::Locating(q), EventView::Located(Err(err))) => SessionView::Finished(
            failure(err),
        ),
        (SessionView::Locating(q), EventView::Located(Ok(l))) => match located_root(l) {
            Err(err) => SessionView::Finished(failure(err)),
            Ok(root) => match launch_of(l.current_dir.text(), q.command) {
                Err(err) => SessionView::Finished(failure(err)),
                Ok(_) => SessionView::Executing(
                    q,
                    PlaceView { current_dir: l.current_dir, root: root },
                ),
            },
        },
        (SessionView::Executing(q, p), EventView::Executed(o)) => match command_verdict(
            q.command,
            o,
        ) {
            Err(err) => SessionView::Finished(failure(err)),
            Ok(_) => SessionView::SavingDir(q, p),
        },
        (SessionView::SavingDir(q, p), EventView::FieldStored(o)) => match save_verdict(
            SaveField::Dir,
            o,
        ) {
            Err(err) => SessionView::Finished(failure(err)),
            Ok(_) => SessionView::SavingCommand(q, p),
        },
        (SessionView::SavingCommand(q, p), EventView::FieldStored(o)) => match save_verdict(
            SaveField::Command,
            o,
        ) {
            Err(err) => SessionView::Finished(failure(err)),
            Ok(_) => if q.auto_commit {
                SessionView::Committing(q, p)
            } else {
                SessionView::Finished(success())
            },
        },
        (SessionView::Committing(q, p), EventView::AutoCommitted(outcome)) => {
            SessionView::Finished(commit_report(outcome))
        },
        _ => s,
    }
}

/// The call that stores one field of what this session records: the
/// directory relative to the root, or the command as one line.
pub open spec fn store_call(field: SaveField, q: RequestView, p: PlaceView) -> ToolCallView {
    save_call_of(
        field,
        q.tool,
        relative_dir(p.root, p.current_dir),
        command_line_text(q.command),
        Some(q.feature),
    )
}

/// The action that a session is waiting for.
///
/// A session reaches the executing state only with a command to run. One
/// that was put together by hand in that state without a command has
/// nothing to run, and is asked to leave.
pub open spec fn pending_of(s: SessionView) -> ActionView {
    match s {
        SessionView::CheckingTool(q) => ActionView::ProbeTool(
            ToolCallView { program: q.tool, args: seq!["--help"@] },
        ),
        SessionView::Locating(_) => ActionView::Locate,
        SessionView::Executing(q, p) => match launch_of(p.current_dir.text(), q.command) {
            Ok(l) => ActionView::Execute(l),
            Err(_) => ActionView::Exit,
        },
        SessionView::SavingDir(q, p) => ActionView::StoreField(store_call(SaveField::Dir, q, p)),
        SessionView::SavingCommand(q, p) => ActionView::StoreField(
            store_call(SaveField::Command, q, p),
        ),
        SessionView::Committing(_, p) => ActionView::AutoCommit(p.root),
        SessionView::Finished(_) => ActionView::Exit,
    }
}

/// The session after a sequence of events.
pub open spec fn run(s: SessionView, events: Seq<EventView>) -> SessionView
    decreases events.len(),
{
    if events.len() == 0 {
        s
    } else {
        run(step(s, events[0]), events.drop_first())
    }
}

/// A finished session stays as it is, whatever is reported to it.
pub proof fn lemma_finished_is_final(report: ReportView, events: Seq<EventView>)
    ensures
        run(SessionView::Finished(report), events) == SessionView::Finished(report),
    decreases events.len(),
{
    if events.len() > 0 {
        lemma_finished_is_final(report, events.drop_first());
    }
}

/// A snapshot that fails does not fail the invocation: once the command
/// has run and the record is stored, the session ends with exit code 0 and
/// without an error, whatever the snapshot came to.
pub proof fn lemma_snapshot_never_fails_the_run(
    q: RequestView,
    p: PlaceView,
    outcome: Result<StoreState, CleanErrorView>,
    later: Seq<EventView>,
)
    ensures
        run(SessionView::Committing(q, p), seq![EventView::AutoCommitted(outcome)] + later)
            matches SessionView::Finished(report) && report.code == 0 && report.error is None && (
        outcome is Err <==> report.warning is Some),
{
    let events = seq![EventView::AutoCommitted(outcome)] + later;
    assert(events.drop_first() =~= later);
    lemma_finished_is_final(commit_report(outcome), later);
}

/// Without the configuration tool nothing is run: a probe that does not
/// succeed ends the session with exit code 1 and the failure that says
/// that the tool was not found, and no later event changes that.
pub proof fn lemma_missing_tool_stops_the_run(
    q: RequestView,
    probe: ProcessOutcome,
    later: Seq<EventView>,
)
    requires
        !probe.succeeded(),
    ensures
        run(SessionView::CheckingTool(q), seq![EventView::ToolProbed(probe)] + later)
            == SessionView::Finished(failure(CleanErrorView::ConfigToolNotFound)),
        pending_of(SessionView::Finished(failure(CleanErrorView::ConfigToolNotFound)))
            == ActionView::Exit,
{
    let events = seq![EventView::ToolProbed(probe)] + later;
    assert(events.drop_first() =~= later);
    lemma_finished_is_final(failure(CleanErrorView::ConfigToolNotFound), later);
}

/// Whether a setting switches the snapshot off.
pub fn auto_commit_disabled(setting: Option<&str>) -> (r: bool)
    ensures
        r == switches_off(crate::config_helper::option_text(setting)),
{
    match setting {
        None => false,
        Some(text) => {
            let v = chars_of(text);
            if v.len() == 0 {
                return false;
            }
            if v.len() == 1 && v[0] == '0' {
                assert(v@ =~= seq!['0']);
                return false;
            }
            proof {
                if v@ == seq!['0'] {
                    assert(seq!['0'].len() == 1);
                    assert(seq!['0'][0] == '0');
                }
            }
            let spelled: bool = v.len() == 5 && (v[0] == 'f' || v[0] == 'F') && (v[1] == 'a'
                || v[1] == 'A') && (v[2] == 'l' || v[2] == 'L') && (v[3] == 's' || v[3] == 'S')
                && (v[4] == 'e' || v[4] == 'E');
            !spelled
        },
    }
}

/// The feature to store under: the one asked for, or `default`.
pub fn feature_or_default(feature: Option<&str>) -> (r: String)
    ensures
        r@ == match feature {
            Some(f) => f@,
            None => default_feature(),
        },
{
    match feature {
        Some(f) => String::from_str(f),
        None => String::from_str("default"),
    }
}

fn fail(error: CleanError) -> (r: Session)
    ensures
        r@ == SessionView::Finished(failure(error@)),
{
    Session::Finished(Report { code: 1, error: Some(error), warning: None })
}

fn succeed() -> (r: Session)
    ensures
        r@ == SessionView::Finished(success()),
{
    Session::Finished(Report { code: 0, error: None, warning: None })
}

impl Session {
    /// Starts a session.
    ///
    /// `tool_setting` is the configured path of the configuration tool, and
    /// `commit_setting` the value of the switch that turns the snapshot
    /// off; both are `None` when nothing is configured.
    pub fn start(
        feature: Option<&str>,
        command: Vec<String>,
        tool_setting: Option<&str>,
        commit_setting: Option<&str>,
    ) -> (r: Session)
        ensures
            r@ == SessionView::CheckingTool(
                RequestView {
                    tool: match tool_setting {
                        Some(t) => t@,
                        None => "c2rust-config"@,
                    },
                    feature: match feature {
                        Some(f) => f@,
                        None => default_feature(),
                    },
                    command: texts(command@),
                    auto_commit: !switches_off(crate::config_helper::option_text(commit_setting)),
                },
            ),
    {
        Session::CheckingTool(
            Request {
                tool: get_c2rust_config_path(tool_setting),
                feature: feature_or_default(feature),
                command: command,
                auto_commit: !auto_commit_disabled(commit_setting),
            },
        )
    }

    /// The action that this session is waiting for.
    pub fn pending(&self) -> (r: Action)
        ensures
            r@ == pending_of(self@),
    {
        match self {
            Session::CheckingTool(q) => Action::ProbeTool(probe_call(q.tool.as_str())),
            Session::Locating(_) => Action::Locate,
            Session::Executing(q, p) => {
                let dir = p.current_dir.to_text();
                match execute_command(dir.as_str(), &q.command) {
                    Ok(launch) => Action::Execute(launch),
                    Err(_) => Action::Exit,
                }
            },
            Session::SavingDir(q, p) => Action::StoreField(store(SaveField::Dir, q, p)),
            Session::SavingCommand(q, p) => Action::StoreField(store(SaveField::Command, q, p)),
            Session::Committing(_, p) => Action::AutoCommit(p.root.duplicate()),
            Session::Finished(_) => Action::Exit,
        }
    }

    /// The session after `event`.
    pub fn advance(self, event: Event) -> (r: Session)
        ensures
            r@ == step(self@, event@),
    {
        match (self, event) {
            (Session::CheckingTool(q), Event::ToolProbed(o)) => {
                match check_c2rust_config_exists(&o) {
                    Ok(_) => Session::Locating(q),
                    Err(e) => fail(e),
                }
            },
            (Session::Locating(q), Event::Located(Err(e))) => fail(e),
            (Session::Locating(q), Event::Located(Ok(l))) => {
                let Location { current_dir, root_override, probes } = l;
                match resolve_root(root_override, &current_dir, &probes) {
                    Err(e) => fail(e),
                    Ok(root) => {
                        let dir = current_dir.to_text();
                        match execute_command(dir.as_str(), &q.command) {
                            Err(e) => fail(e),
                            Ok(_) => Session::Executing(
                                q,
                                Place { current_dir: current_dir, root: root },
                            ),
                        }
                    },
                }
            },
            (Session::Executing(q, p), Event::Executed(o)) => {
                match command_result(&q.command, &o) {
                    Err(e) => fail(e),
                    Ok(_) => Session::SavingDir(q, p),
                }
            },
            (Session::SavingDir(q, p), Event::FieldStored(o)) => {
                match save_field_result(SaveField::Dir, &o) {
                    Err(e) => fail(e),
                    Ok(_) => Session::SavingCommand(q, p),
                }
            },
            (Session::SavingCommand(q, p), Event::FieldStored(o)) => {
                match save_field_result(SaveField::Command, &o) {
                    Err(e) => fail(e),
                    Ok(_) => {
                        if q.auto_commit {
                            Session::Committing(q, p)
                        } else {
                            succeed()
                        }
                    },
                }
            },
            (Session::Committing(q, p), Event::AutoCommitted(outcome)) => {
                match outcome {
                    Ok(_) => succeed(),
                    Err(e) => {
                        let text = e.message();
                        let warning = prefixed("Warning: Auto-commit failed: ", text.as_str());
                        Session::Finished(
                            Report { code: 0, error: None, warning: Some(warning) },
                        )
                    },
                }
            },
            (s, _) => s,
        }
    }
}

fn store(field: SaveField, q: &Request, p: &Place) -> (r: ToolCall)
    ensures
        r@ == store_call(field, q@, p@),
{
    let line = command_line(&q.command);
    let relative = match Config::calculate_relative_dir(&p.root, &p.current_dir) {
        Ok(text) => text,
        Err(_) => String::from_str("."),
    };
    save_call(field, q.tool.as_str(), relative.as_str(), line.as_str(), Some(q.feature.as_str()))
}

} // verus!

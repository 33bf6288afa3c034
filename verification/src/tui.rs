//! The interactive screen: what each key does, what is shown, and which log is
//! followed.

use crate::cli::{pid_text, show_pid};
use crate::error::{outcome, ErrorView, PyopsError};
use crate::ipc::{is_part, part, WireResponse};
use crate::model::{
    summaries_view, AgentEvent, AppStatus, AppSummary, EventView, IpcRequest, LogEventView, LogSource,
    RequestView, StreamLogEvent, SummaryView,
};
use crate::text::{
    ascii_lower, blank, cat2, cat3, chars_of, contains, decimal_int, has_infix, is_blank,
    pad_right, padded, same, slice_text, texts, u64_text,
};
use std::collections::VecDeque;
use vstd::prelude::*;
use vstd::utf8::{decode_utf8, encode_utf8, is_char_boundary};

verus! {

#[derive(Debug, Clone, Copy, PartialEq, Eq, Structural)]
pub enum ActivePane {
    List,
    Details,
    Logs,
}

#[derive(Debug, Clone, Copy, PartialEq, Eq, Structural)]
pub enum InputMode {
    Normal,
    Filter,
}

#[derive(Debug)]
pub struct UiState {
    pub selected_app_index: usize,
    pub active_pane: ActivePane,
    pub filter_query: String,
    pub log_follow_enabled: bool,
    pub log_source: LogSource,
    pub show_logs: bool,
    pub input_mode: InputMode,
    pub esc_state: u8,
}

pub struct UiView {
    pub selected: usize,
    pub pane: ActivePane,
    pub filter: Seq<char>,
    pub follow: bool,
    pub source: LogSource,
    pub show_logs: bool,
    pub mode: InputMode,
    pub esc: u8,
}

impl View for UiState {
    type V = UiView;

    open spec fn view(&self) -> UiView {
        UiView {
            selected: self.selected_app_index,
            pane: self.active_pane,
            filter: self.filter_query@,
            follow: self.log_follow_enabled,
            source: self.log_source,
            show_logs: self.show_logs,
            mode: self.input_mode,
            esc: self.esc_state,
        }
    }
}

impl Default for UiState {
    fn default() -> (r: Self)
        ensures
            r@ == (UiView {
                selected: 0,
                pane: ActivePane::List,
                filter: ""@,
                follow: true,
                source: LogSource::Both,
                show_logs: true,
                mode: InputMode::Normal,
                esc: 0,
            }),
    {
        UiState {
            selected_app_index: 0,
            active_pane: ActivePane::List,
            filter_query: "".to_string(),
            log_follow_enabled: true,
            log_source: LogSource::Both,
            show_logs: true,
            input_mode: InputMode::Normal,
            esc_state: 0,
        }
    }
}

/// Whether the screen can be used: it may have been left out of the build.
pub fn run(built_in: bool) -> (r: Result<(), PyopsError>)
    ensures
        outcome(r) == if built_in {
            Ok::<(), ErrorView>(())
        } else {
            Err(ErrorView::Config("tui disabled at build time"@))
        },
{
    if built_in {
        Ok(())
    } else {
        Err(PyopsError::Config("tui disabled at build time".to_string()))
    }
}

/// What the reply to a request for the list of apps carries.
pub fn fetch_apps<T>(resp: WireResponse<T>) -> (r: Result<T, PyopsError>)
    ensures
        resp.carries("failed to fetch app list"@, "list_apps returned empty payload"@, r),
{
    resp.payload("failed to fetch app list", "list_apps returned empty payload")
}

/// The apps in that.
pub fn fetched_apps<T>(found: Option<T>) -> (r: Result<T, PyopsError>)
    ensures
        is_part(found, "list_apps payload missing 'apps'"@, r),
{
    part(found, "list_apps payload missing 'apps'")
}

/// What the reply to a request for the end of a log carries; nothing is shown
/// where the request was not carried out.
pub fn fetch_logs<T>(resp: WireResponse<T>) -> (r: Option<T>)
    ensures
        r == if resp.ok {
            resp.data
        } else {
            None
        },
{
    resp.carried()
}

// ---- Filtering ----

/// A text in lower case: what `str::to_lowercase` makes of it.
pub uninterp spec fn lower_text(text: Seq<char>) -> Seq<char>;

/// `str::to_lowercase`: the text with each character replaced by its lower case
/// by the tables of Unicode. Stated of it beside its name is what it is of an
/// ASCII text.
#[verifier::external_body]
fn to_lower(text: &str) -> (r: String)
    ensures
        r@ == lower_text(text@),
        (forall|i: int| 0 <= i < text@.len() ==> (text@[i] as u32) < 128) ==> r@ == ascii_lower(
            text@,
        ),
{
    text.to_lowercase()
}

/// Whether an app is shown, given its name, its entry point and what is looked
/// for, all in lower case.
pub open spec fn found(name: Seq<char>, entry: Seq<char>, query: Seq<char>) -> bool {
    has_infix(name, query) || has_infix(entry, query)
}

/// Whether an app is shown, given its name, its entry point and what is looked
/// for, all in lower case.
pub fn is_found(name: &str, entry: &str, query: &str) -> (r: bool)
    ensures
        r == found(name@, entry@, query@),
{
    contains(name, query) || contains(entry, query)
}

/// Which apps are shown while `query` is looked for.
pub open spec fn shown_for(query: Seq<char>) -> spec_fn(SummaryView) -> bool {
    |a: SummaryView|
        blank(query) || found(lower_text(a.name), lower_text(a.entry), lower_text(query))
}

fn is_shown(app: &AppSummary, query: &str) -> (r: bool)
    ensures
        r == shown_for(query@)(app@),
{
    if is_blank(query) {
        return true;
    }
    let name = to_lower(app.name.as_str());
    let entry = to_lower(app.entry.as_str());
    let wanted = to_lower(query);
    is_found(name.as_str(), entry.as_str(), wanted.as_str())
}

/// The apps that are shown while `query` is looked for, in their order.
pub fn apply_filter(apps: &Vec<AppSummary>, query: &str) -> (r: Vec<AppSummary>)
    ensures
        summaries_view(r@) == summaries_view(apps@).filter(shown_for(query@)),
{
    let ghost all = summaries_view(apps@);
    let ghost pred = shown_for(query@);
    let mut out: Vec<AppSummary> = Vec::new();
    let mut i: usize = 0;
    proof {
        reveal(Seq::filter);
        assert(summaries_view(out@) =~= all.take(0).filter(pred));
    }
    while i < apps.len()
        invariant
            all == summaries_view(apps@),
            pred == shown_for(query@),
            i <= apps@.len(),
            summaries_view(out@) == all.take(i as int).filter(pred),
        decreases apps@.len() - i,
    {
        let ghost before = summaries_view(out@);
        proof {
            reveal(Seq::filter);
            assert(all.take(i + 1).drop_last() =~= all.take(i as int));
            assert(all.take(i + 1).last() == apps@[i as int]@);
        }
        if is_shown(&apps[i], query) {
            let copy = apps[i].clone();
            let ghost added = copy@;
            out.push(copy);
            assert(summaries_view(out@) =~= before.push(added));
        }
        i += 1;
    }
    assert(all.take(i as int) =~= all);
    out
}

// ---- Keys ----

impl UiView {
    /// One app up.
    pub open spec fn up(self, len: nat) -> UiView {
        UiView {
            selected: if len == 0 || self.selected == 0 {
                0
            } else {
                (self.selected - 1) as usize
            },
            ..self
        }
    }

    /// One app down.
    pub open spec fn down(self, len: nat) -> UiView {
        UiView {
            selected: if len == 0 {
                0
            } else if self.selected + 1 < len {
                (self.selected + 1) as usize
            } else {
                self.selected
            },
            ..self
        }
    }

    /// With the selection inside a list of that length.
    pub open spec fn clamped(self, len: nat) -> UiView {
        UiView {
            selected: if len == 0 {
                0
            } else if self.selected >= len {
                (len - 1) as usize
            } else {
                self.selected
            },
            ..self
        }
    }

    /// After a key was pressed while a filter is typed in, with the apps that
    /// are then shown.
    pub open spec fn typed(self, key: u8, shown: Seq<SummaryView>, all: Seq<SummaryView>) -> (
        UiView,
        Seq<SummaryView>,
    ) {
        if key == 10 || key == 13 {
            (
                UiView { mode: InputMode::Normal, selected: 0, ..self },
                all.filter(shown_for(self.filter)),
            )
        } else if key == 27 {
            (UiView { mode: InputMode::Normal, ..self }, shown)
        } else if key == 127 {
            let filter = if self.filter.len() > 0 {
                self.filter.drop_last()
            } else {
                self.filter
            };
            let list = all.filter(shown_for(filter));
            (UiView { filter, ..self }.clamped(list.len()), list)
        } else if 32 <= key <= 126 {
            let filter = self.filter.push(key as char);
            let list = all.filter(shown_for(filter));
            (UiView { filter, ..self }.clamped(list.len()), list)
        } else {
            (self, shown)
        }
    }

    /// The pane after this one.
    pub open spec fn next_pane(self) -> ActivePane {
        match self.pane {
            ActivePane::List => ActivePane::Details,
            ActivePane::Details => ActivePane::Logs,
            ActivePane::Logs => ActivePane::List,
        }
    }

    /// After a key was pressed while no filter is typed in. The arrow keys come
    /// as an escape, a bracket and a letter.
    pub open spec fn pressed(self, key: u8, len: nat) -> UiView {
        if key == 113 {
            self
        } else if key == 47 {
            UiView { mode: InputMode::Filter, ..self }
        } else if key == 10 || key == 13 {
            UiView { pane: self.next_pane(), ..self }
        } else if key == 107 {
            self.up(len)
        } else if key == 106 {
            self.down(len)
        } else if key == 27 {
            UiView { esc: 1, ..self }
        } else if key == 91 && self.esc == 1 {
            UiView { esc: 2, ..self }
        } else if key == 65 && self.esc == 2 {
            UiView { esc: 0, ..self.up(len) }
        } else if key == 66 && self.esc == 2 {
            UiView { esc: 0, ..self.down(len) }
        } else {
            UiView { esc: 0, ..self }
        }
    }

    /// After a key was pressed: the screen, the apps that are shown, and whether
    /// to leave.
    pub open spec fn keyed(self, key: u8, shown: Seq<SummaryView>, all: Seq<SummaryView>) -> (
        UiView,
        Seq<SummaryView>,
        bool,
    ) {
        if self.mode == InputMode::Filter {
            let (ui, list) = self.typed(key, shown, all);
            (ui, list, false)
        } else {
            (self.pressed(key, shown.len()), shown, key == 113)
        }
    }
}

pub fn move_up(ui: &mut UiState, len: usize)
    ensures
        final(ui)@ == old(ui)@.up(len as nat),
{
    if len == 0 {
        ui.selected_app_index = 0;
        return;
    }
    if ui.selected_app_index > 0 {
        ui.selected_app_index -= 1;
    }
}

pub fn move_down(ui: &mut UiState, len: usize)
    ensures
        final(ui)@ == old(ui)@.down(len as nat),
{
    if len == 0 {
        ui.selected_app_index = 0;
        return;
    }
    if ui.selected_app_index < len && ui.selected_app_index + 1 < len {
        ui.selected_app_index += 1;
    }
}

pub fn clamp_selection(ui: &mut UiState, len: usize)
    ensures
        final(ui)@ == old(ui)@.clamped(len as nat),
{
    if len == 0 {
        ui.selected_app_index = 0;
        return;
    }
    if ui.selected_app_index >= len {
        ui.selected_app_index = len - 1;
    }
}

fn without_last(text: &str) -> (r: String)
    ensures
        r@ == if text@.len() > 0 {
            text@.drop_last()
        } else {
            text@
        },
{
    let chars = chars_of(text);
    if chars.len() == 0 {
        return text.to_owned();
    }
    let r = slice_text(&chars, 0, chars.len() - 1);
    assert(r@ =~= text@.drop_last());
    r
}

fn handle_filter_key(
    key: u8,
    ui: &mut UiState,
    filtered_apps: &mut Vec<AppSummary>,
    all_apps: &Vec<AppSummary>,
)
    ensures
        (final(ui)@, summaries_view(final(filtered_apps)@)) == old(ui)@.typed(
            key,
            summaries_view(old(filtered_apps)@),
            summaries_view(all_apps@),
        ),
{
    if key == 10 || key == 13 {
        ui.input_mode = InputMode::Normal;
        ui.selected_app_index = 0;
        *filtered_apps = apply_filter(all_apps, ui.filter_query.as_str());
    } else if key == 27 {
        ui.input_mode = InputMode::Normal;
    } else if key == 127 {
        ui.filter_query = without_last(ui.filter_query.as_str());
        *filtered_apps = apply_filter(all_apps, ui.filter_query.as_str());
        assert(summaries_view(filtered_apps@).len() == filtered_apps@.len());
        clamp_selection(ui, filtered_apps.len());
    } else if key >= 32 && key <= 126 {
        ui.filter_query.push(key as char);
        *filtered_apps = apply_filter(all_apps, ui.filter_query.as_str());
        assert(summaries_view(filtered_apps@).len() == filtered_apps@.len());
        clamp_selection(ui, filtered_apps.len());
    }
}

/// What a key does to the screen and to the apps that are shown; whether to
/// leave.
pub fn handle_key(
    key: u8,
    ui: &mut UiState,
    filtered_apps: &mut Vec<AppSummary>,
    all_apps: &Vec<AppSummary>,
) -> (r: bool)
    ensures
        (final(ui)@, summaries_view(final(filtered_apps)@), r) == old(ui)@.keyed(
            key,
            summaries_view(old(filtered_apps)@),
            summaries_view(all_apps@),
        ),
{
    assert(summaries_view(filtered_apps@).len() == filtered_apps@.len());
    if ui.input_mode == InputMode::Filter {
        handle_filter_key(key, ui, filtered_apps, all_apps);
        return false;
    }
    let len = filtered_apps.len();
    if key == 113 {
        return true;
    }
    if key == 47 {
        ui.input_mode = InputMode::Filter;
    } else if key == 10 || key == 13 {
        ui.active_pane = match ui.active_pane {
            ActivePane::List => ActivePane::Details,
            ActivePane::Details => ActivePane::Logs,
            ActivePane::Logs => ActivePane::List,
        };
    } else if key == 107 {
        move_up(ui, len);
    } else if key == 106 {
        move_down(ui, len);
    } else if key == 27 {
        ui.esc_state = 1;
    } else if key == 91 && ui.esc_state == 1 {
        ui.esc_state = 2;
    } else if key == 65 && ui.esc_state == 2 {
        move_up(ui, len);
        ui.esc_state = 0;
    } else if key == 66 && ui.esc_state == 2 {
        move_down(ui, len);
        ui.esc_state = 0;
    } else {
        ui.esc_state = 0;
    }
    false
}

/// The app at `index`.
pub fn selected_app(apps: &Vec<AppSummary>, index: usize) -> (r: Option<&AppSummary>)
    ensures
        match r {
            Some(app) => index < apps@.len() && *app == apps@[index as int],
            None => index >= apps@.len(),
        },
{
    if index < apps.len() {
        Some(&apps[index])
    } else {
        None
    }
}

/// The log after this one.
pub open spec fn source_after(source: LogSource) -> LogSource {
    match source {
        LogSource::Both => LogSource::Stdout,
        LogSource::Stdout => LogSource::Stderr,
        LogSource::Stderr => LogSource::Both,
    }
}

/// The log after this one.
pub fn next_log_source(source: LogSource) -> (r: LogSource)
    ensures
        r == source_after(source),
{
    match source {
        LogSource::Both => LogSource::Stdout,
        LogSource::Stdout => LogSource::Stderr,
        LogSource::Stderr => LogSource::Both,
    }
}

impl UiView {
    /// What a key means for the selected app, once the screen has taken it: what
    /// it does to the logs that are shown, and what it asks of the agent.
    pub open spec fn acted(self, key: u8, shown: Seq<SummaryView>) -> (
        UiView,
        Option<RequestView>,
    ) {
        if self.mode != InputMode::Normal || self.selected >= shown.len() {
            (self, None)
        } else {
            let name = shown[self.selected as int].name;
            if key == 115 {
                (self, Some(RequestView::Start(name)))
            } else if key == 116 {
                (self, Some(RequestView::Stop(name)))
            } else if key == 114 {
                (self, Some(RequestView::Restart(name)))
            } else if key == 108 {
                (
                    UiView {
                        show_logs: !self.show_logs,
                        pane: if self.show_logs {
                            ActivePane::List
                        } else {
                            ActivePane::Logs
                        },
                        ..self
                    },
                    None,
                )
            } else if key == 102 {
                (UiView { follow: !self.follow, ..self }, None)
            } else if key == 9 {
                (UiView { source: source_after(self.source), ..self }, None)
            } else {
                (self, None)
            }
        }
    }
}

/// What a key means for the selected app, once the screen has taken it.
pub fn act_on_key(key: u8, ui: &mut UiState, filtered_apps: &Vec<AppSummary>) -> (r: Option<
    IpcRequest,
>)
    ensures
        final(ui)@ == old(ui)@.acted(key, summaries_view(filtered_apps@)).0,
        old(ui)@.acted(key, summaries_view(filtered_apps@)).1 == match r {
            Some(req) => Some(req@),
            None => None,
        },
{
    assert(summaries_view(filtered_apps@).len() == filtered_apps@.len());
    if ui.input_mode != InputMode::Normal {
        return None;
    }
    let app = match selected_app(filtered_apps, ui.selected_app_index) {
        Some(app) => app,
        None => return None,
    };
    assert(app@ == summaries_view(filtered_apps@)[ui.selected_app_index as int]);
    let name = app.name.clone();
    if key == 115 {
        return Some(IpcRequest::Start { name });
    }
    if key == 116 {
        return Some(IpcRequest::Stop { name });
    }
    if key == 114 {
        return Some(IpcRequest::Restart { name });
    }
    if key == 108 {
        ui.show_logs = !ui.show_logs;
        ui.active_pane = if ui.show_logs {
            ActivePane::Logs
        } else {
            ActivePane::List
        };
    } else if key == 102 {
        ui.log_follow_enabled = !ui.log_follow_enabled;
    } else if key == 9 {
        ui.log_source = next_log_source(ui.log_source);
    }
    None
}

/// After an event was told: the app it is about is in the state it tells of.
pub open spec fn told(apps: Seq<SummaryView>, event: EventView) -> Seq<SummaryView>
    decreases apps.len(),
{
    if apps.len() == 0 {
        apps
    } else if apps[0].name == event.app {
        apps.update(0, SummaryView { runtime: event.runtime, ..apps[0] })
    } else {
        seq![apps[0]] + told(apps.skip(1), event)
    }
}

proof fn lemma_told_at(apps: Seq<SummaryView>, event: EventView, i: int)
    requires
        0 <= i <= apps.len(),
        i < apps.len() ==> apps[i].name == event.app,
        forall|j: int| 0 <= j < i ==> (#[trigger] apps[j]).name != event.app,
    ensures
        told(apps, event) == if i < apps.len() {
            apps.update(i, SummaryView { runtime: event.runtime, ..apps[i] })
        } else {
            apps
        },
    decreases apps.len(),
{
    if apps.len() > 0 && i > 0 {
        let rest = apps.skip(1);
        assert forall|j: int| 0 <= j < i - 1 implies (#[trigger] rest[j]).name != event.app by {
            assert(rest[j] == apps[j + 1]);
        }
        lemma_told_at(rest, event, i - 1);
        if i < apps.len() {
            assert(rest[i - 1] == apps[i]);
            assert(told(apps, event) =~= apps.update(
                i,
                SummaryView { runtime: event.runtime, ..apps[i] },
            ));
        } else {
            assert(told(apps, event) =~= apps);
        }
    }
}

/// Takes over the state that an event tells of.
pub fn apply_event(all_apps: &mut Vec<AppSummary>, event: AgentEvent)
    ensures
        summaries_view(final(all_apps)@) == told(summaries_view(old(all_apps)@), event@),
{
    let ghost before = summaries_view(all_apps@);
    let ghost seen = event@;
    let mut i: usize = 0;
    while i < all_apps.len()
        invariant
            before == summaries_view(all_apps@),
            before == summaries_view(old(all_apps)@),
            seen == event@,
            i <= all_apps@.len(),
            forall|j: int| 0 <= j < i ==> (#[trigger] before[j]).name != seen.app,
        decreases all_apps@.len() - i,
    {
        assert(before[i as int] == all_apps@[i as int]@);
        if same(all_apps[i].name.as_str(), event.app.as_str()) {
            proof {
                lemma_told_at(before, seen, i as int);
            }
            all_apps[i].runtime = event.runtime;
            assert(summaries_view(all_apps@) =~= before.update(
                i as int,
                SummaryView { runtime: seen.runtime, ..before[i as int] },
            ));
            return;
        }
        i += 1;
    }
    proof {
        lemma_told_at(before, seen, before.len() as int);
    }
}

/// An event changes the state of the app it is about and nothing else.
pub proof fn law_events_touch_one_app(apps: Seq<SummaryView>, event: EventView, i: int)
    requires
        0 <= i < apps.len(),
        forall|a: int, b: int| 0 <= a < b < apps.len() ==> apps[a].name != apps[b].name,
    ensures
        told(apps, event).len() == apps.len(),
        told(apps, event)[i] == if apps[i].name == event.app {
            SummaryView { runtime: event.runtime, ..apps[i] }
        } else {
            apps[i]
        },
    decreases apps.len(),
{
    if apps[0].name != event.app {
        if apps.len() > 1 {
            let rest = apps.skip(1);
            if i > 0 {
                law_events_touch_one_app(rest, event, i - 1);
                assert(rest[i - 1] == apps[i]);
            } else {
                law_events_touch_one_app(rest, event, 0);
            }
        } else {
            reveal_with_fuel(told, 2);
            assert(apps.skip(1).len() == 0);
        }
    }
}

/// The selection stays inside a list that is shown, whatever key is pressed.
pub proof fn law_selection_stays_inside(
    ui: UiView,
    key: u8,
    shown: Seq<SummaryView>,
    all: Seq<SummaryView>,
)
    requires
        ui.selected < shown.len() || (shown.len() == 0 && ui.selected == 0),
    ensures
        ({
            let (after, list, _) = ui.keyed(key, shown, all);
            after.selected < list.len() || (list.len() == 0 && after.selected == 0)
        }),
{
}

// ---- Logs ----

/// How a line of a followed log is shown.
pub open spec fn log_line(event: LogEventView) -> Seq<char> {
    (match event.source {
        LogSource::Stdout => "[OUT] "@,
        LogSource::Stderr => "[ERR] "@,
        LogSource::Both => "[LOG] "@,
    }) + event.line
}

/// How a line of a followed log is shown.
pub fn show_log_line(event: &StreamLogEvent) -> (r: String)
    ensures
        r@ == log_line(event@),
{
    match event.source {
        LogSource::Stdout => cat2("[OUT] ", event.line.as_str()),
        LogSource::Stderr => cat2("[ERR] ", event.line.as_str()),
        LogSource::Both => cat2("[LOG] ", event.line.as_str()),
    }
}

/// The last 25 of `lines`, or all of them.
pub open spec fn last_shown(lines: Seq<String>) -> Seq<String> {
    if lines.len() > 25 {
        lines.skip(lines.len() - 25)
    } else {
        lines
    }
}

/// Adds a line to those that are shown; the oldest give way.
pub fn push_log_line(lines: &mut VecDeque<String>, line: String)
    ensures
        final(lines)@ == last_shown(old(lines)@.push(line)),
{
    let ghost all = lines@.push(line);
    lines.push_back(line);
    let ghost mut gone: int = 0;
    assert(all.skip(0) =~= all);
    while lines.len() > 25
        invariant
            0 <= gone <= all.len(),
            lines@ == all.skip(gone),
            gone > 0 ==> all.len() - gone >= 25,
        decreases lines@.len(),
    {
        lines.pop_front();
        proof {
            assert(lines@ =~= all.skip(gone + 1));
            gone = gone + 1;
        }
    }
}

/// What is to be done about the log that is shown.
pub enum LogPlan {
    /// Nothing.
    Keep,
    /// End the stream that there may be.
    Stop,
    /// End the stream that there may be, clear what is shown, and follow the log
    /// that the request asks for.
    Switch(IpcRequest),
    /// End the stream that there may be, and show what the reply to the request
    /// brings, where there is one; the time of the next such look counts from
    /// now.
    Poll(Option<IpcRequest>),
}

pub enum LogPlanView {
    Keep,
    Stop,
    Switch(RequestView),
    Poll(Option<RequestView>),
}

impl View for LogPlan {
    type V = LogPlanView;

    open spec fn view(&self) -> LogPlanView {
        match self {
            LogPlan::Keep => LogPlanView::Keep,
            LogPlan::Stop => LogPlanView::Stop,
            LogPlan::Switch(req) => LogPlanView::Switch(req@),
            LogPlan::Poll(Some(req)) => LogPlanView::Poll(Some(req@)),
            LogPlan::Poll(None) => LogPlanView::Poll(None),
        }
    }
}

/// What is to be done about the stream of a log: the one of the selected app and
/// of the chosen source is followed.
pub open spec fn stream_plan(
    current: Option<(Seq<char>, LogSource)>,
    selected: Option<Seq<char>>,
    source: LogSource,
) -> LogPlanView {
    match selected {
        None => LogPlanView::Stop,
        Some(name) => if current == Some((name, source)) {
            LogPlanView::Keep
        } else {
            LogPlanView::Switch(RequestView::StreamLogs(name, 60, source, 250))
        },
    }
}

/// What is to be done about the log that is shown, given the stream that there
/// is, the selected app, and the milliseconds since the last look.
pub open spec fn log_plan(
    ui: UiView,
    current: Option<(Seq<char>, LogSource)>,
    selected: Option<Seq<char>>,
    waited_ms: u64,
) -> LogPlanView {
    if ui.show_logs && ui.follow {
        stream_plan(current, selected, ui.source)
    } else if ui.show_logs && waited_ms >= 500 {
        LogPlanView::Poll(
            match selected {
                Some(name) => Some(RequestView::TailLogs(name, 25, ui.source)),
                None => None,
            },
        )
    } else {
        LogPlanView::Stop
    }
}

/// The view of the stream that there is.
pub open spec fn stream_view(current: Option<(&str, LogSource)>) -> Option<
    (Seq<char>, LogSource),
> {
    match current {
        Some((name, source)) => Some((name@, source)),
        None => None,
    }
}

/// What is to be done about the stream of a log.
pub fn ensure_log_stream(
    current: Option<(&str, LogSource)>,
    selected: Option<&str>,
    source: LogSource,
) -> (r: LogPlan)
    ensures
        r@ == stream_plan(stream_view(current), crate::config::opt_str(selected), source),
{
    let name = match selected {
        Some(name) => name,
        None => return LogPlan::Stop,
    };
    if let Some((followed, from)) = current {
        if same(followed, name) && from == source {
            return LogPlan::Keep;
        }
    }
    LogPlan::Switch(
        IpcRequest::StreamLogs { name: name.to_owned(), tail: 60, source, follow_interval_ms: 250 },
    )
}

/// What is to be done about the log that is shown.
pub fn plan_logs(
    ui: &UiState,
    current: Option<(&str, LogSource)>,
    selected: Option<&str>,
    waited_ms: u64,
) -> (r: LogPlan)
    ensures
        r@ == log_plan(ui@, stream_view(current), crate::config::opt_str(selected), waited_ms),
{
    if ui.show_logs && ui.log_follow_enabled {
        return ensure_log_stream(current, selected, ui.log_source);
    }
    if ui.show_logs && waited_ms >= 500 {
        return LogPlan::Poll(
            match selected {
                Some(name) => Some(
                    IpcRequest::TailLogs {
                        name: name.to_owned(),
                        tail: 25,
                        source: ui.log_source,
                    },
                ),
                None => None,
            },
        );
    }
    LogPlan::Stop
}

// ---- The screen ----

/// Whether a text can be cut to `max` bytes: what is kept ends between two
/// characters.
pub open spec fn cuttable(text: Seq<char>, max: int) -> bool {
    encode_utf8(text).len() <= max || is_char_boundary(
        encode_utf8(text),
        if max > 3 {
            max - 3
        } else {
            0
        },
    )
}

/// `text`, cut to `max` bytes, three of which are dots.
pub open spec fn truncated(text: Seq<char>, max: int) -> Seq<char> {
    if encode_utf8(text).len() <= max {
        text
    } else {
        decode_utf8(
            encode_utf8(text).take(
                if max > 3 {
                    max - 3
                } else {
                    0
                },
            ),
        ) + "..."@
    }
}

/// Whether a text can be cut to `max` bytes.
pub fn can_truncate(input: &str, max: usize) -> (r: bool)
    ensures
        r == cuttable(input@, max as int),
{
    if input.as_bytes().len() <= max {
        return true;
    }
    let at: usize = if max > 3 {
        max - 3
    } else {
        0
    };
    input.is_char_boundary(at)
}

/// `input`, cut to `max` bytes, three of which are dots.
pub fn truncate(input: &str, max: usize) -> (r: String)
    requires
        cuttable(input@, max as int),
    ensures
        r@ == truncated(input@, max as int),
{
    if input.as_bytes().len() <= max {
        return input.to_owned();
    }
    let at: usize = if max > 3 {
        max - 3
    } else {
        0
    };
    let (kept, _) = input.split_at(at);
    proof {
        assert(encode_utf8(kept@) =~= encode_utf8(input@).take(at as int));
        vstd::utf8::encode_utf8_decode_utf8(kept@);
    }
    cat2(kept, "...")
}

impl ActivePane {
    pub open spec fn label_text(self) -> Seq<char> {
        match self {
            ActivePane::List => "List"@,
            ActivePane::Details => "Details"@,
            ActivePane::Logs => "Logs"@,
        }
    }

    pub fn label(self) -> (r: &'static str)
        ensures
            r@ == self.label_text(),
    {
        match self {
            ActivePane::List => "List",
            ActivePane::Details => "Details",
            ActivePane::Logs => "Logs",
        }
    }
}

impl InputMode {
    pub open spec fn label_text(self) -> Seq<char> {
        match self {
            InputMode::Normal => "Normal"@,
            InputMode::Filter => "Filter"@,
        }
    }

    pub fn label(self) -> (r: &'static str)
        ensures
            r@ == self.label_text(),
    {
        match self {
            InputMode::Normal => "Normal",
            InputMode::Filter => "Filter",
        }
    }
}

/// How a yes or no is shown.
pub open spec fn flag_text(b: bool) -> Seq<char> {
    if b {
        "true"@
    } else {
        "false"@
    }
}

fn flag(b: bool) -> (r: &'static str)
    ensures
        r@ == flag_text(b),
{
    if b {
        "true"
    } else {
        "false"
    }
}

/// A row of the list: its parts, each filled up to the width of its column.
pub open spec fn row(
    marker: Seq<char>,
    name: Seq<char>,
    status: Seq<char>,
    pid: Seq<char>,
    restarts: Seq<char>,
    entry: Seq<char>,
) -> Seq<char> {
    pad_right(marker, 2) + " "@ + pad_right(name, 20) + " "@ + pad_right(status, 10) + " "@
        + pad_right(pid, 8) + " "@ + pad_right(restarts, 8) + " "@ + pad_right(entry, 24)
}

fn show_row(marker: &str, name: &str, status: &str, pid: &str, restarts: &str, entry: &str) -> (r:
    String)
    ensures
        r@ == row(marker@, name@, status@, pid@, restarts@, entry@),
{
    let mut line = padded(marker, 2);
    let name = padded(name, 20);
    let status = padded(status, 10);
    let pid = padded(pid, 8);
    let restarts = padded(restarts, 8);
    let entry = padded(entry, 24);
    line.append(" ");
    line.append(name.as_str());
    line.append(" ");
    line.append(status.as_str());
    line.append(" ");
    line.append(pid.as_str());
    line.append(" ");
    line.append(restarts.as_str());
    line.append(" ");
    line.append(entry.as_str());
    line
}

/// The row of an app.
pub open spec fn app_row(app: SummaryView, selected: bool) -> Seq<char> {
    row(
        if selected {
            ">"@
        } else {
            " "@
        },
        app.name,
        app.runtime.status.label_text(),
        pid_text(app.runtime),
        decimal_int(app.runtime.restart_count as int),
        truncated(app.entry, 24),
    )
}

/// The rows of the apps.
pub open spec fn app_rows(apps: Seq<SummaryView>, selected: usize) -> Seq<Seq<char>> {
    Seq::new(apps.len(), |i: int| app_row(apps[i], i == selected))
}

/// The lines at the top.
pub open spec fn head_lines(ui: UiView) -> Seq<Seq<char>> {
    seq![
        "pym2 tui | pane="@ + ui.pane.label_text()
            + " | keys: ↑/↓ or j/k, Enter pane, s start, t stop, r restart, l logs, f follow, Tab source, / filter, q quit"@,
        "filter='"@ + ui.filter + "' mode="@ + ui.mode.label_text() + " logs="@ + flag_text(
            ui.show_logs,
        ) + " follow="@ + flag_text(ui.follow) + " source="@ + ui.source.label_text(),
        ""@,
        row(""@, "NAME"@, "STATUS"@, "PID"@, "REST"@, "ENTRY"@),
    ]
}

/// The lines on the selected app.
pub open spec fn detail_lines(apps: Seq<SummaryView>, selected: usize) -> Seq<Seq<char>> {
    if selected < apps.len() {
        let app = apps[selected as int];
        seq![
            ""@,
            "details: "@ + app.name,
            "  cwd: "@ + app.cwd,
            "  entry: "@ + app.entry,
            "  status: "@ + app.runtime.status.label_text(),
            "  pid: "@ + pid_text(app.runtime),
            "  restart_count: "@ + decimal_int(app.runtime.restart_count as int),
        ]
    } else {
        seq![""@, "details: no app selected"@]
    }
}

/// The lines of the log.
pub open spec fn shown_log(ui: UiView, logs: Seq<String>) -> Seq<Seq<char>> {
    if ui.show_logs {
        seq![""@, "logs:"@] + texts(logs)
    } else {
        Seq::empty()
    }
}

/// The lines of the screen.
pub open spec fn screen(ui: UiView, apps: Seq<SummaryView>, logs: Seq<String>) -> Seq<Seq<char>> {
    head_lines(ui) + app_rows(apps, ui.selected) + detail_lines(apps, ui.selected) + shown_log(
        ui,
        logs,
    )
}

/// Whether the screen can be drawn: every entry point can be cut to its column.
pub open spec fn drawable(apps: Seq<SummaryView>) -> bool {
    forall|i: int| 0 <= i < apps.len() ==> cuttable((#[trigger] apps[i]).entry, 24)
}

/// Whether the screen can be drawn.
pub fn can_render(apps: &Vec<AppSummary>) -> (r: bool)
    ensures
        r == drawable(summaries_view(apps@)),
{
    let ghost all = summaries_view(apps@);
    let mut i: usize = 0;
    while i < apps.len()
        invariant
            all == summaries_view(apps@),
            i <= apps@.len(),
            forall|j: int| 0 <= j < i ==> cuttable((#[trigger] all[j]).entry, 24),
        decreases apps@.len() - i,
    {
        assert(all[i as int] == apps@[i as int]@);
        if !can_truncate(apps[i].entry.as_str(), 24) {
            return false;
        }
        i += 1;
    }
    true
}

fn draw_head(ui: &UiState) -> (r: Vec<String>)
    ensures
        texts(r@) == head_lines(ui@),
{
    let mut lines: Vec<String> = Vec::new();
    lines.push(
        cat3(
            "pym2 tui | pane=",
            ui.active_pane.label(),
            " | keys: ↑/↓ or j/k, Enter pane, s start, t stop, r restart, l logs, f follow, Tab source, / filter, q quit",
        ),
    );
    let mut second = cat2("filter='", ui.filter_query.as_str());
    second.append("' mode=");
    second.append(ui.input_mode.label());
    second.append(" logs=");
    second.append(flag(ui.show_logs));
    second.append(" follow=");
    second.append(flag(ui.log_follow_enabled));
    second.append(" source=");
    second.append(ui.log_source.label());
    lines.push(second);
    lines.push("".to_string());
    lines.push(show_row("", "NAME", "STATUS", "PID", "REST", "ENTRY"));
    assert(texts(lines@) =~= head_lines(ui@));
    lines
}

fn draw_rows(apps: &Vec<AppSummary>, selected: usize) -> (r: Vec<String>)
    requires
        drawable(summaries_view(apps@)),
    ensures
        texts(r@) == app_rows(summaries_view(apps@), selected),
{
    let ghost all = summaries_view(apps@);
    let ghost rows = app_rows(all, selected);
    let mut lines: Vec<String> = Vec::new();
    let mut i: usize = 0;
    assert(texts(lines@) =~= rows.take(0));
    while i < apps.len()
        invariant
            all == summaries_view(apps@),
            rows == app_rows(all, selected),
            drawable(all),
            i <= apps@.len(),
            texts(lines@) == rows.take(i as int),
        decreases apps@.len() - i,
    {
        let ghost before = texts(lines@);
        let app = &apps[i];
        assert(all[i as int] == app@);
        let pid = show_pid(&app.runtime);
        let restarts = u64_text(app.runtime.restart_count as u64);
        let entry = truncate(app.entry.as_str(), 24);
        lines.push(
            show_row(
                if i == selected {
                    ">"
                } else {
                    " "
                },
                app.name.as_str(),
                app.runtime.status.label(),
                pid.as_str(),
                restarts.as_str(),
                entry.as_str(),
            ),
        );
        assert(texts(lines@) =~= before.push(rows[i as int]));
        assert(rows.take(i + 1) =~= before.push(rows[i as int]));
        i += 1;
    }
    assert(rows.take(i as int) =~= rows);
    lines
}

fn draw_details(apps: &Vec<AppSummary>, selected: usize) -> (r: Vec<String>)
    ensures
        texts(r@) == detail_lines(summaries_view(apps@), selected),
{
    let mut lines: Vec<String> = Vec::new();
    lines.push("".to_string());
    match selected_app(apps, selected) {
        Some(app) => {
            let pid = show_pid(&app.runtime);
            let restarts = u64_text(app.runtime.restart_count as u64);
            lines.push(cat2("details: ", app.name.as_str()));
            lines.push(cat2("  cwd: ", app.cwd.as_str()));
            lines.push(cat2("  entry: ", app.entry.as_str()));
            lines.push(cat2("  status: ", app.runtime.status.label()));
            lines.push(cat2("  pid: ", pid.as_str()));
            lines.push(cat2("  restart_count: ", restarts.as_str()));
            assert(summaries_view(apps@)[selected as int] == app@);
        },
        None => {
            lines.push("details: no app selected".to_string());
        },
    }
    assert(texts(lines@) =~= detail_lines(summaries_view(apps@), selected));
    lines
}

fn draw_log(ui: &UiState, logs: &VecDeque<String>) -> (r: Vec<String>)
    ensures
        texts(r@) == shown_log(ui@, logs@),
{
    let mut lines: Vec<String> = Vec::new();
    if ui.show_logs {
        lines.push("".to_string());
        lines.push("logs:".to_string());
        let ghost head = seq![""@, "logs:"@];
        let mut i: usize = 0;
        assert(texts(lines@) =~= head + texts(logs@).take(0));
        while i < logs.len()
            invariant
                i <= logs@.len(),
                texts(lines@) == head + texts(logs@).take(i as int),
            decreases logs@.len() - i,
        {
            let ghost before = texts(lines@);
            lines.push(logs[i].clone());
            assert(texts(lines@) =~= before.push(logs@[i as int]@));
            assert(head + texts(logs@).take(i + 1) =~= before.push(logs@[i as int]@));
            i += 1;
        }
        assert(texts(logs@).take(i as int) =~= texts(logs@));
    } else {
        assert(texts(lines@) =~= Seq::empty());
    }
    lines
}

/// The lines of the screen.
pub fn render(ui: &UiState, apps: &Vec<AppSummary>, logs: &VecDeque<String>) -> (r: Vec<String>)
    requires
        drawable(summaries_view(apps@)),
    ensures
        texts(r@) == screen(ui@, summaries_view(apps@), logs@),
{
    let mut lines = draw_head(ui);
    let mut rows = draw_rows(apps, ui.selected_app_index);
    let mut details = draw_details(apps, ui.selected_app_index);
    let mut log = draw_log(ui, logs);
    let ghost parts = (texts(lines@), texts(rows@), texts(details@), texts(log@));
    lines.append(&mut rows);
    lines.append(&mut details);
    lines.append(&mut log);
    assert(texts(lines@) =~= parts.0 + parts.1 + parts.2 + parts.3);
    lines
}

/// The keys that move: `j` and `k` go one app down and up and stay inside the list,
/// and so do the arrow keys; one step down and one up lead back.
pub proof fn law_moving_keys(ui: UiView, len: nat)
    requires
        ui.selected < len <= usize::MAX,
        ui.mode == InputMode::Normal,
    ensures
        ui.pressed('j' as u8, len).selected == if ui.selected + 1 < len {
            ui.selected + 1
        } else {
            ui.selected as int
        },
        ui.pressed('k' as u8, len).selected == if ui.selected > 0 {
            ui.selected - 1
        } else {
            0
        },
        ui.pressed(27, len).pressed('[' as u8, len).pressed('A' as u8, len).selected
            == ui.pressed('k' as u8, len).selected,
        ui.pressed(27, len).pressed('[' as u8, len).pressed('B' as u8, len).selected
            == ui.pressed('j' as u8, len).selected,
        ui.selected + 1 < len ==> ui.pressed('j' as u8, len).pressed('k' as u8, len).selected
            == ui.selected,
        ui.pressed(27, len).pressed('x' as u8, len).pressed('[' as u8, len).pressed(
            'A' as u8,
            len,
        ).selected == ui.selected,
        ui.pressed(27, len).pressed('[' as u8, len).pressed('x' as u8, len).pressed(
            'B' as u8,
            len,
        ).selected == ui.selected,
        ui.clamped(len) == ui,
        forall|shorter: nat|
            0 < shorter <= ui.selected ==> (#[trigger] ui.clamped(shorter)).selected == shorter - 1,
{
}

/// A slash begins a filter, which takes what is typed, character by character, and
/// gives it back from its end; enter ends it. Only `q` leaves, and not while a
/// filter is typed in.
pub proof fn law_filter_keys(ui: UiView, key: u8, shown: Seq<SummaryView>, all: Seq<SummaryView>)
    requires
        ui.mode == InputMode::Normal,
        32 <= key <= 126,
    ensures
        ({
            let (typing, list, leave) = ui.keyed('/' as u8, shown, all);
            &&& typing.mode == InputMode::Filter && list == shown && !leave
            &&& typing.keyed(key, list, all).0.filter == ui.filter.push(key as char)
            &&& typing.keyed(key, list, all).1 == all.filter(
                shown_for(ui.filter.push(key as char)),
            )
            &&& !typing.keyed(key, list, all).2
            &&& typing.keyed(key, list, all).0.keyed(127, list, all).0.filter == ui.filter
            &&& typing.keyed(13, list, all).0.mode == InputMode::Normal
            &&& typing.keyed(13, list, all).0.selected == 0
            &&& typing.keyed(13, list, all).0.filter == ui.filter
            &&& typing.keyed(13, list, all).1 == all.filter(shown_for(ui.filter))
            &&& typing.keyed(10, list, all) == typing.keyed(13, list, all)
            &&& typing.keyed(27, list, all).0.mode == InputMode::Normal
            &&& typing.keyed(27, list, all).0.filter == ui.filter
            &&& typing.keyed(27, list, all).0.selected == ui.selected
            &&& typing.keyed(27, list, all).1 == shown
        }),
        ui.keyed(key, shown, all).2 <==> key == 'q' as u8,
        ui.keyed(key, shown, all).1 == shown,
{
    assert(ui.filter.push(key as char).drop_last() =~= ui.filter);
}

/// While something is looked for, the apps are shown in whose name or entry point
/// it occurs, all in small letters; while nothing is, all are.
pub proof fn law_filter_shows_what_is_found(app: SummaryView, query: Seq<char>)
    ensures
        blank(query) ==> shown_for(query)(app),
        !blank(query) ==> (shown_for(query)(app) <==> has_infix(
            lower_text(app.name),
            lower_text(query),
        ) || has_infix(lower_text(app.entry), lower_text(query))),
{
}

/// The keys for the log: `l` shows and hides it, `f` follows it and no longer, and
/// tab goes round the three choices; none of them asks anything of the agent. While
/// a filter is typed in no key is a command.
pub proof fn law_log_keys(ui: UiView, key: u8, shown: Seq<SummaryView>)
    requires
        ui.selected < shown.len(),
    ensures
        ui.mode == InputMode::Normal ==> {
            &&& ui.acted('l' as u8, shown).0.show_logs == !ui.show_logs
            &&& ui.acted('l' as u8, shown).0.pane == if ui.show_logs {
                ActivePane::List
            } else {
                ActivePane::Logs
            }
            &&& ui.acted('l' as u8, shown).1 is None
            &&& ui.acted('f' as u8, shown).0.follow == !ui.follow
            &&& ui.acted('f' as u8, shown).1 is None
            &&& ui.acted(9, shown).0.source == source_after(ui.source)
            &&& ui.acted(9, shown).1 is None
            &&& ui.acted(key, shown).1 is Some ==> key == 's' as u8 || key == 't' as u8 || key
                == 'r' as u8
        },
        ui.mode == InputMode::Filter ==> ui.acted(key, shown) == (ui, None::<RequestView>),
        source_after(ui.source) != ui.source,
        source_after(source_after(source_after(ui.source))) == ui.source,
        source_after(LogSource::Both) == LogSource::Stdout,
{
}

/// The log that is followed is the one of the selected app and of the chosen
/// source: it is kept while it is that one, and changed when it is not. A log that
/// is not followed is looked at twice a second; one that is hidden is not.
pub proof fn law_shown_log_is_the_chosen_one(
    ui: UiView,
    current: Option<(Seq<char>, LogSource)>,
    name: Seq<char>,
    waited_ms: u64,
)
    ensures
        ui.show_logs && ui.follow ==> {
            let plan = log_plan(ui, current, Some(name), waited_ms);
            &&& current == Some((name, ui.source)) ==> plan == LogPlanView::Keep
            &&& current != Some((name, ui.source)) ==> plan == LogPlanView::Switch(
                RequestView::StreamLogs(name, 60, ui.source, 250),
            )
            &&& log_plan(ui, current, None, waited_ms) == LogPlanView::Stop
        },
        ui.show_logs && !ui.follow ==> {
            let plan = log_plan(ui, current, Some(name), waited_ms);
            &&& waited_ms >= 500 ==> plan == LogPlanView::Poll(
                Some(RequestView::TailLogs(name, 25, ui.source)),
            )
            &&& waited_ms < 500 ==> plan == LogPlanView::Stop
        },
        !ui.show_logs ==> log_plan(ui, current, Some(name), waited_ms) == LogPlanView::Stop,
{
}

/// Of the lines of a log the newest 25 are shown, in their order.
pub proof fn law_newest_lines_are_shown(lines: Seq<String>)
    ensures
        last_shown(lines).len() == if lines.len() < 25 {
            lines.len() as int
        } else {
            25
        },
        forall|k: int|
            0 <= k < last_shown(lines).len() ==> #[trigger] last_shown(lines)[k] == lines[lines.len()
                - last_shown(lines).len() + k],
{
}

/// A line of a followed log is shown with the log it comes from.
pub proof fn law_log_lines_name_their_log(line: Seq<char>)
    ensures
        log_line(LogEventView { source: LogSource::Stdout, line }) == "[OUT] "@ + line,
        log_line(LogEventView { source: LogSource::Stderr, line }) == "[ERR] "@ + line,
        log_line(LogEventView { source: LogSource::Both, line }) == "[LOG] "@ + line,
{
}

/// The screen has a row for each app, of which only the selected one is marked, and
/// shows of the selected app its name, its directory, its entry point, its status,
/// its process and how often it was restarted; and the log, where it is shown.
#[verifier::rlimit(50)]
#[verifier::spinoff_prover]
pub proof fn law_screen_shows_the_apps(
    ui: UiView,
    apps: Seq<SummaryView>,
    logs: Seq<String>,
    i: int,
)
    requires
        0 <= i < apps.len(),
    ensures
        ({
            let lines = screen(ui, apps, logs);
            let state = apps[i].runtime;
            &&& lines.len() >= 4 + apps.len()
            &&& i == ui.selected ==> lines[4 + i][0] == '>'
            &&& i != ui.selected ==> lines[4 + i][0] == ' '
            &&& apps[i].name.len() <= 20 ==> lines[4 + i].subrange(
                3,
                3 + apps[i].name.len() as int,
            ) == apps[i].name
            &&& i == ui.selected ==> {
                let at = 4 + apps.len() as int;
                &&& lines.len() >= at + 7
                &&& lines[at + 1] == "details: "@ + apps[i].name
                &&& lines[at + 2] == "  cwd: "@ + apps[i].cwd
                &&& lines[at + 3] == "  entry: "@ + apps[i].entry
                &&& state.status == AppStatus::Running ==> lines[at + 4] == "  status: "@
                    + "Running"@
                &&& state.status == AppStatus::Stopped ==> lines[at + 4] == "  status: "@
                    + "Stopped"@
                &&& state.status == AppStatus::Errored ==> lines[at + 4] == "  status: "@
                    + "Errored"@
                &&& state.pid matches Some(pid) ==> lines[at + 5] == "  pid: "@ + decimal_int(
                    pid as int,
                )
                &&& lines[at + 6] == "  restart_count: "@ + decimal_int(
                    state.restart_count as int,
                )
                &&& ui.show_logs ==> lines.len() == at + 9 + logs.len() && forall|k: int|
                    0 <= k < logs.len() ==> #[trigger] lines[at + 9 + k] == logs[k]@
                &&& !ui.show_logs ==> lines.len() == at + 7
            }
        }),
{
    reveal_strlit(">");
    reveal_strlit(" ");
    let app = apps[i];
    let r = app_row(app, i == ui.selected);
    let marker = if i == ui.selected {
        ">"@
    } else {
        " "@
    };
    let lines = screen(ui, apps, logs);
    assert(lines[4 + i] == r);
    assert(pad_right(marker, 2).len() == 2);
    assert(pad_right(marker, 2)[0] == marker[0]);
    assert(r[0] == marker[0]);
    if app.name.len() <= 20 {
        assert(pad_right(app.name, 20).take(app.name.len() as int) =~= app.name);
        assert(r.subrange(3, 3 + app.name.len() as int) =~= app.name);
    }
    if i == ui.selected && ui.show_logs {
        let at = 4 + apps.len() as int;
        assert forall|k: int| 0 <= k < logs.len() implies #[trigger] lines[at + 9 + k]
            == logs[k]@ by {
            assert(lines[at + 9 + k] == texts(logs)[k]);
        }
    }
}

/// A text that fits is shown whole, and one that does not is shown as far as it
/// fits with three dots behind it.
pub proof fn law_long_texts_are_cut(text: Seq<char>, max: int)
    requires
        max >= 3,
    ensures
        encode_utf8(text).len() <= max ==> truncated(text, max) == text,
        encode_utf8(text).len() > max ==> truncated(text, max) == decode_utf8(
            encode_utf8(text).take(max - 3),
        ) + "..."@,
{
}

/// Enter goes round the panes, from the list to the details, to the logs and back.
pub proof fn law_panes_go_round(ui: UiView, len: nat)
    ensures
        ui.pane == ActivePane::List ==> ui.pressed(13, len).pane == ActivePane::Details,
        ui.pane == ActivePane::Details ==> ui.pressed(13, len).pane == ActivePane::Logs,
        ui.pane == ActivePane::Logs ==> ui.pressed(13, len).pane == ActivePane::List,
        ui.pressed(10, len) == ui.pressed(13, len),
        ui.pressed(13, len).selected == ui.selected,
{
}

/// The heading tells what is shown: the pane, the filter, the mode, and which log.
#[verifier::rlimit(50)]
#[verifier::spinoff_prover]
pub proof fn law_heading_tells_the_state(ui: UiView, apps: Seq<SummaryView>, logs: Seq<String>)
    ensures
        ({
            let lines = screen(ui, apps, logs);
            let pane = match ui.pane {
                ActivePane::List => "List"@,
                ActivePane::Details => "Details"@,
                ActivePane::Logs => "Logs"@,
            };
            let mode = match ui.mode {
                InputMode::Normal => "Normal"@,
                InputMode::Filter => "Filter"@,
            };
            let source = match ui.source {
                LogSource::Stdout => "Stdout"@,
                LogSource::Stderr => "Stderr"@,
                LogSource::Both => "Both"@,
            };
            let shown = if ui.show_logs {
                "true"@
            } else {
                "false"@
            };
            let followed = if ui.follow {
                "true"@
            } else {
                "false"@
            };
            &&& lines.len() >= 4
            &&& crate::text::starts_with(lines[0], "pym2 tui | pane="@ + pane)
            &&& lines[1] == "filter='"@ + ui.filter + "' mode="@ + mode + " logs="@ + shown
                + " follow="@ + followed + " source="@ + source
        }),
{
    let head = head_lines(ui);
    let lines = screen(ui, apps, logs);
    let rest = app_rows(apps, ui.selected) + detail_lines(apps, ui.selected) + shown_log(ui, logs);
    assert(lines =~= head + rest);
    assert(lines[0] == head[0]);
    assert(lines[1] == head[1]);
    lemma_front(
        "pym2 tui | pane="@ + ui.pane.label_text(),
        " | keys: ↑/↓ or j/k, Enter pane, s start, t stop, r restart, l logs, f follow, Tab source, / filter, q quit"@,
    );
}

proof fn lemma_front(a: Seq<char>, b: Seq<char>)
    ensures
        crate::text::starts_with(a + b, a),
{
    assert((a + b).take(a.len() as int) =~= a);
}

/// In the row of an app its status, the number of its process, how often it was
/// restarted and its entry stand each in their column.
#[verifier::rlimit(50)]
#[verifier::spinoff_prover]
pub proof fn law_rows_have_columns(app: SummaryView, selected: bool)
    requires
        app.name.len() <= 20,
        app.runtime.pid is Some ==> decimal_int(app.runtime.pid->0 as int).len() <= 8,
        decimal_int(app.runtime.restart_count as int).len() <= 8,
        encode_utf8(app.entry).len() <= 24,
    ensures
        ({
            let line = app_row(app, selected);
            let state = app.runtime;
            let status = match state.status {
                AppStatus::Running => "Running"@,
                AppStatus::Stopped => "Stopped"@,
                AppStatus::Errored => "Errored"@,
            };
            let count = decimal_int(state.restart_count as int);
            &&& line.subrange(24, 31) == status
            &&& state.pid matches Some(pid) ==> line.subrange(
                35,
                35 + decimal_int(pid as int).len() as int,
            ) == decimal_int(pid as int)
            &&& state.pid is None ==> line.subrange(35, 36) == "-"@
            &&& line.subrange(44, 44 + count.len() as int) == count
            &&& line.subrange(53, 53 + app.entry.len() as int) == app.entry
        }),
{
    reveal_strlit(">");
    reveal_strlit(" ");
    reveal_strlit("-");
    reveal_strlit("Running");
    reveal_strlit("Stopped");
    reveal_strlit("Errored");
    let marker = if selected {
        ">"@
    } else {
        " "@
    };
    let status = app.runtime.status.label_text();
    let pid = pid_text(app.runtime);
    let count = decimal_int(app.runtime.restart_count as int);
    lemma_columns(marker, app.name, status, pid, count, app.entry);
}

proof fn lemma_columns(
    marker: Seq<char>,
    name: Seq<char>,
    status: Seq<char>,
    pid: Seq<char>,
    count: Seq<char>,
    entry: Seq<char>,
)
    requires
        marker.len() <= 2,
        name.len() <= 20,
        status.len() <= 10,
        pid.len() <= 8,
        count.len() <= 8,
    ensures
        ({
            let line = row(marker, name, status, pid, count, entry);
            &&& line.subrange(24, 24 + status.len() as int) == status
            &&& line.subrange(35, 35 + pid.len() as int) == pid
            &&& line.subrange(44, 44 + count.len() as int) == count
            &&& line.subrange(53, 53 + entry.len() as int) == entry
        }),
{
    reveal_strlit(" ");
    let line = row(marker, name, status, pid, count, entry);
    let a = pad_right(marker, 2) + " "@ + pad_right(name, 20) + " "@;
    assert(a.len() == 24);
    let b = a + pad_right(status, 10) + " "@;
    assert(b.len() == 35);
    let c = b + pad_right(pid, 8) + " "@;
    assert(c.len() == 44);
    let d = c + pad_right(count, 8) + " "@;
    assert(d.len() == 53);
    assert(line == d + pad_right(entry, 24));
    assert(line.subrange(53, 53 + entry.len() as int) =~= entry);
    assert(line.subrange(44, 44 + count.len() as int) =~= count);
    assert(line.subrange(35, 35 + pid.len() as int) =~= pid);
    assert(line.subrange(24, 24 + status.len() as int) =~= status);
}

/// With no app to be chosen, the screen says so; above the apps stand the names of
/// the columns.
pub proof fn law_screen_without_a_choice(ui: UiView, apps: Seq<SummaryView>, logs: Seq<String>)
    ensures
        ui.selected >= apps.len() ==> screen(ui, apps, logs)[4 + apps.len() as int + 1]
            == "details: no app selected"@,
        screen(ui, apps, logs)[3].subrange(3, 7) == "NAME"@,
        screen(ui, apps, logs)[3].subrange(24, 30) == "STATUS"@,
        screen(ui, apps, logs)[3].subrange(35, 38) == "PID"@,
        screen(ui, apps, logs)[3].subrange(44, 48) == "REST"@,
        screen(ui, apps, logs)[3].subrange(53, 58) == "ENTRY"@,
{
    reveal_strlit("");
    reveal_strlit(" ");
    reveal_strlit("NAME");
    reveal_strlit("STATUS");
    reveal_strlit("PID");
    reveal_strlit("REST");
    reveal_strlit("ENTRY");
    let lines = screen(ui, apps, logs);
    let head = head_lines(ui);
    let rows = app_rows(apps, ui.selected);
    let rest = rows + detail_lines(apps, ui.selected) + shown_log(ui, logs);
    assert(lines =~= head + rest);
    assert(lines[3] == head[3]);
    lemma_columns(""@, "NAME"@, "STATUS"@, "PID"@, "REST"@, "ENTRY"@);
    let line = row(""@, "NAME"@, "STATUS"@, "PID"@, "REST"@, "ENTRY"@);
    let name = pad_right("NAME"@, 20);
    assert(pad_right(""@, 2).len() == 2);
    assert(name.take(4) =~= "NAME"@);
    assert(line.subrange(3, 7) =~= name.take(4));
    if ui.selected >= apps.len() {
        assert(rest[apps.len() as int + 1] == detail_lines(apps, ui.selected)[1]);
    }
}

} // verus!

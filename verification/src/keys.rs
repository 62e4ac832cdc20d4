//! What a key press, or a finished piece of background work, does to the
//! interactive interface.
//!
//! The interface's own state (mode, search text, filters, cursor, status
//! line, the two editable forms) lives in `Controls`, and every transition
//! of it is decided here. What only the application can do (re-run the
//! analysis, talk to a runtime, fill a form from the detected hardware)
//! comes back as an `Effect` for the event loop to carry out.

use vstd::prelude::*;
use crate::form::{Form, FormModel, form_cleared, form_erased, form_next, form_prev, form_typed};
use crate::models::{UseCase, use_case_name, use_case_next};
use crate::text::{concat2, dec, dec_string, join, joined, owned, push_char, str_eq, texts, chars_of, string_of};
use crate::theme::{Theme, theme_name, theme_next};
use crate::tui::{
    Availability, FitFilter, Mode, SortColumn, availability_label, availability_next, fit_filter_label,
    fit_filter_next, move_selection, moved, sort_label, sort_next,
};

verus! {

/// Rows moved by PgUp/PgDn and Ctrl-U/Ctrl-D.
pub const PAGE: isize = 10;

/// A key as the interface reads it.
#[derive(Debug, Clone, Copy, PartialEq, Eq, Structural)]
pub enum Key {
    Char(char),
    Enter,
    Esc,
    Tab,
    BackTab,
    Backspace,
    Up,
    Down,
    PageUp,
    PageDown,
    Home,
    End,
    Other,
}

/// The row under the cursor, as far as the keys need it.
#[derive(Debug, Clone)]
pub struct Row {
    /// Catalog id of the model.
    pub id: String,
    /// Display name of the model.
    pub name: String,
    /// The model's Ollama tag, when it has one.
    pub tag: Option<String>,
}

/// What the application knows and the keys depend on.
#[derive(Debug, Clone)]
pub struct Context {
    /// The row under the cursor, if any row is visible.
    pub selected: Option<Row>,
    /// True when the marked model id names a model in the analysis.
    pub marked_present: bool,
    /// True when no runtime has reported an installed model.
    pub nothing_installed: bool,
}

/// Work only the application can do, asked for by a transition.
#[derive(Debug, Clone, Copy, PartialEq, Eq, Structural)]
pub enum Effect {
    Nothing,
    /// Rebuild the visible rows from the filters and the search text.
    Refilter,
    /// Re-run the analysis for the use case, then rebuild the rows.
    Recompute,
    /// Start pulling the tag now held in `downloading`.
    Pull,
    /// Probe the local runtimes again.
    Refresh,
    /// Fill the simulation form from the detected hardware.
    FillSimulation,
    /// Fill the speed form from the current speed settings.
    FillSpeed,
    /// Apply the simulation form to the hardware and re-run the analysis.
    ApplySimulation,
    /// Apply the speed form to the speed settings and re-run the analysis.
    ApplySpeed,
    /// Record the pulled tag as installed and rebuild the rows.
    Installed,
    /// Take the new discovery result and rebuild the rows.
    Adopt,
}

/// The interface's own state.
#[derive(Debug)]
pub struct Controls {
    pub mode: Mode,
    pub search: String,
    pub fit_filter: FitFilter,
    pub availability: Availability,
    pub sort: SortColumn,
    pub target: UseCase,
    pub theme: Theme,
    /// Cursor row.
    pub selected: usize,
    /// Number of visible rows.
    pub rows: usize,
    pub status: String,
    pub should_quit: bool,
    /// Tag being pulled, if a pull is running.
    pub downloading: Option<String>,
    /// True while a runtime probe is in flight.
    pub refreshing: bool,
    /// Id of the model marked for comparison.
    pub marked: Option<String>,
    /// The hardware simulation form.
    pub simulation: Form,
    /// The speed settings form.
    pub speed: Form,
}

/// `Controls` as a value.
#[verifier::ext_equal]
pub struct ControlsView {
    pub mode: Mode,
    pub search: Seq<char>,
    pub fit_filter: FitFilter,
    pub availability: Availability,
    pub sort: SortColumn,
    pub target: UseCase,
    pub theme: Theme,
    pub selected: usize,
    pub rows: usize,
    pub status: Seq<char>,
    pub should_quit: bool,
    pub downloading: Option<Seq<char>>,
    pub refreshing: bool,
    pub marked: Option<Seq<char>>,
    pub simulation: FormModel,
    pub speed: FormModel,
}

pub open spec fn opt_text(o: Option<String>) -> Option<Seq<char>> {
    match o {
        Some(s) => Some(s@),
        None => None,
    }
}

impl View for Controls {
    type V = ControlsView;

    open spec fn view(&self) -> ControlsView {
        ControlsView {
            mode: self.mode,
            search: self.search@,
            fit_filter: self.fit_filter,
            availability: self.availability,
            sort: self.sort,
            target: self.target,
            theme: self.theme,
            selected: self.selected,
            rows: self.rows,
            status: self.status@,
            should_quit: self.should_quit,
            downloading: opt_text(self.downloading),
            refreshing: self.refreshing,
            marked: opt_text(self.marked),
            simulation: self.simulation.model(),
            speed: self.speed.model(),
        }
    }
}

/// The cursor moved by `delta` rows.
pub open spec fn moved_by(c: ControlsView, delta: int) -> ControlsView {
    ControlsView { selected: moved(c.selected as nat, c.rows as nat, delta) as usize, ..c }
}

/// The state with only the status line changed.
pub open spec fn says(c: ControlsView, status: Seq<char>) -> ControlsView {
    ControlsView { status, ..c }
}

/// The state with only the mode changed.
pub open spec fn in_mode(c: ControlsView, mode: Mode) -> ControlsView {
    ControlsView { mode, ..c }
}

// ---------------------------------------------------------------------------
// Search mode
// ---------------------------------------------------------------------------

/// Keys while the search query is being typed: every character is text,
/// except Ctrl-U, which clears the query.
pub open spec fn search_step(c: ControlsView, key: Key, ctrl: bool) -> (ControlsView, Effect) {
    match key {
        Key::Esc | Key::Enter => (in_mode(c, Mode::Normal), Effect::Nothing),
        Key::Char(ch) => if ctrl && ch == 'u' {
            (ControlsView { search: Seq::empty(), ..c }, Effect::Refilter)
        } else {
            (ControlsView { search: c.search.push(ch), ..c }, Effect::Refilter)
        },
        Key::Backspace => (
            ControlsView {
                search: if c.search.len() > 0 { c.search.drop_last() } else { c.search },
                ..c
            },
            Effect::Refilter,
        ),
        Key::Up => (moved_by(c, -1), Effect::Nothing),
        Key::Down => (moved_by(c, 1), Effect::Nothing),
        _ => (c, Effect::Nothing),
    }
}

// ---------------------------------------------------------------------------
// The two forms
// ---------------------------------------------------------------------------

/// An edit of the form being shown.
#[derive(Debug, Clone, Copy, PartialEq, Eq, Structural)]
pub enum FormEdit {
    Clear,
    Next,
    Prev,
    Erase,
    Type(char),
}

pub open spec fn edited(m: FormModel, e: FormEdit) -> FormModel {
    match e {
        FormEdit::Clear => form_cleared(m),
        FormEdit::Next => form_next(m),
        FormEdit::Prev => form_prev(m),
        FormEdit::Erase => form_erased(m),
        FormEdit::Type(ch) => form_typed(m, ch),
    }
}

/// The edit applied to the form the mode shows; other modes show none.
pub open spec fn on_active_form(c: ControlsView, e: FormEdit) -> ControlsView {
    if c.mode == Mode::SimulateHardware {
        ControlsView { simulation: edited(c.simulation, e), ..c }
    } else if c.mode == Mode::AdvancedConfig {
        ControlsView { speed: edited(c.speed, e), ..c }
    } else {
        c
    }
}

/// Keys while a form is open. Ctrl-U clears the field and Ctrl-R refills
/// the simulation; `j` and `k` move between fields, so they never reach a
/// field as text.
pub open spec fn form_step(c: ControlsView, key: Key, ctrl: bool) -> (ControlsView, Effect) {
    if ctrl && key == Key::Char('u') {
        (on_active_form(c, FormEdit::Clear), Effect::Nothing)
    } else if ctrl && key == Key::Char('r') {
        (c, if c.mode == Mode::SimulateHardware { Effect::FillSimulation } else { Effect::Nothing })
    } else if key == Key::Esc {
        (in_mode(c, Mode::Normal), Effect::Nothing)
    } else if key == Key::Enter {
        if c.mode == Mode::SimulateHardware {
            (says(in_mode(c, Mode::Normal), "hardware simulation applied"@), Effect::ApplySimulation)
        } else if c.mode == Mode::AdvancedConfig {
            (says(in_mode(c, Mode::Normal), "speed model updated"@), Effect::ApplySpeed)
        } else {
            (in_mode(c, Mode::Normal), Effect::Nothing)
        }
    } else if key == Key::Tab || key == Key::Down || key == Key::Char('j') {
        (on_active_form(c, FormEdit::Next), Effect::Nothing)
    } else if key == Key::BackTab || key == Key::Up || key == Key::Char('k') {
        (on_active_form(c, FormEdit::Prev), Effect::Nothing)
    } else if key == Key::Backspace {
        (on_active_form(c, FormEdit::Erase), Effect::Nothing)
    } else {
        match key {
            Key::Char(ch) => (on_active_form(c, FormEdit::Type(ch)), Effect::Nothing),
            _ => (c, Effect::Nothing),
        }
    }
}

// ---------------------------------------------------------------------------
// The table
// ---------------------------------------------------------------------------

/// The selected row's tag, if there is a selected row and it has one.
pub open spec fn selected_tag(x: Context) -> Option<Seq<char>> {
    match x.selected {
        Some(r) => opt_text(r.tag),
        None => None,
    }
}

/// True when a marked model and a different selected model are both there.
pub open spec fn comparable(c: ControlsView, x: Context) -> bool {
    &&& c.marked is Some
    &&& x.marked_present
    &&& x.selected is Some
    &&& x.selected.unwrap().id@ != c.marked.unwrap()
}

/// Asking to pull `tag`: refused while another pull runs, since two pulls
/// compete for the same disk and neither finishes sooner.
pub open spec fn pull_step(c: ControlsView, tag: Seq<char>) -> (ControlsView, Effect) {
    match c.downloading {
        Some(running) => (says(c, "already downloading "@ + running), Effect::Nothing),
        None => (
            ControlsView { status: "pulling "@ + tag + "…"@, downloading: Some(tag), ..c },
            Effect::Pull,
        ),
    }
}

/// Asking for a fresh probe: refused while one is in flight.
pub open spec fn refresh_step(c: ControlsView) -> (ControlsView, Effect) {
    if c.refreshing {
        (says(c, "already refreshing…"@), Effect::Nothing)
    } else {
        (ControlsView { status: "refreshing installed models…"@, refreshing: true, ..c }, Effect::Refresh)
    }
}

/// Marking the selected model, or clearing the mark when it is that model.
pub open spec fn mark_step(c: ControlsView, x: Context) -> ControlsView {
    match x.selected {
        None => c,
        Some(r) => if c.marked == Some(r.id@) {
            ControlsView { marked: None, status: "comparison mark cleared"@, ..c }
        } else {
            ControlsView {
                marked: Some(r.id@),
                status: "marked "@ + r.name@ + " — press c to compare"@,
                ..c
            }
        },
    }
}

/// Keys over the table and the detail panel. The Ctrl forms of `d` and `u`
/// page the cursor; the bare letters pull and re-rank.
pub open spec fn table_step(c: ControlsView, key: Key, ctrl: bool, x: Context) -> (ControlsView, Effect) {
    if key == Key::Char('q') || key == Key::Esc || (ctrl && key == Key::Char('c')) {
        (ControlsView { should_quit: true, ..c }, Effect::Nothing)
    } else if ctrl && key == Key::Char('d') {
        (moved_by(c, PAGE as int), Effect::Nothing)
    } else if ctrl && key == Key::Char('u') {
        (moved_by(c, -(PAGE as int)), Effect::Nothing)
    } else if key == Key::Char('j') || key == Key::Down {
        (moved_by(c, 1), Effect::Nothing)
    } else if key == Key::Char('k') || key == Key::Up {
        (moved_by(c, -1), Effect::Nothing)
    } else if key == Key::PageDown {
        (moved_by(c, PAGE as int), Effect::Nothing)
    } else if key == Key::PageUp {
        (moved_by(c, -(PAGE as int)), Effect::Nothing)
    } else if key == Key::Char('g') || key == Key::Home {
        (ControlsView { selected: 0, ..c }, Effect::Nothing)
    } else if key == Key::Char('G') || key == Key::End {
        (ControlsView { selected: if c.rows > 0 { (c.rows - 1) as usize } else { 0 }, ..c }, Effect::Nothing)
    } else if key == Key::Char('/') {
        (ControlsView { mode: Mode::Search, status: Seq::empty(), ..c }, Effect::Nothing)
    } else if key == Key::Char('f') {
        let f = fit_filter_next(c.fit_filter);
        (ControlsView { fit_filter: f, status: "fit filter: "@ + fit_filter_label(f), ..c }, Effect::Refilter)
    } else if key == Key::Char('a') {
        let a = availability_next(c.availability);
        let status = if a == Availability::Installed && x.nothing_installed {
            "showing installed only — nothing detected yet, press r to re-probe"@
        } else {
            "showing: "@ + availability_label(a)
        };
        (ControlsView { availability: a, status, ..c }, Effect::Refilter)
    } else if key == Key::Char('s') {
        let s = sort_next(c.sort);
        (ControlsView { sort: s, status: "sorted by "@ + sort_label(s), ..c }, Effect::Refilter)
    } else if key == Key::Char('u') {
        let t = use_case_next(c.target);
        (ControlsView { target: t, status: "use case: "@ + use_case_name(t), ..c }, Effect::Recompute)
    } else if key == Key::Char('d') {
        match selected_tag(x) {
            Some(tag) => pull_step(c, tag),
            None => (
                says(c, "no Ollama tag for this model — see the detail panel for the command"@),
                Effect::Nothing,
            ),
        }
    } else if key == Key::Char('r') {
        refresh_step(c)
    } else if key == Key::Char('p') {
        (if x.selected is Some { in_mode(c, Mode::Plan) } else { c }, Effect::Nothing)
    } else if key == Key::Char('S') {
        (in_mode(c, Mode::SimulateHardware), Effect::FillSimulation)
    } else if key == Key::Char('A') {
        (in_mode(c, Mode::AdvancedConfig), Effect::FillSpeed)
    } else if key == Key::Char('t') {
        let t = theme_next(c.theme);
        (ControlsView { theme: t, status: "theme: "@ + theme_name(t), ..c }, Effect::Nothing)
    } else if key == Key::Char('m') {
        (mark_step(c, x), Effect::Nothing)
    } else if key == Key::Char('c') {
        if comparable(c, x) {
            (in_mode(c, Mode::Comparison), Effect::Nothing)
        } else if !(c.marked is Some && x.marked_present) {
            (says(c, "mark a model first (press m)"@), Effect::Nothing)
        } else {
            (says(c, "select a different model to compare against"@), Effect::Nothing)
        }
    } else if key == Key::Enter {
        (in_mode(c, if c.mode == Mode::Detail { Mode::Normal } else { Mode::Detail }), Effect::Nothing)
    } else if key == Key::Char('h') || key == Key::Char('?') {
        (in_mode(c, Mode::Help), Effect::Nothing)
    } else {
        (c, Effect::Nothing)
    }
}

/// What a key press does, by mode. Any key dismisses a read-only panel or
/// popup.
pub open spec fn key_step(c: ControlsView, key: Key, ctrl: bool, x: Context) -> (ControlsView, Effect) {
    match c.mode {
        Mode::Search => search_step(c, key, ctrl),
        Mode::Help | Mode::Plan | Mode::Comparison => (in_mode(c, Mode::Normal), Effect::Nothing),
        Mode::SimulateHardware | Mode::AdvancedConfig => form_step(c, key, ctrl),
        Mode::Normal | Mode::Detail => table_step(c, key, ctrl, x),
    }
}

// ---------------------------------------------------------------------------
// Background work
// ---------------------------------------------------------------------------

/// The status after a runtime probe that found `names` running and
/// `installed` models on them.
pub open spec fn discovery_status(names: Seq<Seq<char>>, installed: nat) -> Seq<char> {
    if names.len() == 0 {
        "no local runtime is running"@
    } else if installed == 0 {
        joined(names, ", "@) + " running, no models installed"@
    } else {
        joined(names, ", "@) + " — "@ + dec(installed) + " model(s) installed"@
    }
}

impl Controls {
    /// The state a session starts in.
    pub fn new(target: UseCase, theme: Theme, simulation: Form, speed: Form) -> (r: Controls)
        ensures
            r@ == (ControlsView {
                mode: Mode::Normal,
                search: Seq::empty(),
                fit_filter: FitFilter::All,
                availability: Availability::All,
                sort: SortColumn::Score,
                target,
                theme,
                selected: 0,
                rows: 0,
                status: Seq::empty(),
                should_quit: false,
                downloading: None,
                refreshing: false,
                marked: None,
                simulation: simulation.model(),
                speed: speed.model(),
            }),
    {
        Controls {
            mode: Mode::Normal,
            search: String::new(),
            fit_filter: FitFilter::All,
            availability: Availability::All,
            sort: SortColumn::Score,
            target,
            theme,
            selected: 0,
            rows: 0,
            status: String::new(),
            should_quit: false,
            downloading: None,
            refreshing: false,
            marked: None,
            simulation,
            speed,
        }
    }

    /// Handle one key press.
    pub fn handle_key(&mut self, key: Key, ctrl: bool, ctx: &Context) -> (e: Effect)
        ensures
            (final(self)@, e) == key_step(old(self)@, key, ctrl, *ctx),
    {
        match self.mode {
            Mode::Search => self.search_key(key, ctrl),
            Mode::Help | Mode::Plan | Mode::Comparison => {
                self.mode = Mode::Normal;
                Effect::Nothing
            },
            Mode::SimulateHardware | Mode::AdvancedConfig => self.form_key(key, ctrl),
            Mode::Normal | Mode::Detail => self.table_key(key, ctrl, ctx),
        }
    }

    fn move_by(&mut self, delta: isize)
        ensures
            final(self)@ == moved_by(old(self)@, delta as int),
    {
        self.selected = move_selection(self.selected, self.rows, delta);
    }

    fn search_key(&mut self, key: Key, ctrl: bool) -> (e: Effect)
        ensures
            (final(self)@, e) == search_step(old(self)@, key, ctrl),
    {
        match key {
            Key::Esc | Key::Enter => {
                self.mode = Mode::Normal;
                Effect::Nothing
            },
            Key::Char(ch) => {
                if ctrl && ch == 'u' {
                    self.search = String::new();
                } else {
                    push_char(&mut self.search, ch);
                }
                Effect::Refilter
            },
            Key::Backspace => {
                let v = chars_of(self.search.as_str());
                if v.len() > 0 {
                    let kept = string_of(vstd::slice::slice_subrange(v.as_slice(), 0, v.len() - 1));
                    assert(kept@ =~= v@.drop_last());
                    self.search = kept;
                }
                Effect::Refilter
            },
            Key::Up => {
                self.move_by(-1);
                Effect::Nothing
            },
            Key::Down => {
                self.move_by(1);
                Effect::Nothing
            },
            _ => Effect::Nothing,
        }
    }

    fn edit_form(&mut self, e: FormEdit)
        ensures
            final(self)@ == on_active_form(old(self)@, e),
    {
        if self.mode == Mode::SimulateHardware {
            apply_edit(&mut self.simulation, e);
        } else if self.mode == Mode::AdvancedConfig {
            apply_edit(&mut self.speed, e);
        }
    }

    fn form_key(&mut self, key: Key, ctrl: bool) -> (e: Effect)
        ensures
            (final(self)@, e) == form_step(old(self)@, key, ctrl),
    {
        if ctrl && key == Key::Char('u') {
            self.edit_form(FormEdit::Clear);
            Effect::Nothing
        } else if ctrl && key == Key::Char('r') {
            if self.mode == Mode::SimulateHardware {
                Effect::FillSimulation
            } else {
                Effect::Nothing
            }
        } else if key == Key::Esc {
            self.mode = Mode::Normal;
            Effect::Nothing
        } else if key == Key::Enter {
            if self.mode == Mode::SimulateHardware {
                self.mode = Mode::Normal;
                self.status = owned("hardware simulation applied");
                Effect::ApplySimulation
            } else if self.mode == Mode::AdvancedConfig {
                self.mode = Mode::Normal;
                self.status = owned("speed model updated");
                Effect::ApplySpeed
            } else {
                self.mode = Mode::Normal;
                Effect::Nothing
            }
        } else if key == Key::Tab || key == Key::Down || key == Key::Char('j') {
            self.edit_form(FormEdit::Next);
            Effect::Nothing
        } else if key == Key::BackTab || key == Key::Up || key == Key::Char('k') {
            self.edit_form(FormEdit::Prev);
            Effect::Nothing
        } else if key == Key::Backspace {
            self.edit_form(FormEdit::Erase);
            Effect::Nothing
        } else {
            match key {
                Key::Char(ch) => {
                    self.edit_form(FormEdit::Type(ch));
                    Effect::Nothing
                },
                _ => Effect::Nothing,
            }
        }
    }

    /// Start pulling `tag` unless a pull is already running.
    fn start_pull(&mut self, tag: &str) -> (e: Effect)
        ensures
            (final(self)@, e) == pull_step(old(self)@, tag@),
    {
        let busy = match &self.downloading {
            Some(running) => Some(concat2("already downloading ", running.as_str())),
            None => None,
        };
        match busy {
            Some(message) => {
                self.status = message;
                Effect::Nothing
            },
            None => {
                let mut s = concat2("pulling ", tag);
                s.append("…");
                self.status = s;
                self.downloading = Some(owned(tag));
                Effect::Pull
            },
        }
    }

    fn refresh(&mut self) -> (e: Effect)
        ensures
            (final(self)@, e) == refresh_step(old(self)@),
    {
        if self.refreshing {
            self.status = owned("already refreshing…");
            Effect::Nothing
        } else {
            self.status = owned("refreshing installed models…");
            self.refreshing = true;
            Effect::Refresh
        }
    }

    fn mark(&mut self, ctx: &Context)
        ensures
            final(self)@ == mark_step(old(self)@, *ctx),
    {
        match &ctx.selected {
            None => {},
            Some(r) => {
                let same = match &self.marked {
                    Some(m) => str_eq(m.as_str(), r.id.as_str()),
                    None => false,
                };
                if same {
                    self.marked = None;
                    self.status = owned("comparison mark cleared");
                } else {
                    self.marked = Some(owned(r.id.as_str()));
                    let mut s = concat2("marked ", r.name.as_str());
                    s.append(" — press c to compare");
                    self.status = s;
                }
            },
        }
    }

    fn compare(&mut self, ctx: &Context)
        ensures
            (final(self)@, Effect::Nothing) == table_step(old(self)@, Key::Char('c'), false, *ctx),
    {
        let can = match &self.marked {
            Some(m) => match &ctx.selected {
                Some(r) => ctx.marked_present && !str_eq(m.as_str(), r.id.as_str()),
                None => false,
            },
            None => false,
        };
        if can {
            self.mode = Mode::Comparison;
        } else if !(self.marked.is_some() && ctx.marked_present) {
            self.status = owned("mark a model first (press m)");
        } else {
            self.status = owned("select a different model to compare against");
        }
    }

    fn table_key(&mut self, key: Key, ctrl: bool, ctx: &Context) -> (e: Effect)
        ensures
            (final(self)@, e) == table_step(old(self)@, key, ctrl, *ctx),
    {
        if key == Key::Char('q') || key == Key::Esc || (ctrl && key == Key::Char('c')) {
            self.should_quit = true;
            Effect::Nothing
        } else if ctrl && key == Key::Char('d') {
            self.move_by(PAGE);
            Effect::Nothing
        } else if ctrl && key == Key::Char('u') {
            self.move_by(-PAGE);
            Effect::Nothing
        } else if key == Key::Char('j') || key == Key::Down {
            self.move_by(1);
            Effect::Nothing
        } else if key == Key::Char('k') || key == Key::Up {
            self.move_by(-1);
            Effect::Nothing
        } else if key == Key::PageDown {
            self.move_by(PAGE);
            Effect::Nothing
        } else if key == Key::PageUp {
            self.move_by(-PAGE);
            Effect::Nothing
        } else if key == Key::Char('g') || key == Key::Home {
            self.selected = 0;
            Effect::Nothing
        } else if key == Key::Char('G') || key == Key::End {
            self.selected = if self.rows > 0 { self.rows - 1 } else { 0 };
            Effect::Nothing
        } else if key == Key::Char('/') {
            self.mode = Mode::Search;
            self.status = String::new();
            Effect::Nothing
        } else if key == Key::Char('f') {
            self.fit_filter = self.fit_filter.next();
            self.status = concat2("fit filter: ", self.fit_filter.label());
            Effect::Refilter
        } else if key == Key::Char('a') {
            self.availability = self.availability.next();
            self.status = if self.availability == Availability::Installed && ctx.nothing_installed {
                owned("showing installed only — nothing detected yet, press r to re-probe")
            } else {
                concat2("showing: ", self.availability.label())
            };
            Effect::Refilter
        } else if key == Key::Char('s') {
            self.sort = self.sort.next();
            self.status = concat2("sorted by ", self.sort.label());
            Effect::Refilter
        } else if key == Key::Char('u') {
            self.target = self.target.next();
            self.status = concat2("use case: ", self.target.as_str());
            Effect::Recompute
        } else if key == Key::Char('d') {
            let tag: Option<&String> = match &ctx.selected {
                Some(r) => match &r.tag {
                    Some(t) => Some(t),
                    None => None,
                },
                None => None,
            };
            match tag {
                Some(t) => self.start_pull(t.as_str()),
                None => {
                    self.status = owned("no Ollama tag for this model — see the detail panel for the command");
                    Effect::Nothing
                },
            }
        } else if key == Key::Char('r') {
            self.refresh()
        } else if key == Key::Char('p') {
            if ctx.selected.is_some() {
                self.mode = Mode::Plan;
            }
            Effect::Nothing
        } else if key == Key::Char('S') {
            self.mode = Mode::SimulateHardware;
            Effect::FillSimulation
        } else if key == Key::Char('A') {
            self.mode = Mode::AdvancedConfig;
            Effect::FillSpeed
        } else if key == Key::Char('t') {
            self.theme = self.theme.next();
            self.status = concat2("theme: ", self.theme.name());
            Effect::Nothing
        } else if key == Key::Char('m') {
            self.mark(ctx);
            Effect::Nothing
        } else if key == Key::Char('c') {
            self.compare(ctx);
            Effect::Nothing
        } else if key == Key::Enter {
            self.mode = if self.mode == Mode::Detail { Mode::Normal } else { Mode::Detail };
            Effect::Nothing
        } else if key == Key::Char('h') || key == Key::Char('?') {
            self.mode = Mode::Help;
            Effect::Nothing
        } else {
            Effect::Nothing
        }
    }

    /// A pull finished and the runtime has the tag now.
    pub fn on_pulled(&mut self, tag: &str) -> (e: Effect)
        ensures
            final(self)@ == (ControlsView { downloading: None, status: "pulled "@ + tag@, ..old(self)@ }),
            e == Effect::Installed,
    {
        self.downloading = None;
        self.status = concat2("pulled ", tag);
        Effect::Installed
    }

    /// A pull failed with `error`.
    pub fn on_pull_failed(&mut self, tag: &str, error: &str) -> (e: Effect)
        ensures
            final(self)@ == (ControlsView {
                downloading: None,
                status: "pull of "@ + tag@ + " failed: "@ + error@,
                ..old(self)@
            }),
            e == Effect::Nothing,
    {
        self.downloading = None;
        let mut s = concat2("pull of ", tag);
        s.append(" failed: ");
        s.append(error);
        self.status = s;
        Effect::Nothing
    }

    /// A runtime probe found `runtimes` running, with `installed` models on
    /// them.
    pub fn on_discovered(&mut self, runtimes: &[String], installed: usize) -> (e: Effect)
        ensures
            final(self)@ == (ControlsView {
                refreshing: false,
                status: discovery_status(texts(runtimes@), installed as nat),
                ..old(self)@
            }),
            e == Effect::Adopt,
    {
        self.refreshing = false;
        if runtimes.len() == 0 {
            self.status = owned("no local runtime is running");
        } else if installed == 0 {
            let mut s = join(runtimes, ", ");
            s.append(" running, no models installed");
            self.status = s;
        } else {
            let mut s = join(runtimes, ", ");
            s.append(" — ");
            let n = dec_string(installed as u64);
            s.append(n.as_str());
            s.append(" model(s) installed");
            self.status = s;
        }
        proof {
            assert(texts(runtimes@).len() == runtimes@.len());
        }
        Effect::Adopt
    }

    /// A runtime probe failed; what was known before is kept, since a failed
    /// probe is no evidence that the models went away.
    pub fn on_discovery_failed(&mut self, error: &str) -> (e: Effect)
        ensures
            final(self)@ == (ControlsView { refreshing: false, status: "refresh failed: "@ + error@, ..old(self)@ }),
            e == Effect::Nothing,
    {
        self.refreshing = false;
        self.status = concat2("refresh failed: ", error);
        Effect::Nothing
    }
}

// ---------------------------------------------------------------------------
// Laws
// ---------------------------------------------------------------------------

/// Any key dismisses a read-only panel or popup, and does nothing else.
pub proof fn lemma_any_key_closes_a_read_only_panel(c: ControlsView, key: Key, ctrl: bool, x: Context)
    requires
        c.mode == Mode::Help || c.mode == Mode::Plan || c.mode == Mode::Comparison,
    ensures
        key_step(c, key, ctrl, x) == (in_mode(c, Mode::Normal), Effect::Nothing),
{
}

/// While searching, every character is typed into the query, whatever it
/// would do over the table; only Ctrl-U is read as a command.
pub proof fn lemma_search_types_every_character(c: ControlsView, ch: char, ctrl: bool, x: Context)
    requires
        c.mode == Mode::Search,
        !(ctrl && ch == 'u'),
    ensures
        key_step(c, Key::Char(ch), ctrl, x) == (ControlsView { search: c.search.push(ch), ..c }, Effect::Refilter),
{
}

/// In a form, `j` and `k` move between fields and never reach a field as
/// text: no field's text changes.
pub proof fn lemma_form_navigation_is_not_text(c: ControlsView, ch: char, ctrl: bool, x: Context)
    requires
        c.mode == Mode::SimulateHardware || c.mode == Mode::AdvancedConfig,
        ch == 'j' || ch == 'k',
    ensures
        key_step(c, Key::Char(ch), ctrl, x).0.simulation.0 == c.simulation.0,
        key_step(c, Key::Char(ch), ctrl, x).0.speed.0 == c.speed.0,
        key_step(c, Key::Char(ch), ctrl, x).1 == Effect::Nothing,
{
}

/// Over the table, Ctrl-D and Ctrl-U only page the cursor: they neither pull
/// nor re-rank.
pub proof fn lemma_ctrl_paging_only_moves(c: ControlsView, ch: char, x: Context)
    requires
        c.mode == Mode::Normal || c.mode == Mode::Detail,
        ch == 'd' || ch == 'u',
    ensures
        key_step(c, Key::Char(ch), true, x) == (
            moved_by(c, if ch == 'd' { PAGE as int } else { -(PAGE as int) }),
            Effect::Nothing,
        ),
{
}

/// The cursor stays on a row: a key never moves it off a non-empty list,
/// and never changes the row count.
pub proof fn lemma_cursor_stays_on_a_row(c: ControlsView, key: Key, ctrl: bool, x: Context)
    requires
        c.rows > 0 ==> c.selected < c.rows,
    ensures
        key_step(c, key, ctrl, x).0.rows == c.rows,
        c.rows > 0 ==> key_step(c, key, ctrl, x).0.selected < c.rows,
{
}

/// A pull is asked for only when none is running, and then for the
/// selected model's own tag; a running pull is never replaced.
pub proof fn lemma_one_pull_at_a_time(c: ControlsView, key: Key, ctrl: bool, x: Context)
    ensures
        key_step(c, key, ctrl, x).1 == Effect::Pull ==> c.downloading is None && key_step(
            c,
            key,
            ctrl,
            x,
        ).0.downloading == selected_tag(x) && selected_tag(x) is Some,
        c.downloading is Some ==> key_step(c, key, ctrl, x).0.downloading == c.downloading,
{
}

/// A probe is asked for only when none is in flight.
pub proof fn lemma_probes_do_not_stack(c: ControlsView, key: Key, ctrl: bool, x: Context)
    ensures
        key_step(c, key, ctrl, x).1 == Effect::Refresh ==> !c.refreshing && key_step(c, key, ctrl, x).0.refreshing,
        c.refreshing ==> key_step(c, key, ctrl, x).0.refreshing,
{
}

fn apply_edit(f: &mut Form, e: FormEdit)
    ensures
        final(f).model() == edited(old(f).model(), e),
{
    match e {
        FormEdit::Clear => f.clear_active(),
        FormEdit::Next => f.focus_next(),
        FormEdit::Prev => f.focus_prev(),
        FormEdit::Erase => f.backspace(),
        FormEdit::Type(ch) => f.push(ch),
    }
}

} // verus!

//! The interactive interface's state machine: modes, filter and sort cycles,
//! cursor movement, and where the status bar's buttons sit.
//!
//! Drawing and reading the terminal happen in the application.

use vstd::prelude::*;
use crate::fit::FitLevel;
use crate::models::{Searchable, search_matches};
use crate::text::{chars_of, push_char, string_of};

verus! {

#[derive(Debug, Clone, Copy, PartialEq, Eq, Structural)]
pub enum Mode {
    Normal,
    Search,
    Help,
    Detail,
    Plan,
    SimulateHardware,
    AdvancedConfig,
    Comparison,
}

pub open spec fn panel_mode(m: Mode) -> bool {
    m == Mode::Detail || m == Mode::Plan || m == Mode::Comparison
}

pub open spec fn popup_mode(m: Mode) -> bool {
    m == Mode::Help || m == Mode::SimulateHardware || m == Mode::AdvancedConfig
}

impl Mode {
    /// True when the mode draws a panel below the table rather than over it.
    pub fn is_panel(self) -> (r: bool)
        ensures
            r == panel_mode(self),
    {
        self == Mode::Detail || self == Mode::Plan || self == Mode::Comparison
    }

    /// True when the mode draws a popup over the whole screen.
    pub fn is_popup(self) -> (r: bool)
        ensures
            r == popup_mode(self),
    {
        self == Mode::Help || self == Mode::SimulateHardware || self == Mode::AdvancedConfig
    }
}

/// No mode draws both a panel and a popup, which would render both.
pub proof fn lemma_modes_draw_one_thing(m: Mode)
    ensures
        !(panel_mode(m) && popup_mode(m)),
{
}

#[derive(Debug, Clone, Copy, PartialEq, Eq, Structural)]
pub enum FitFilter {
    All,
    Runnable,
    Perfect,
    Good,
    Marginal,
}

pub open spec fn fit_filter_label(f: FitFilter) -> Seq<char> {
    match f {
        FitFilter::All => "All"@,
        FitFilter::Runnable => "Runnable"@,
        FitFilter::Perfect => "Perfect"@,
        FitFilter::Good => "Good"@,
        FitFilter::Marginal => "Marginal"@,
    }
}

/// The filter after `f` in the cycle All, Runnable, Perfect, Good, Marginal.
pub open spec fn fit_filter_next(f: FitFilter) -> FitFilter {
    match f {
        FitFilter::All => FitFilter::Runnable,
        FitFilter::Runnable => FitFilter::Perfect,
        FitFilter::Perfect => FitFilter::Good,
        FitFilter::Good => FitFilter::Marginal,
        FitFilter::Marginal => FitFilter::All,
    }
}

pub open spec fn fit_filter_accepts(f: FitFilter, fit: FitLevel) -> bool {
    match f {
        FitFilter::All => true,
        FitFilter::Runnable => fit != FitLevel::TooTight,
        FitFilter::Perfect => fit == FitLevel::Perfect,
        FitFilter::Good => fit == FitLevel::Good,
        FitFilter::Marginal => fit == FitLevel::Marginal,
    }
}

impl FitFilter {
    pub const CYCLE: [FitFilter; 5] = [
        FitFilter::All,
        FitFilter::Runnable,
        FitFilter::Perfect,
        FitFilter::Good,
        FitFilter::Marginal,
    ];

    pub fn label(self) -> (r: &'static str)
        ensures
            r@ == fit_filter_label(self),
    {
        match self {
            FitFilter::All => "All",
            FitFilter::Runnable => "Runnable",
            FitFilter::Perfect => "Perfect",
            FitFilter::Good => "Good",
            FitFilter::Marginal => "Marginal",
        }
    }

    pub fn next(self) -> (r: FitFilter)
        ensures
            r == fit_filter_next(self),
    {
        match self {
            FitFilter::All => FitFilter::Runnable,
            FitFilter::Runnable => FitFilter::Perfect,
            FitFilter::Perfect => FitFilter::Good,
            FitFilter::Good => FitFilter::Marginal,
            FitFilter::Marginal => FitFilter::All,
        }
    }

    /// Whether a result with this fit passes the filter.
    pub fn accepts(self, fit: FitLevel) -> (r: bool)
        ensures
            r == fit_filter_accepts(self, fit),
    {
        match self {
            FitFilter::All => true,
            FitFilter::Runnable => fit != FitLevel::TooTight,
            FitFilter::Perfect => fit == FitLevel::Perfect,
            FitFilter::Good => fit == FitLevel::Good,
            FitFilter::Marginal => fit == FitLevel::Marginal,
        }
    }
}

#[derive(Debug, Clone, Copy, PartialEq, Eq, Structural)]
pub enum Availability {
    /// Every model in the catalog.
    All,
    /// Only models with a published GGUF build.
    Gguf,
    /// Only models a local runtime already has on disk.
    Installed,
}

pub open spec fn availability_label(a: Availability) -> Seq<char> {
    match a {
        Availability::All => "All"@,
        Availability::Gguf => "GGUF"@,
        Availability::Installed => "Installed"@,
    }
}

pub open spec fn availability_next(a: Availability) -> Availability {
    match a {
        Availability::All => Availability::Gguf,
        Availability::Gguf => Availability::Installed,
        Availability::Installed => Availability::All,
    }
}

impl Availability {
    pub const CYCLE: [Availability; 3] = [
        Availability::All,
        Availability::Gguf,
        Availability::Installed,
    ];

    pub fn label(self) -> (r: &'static str)
        ensures
            r@ == availability_label(self),
    {
        match self {
            Availability::All => "All",
            Availability::Gguf => "GGUF",
            Availability::Installed => "Installed",
        }
    }

    pub fn next(self) -> (r: Availability)
        ensures
            r == availability_next(self),
    {
        match self {
            Availability::All => Availability::Gguf,
            Availability::Gguf => Availability::Installed,
            Availability::Installed => Availability::All,
        }
    }

    /// Whether a model passes: `gguf` says it has a GGUF build, `installed`
    /// that a local runtime has it.
    pub fn accepts(self, gguf: bool, installed: bool) -> (r: bool)
        ensures
            r == match self {
                Availability::All => true,
                Availability::Gguf => gguf,
                Availability::Installed => installed,
            },
    {
        match self {
            Availability::All => true,
            Availability::Gguf => gguf,
            Availability::Installed => installed,
        }
    }
}

#[derive(Debug, Clone, Copy, PartialEq, Eq, Structural)]
pub enum SortColumn {
    Score,
    Params,
    Speed,
    Memory,
    Download,
    Context,
    Date,
    UseCase,
}

pub open spec fn sort_label(s: SortColumn) -> Seq<char> {
    match s {
        SortColumn::Score => "Score"@,
        SortColumn::Params => "Params"@,
        SortColumn::Speed => "tok/s"@,
        SortColumn::Memory => "Mem%"@,
        SortColumn::Download => "Size"@,
        SortColumn::Context => "Ctx"@,
        SortColumn::Date => "Date"@,
        SortColumn::UseCase => "Use Case"@,
    }
}

pub open spec fn sort_next(s: SortColumn) -> SortColumn {
    match s {
        SortColumn::Score => SortColumn::Params,
        SortColumn::Params => SortColumn::Speed,
        SortColumn::Speed => SortColumn::Memory,
        SortColumn::Memory => SortColumn::Download,
        SortColumn::Download => SortColumn::Context,
        SortColumn::Context => SortColumn::Date,
        SortColumn::Date => SortColumn::UseCase,
        SortColumn::UseCase => SortColumn::Score,
    }
}

impl SortColumn {
    pub const CYCLE: [SortColumn; 8] = [
        SortColumn::Score,
        SortColumn::Params,
        SortColumn::Speed,
        SortColumn::Memory,
        SortColumn::Download,
        SortColumn::Context,
        SortColumn::Date,
        SortColumn::UseCase,
    ];

    pub fn label(self) -> (r: &'static str)
        ensures
            r@ == sort_label(self),
    {
        match self {
            SortColumn::Score => "Score",
            SortColumn::Params => "Params",
            SortColumn::Speed => "tok/s",
            SortColumn::Memory => "Mem%",
            SortColumn::Download => "Size",
            SortColumn::Context => "Ctx",
            SortColumn::Date => "Date",
            SortColumn::UseCase => "Use Case",
        }
    }

    pub fn next(self) -> (r: SortColumn)
        ensures
            r == sort_next(self),
    {
        match self {
            SortColumn::Score => SortColumn::Params,
            SortColumn::Params => SortColumn::Speed,
            SortColumn::Speed => SortColumn::Memory,
            SortColumn::Memory => SortColumn::Download,
            SortColumn::Download => SortColumn::Context,
            SortColumn::Context => SortColumn::Date,
            SortColumn::Date => SortColumn::UseCase,
            SortColumn::UseCase => SortColumn::Score,
        }
    }
}

/// Each cycle comes back to where it started, after one step per entry.
pub proof fn lemma_cycles_wrap(f: FitFilter, a: Availability, s: SortColumn)
    ensures
        fit_filter_next(fit_filter_next(fit_filter_next(fit_filter_next(fit_filter_next(f))))) == f,
        availability_next(availability_next(availability_next(a))) == a,
        sort_next(sort_next(sort_next(sort_next(sort_next(sort_next(sort_next(sort_next(s)))))))) == s,
{
}

// ---------------------------------------------------------------------------
// Cursor
// ---------------------------------------------------------------------------

/// The cursor after moving `delta` rows in a list of `visible` rows: clamped
/// to the list, and unchanged when the list is empty.
pub open spec fn moved(selected: nat, visible: nat, delta: int) -> nat {
    if visible == 0 {
        selected
    } else if selected + delta < 0 {
        0
    } else if selected + delta > visible - 1 {
        (visible - 1) as nat
    } else {
        (selected + delta) as nat
    }
}

/// Move the cursor by `delta` rows.
pub fn move_selection(selected: usize, visible: usize, delta: isize) -> (r: usize)
    ensures
        r == moved(selected as nat, visible as nat, delta as int),
        visible > 0 ==> r < visible,
{
    if visible == 0 {
        return selected;
    }
    let t: i128 = selected as i128 + delta as i128;
    if t < 0 {
        0
    } else if t > (visible - 1) as i128 {
        visible - 1
    } else {
        t as usize
    }
}

/// The cursor kept inside a list of `visible` rows after the list changed.
pub fn clamp_selection(selected: usize, visible: usize) -> (r: usize)
    ensures
        visible == 0 ==> r == 0,
        visible > 0 ==> r == if selected < visible { selected } else { (visible - 1) as usize },
{
    if visible == 0 {
        0
    } else if selected < visible {
        selected
    } else {
        visible - 1
    }
}

/// The last row of a list of `visible` rows (row 0 of an empty one).
pub fn last_row(visible: usize) -> (r: usize)
    ensures
        r == if visible > 0 { (visible - 1) as usize } else { 0 },
{
    if visible > 0 {
        visible - 1
    } else {
        0
    }
}

// ---------------------------------------------------------------------------
// Cells and the status bar
// ---------------------------------------------------------------------------

/// `s` cut to `width` characters, the last one replaced by `…` when
/// anything was cut.
pub open spec fn ellipsized(s: Seq<char>, width: nat) -> Seq<char> {
    if s.len() <= width {
        s
    } else {
        s.take(if width >= 1 { width - 1 } else { 0 }) + seq!['…']
    }
}

/// Cut text to a cell width, marking the cut with `…`.
pub fn truncate(text: &str, width: usize) -> (r: String)
    ensures
        r@ == ellipsized(text@, width as nat),
{
    let v = chars_of(text);
    if v.len() <= width {
        return crate::text::owned(text);
    }
    let keep = if width >= 1 { width - 1 } else { 0 };
    let mut r = string_of(vstd::slice::slice_subrange(v.as_slice(), 0, keep));
    push_char(&mut r, '…');
    assert(r@ =~= ellipsized(text@, width as nat));
    r
}

/// The keystroke a status-bar button stands for.
#[derive(Debug, Clone, Copy, PartialEq, Eq, Structural)]
pub enum ButtonKey {
    Char(char),
    Enter,
}

/// The status bar's buttons, in the order they are drawn.
pub open spec fn button(i: nat) -> (Seq<char>, ButtonKey) {
    if i == 0 {
        ("/ search"@, ButtonKey::Char('/'))
    } else if i == 1 {
        ("f fit"@, ButtonKey::Char('f'))
    } else if i == 2 {
        ("a show"@, ButtonKey::Char('a'))
    } else if i == 3 {
        ("s sort"@, ButtonKey::Char('s'))
    } else if i == 4 {
        ("u use case"@, ButtonKey::Char('u'))
    } else if i == 5 {
        ("d download"@, ButtonKey::Char('d'))
    } else if i == 6 {
        ("Enter detail"@, ButtonKey::Enter)
    } else if i == 7 {
        ("h help"@, ButtonKey::Char('h'))
    } else {
        ("q quit"@, ButtonKey::Char('q'))
    }
}

pub open spec fn button_count() -> nat {
    9
}

/// Width of the unclickable text before the buttons (` j/k move  `).
pub open spec fn prefix_width() -> nat {
    11
}

/// First column of button `i`: after the prefix, each earlier button takes
/// its label, a padding space on each side, and one blank column.
pub open spec fn button_start(i: nat) -> nat
    decreases i,
{
    if i == 0 {
        prefix_width()
    } else {
        button_start((i - 1) as nat) + button((i - 1) as nat).0.len() + 3
    }
}

/// One past the last column of button `i`.
pub open spec fn button_end(i: nat) -> nat {
    button_start(i) + button(i).0.len() + 2
}

/// How many buttons fit in `width` columns: the leading ones that end inside it.
pub open spec fn buttons_fitting(width: nat, i: nat) -> nat
    decreases button_count() - i,
{
    if i >= button_count() || button_end(i) > width {
        i
    } else {
        buttons_fitting(width, i + 1)
    }
}

/// The button whose span holds `column`, among those drawn.
pub open spec fn button_hit(width: nat, column: nat, i: nat) -> Option<ButtonKey>
    decreases button_count() - i,
{
    if i >= buttons_fitting(width, 0) || i >= button_count() {
        None
    } else if button_start(i) <= column < button_end(i) {
        Some(button(i).1)
    } else {
        button_hit(width, column, i + 1)
    }
}

/// The status bar's `i`-th button: its label and the keystroke it stands for.
pub fn status_button(i: usize) -> (r: (&'static str, ButtonKey))
    requires
        i < 9,
    ensures
        (r.0@, r.1) == button(i as nat),
{
    if i == 0 {
        ("/ search", ButtonKey::Char('/'))
    } else if i == 1 {
        ("f fit", ButtonKey::Char('f'))
    } else if i == 2 {
        ("a show", ButtonKey::Char('a'))
    } else if i == 3 {
        ("s sort", ButtonKey::Char('s'))
    } else if i == 4 {
        ("u use case", ButtonKey::Char('u'))
    } else if i == 5 {
        ("d download", ButtonKey::Char('d'))
    } else if i == 6 {
        ("Enter detail", ButtonKey::Enter)
    } else if i == 7 {
        ("h help", ButtonKey::Char('h'))
    } else {
        ("q quit", ButtonKey::Char('q'))
    }
}

proof fn lemma_button_widths(i: nat)
    requires
        i < 9,
    ensures
        1 <= button(i).0.len() <= 12,
{
    reveal_strlit("/ search");
    reveal_strlit("f fit");
    reveal_strlit("a show");
    reveal_strlit("s sort");
    reveal_strlit("u use case");
    reveal_strlit("d download");
    reveal_strlit("Enter detail");
    reveal_strlit("h help");
    reveal_strlit("q quit");
}

proof fn lemma_button_start_bound(i: nat)
    requires
        i <= 9,
    ensures
        button_start(i) <= 11 + 15 * i,
    decreases i,
{
    if i > 0 {
        lemma_button_start_bound((i - 1) as nat);
        lemma_button_widths((i - 1) as nat);
    }
}

proof fn lemma_fitting_bound(width: nat, i: nat)
    requires
        i <= 9,
    ensures
        i <= buttons_fitting(width, i) <= 9,
        forall|j: nat| i <= j < buttons_fitting(width, i) ==> button_end(j) <= width,
        buttons_fitting(width, i) < 9 ==> button_end(buttons_fitting(width, i)) > width,
    decreases 9 - i,
{
    if i < 9 && button_end(i) <= width {
        lemma_fitting_bound(width, i + 1);
    }
}

/// Where each status-bar button sits: `(first column, one past the last,
/// keystroke)`, for the buttons that fit in `width` columns.
pub fn status_button_layout(width: u16) -> (r: Vec<(u16, u16, ButtonKey)>)
    ensures
        r.len() == buttons_fitting(width as nat, 0),
        forall|i: int| 0 <= i < r.len() ==> (#[trigger] r@[i]).0 == button_start(i as nat) && r@[i].1
            == button_end(i as nat) && r@[i].2 == button(i as nat).1,
{
    let mut out: Vec<(u16, u16, ButtonKey)> = Vec::new();
    let mut x: u16 = 11;
    let mut i: usize = 0;
    proof {
        lemma_fitting_bound(width as nat, 0);
    }
    while i < 9
        invariant
            i <= 9,
            out.len() == i,
            x == button_start(i as nat),
            x <= 11 + 15 * i,
            buttons_fitting(width as nat, 0) == buttons_fitting(width as nat, i as nat),
            forall|j: int| 0 <= j < out.len() ==> (#[trigger] out@[j]).0 == button_start(j as nat) && out@[j].1
                == button_end(j as nat) && out@[j].2 == button(j as nat).1,
        ensures
            out.len() == buttons_fitting(width as nat, 0),
            forall|j: int| 0 <= j < out.len() ==> (#[trigger] out@[j]).0 == button_start(j as nat) && out@[j].1
                == button_end(j as nat) && out@[j].2 == button(j as nat).1,
        decreases 9 - i,
    {
        let (label, key) = status_button(i);
        proof {
            lemma_button_widths(i as nat);
        }
        let n = chars_of(label).len();
        let end: u16 = x + (n as u16) + 2;
        assert(end == button_end(i as nat));
        if end > width {
            assert(buttons_fitting(width as nat, i as nat) == i);
            break;
        }
        assert(buttons_fitting(width as nat, i as nat) == buttons_fitting(width as nat, i as nat + 1));
        out.push((x, end, key));
        x = end + 1;
        i = i + 1;
    }
    out
}

/// The keystroke a click at `column` on the status row stands for; `None`
/// when the click missed every button.
pub fn status_button_at(width: u16, column: u16) -> (r: Option<ButtonKey>)
    ensures
        r == button_hit(width as nat, column as nat, 0),
{
    let layout = status_button_layout(width);
    proof {
        lemma_fitting_bound(width as nat, 0);
    }
    let mut i: usize = 0;
    while i < layout.len()
        invariant
            i <= layout.len(),
            layout.len() == buttons_fitting(width as nat, 0),
            layout.len() <= 9,
            button_hit(width as nat, column as nat, 0) == button_hit(width as nat, column as nat, i as nat),
            forall|j: int| 0 <= j < layout.len() ==> (#[trigger] layout@[j]).0 == button_start(j as nat) && layout@[j].1
                == button_end(j as nat) && layout@[j].2 == button(j as nat).1,
        decreases layout.len() - i,
    {
        let (start, end, key) = layout[i];
        if column >= start && column < end {
            return Some(key);
        }
        i = i + 1;
    }
    None
}

/// The drawn buttons lie inside the row, in order, with a gap between each
/// pair; a click lands on a button exactly when it is inside that button's span.
pub proof fn lemma_status_buttons(width: nat, column: nat, i: nat)
    requires
        i < buttons_fitting(width, 0),
    ensures
        buttons_fitting(width, 0) <= button_count(),
        button_start(i) < button_end(i) <= width,
        i + 1 < buttons_fitting(width, 0) ==> button_end(i) < button_start(i + 1),
        button_start(i) <= column < button_end(i) ==> button_hit(width, column, 0) == Some(button(i).1),
{
    lemma_fitting_bound(width, 0);
    lemma_button_widths(i);
    if i + 1 < buttons_fitting(width, 0) {
        lemma_starts_increase(i, i + 1);
    }
    if button_start(i) <= column < button_end(i) {
        lemma_hit_at(width, column, 0, i);
    }
}

proof fn lemma_hit_at(width: nat, column: nat, k: nat, i: nat)
    requires
        k <= i < buttons_fitting(width, 0),
        button_start(i) <= column < button_end(i),
    ensures
        button_hit(width, column, k) == Some(button(i).1),
    decreases i - k,
{
    lemma_fitting_bound(width, 0);
    if k < i {
        lemma_button_widths(k);
        lemma_starts_increase(k, i);
        lemma_hit_at(width, column, k + 1, i);
    }
}

proof fn lemma_starts_increase(k: nat, i: nat)
    requires
        k < i <= 9,
    ensures
        button_end(k) < button_start(i),
    decreases i - k,
{
    lemma_button_widths(k);
    if k + 1 < i {
        lemma_starts_increase(k + 1, i);
        lemma_button_widths(k + 1);
    }
}


// ---------------------------------------------------------------------------
// Which rows the table shows
// ---------------------------------------------------------------------------

/// A row of the model table as the filters see it: its fit, whether it has a
/// GGUF build, whether a local runtime has it, and its catalog entry.
#[derive(Debug, Clone)]
pub struct TableRow {
    pub fit: FitLevel,
    pub gguf: bool,
    pub installed: bool,
    pub entry: Option<Searchable>,
}

/// A row passes the fit filter, the availability filter and, unless the
/// search text is empty, the search.
pub open spec fn row_shown(r: TableRow, fit: FitFilter, availability: Availability, search: Seq<char>) -> bool {
    &&& fit_filter_accepts(fit, r.fit)
    &&& match availability {
        Availability::All => true,
        Availability::Gguf => r.gguf,
        Availability::Installed => r.installed,
    }
    &&& (search.len() == 0 || (r.entry matches Some(e) && search_matches(e, search)))
}

/// The positions of the rows that pass, in table order.
pub open spec fn shown_rows(rows: Seq<TableRow>, fit: FitFilter, availability: Availability, search: Seq<char>) -> Seq<usize>
    decreases rows.len(),
{
    if rows.len() == 0 {
        seq![]
    } else {
        let rest = shown_rows(rows.drop_last(), fit, availability, search);
        if row_shown(rows.last(), fit, availability, search) {
            rest.push((rows.len() - 1) as usize)
        } else {
            rest
        }
    }
}

/// The rows the table shows, before they are sorted.
pub fn filter_rows(rows: &[TableRow], fit: FitFilter, availability: Availability, search: &str) -> (r: Vec<usize>)
    ensures
        r@ == shown_rows(rows@, fit, availability, search@),
{
    let blank = chars_of(search).len() == 0;
    let mut out: Vec<usize> = Vec::new();
    let mut i: usize = 0;
    assert(rows@.take(0) =~= seq![]);
    while i < rows.len()
        invariant
            i <= rows.len(),
            blank == (search@.len() == 0),
            out@ == shown_rows(rows@.take(i as int), fit, availability, search@),
        decreases rows.len() - i,
    {
        let row = &rows[i];
        let searched = blank || match &row.entry {
            Some(e) => e.matches(search),
            None => false,
        };
        let keep = fit.accepts(row.fit) && availability.accepts(row.gguf, row.installed) && searched;
        proof {
            assert(rows@.take(i + 1).drop_last() =~= rows@.take(i as int));
            assert(rows@.take(i + 1).last() == rows@[i as int]);
            assert(keep == row_shown(rows@[i as int], fit, availability, search@));
        }
        if keep {
            out.push(i);
        }
        i = i + 1;
    }
    assert(rows@.take(i as int) =~= rows@);
    out
}

// ---------------------------------------------------------------------------
// Keeping the cursor on its model, and placing popups
// ---------------------------------------------------------------------------

/// Keep the cursor on the same model across a refilter.
pub fn reselect(visible_ids: &[String], anchor: Option<&str>) -> (r: usize)
    ensures
        match anchor {
            Some(a) => if crate::text::texts(visible_ids@).contains(a@) {
                r < visible_ids.len() && visible_ids@[r as int]@ == a@ && forall|j: int|
                    0 <= j < r ==> visible_ids@[j]@ != a@
            } else {
                r == 0
            },
            None => r == 0,
        },
{
    match anchor {
        None => 0,
        Some(a) => {
            let mut i: usize = 0;
            while i < visible_ids.len()
                invariant
                    anchor == Some(a),
                    i <= visible_ids.len(),
                    forall|j: int| 0 <= j < i ==> visible_ids@[j]@ != a@,
                decreases visible_ids.len() - i,
            {
                if crate::text::str_eq(visible_ids[i].as_str(), a) {
                    assert(crate::text::texts(visible_ids@)[i as int] == a@);
                    return i;
                }
                i = i + 1;
            }
            proof {
                if crate::text::texts(visible_ids@).contains(a@) {
                    let k = choose|k: int| 0 <= k < visible_ids@.len() && crate::text::texts(visible_ids@)[k] == a@;
                    assert(visible_ids@[k]@ == a@);
                }
            }
            0
        },
    }
}

/// A rectangle of the terminal, in cells.
#[derive(Debug, Clone, Copy, PartialEq, Eq, Structural)]
pub struct Area {
    pub x: u16,
    pub y: u16,
    pub width: u16,
    pub height: u16,
}

/// A `width` by `height` box centred in `area`, shrunk to fit it.
pub fn centred(area: Area, width: u16, height: u16) -> (r: Area)
    requires
        area.x + area.width <= u16::MAX,
        area.y + area.height <= u16::MAX,
    ensures
        r.width == if width < area.width { width } else { area.width },
        r.height == if height < area.height { height } else { area.height },
        r.x == area.x + (area.width - r.width) / 2,
        r.y == area.y + (area.height - r.height) / 2,
        r.x + r.width <= area.x + area.width,
        r.y + r.height <= area.y + area.height,
{
    let w = if width < area.width { width } else { area.width };
    let h = if height < area.height { height } else { area.height };
    Area { x: area.x + (area.width - w) / 2, y: area.y + (area.height - h) / 2, width: w, height: h }
}
} // verus!

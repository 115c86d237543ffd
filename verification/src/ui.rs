//! The decisions of the user interface: keys, when to draw, where the Game
//! of Life and the process columns go.

use crate::gol::GameOfLife;
use crate::layout::{area_new, inner_area, inner_rect, rect, Area};
use vstd::prelude::*;

verus! {

/// What the monitor does on a key press.
#[derive(Debug, Clone, Copy, PartialEq, Eq, Structural)]
pub enum KeyAction {
    Quit,
    /// Collect now instead of at the next interval.
    ForceRefresh,
    /// Switch the bottom panel between the Game of Life and the processes.
    ToggleProcesses,
    /// Start a new Game of Life.
    RestartGame,
    Ignore,
}

/// The action for the character key `c`, with `ctrl` when Control was held:
/// `q` and Ctrl+C quit, `r` refreshes, space toggles the process list, `g`
/// restarts the game.
pub open spec fn key_action_for(c: char, ctrl: bool) -> KeyAction {
    if c == 'q' {
        KeyAction::Quit
    } else if c == 'r' {
        KeyAction::ForceRefresh
    } else if c == 'c' && ctrl {
        KeyAction::Quit
    } else if c == ' ' {
        KeyAction::ToggleProcesses
    } else if c == 'g' {
        KeyAction::RestartGame
    } else {
        KeyAction::Ignore
    }
}

/// The interactive state of the monitor.
#[derive(Debug, Clone, Copy)]
pub struct ViewState {
    pub running: bool,
    /// Whether the bottom panel lists processes instead of the Game of Life.
    pub show_processes: bool,
    /// A collection was asked for ahead of time.
    pub force_refresh: bool,
    /// The Game of Life is to be dropped and started again.
    pub restart_game: bool,
}

impl ViewState {
    /// Running, showing the Game of Life, nothing pending.
    pub fn new() -> (v: Self)
        ensures
            v.running,
            !v.show_processes,
            !v.force_refresh,
            !v.restart_game,
    {
        ViewState { running: true, show_processes: false, force_refresh: false, restart_game: false }
    }

    /// Applies a pressed character key and returns what it meant.
    pub fn handle_key(&mut self, c: char, ctrl: bool) -> (a: KeyAction)
        ensures
            a == key_action_for(c, ctrl),
            *final(self) == after_key(*old(self), c, ctrl),
    {
        let a = if c == 'q' {
            KeyAction::Quit
        } else if c == 'r' {
            KeyAction::ForceRefresh
        } else if c == 'c' && ctrl {
            KeyAction::Quit
        } else if c == ' ' {
            KeyAction::ToggleProcesses
        } else if c == 'g' {
            KeyAction::RestartGame
        } else {
            KeyAction::Ignore
        };
        match a {
            KeyAction::Quit => {
                self.running = false;
            },
            KeyAction::ForceRefresh => {
                self.force_refresh = true;
            },
            KeyAction::ToggleProcesses => {
                self.show_processes = !self.show_processes;
            },
            KeyAction::RestartGame => {
                self.restart_game = true;
            },
            KeyAction::Ignore => {},
        }
        a
    }
}

/// The state after the character key `c`: quitting stops the monitor, a
/// refresh or a restart is marked pending, the toggle flips the bottom panel.
pub open spec fn after_key(v: ViewState, c: char, ctrl: bool) -> ViewState {
    let a = key_action_for(c, ctrl);
    ViewState {
        running: v.running && a != KeyAction::Quit,
        show_processes: v.show_processes != (a == KeyAction::ToggleProcesses),
        force_refresh: v.force_refresh || a == KeyAction::ForceRefresh,
        restart_game: v.restart_game || a == KeyAction::RestartGame,
    }
}

/// What each key does, with or without Control: `q` stops the monitor, `r`
/// asks for a refresh, space flips the bottom panel, `g` asks for a new
/// game; `c` stops the monitor only with Control; every other key changes
/// nothing. Each leaves the rest of the state as it was.
pub proof fn lemma_key_meanings(v: ViewState, c: char, ctrl: bool)
    ensures
        key_action_for('q', ctrl) == KeyAction::Quit,
        after_key(v, 'q', ctrl) == (ViewState { running: false, ..v }),
        key_action_for('r', ctrl) == KeyAction::ForceRefresh,
        after_key(v, 'r', ctrl) == (ViewState { force_refresh: true, ..v }),
        key_action_for(' ', ctrl) == KeyAction::ToggleProcesses,
        after_key(v, ' ', ctrl) == (ViewState { show_processes: !v.show_processes, ..v }),
        key_action_for('g', ctrl) == KeyAction::RestartGame,
        after_key(v, 'g', ctrl) == (ViewState { restart_game: true, ..v }),
        key_action_for('c', true) == KeyAction::Quit,
        after_key(v, 'c', true) == (ViewState { running: false, ..v }),
        key_action_for('c', false) == KeyAction::Ignore,
        after_key(v, 'c', false) == v,
        (c != 'q' && c != 'r' && c != ' ' && c != 'g' && c != 'c') ==> key_action_for(c, ctrl)
            == KeyAction::Ignore && after_key(v, c, ctrl) == v,
{
}

/// Pressing space twice brings back the panel shown before, and changes
/// nothing else.
pub proof fn lemma_toggle_twice(v: ViewState)
    ensures
        after_key(after_key(v, ' ', false), ' ', false) == v,
{
}

/// Quitting is final: once stopped, no key starts the monitor again.
pub proof fn lemma_quit_is_final(v: ViewState, c: char, ctrl: bool)
    requires
        !v.running,
    ensures
        !after_key(v, c, ctrl).running,
{
}

/// Whether the terminal is large enough to draw: at least 80 by 24 cells.
pub fn can_draw(width: u16, height: u16) -> (b: bool)
    ensures
        b == (width >= 80 && height >= 24),
{
    width >= 80 && height >= 24
}

/// The message shown in place of the panels when the terminal is too small.
pub fn size_warning_text() -> (s: &'static str)
    ensures
        s@ == "Terminal too small. Please resize to at least 80x24."@,
{
    "Terminal too small. Please resize to at least 80x24."
}

/// The width of the warning box: its 52-character message, a space and a
/// border on each side.
pub const WARNING_WIDTH: u16 = 56;

/// The rectangle of the warning box, centred in `a`: as wide as the message
/// and three rows high, each cut to `a`; none where that leaves it under ten
/// columns or under three rows.
pub open spec fn warning_rect(a: Area) -> Option<Area> {
    let width: u16 = if WARNING_WIDTH <= a.width { WARNING_WIDTH } else { a.width };
    let height: u16 = if 3 <= a.height { 3 } else { a.height };
    if width < 10 || height < 3 {
        None
    } else {
        Some(rect(
            a.x.saturating_add(((a.width - width) / 2) as u16),
            a.y.saturating_add(((a.height - height) / 2) as u16),
            width,
            height,
        ))
    }
}

/// The warning box is the message's width and three rows high where the
/// area allows, else cut to the area; it lies inside the area, centred:
/// the space left on the right is that on the left or one cell more, and
/// likewise below and above. None is drawn under ten columns or three rows.
pub proof fn lemma_warning_centred(a: Area)
    requires
        a.x + a.width <= u16::MAX,
        a.y + a.height <= u16::MAX,
    ensures
        (a.width < 10 || a.height < 3) <==> warning_rect(a) is None,
        warning_rect(a) is Some ==> {
            let r = warning_rect(a).unwrap();
            let left = r.x - a.x;
            let right = a.x + a.width - (r.x + r.width);
            let top = r.y - a.y;
            let bottom = a.y + a.height - (r.y + r.height);
            &&& r.width == (if a.width < 56 { a.width } else { 56 })
            &&& r.height == 3
            &&& left >= 0 && (right == left || right == left + 1)
            &&& top >= 0 && (bottom == top || bottom == top + 1)
        },
{
}

/// Where to draw the warning box in `area` when the terminal is too small
/// for the panels (see `warning_rect`).
pub fn warning_area(area: Area) -> (r: Option<Area>)
    ensures
        r == warning_rect(area),
{
    let width: u16 = if WARNING_WIDTH <= area.width { WARNING_WIDTH } else { area.width };
    let height: u16 = if 3 <= area.height { 3 } else { area.height };
    if width < 10 || height < 3 {
        return None;
    }
    let x = area.x.saturating_add(area.width.saturating_sub(width) / 2);
    let y = area.y.saturating_add(area.height.saturating_sub(height) / 2);
    Some(area_new(x, y, width, height))
}

/// The columns of the sparkline beside a rate text of `text_len` bytes in a
/// panel `inner_width` wide: what the text (its length taken modulo 2^16,
/// as a `u16` holds it) and two spaces leave, but at least 20.
pub fn sparkline_width(inner_width: u16, text_len: usize) -> (w: usize)
    requires
        text_len % 0x1_0000 + 2 <= u16::MAX,
    ensures
        w == (if inner_width >= text_len % 0x1_0000 + 2 + 20 {
            inner_width - text_len % 0x1_0000 - 2
        } else {
            20
        }),
{
    let text_width: u16 = (text_len % 0x1_0000) as u16 + 2;
    let left: u16 = inner_width.saturating_sub(text_width);
    if left >= 20 {
        left as usize
    } else {
        20
    }
}

/// How many of `count` disks the disk panel lists: every one, as far as its
/// `rows` rows reach.
pub fn shown_disk_count(count: usize, rows: u16) -> (n: usize)
    ensures
        n == (if count <= rows { count } else { rows as usize }),
{
    if count <= rows as usize {
        count
    } else {
        rows as usize
    }
}

/// Whether the Game of Life advances now: only while it is shown, every 200 ms.
pub fn game_tick_due(show_processes: bool, elapsed_ms: u128) -> (b: bool)
    ensures
        b == (!show_processes && elapsed_ms >= 200),
{
    !show_processes && elapsed_ms >= 200
}

/// The cells of the Game of Life inside the bottom panel: two cells in from
/// every side.
pub fn game_canvas(area: Area) -> (canvas: Area)
    ensures
        canvas == inner_rect(area, 2, 2),
{
    inner_area(area, 2, 2)
}

/// The grid shown on `canvas`: one column per cell and two rows per cell
/// (half blocks), or `None` when either side would be 2 or less.
pub fn game_size(canvas: Area) -> (size: Option<(u32, u32)>)
    ensures
        size == (if canvas.width > 2 && 2 * canvas.height > 2 {
            Some((canvas.width as u32, (2 * canvas.height) as u32))
        } else {
            None
        }),
{
    let w = canvas.width as u32;
    let h = (canvas.height as u32) * 2;
    if w > 2 && h > 2 {
        Some((w, h))
    } else {
        None
    }
}

/// Whether a new game must be started for a grid of `width` by `height`:
/// when there is none, or the current one has another size.
pub fn needs_new_game(game: &Option<GameOfLife>, width: u32, height: u32) -> (b: bool)
    ensures
        b == (match game {
            None => true,
            Some(g) => g.width != width || g.height != height,
        }),
{
    match game {
        None => true,
        Some(g) => g.width != width || g.height != height,
    }
}

/// Where "all died." goes on the canvas: centred on the middle row.
pub fn dead_message_area(canvas: Area) -> (a: Area)
    requires
        canvas.x + canvas.width <= u16::MAX,
        canvas.y + canvas.height <= u16::MAX,
    ensures
        a == rect(
            (canvas.x + (if canvas.width >= 9 { canvas.width - 9 } else { 0 }) / 2) as u16,
            (canvas.y + canvas.height / 2) as u16,
            9,
            1,
        ),
{
    let text_len: u16 = 9;
    let text_x = canvas.x + (canvas.width.saturating_sub(text_len)) / 2;
    let text_y = canvas.y + canvas.height / 2;
    crate::layout::area_new(text_x, text_y, text_len, 1)
}

/// Where a history sparkline goes inside its bordered panel: one cell in
/// from every side, or nowhere when that leaves fewer than 10 columns.
pub fn history_line_area(area: Area) -> (a: Option<Area>)
    ensures
        a == (if inner_rect(area, 1, 1).width < 10 {
            None
        } else {
            Some(inner_rect(area, 1, 1))
        }),
{
    let inner = inner_area(area, 1, 1);
    if inner.width < 10 {
        None
    } else {
        Some(inner)
    }
}

/// The three columns of the process list and the width of the name column.
#[derive(Debug, Clone, Copy)]
pub struct ProcessColumns {
    pub columns: [Area; 3],
    pub name_width: usize,
    /// Processes per column: one per row.
    pub rows: usize,
}

/// The process list inside `area`: two cells of margin, three columns two
/// cells apart, each process name shortened to leave ten cells for the
/// figures; nothing when the inside is under 30 by 2.
pub open spec fn process_columns_of(area: Area) -> Option<ProcessColumns> {
    let inner = inner_rect(area, 2, 2);
    if inner.width < 30 || inner.height < 2 {
        None
    } else {
        let cw = (inner.width - 4) / 3;
        Some(
            ProcessColumns {
                columns: [
                    rect(inner.x, inner.y, cw as u16, inner.height),
                    rect((inner.x + cw + 2) as u16, inner.y, cw as u16, inner.height),
                    rect((inner.x + 2 * (cw + 2)) as u16, inner.y, cw as u16, inner.height),
                ],
                name_width: (if cw > 10 { cw - 10 } else { 0 }) as usize,
                rows: inner.height as usize,
            },
        )
    }
}

/// The process list fills the inside of its panel (two cells in) with three
/// columns of equal width side by side, two cells apart, as wide as fits:
/// less than three cells of the inside are left over. Each column is as
/// high as the inside and lists one process per row, and a name takes the
/// column's width less ten cells for the figures.
pub proof fn lemma_process_columns_fill(area: Area)
    requires
        area.x + area.width <= u16::MAX,
        area.y + area.height <= u16::MAX,
    ensures
        ({
            let inner = inner_rect(area, 2, 2);
            let c = process_columns_of(area);
            &&& (inner.width < 30 || inner.height < 2) <==> c is None
            &&& c is Some ==> {
                let p = c.unwrap();
                let (c1, c2, c3) = (p.columns[0], p.columns[1], p.columns[2]);
                &&& c1.x == inner.x && c1.y == inner.y && c2.y == inner.y && c3.y == inner.y
                &&& c1.width == c2.width && c2.width == c3.width
                &&& c2.x == c1.x + c1.width + 2 && c3.x == c2.x + c2.width + 2
                &&& c3.x + c3.width <= inner.x + inner.width < c3.x + c3.width + 3
                &&& c1.height == inner.height && c2.height == inner.height && c3.height == inner.height
                &&& p.rows == inner.height
                &&& p.name_width + 10 == c1.width || (c1.width < 10 && p.name_width == 0)
            }
        }),
{
}

/// Lays out the process list inside `area`.
pub fn process_columns(area: Area) -> (c: Option<ProcessColumns>)
    requires
        area.x + area.width <= u16::MAX,
    ensures
        c == process_columns_of(area),
{
    let inner = inner_area(area, 2, 2);
    if inner.width < 30 || inner.height < 2 {
        return None;
    }
    let padding: u16 = 2;
    let total = inner.width.saturating_sub(padding * 2);
    let cw = total / 3;
    let c1 = crate::layout::area_new(inner.x, inner.y, cw, inner.height);
    let c2 = crate::layout::area_new(inner.x + cw + padding, inner.y, cw, inner.height);
    let c3 = crate::layout::area_new(inner.x + (cw + padding) * 2, inner.y, cw, inner.height);
    let name_width = (cw as usize).saturating_sub(4 + 4 + 2);
    let r = ProcessColumns { columns: [c1, c2, c3], name_width, rows: inner.height as usize };
    assert(Some(r) == process_columns_of(area));
    Some(r)
}

} // verus!

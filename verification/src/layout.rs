//! Screen geometry: display modes, rectangles and the placement of the panels.

use ratatui::layout::Margin;
use ratatui::layout::Rect;
use vstd::prelude::*;

verus! {

/// How much the terminal's height lets the monitor show.
#[derive(Debug, Clone, Copy, PartialEq, Eq, Structural)]
pub enum DisplayMode {
    /// Too small: only a warning.
    Warning,
    /// Panels without the Game of Life.
    Compact,
    Standard,
    Spacious,
}

/// The display mode for a terminal `height` rows high.
pub open spec fn display_mode_for(height: int) -> DisplayMode {
    if height < 24 {
        DisplayMode::Warning
    } else if height < 36 {
        DisplayMode::Compact
    } else if height < 50 {
        DisplayMode::Standard
    } else {
        DisplayMode::Spacious
    }
}

/// The display mode for a terminal `height` rows high: a warning below 24
/// rows, compact below 36, standard below 50, spacious from 50.
pub fn get_display_mode(height: u16) -> (mode: DisplayMode)
    ensures
        mode == display_mode_for(height as int),
{
    if height < 24 {
        DisplayMode::Warning
    } else if height < 36 {
        DisplayMode::Compact
    } else if height < 50 {
        DisplayMode::Standard
    } else {
        DisplayMode::Spacious
    }
}

/// The rank of a mode, from the warning (0) to the spacious layout (3).
pub open spec fn mode_rank(m: DisplayMode) -> int {
    match m {
        DisplayMode::Warning => 0,
        DisplayMode::Compact => 1,
        DisplayMode::Standard => 2,
        DisplayMode::Spacious => 3,
    }
}

/// A taller terminal never gets a smaller layout.
pub proof fn lemma_display_mode_monotone(h1: int, h2: int)
    requires
        h1 <= h2,
    ensures
        mode_rank(display_mode_for(h1)) <= mode_rank(display_mode_for(h2)),
{
}

/// A rectangle of terminal cells.
#[derive(Debug, Clone, Copy, PartialEq, Eq, Structural)]
pub struct Area {
    pub x: u16,
    pub y: u16,
    pub width: u16,
    pub height: u16,
}

/// The rectangle that `ratatui::layout::Rect::new` builds: the width and
/// height are cut so that it ends at `u16::MAX` at most.
pub open spec fn rect(x: u16, y: u16, width: u16, height: u16) -> Area {
    Area {
        x,
        y,
        width: if width > u16::MAX - x { (u16::MAX - x) as u16 } else { width },
        height: if height > u16::MAX - y { (u16::MAX - y) as u16 } else { height },
    }
}

/// The rectangle that `ratatui::layout::Rect::inner` leaves inside `a` with
/// the given margins: empty (all zero) when the doubled margins do not fit.
pub open spec fn inner_rect(a: Area, horizontal: u16, vertical: u16) -> Area {
    let dh = if 2 * horizontal > u16::MAX { u16::MAX as int } else { 2 * horizontal };
    let dv = if 2 * vertical > u16::MAX { u16::MAX as int } else { 2 * vertical };
    if a.width < dh || a.height < dv {
        Area { x: 0, y: 0, width: 0, height: 0 }
    } else {
        Area {
            x: if a.x + horizontal > u16::MAX { u16::MAX } else { (a.x + horizontal) as u16 },
            y: if a.y + vertical > u16::MAX { u16::MAX } else { (a.y + vertical) as u16 },
            width: (a.width - dh) as u16,
            height: (a.height - dv) as u16,
        }
    }
}

/// Calls `ratatui::layout::Rect::new`, which keeps `x` and `y` and cuts the
/// width to `u16::MAX - x` and the height to `u16::MAX - y` where they exceed them.
#[verifier::external_body]
fn rect_new(x: u16, y: u16, width: u16, height: u16) -> (a: Area)
    ensures
        a == rect(x, y, width, height),
{
    let r = Rect::new(x, y, width, height);
    Area { x: r.x, y: r.y, width: r.width, height: r.height }
}

/// Calls `ratatui::layout::Rect::inner`: with the margins doubled
/// (saturating), an area too small for them becomes the empty rectangle at
/// the origin; otherwise the corner moves in by the margins (saturating) and
/// the size shrinks by the doubled margins.
#[verifier::external_body]
fn rect_inner(a: Area, horizontal: u16, vertical: u16) -> (b: Area)
    ensures
        b == inner_rect(a, horizontal, vertical),
{
    let r = Rect { x: a.x, y: a.y, width: a.width, height: a.height }.inner(
        Margin { horizontal, vertical },
    );
    Area { x: r.x, y: r.y, width: r.width, height: r.height }
}

/// The rectangle at `(x, y)` of the given size, as `ratatui::layout::Rect::new` builds it.
pub fn area_new(x: u16, y: u16, width: u16, height: u16) -> (a: Area)
    ensures
        a == rect(x, y, width, height),
{
    rect_new(x, y, width, height)
}

/// The rectangle `margin` cells inside `area` on every side (saturating).
pub fn safe_inner(area: Area, margin: u16) -> (inner: Area)
    requires
        margin <= 0x7fff,
    ensures
        inner == rect(
            area.x.saturating_add(margin),
            area.y.saturating_add(margin),
            area.width.saturating_sub((2 * margin) as u16),
            area.height.saturating_sub((2 * margin) as u16),
        ),
{
    let x = area.x.saturating_add(margin);
    let y = area.y.saturating_add(margin);
    let width = area.width.saturating_sub(margin * 2);
    let height = area.height.saturating_sub(margin * 2);
    rect_new(x, y, width, height)
}

/// The rectangle inside `area` with the given margins, as ratatui computes it.
pub fn inner_area(area: Area, horizontal: u16, vertical: u16) -> (inner: Area)
    ensures
        inner == inner_rect(area, horizontal, vertical),
{
    rect_inner(area, horizontal, vertical)
}

/// Where each panel of the monitor goes.
#[derive(Debug, Clone, Copy)]
pub struct PanelLayout {
    pub cpu: Area,
    /// Absent when the machine has no GPU.
    pub gpu: Option<Area>,
    pub memory: Area,
    pub cpu_history: Area,
    pub ram_history: Area,
    pub gpu_history: Option<Area>,
    pub vram_history: Option<Area>,
    pub network: Area,
    pub disk: Area,
    pub disk_io: Area,
    /// The Game of Life (or process list) below the panels; the compact
    /// layout with a GPU has none.
    pub bottom: Option<Area>,
}

/// The whole screen: header row, footer row and the panels between them.
#[derive(Debug, Clone, Copy)]
pub struct ScreenLayout {
    pub header: Area,
    pub footer: Area,
    /// Absent in the warning mode.
    pub panels: Option<PanelLayout>,
}

/// The compact layout of the panel area `m`: a row of panels 4 high, one or
/// two rows of histories 3 high, then network, disk and disk I/O.
pub open spec fn compact_panels(m: Area, gpu: bool) -> PanelLayout {
    let (x, y, w, h) = (m.x as int, m.y as int, m.width as int, m.height as int);
    if gpu {
        let c1 = w / 3;
        let c3 = w - c1 - c1;
        let hw = w / 2;
        let nh = h - 11;
        PanelLayout {
            cpu: rect(x as u16, y as u16, c1 as u16, 4),
            gpu: Some(rect((x + c1) as u16, y as u16, c1 as u16, 4)),
            memory: rect((x + 2 * c1) as u16, y as u16, c3 as u16, 4),
            cpu_history: rect(x as u16, (y + 4) as u16, hw as u16, 3),
            ram_history: rect((x + hw) as u16, (y + 4) as u16, (w - hw) as u16, 3),
            gpu_history: Some(rect(x as u16, (y + 7) as u16, hw as u16, 3)),
            vram_history: Some(rect((x + hw) as u16, (y + 7) as u16, (w - hw) as u16, 3)),
            network: rect(x as u16, (y + 10) as u16, c1 as u16, nh as u16),
            disk: rect((x + c1) as u16, (y + 10) as u16, c1 as u16, nh as u16),
            disk_io: rect((x + 2 * c1) as u16, (y + 10) as u16, c3 as u16, nh as u16),
            bottom: None,
        }
    } else {
        let cw = w / 2;
        PanelLayout {
            cpu: rect(x as u16, y as u16, cw as u16, 4),
            gpu: None,
            memory: rect((x + cw) as u16, y as u16, (w - cw) as u16, 4),
            cpu_history: rect(x as u16, (y + 4) as u16, cw as u16, 3),
            ram_history: rect((x + cw) as u16, (y + 4) as u16, (w - cw) as u16, 3),
            gpu_history: None,
            vram_history: None,
            network: rect(x as u16, (y + 7) as u16, cw as u16, 4),
            disk: rect((x + cw) as u16, (y + 7) as u16, cw as u16, 4),
            disk_io: rect(x as u16, (y + 11) as u16, w as u16, 3),
            bottom: Some(
                rect(x as u16, (y + 14) as u16, w as u16, (if h > 14 { h - 14 } else { 0 }) as u16),
            ),
        }
    }
}

/// The standard layout of the panel area `m`: panels 6 high, the
/// histories, network, disk and disk I/O, and the Game of Life below.
pub open spec fn standard_panels(m: Area, gpu: bool) -> PanelLayout {
    let (x, y, w, h) = (m.x as int, m.y as int, m.width as int, m.height as int);
    let gh = (if h > 18 { h - 18 } else { 0 }) as u16;
    if gpu {
        let c1 = w / 3;
        let c3 = w - c1 - c1;
        let hw = w / 2;
        PanelLayout {
            cpu: rect(x as u16, y as u16, c1 as u16, 6),
            gpu: Some(rect((x + c1) as u16, y as u16, c1 as u16, 6)),
            memory: rect((x + 2 * c1) as u16, y as u16, c3 as u16, 6),
            cpu_history: rect(x as u16, (y + 6) as u16, hw as u16, 3),
            ram_history: rect((x + hw) as u16, (y + 6) as u16, (w - hw) as u16, 3),
            gpu_history: Some(rect(x as u16, (y + 9) as u16, hw as u16, 3)),
            vram_history: Some(rect((x + hw) as u16, (y + 9) as u16, (w - hw) as u16, 3)),
            network: rect(x as u16, (y + 12) as u16, c1 as u16, 4),
            disk: rect((x + c1) as u16, (y + 12) as u16, c1 as u16, 4),
            disk_io: rect((x + 2 * c1) as u16, (y + 12) as u16, c3 as u16, 4),
            bottom: Some(rect(x as u16, (y + 17) as u16, w as u16, gh)),
        }
    } else {
        let cw = w / 2;
        PanelLayout {
            cpu: rect(x as u16, y as u16, cw as u16, 6),
            gpu: None,
            memory: rect((x + cw) as u16, y as u16, (w - cw) as u16, 6),
            cpu_history: rect(x as u16, (y + 6) as u16, cw as u16, 3),
            ram_history: rect((x + cw) as u16, (y + 6) as u16, (w - cw) as u16, 3),
            gpu_history: None,
            vram_history: None,
            network: rect(x as u16, (y + 9) as u16, w as u16, 4),
            disk: rect(x as u16, (y + 13) as u16, cw as u16, 4),
            disk_io: rect((x + cw) as u16, (y + 13) as u16, (w - cw) as u16, 4),
            bottom: Some(rect(x as u16, (y + 18) as u16, w as u16, gh)),
        }
    }
}

/// The panels use the whole width whether or not there is a GPU: the top
/// row starts at the left edge and its panels, side by side, add up to the
/// full width; without a GPU the CPU and memory panels take the GPU's share.
pub proof fn lemma_top_row_fills_width(m: Area, gpu: bool)
    requires
        m.x + m.width <= u16::MAX,
        m.y + 18 <= u16::MAX,
    ensures
        ({
            let c = compact_panels(m, gpu);
            let s = standard_panels(m, gpu);
            &&& c.cpu.x == m.x && s.cpu.x == m.x
            &&& if gpu {
                &&& c.cpu.width + c.gpu.unwrap().width + c.memory.width == m.width
                &&& s.cpu.width + s.gpu.unwrap().width + s.memory.width == m.width
                &&& c.memory.x + c.memory.width == m.x + m.width
                &&& s.memory.x + s.memory.width == m.x + m.width
            } else {
                &&& c.cpu.width + c.memory.width == m.width
                &&& s.cpu.width + s.memory.width == m.width
                &&& c.memory.x + c.memory.width == m.x + m.width
                &&& s.memory.x + s.memory.width == m.x + m.width
                &&& s.network.width == m.width
            }
        }),
{
}

/// The compact panels tile the area row by row. With a GPU: CPU, GPU and
/// memory side by side, 4 rows high; the CPU and RAM histories, then the
/// GPU and VRAM histories, each a row of two halves 3 high; then network,
/// disk and disk I/O side by side down to the last row but one, each of the
/// first two a third of the width. Without a GPU: CPU and memory, the two
/// histories, then network and disk as equal halves 4 high, disk I/O across
/// the width 3 high, and the bottom panel below.
pub proof fn lemma_compact_panels_tile(m: Area, gpu: bool)
    requires
        m.x + m.width <= u16::MAX,
        m.y + 14 <= u16::MAX,
        gpu ==> m.height >= 11,
    ensures
        ({
            let p = compact_panels(m, gpu);
            &&& p.cpu.x == m.x && p.cpu.y == m.y && p.cpu.height == 4
            &&& p.memory.y == m.y && p.memory.height == 4
            &&& p.memory.x + p.memory.width == m.x + m.width
            &&& p.cpu_history.x == m.x && p.cpu_history.y == p.cpu.y + p.cpu.height
            &&& p.cpu_history.height == 3
            &&& p.ram_history.x == p.cpu_history.x + p.cpu_history.width
            &&& p.ram_history.y == p.cpu_history.y && p.ram_history.height == 3
            &&& p.ram_history.x + p.ram_history.width == m.x + m.width
            &&& p.disk.y == p.network.y && p.network.x == m.x
            &&& p.disk.x == p.network.x + p.network.width
            &&& if gpu {
                let g = p.gpu.unwrap();
                let gh = p.gpu_history.unwrap();
                let vh = p.vram_history.unwrap();
                &&& p.gpu is Some && p.gpu_history is Some && p.vram_history is Some
                &&& p.bottom is None
                &&& g.x == p.cpu.x + p.cpu.width && g.y == m.y && g.height == 4
                &&& p.memory.x == g.x + g.width
                &&& p.cpu.width == m.width / 3 && g.width == m.width / 3
                &&& p.cpu_history.width == m.width / 2
                &&& gh.x == m.x && gh.y == p.cpu_history.y + 3 && gh.height == 3
                &&& gh.width == p.cpu_history.width
                &&& vh.x == gh.x + gh.width && vh.y == gh.y && vh.height == 3
                &&& vh.x + vh.width == m.x + m.width
                &&& p.network.y == gh.y + gh.height
                &&& p.network.width == m.width / 3 && p.disk.width == m.width / 3
                &&& p.disk_io.x == p.disk.x + p.disk.width && p.disk_io.y == p.network.y
                &&& p.disk_io.x + p.disk_io.width == m.x + m.width
                &&& p.disk.height == p.network.height && p.disk_io.height == p.network.height
                &&& m.y + m.height <= u16::MAX ==> p.network.y + p.network.height == m.y + m.height - 1
            } else {
                let b = p.bottom.unwrap();
                &&& p.gpu is None && p.gpu_history is None && p.vram_history is None
                &&& p.bottom is Some
                &&& p.memory.x == p.cpu.x + p.cpu.width && p.cpu.width == m.width / 2
                &&& p.cpu_history.width == p.cpu.width
                &&& p.network.y == p.cpu_history.y + p.cpu_history.height
                &&& p.network.width == m.width / 2 && p.disk.width == p.network.width
                &&& p.network.height == 4 && p.disk.height == 4
                &&& p.disk_io.x == m.x && p.disk_io.width == m.width
                &&& p.disk_io.y == p.network.y + p.network.height && p.disk_io.height == 3
                &&& b.x == m.x && b.width == m.width && b.y == p.disk_io.y + p.disk_io.height
                &&& m.y + m.height <= u16::MAX ==> b.y + b.height == if m.height >= 14 {
                    m.y + m.height
                } else {
                    b.y as int
                }
            }
        }),
{
}

/// The standard panels tile the area row by row: CPU, GPU (where there is
/// one) and memory side by side, 6 rows high; the histories in rows of two
/// halves 3 high; with a GPU, network, disk and disk I/O side by side, 4
/// high, each of the first two a third of the width; without one, network
/// across the width, then disk and disk I/O side by side; and the bottom
/// panel below, after one blank row.
pub proof fn lemma_standard_panels_tile(m: Area, gpu: bool)
    requires
        m.x + m.width <= u16::MAX,
        m.y + 18 <= u16::MAX,
    ensures
        ({
            let p = standard_panels(m, gpu);
            let b = p.bottom.unwrap();
            &&& p.bottom is Some
            &&& p.cpu.x == m.x && p.cpu.y == m.y && p.cpu.height == 6
            &&& p.memory.y == m.y && p.memory.height == 6
            &&& p.memory.x + p.memory.width == m.x + m.width
            &&& p.cpu_history.x == m.x && p.cpu_history.y == p.cpu.y + p.cpu.height
            &&& p.cpu_history.height == 3
            &&& p.ram_history.x == p.cpu_history.x + p.cpu_history.width
            &&& p.ram_history.y == p.cpu_history.y && p.ram_history.height == 3
            &&& p.ram_history.x + p.ram_history.width == m.x + m.width
            &&& p.network.x == m.x && p.network.height == 4
            &&& p.disk.height == 4 && p.disk_io.height == 4
            &&& p.disk_io.y == p.disk.y && p.disk_io.x == p.disk.x + p.disk.width
            &&& p.disk_io.x + p.disk_io.width == m.x + m.width
            &&& b.x == m.x && b.width == m.width
            &&& if gpu {
                let g = p.gpu.unwrap();
                let gh = p.gpu_history.unwrap();
                let vh = p.vram_history.unwrap();
                &&& p.gpu is Some && p.gpu_history is Some && p.vram_history is Some
                &&& g.x == p.cpu.x + p.cpu.width && g.y == m.y && g.height == 6
                &&& p.memory.x == g.x + g.width
                &&& p.cpu.width == m.width / 3 && g.width == m.width / 3
                &&& p.cpu_history.width == m.width / 2
                &&& gh.x == m.x && gh.y == p.cpu_history.y + 3 && gh.height == 3
                &&& gh.width == p.cpu_history.width
                &&& vh.x == gh.x + gh.width && vh.y == gh.y && vh.height == 3
                &&& vh.x + vh.width == m.x + m.width
                &&& p.network.y == gh.y + gh.height
                &&& p.network.width == m.width / 3 && p.disk.width == m.width / 3
                &&& p.disk.x == p.network.x + p.network.width && p.disk.y == p.network.y
                &&& b.y == p.network.y + p.network.height + 1
            } else {
                &&& p.gpu is None && p.gpu_history is None && p.vram_history is None
                &&& p.memory.x == p.cpu.x + p.cpu.width && p.cpu.width == m.width / 2
                &&& p.cpu_history.width == p.cpu.width
                &&& p.network.y == p.cpu_history.y + p.cpu_history.height
                &&& p.network.width == m.width
                &&& p.disk.x == m.x && p.disk.width == m.width / 2
                &&& p.disk.y == p.network.y + p.network.height
                &&& b.y == p.disk.y + p.disk.height + 1
            }
        }),
{
}

/// The compact panel layout of `m`.
pub fn compact_layout(m: Area, gpu: bool) -> (l: PanelLayout)
    requires
        m.x + m.width <= u16::MAX,
        m.y + 14 <= u16::MAX,
        gpu ==> m.height >= 11,
    ensures
        l == compact_panels(m, gpu),
{
    let (x, y, w, h) = (m.x, m.y, m.width, m.height);
    if gpu {
        let c1 = w / 3;
        let c2 = w / 3;
        let c3 = w - c1 - c2;
        let hw = w / 2;
        let nh = h - 4 - 3 * 2 - 1;
        PanelLayout {
            cpu: rect_new(x, y, c1, 4),
            gpu: Some(rect_new(x + c1, y, c2, 4)),
            memory: rect_new(x + c1 + c2, y, c3, 4),
            cpu_history: rect_new(x, y + 4, hw, 3),
            ram_history: rect_new(x + hw, y + 4, w - hw, 3),
            gpu_history: Some(rect_new(x, y + 4 + 3, hw, 3)),
            vram_history: Some(rect_new(x + hw, y + 4 + 3, w - hw, 3)),
            network: rect_new(x, y + 4 + 3 + 3, c1, nh),
            disk: rect_new(x + c1, y + 4 + 3 + 3, c2, nh),
            disk_io: rect_new(x + c1 + c2, y + 4 + 3 + 3, c3, nh),
            bottom: None,
        }
    } else {
        let cw = w / 2;
        let gh = h.saturating_sub(4 + 3 + 4 + 3);
        PanelLayout {
            cpu: rect_new(x, y, cw, 4),
            gpu: None,
            memory: rect_new(x + cw, y, w - cw, 4),
            cpu_history: rect_new(x, y + 4, cw, 3),
            ram_history: rect_new(x + cw, y + 4, w - cw, 3),
            gpu_history: None,
            vram_history: None,
            network: rect_new(x, y + 4 + 3, cw, 4),
            disk: rect_new(x + cw, y + 4 + 3, cw, 4),
            disk_io: rect_new(x, y + 4 + 3 + 4, w, 3),
            bottom: Some(rect_new(x, y + 4 + 3 + 4 + 3, w, gh)),
        }
    }
}

/// The standard panel layout of `m` (also used in the spacious mode).
pub fn standard_layout(m: Area, gpu: bool) -> (l: PanelLayout)
    requires
        m.x + m.width <= u16::MAX,
        m.y + 18 <= u16::MAX,
    ensures
        l == standard_panels(m, gpu),
{
    let (x, y, w, h) = (m.x, m.y, m.width, m.height);
    if gpu {
        let c1 = w / 3;
        let c2 = w / 3;
        let c3 = w - c1 - c2;
        let hw = w / 2;
        let gh = h.saturating_sub(6 + 3 * 2 + 4 + 2);
        PanelLayout {
            cpu: rect_new(x, y, c1, 6),
            gpu: Some(rect_new(x + c1, y, c2, 6)),
            memory: rect_new(x + c1 + c2, y, c3, 6),
            cpu_history: rect_new(x, y + 6, hw, 3),
            ram_history: rect_new(x + hw, y + 6, w - hw, 3),
            gpu_history: Some(rect_new(x, y + 6 + 3, hw, 3)),
            vram_history: Some(rect_new(x + hw, y + 6 + 3, w - hw, 3)),
            network: rect_new(x, y + 6 + 3 + 3, c1, 4),
            disk: rect_new(x + c1, y + 6 + 3 + 3, c2, 4),
            disk_io: rect_new(x + c1 + c2, y + 6 + 3 + 3, c3, 4),
            bottom: Some(rect_new(x, y + 6 + 3 + 3 + 4 + 1, w, gh)),
        }
    } else {
        let cw = w / 2;
        let gh = h.saturating_sub(6 + 3 + 4 + 4 + 1);
        PanelLayout {
            cpu: rect_new(x, y, cw, 6),
            gpu: None,
            memory: rect_new(x + cw, y, w - cw, 6),
            cpu_history: rect_new(x, y + 6, cw, 3),
            ram_history: rect_new(x + cw, y + 6, w - cw, 3),
            gpu_history: None,
            vram_history: None,
            network: rect_new(x, y + 6 + 3, w, 4),
            disk: rect_new(x, y + 6 + 3 + 4, cw, 4),
            disk_io: rect_new(x + cw, y + 6 + 3 + 4, w - cw, 4),
            bottom: Some(rect_new(x, y + 6 + 3 + 4 + 4 + 1, w, gh)),
        }
    }
}

/// The screen layout of `area` in mode `mode`: nothing when the area is
/// under 40 by 10 cells; else a header and a footer row, two cells in from
/// the left and three cells narrower, and the panels between them (none in
/// the warning mode).
pub open spec fn screen(area: Area, mode: DisplayMode, gpu: bool) -> Option<ScreenLayout> {
    if area.width < 40 || area.height < 10 {
        None
    } else {
        let x = (area.x + 2) as u16;
        let aw = (area.width - 3) as u16;
        let footer_y = if area.y + area.height - 1 > u16::MAX {
            u16::MAX
        } else {
            (area.y + area.height - 1) as u16
        };
        let middle = rect(x, area.y.saturating_add(1), aw, (area.height - 2) as u16);
        Some(
            ScreenLayout {
                header: rect(x, area.y, aw, 1),
                footer: rect(x, footer_y, aw, 1),
                panels: match mode {
                    DisplayMode::Warning => None,
                    DisplayMode::Compact => Some(compact_panels(middle, gpu)),
                    _ => Some(standard_panels(middle, gpu)),
                },
            },
        )
    }
}

/// The screen frame: a header on the first row and a footer on the last,
/// two columns in from the left and three narrower than the screen, and
/// the panels of the display mode laid out in the rows between them.
pub proof fn lemma_screen_frame(area: Area, mode: DisplayMode, gpu: bool)
    requires
        area.x + area.width <= u16::MAX,
        area.y + area.height <= u16::MAX,
        area.width >= 40,
        area.height >= 10,
    ensures
        ({
            let l = screen(area, mode, gpu).unwrap();
            let middle = Area {
                x: (area.x + 2) as u16,
                y: (area.y + 1) as u16,
                width: (area.width - 3) as u16,
                height: (area.height - 2) as u16,
            };
            &&& screen(area, mode, gpu) is Some
            &&& l.header == Area { x: middle.x, y: area.y, width: middle.width, height: 1 }
            &&& l.footer == Area {
                x: middle.x,
                y: (area.y + area.height - 1) as u16,
                width: middle.width,
                height: 1,
            }
            &&& mode == DisplayMode::Warning ==> l.panels is None
            &&& mode == DisplayMode::Compact ==> l.panels == Some(compact_panels(middle, gpu))
            &&& (mode != DisplayMode::Warning && mode != DisplayMode::Compact) ==> l.panels == Some(
                standard_panels(middle, gpu),
            )
        }),
{
}

/// Lays out the screen `area` in display mode `mode`.
pub fn screen_layout(area: Area, mode: DisplayMode, gpu: bool) -> (l: Option<ScreenLayout>)
    requires
        area.x <= u16::MAX - 2,
        mode != DisplayMode::Warning ==> area.y + 19 <= u16::MAX,
        (mode == DisplayMode::Compact && gpu) ==> area.height >= 13,
    ensures
        l == screen(area, mode, gpu),
{
    if area.width < 40 || area.height < 10 {
        return None;
    }
    let left_padding: u16 = 2;
    let available_width = area.width.saturating_sub(left_padding).saturating_sub(1);
    let header = rect_new(area.x + left_padding, area.y, available_width, 1);
    let footer = rect_new(
        area.x + left_padding,
        area.y.saturating_add(area.height.saturating_sub(1)),
        available_width,
        1,
    );
    let middle = rect_new(
        area.x + left_padding,
        area.y.saturating_add(1),
        available_width,
        area.height.saturating_sub(2),
    );
    let panels = match mode {
        DisplayMode::Warning => None,
        DisplayMode::Compact => Some(compact_layout(middle, gpu)),
        _ => Some(standard_layout(middle, gpu)),
    };
    Some(ScreenLayout { header, footer, panels })
}

} // verus!

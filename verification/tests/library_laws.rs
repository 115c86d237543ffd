use dmeter::collect::{
    active_adapter_name, get_disk_totals, get_network_totals, get_sector_size,
    mib_field_bytes, nvidia_smi_fields, per_second, CounterPair, NetworkSample,
};
use dmeter::config::{CliArgs, Config};
use dmeter::schedule::{collector_step, update_due, CollectorAction};
use dmeter::format::{bar_cells, format_bytes, format_bytes_per_sec, format_uptime, sparkline_from_levels};
use dmeter::gol::GameOfLife;
use dmeter::history::HistoryBuffer;
use dmeter::layout::{
    area_new, compact_layout, get_display_mode, inner_area, safe_inner, screen_layout,
    standard_layout, Area, DisplayMode,
};
use dmeter::memory_info::{
    collect_extended_memory_info, commit_from_kb, try_powershell_memory, try_wmic_memory,
    ArithmeticOverflow,
};
use dmeter::parse::{parse_i32_trimmed, parse_u64, parse_u64_trimmed};
use dmeter::state::{adapter_info, DiskData, SystemInfoData};
use dmeter::ui::{
    can_draw, dead_message_area, game_canvas, game_size, game_tick_due, history_line_area,
    needs_new_game, process_columns, shown_disk_count, size_warning_text, sparkline_width,
    warning_area, KeyAction, ViewState,
};

/// Sizes formatted with floating-point division and `{:.1}`: the text that
/// `format_bytes` must give.
fn float_format_bytes(bytes: u64) -> String {
    const KB: u64 = 1024;
    const MB: u64 = KB * 1024;
    const GB: u64 = MB * 1024;
    const TB: u64 = GB * 1024;
    if bytes >= TB {
        format!("{:.1} TB", bytes as f64 / TB as f64)
    } else if bytes >= GB {
        format!("{:.1} GB", bytes as f64 / GB as f64)
    } else if bytes >= MB {
        format!("{:.1} MB", bytes as f64 / MB as f64)
    } else if bytes >= KB {
        format!("{:.1} KB", bytes as f64 / KB as f64)
    } else {
        format!("{} B", bytes)
    }
}

#[test]
fn format_bytes_matches_float_rounding() {
    let mut samples: Vec<u64> = vec![
        0, 1, 999, 1023, 1024, 1075, 1076, 1126, 1127, 1177, 1178, 1536, 1587, 1588, 10239,
        1048575, 1048576, 1101004, 1101005, 1153433, 5 * 1048576 / 100 * 100,
        1073741823, 1073741824, 1099511627775, 1099511627776, u64::MAX, u64::MAX - 1,
        (1u64 << 53) - 1, 1u64 << 53, (1u64 << 53) + 1, (1u64 << 54) + 3, (1u64 << 63) + 1025,
    ];
    // values exactly halfway between two tenths of a unit
    for k in 0..40u64 {
        samples.push(1024 * k + 51);
        samples.push(1024 * k + 52);
        samples.push(1024 * k + 512);
        samples.push(1024 * 1024 * k + 52429);
        samples.push((1u64 << 40) * k + (1u64 << 39));
        samples.push((1u64 << 40) * (k + 1) / 20);
    }
    let mut x: u64 = 0x9e37_79b9_7f4a_7c15;
    for _ in 0..2000 {
        x ^= x << 13;
        x ^= x >> 7;
        x ^= x << 17;
        samples.push(x);
        samples.push(x >> 20);
        samples.push(x >> 40);
        samples.push(x >> 50);
    }
    for b in samples {
        assert_eq!(format_bytes(b), float_format_bytes(b), "bytes = {}", b);
    }
}

#[test]
fn format_bytes_per_sec_appends_unit() {
    assert_eq!(format_bytes_per_sec(0), "0 B/s");
    assert_eq!(format_bytes_per_sec(1536), "1.5 KB/s");
    assert_eq!(format_bytes_per_sec(1099511627776), "1.0 TB/s");
}

#[test]
fn format_uptime_drops_leading_zero_units() {
    assert_eq!(format_uptime(59), "0m");
    assert_eq!(format_uptime(3599), "59m");
    assert_eq!(format_uptime(3661), "1h 1m");
    assert_eq!(format_uptime(86399), "23h 59m");
    assert_eq!(format_uptime(172800 + 7200 + 180), "2d 2h 3m");
    assert_eq!(format_uptime(u64::MAX), "213503982334601d 7h 0m");
}

#[test]
fn bar_cells_fill_and_clip() {
    assert_eq!(bar_cells(0, 4), "░░░░");
    assert_eq!(bar_cells(3, 4), "███░");
    assert_eq!(bar_cells(9, 4), "████");
    assert_eq!(bar_cells(5, 10).chars().filter(|&c| c == '█').count(), 5);
    assert_eq!(bar_cells(2, 0), "");
}

#[test]
fn sparkline_from_levels_samples_columns() {
    assert_eq!(sparkline_from_levels(&vec![], 10).chars().count(), 10);
    assert_eq!(sparkline_from_levels(&vec![], 3), "░░░");
    assert_eq!(sparkline_from_levels(&vec![1, 2, 3], 0), "");
    let line = sparkline_from_levels(&vec![0, 4, 8], 3);
    assert_eq!(line, "░▄█");
    // longer history than columns: every second value
    assert_eq!(sparkline_from_levels(&vec![1, 9, 2, 9, 3, 9], 3), "▁▂▃");
    // shorter history than columns: the last value repeats
    assert_eq!(sparkline_from_levels(&vec![8, 1], 4), "█▁▁▁");
    // levels above 8 show as full blocks
    assert_eq!(sparkline_from_levels(&vec![200], 2), "██");
}

#[test]
fn history_keeps_latest_values() {
    let mut buffer: HistoryBuffer<u32> = HistoryBuffer::with_fill(4, 7);
    assert_eq!(buffer.get(), vec![7, 7, 7, 7]);
    for v in 1..=10u32 {
        buffer.push(v);
        assert_eq!(buffer.get().len(), 4);
    }
    assert_eq!(buffer.get(), vec![7, 8, 9, 10]);
}

fn cleared(width: u32, height: u32) -> GameOfLife {
    let mut gol = GameOfLife::new(width, height);
    gol.cells.iter_mut().for_each(|c| *c = false);
    gol
}

#[test]
fn blinker_has_period_two() {
    let mut gol = cleared(5, 5);
    gol.cells[11] = true;
    gol.cells[12] = true;
    gol.cells[13] = true;
    let start = gol.cells.clone();
    gol.step();
    assert_ne!(gol.cells, start);
    gol.step();
    assert_eq!(gol.cells, start);
    assert_eq!(gol.generation(), 2);
}

#[test]
fn block_is_still_life() {
    let mut gol = cleared(4, 4);
    for idx in [5usize, 6, 9, 10] {
        gol.cells[idx] = true;
    }
    let start = gol.cells.clone();
    gol.step();
    assert_eq!(gol.cells, start);
    assert!(!gol.is_dead());
}

#[test]
fn empty_grid_dies_and_waits() {
    let mut gol = cleared(6, 3);
    gol.generation = 41;
    gol.step();
    assert!(gol.is_dead());
    assert_eq!(gol.generation(), 42);
    assert!(gol.death_time.is_some());
    // within the ten seconds nothing changes
    gol.step();
    assert!(gol.is_dead());
    assert_eq!(gol.generation(), 42);
    assert!(gol.cells.iter().all(|&c| !c));
}

#[test]
fn lone_cell_dies() {
    let mut gol = cleared(3, 3);
    gol.cells[4] = true;
    gol.step();
    assert!(gol.is_dead());
    assert!(!gol.cell_alive(1, 1));
}

#[test]
fn seeding_is_deterministic() {
    let a = GameOfLife::new(17, 9);
    let b = GameOfLife::new(17, 9);
    assert_eq!(a.cells, b.cells);
    assert_eq!(a.cells.len(), 17 * 9);
    assert_eq!(a.generation(), 0);
    assert!(!a.is_dead());
    // a seed of 0 gives a grid that is neither empty nor full
    assert!(a.cells.iter().any(|&c| c));
    assert!(a.cells.iter().any(|&c| !c));
}

#[test]
fn randomize_uses_generation_as_seed() {
    let mut a = GameOfLife::new(8, 8);
    let first = a.cells.clone();
    a.generation = 3;
    a.randomize();
    assert_eq!(a.generation(), 0);
    assert_ne!(a.cells, first);
    let mut b = GameOfLife::new(8, 8);
    b.generation = 3;
    b.randomize();
    assert_eq!(a.cells, b.cells);
}

#[test]
fn half_blocks_show_two_rows() {
    let mut gol = cleared(2, 4);
    gol.cells[0] = true; // (0, 0)
    gol.cells[2] = true; // (0, 1)
    gol.cells[5] = true; // (1, 2)
    gol.cells[6] = true; // (0, 3)
    assert_eq!(gol.half_block(0, 0), Some('█'));
    assert_eq!(gol.half_block(1, 0), None);
    assert_eq!(gol.half_block(1, 1), Some('▀'));
    assert_eq!(gol.half_block(0, 1), Some('▄'));
    assert_eq!(gol.half_block(0, 2), None);
}

#[test]
fn parse_numbers_like_std() {
    for s in ["0", "42", "+7", "-7", "", "+", " 5", "5 ", "0012", "18446744073709551615",
        "18446744073709551616", "99999999999999999999999", "1_000", "٣"] {
        assert_eq!(parse_u64(s), s.parse::<u64>().ok(), "{:?}", s);
        assert_eq!(parse_u64_trimmed(s), s.trim().parse::<u64>().ok(), "{:?}", s);
        assert_eq!(parse_i32_trimmed(s), s.trim().parse::<i32>().ok(), "{:?}", s);
    }
    for s in ["-2147483648", "2147483647", "2147483648", "-2147483649", " 45000\n", "\t-1\u{3000}",
        "-0", "--1", "+-1"] {
        assert_eq!(parse_i32_trimmed(s), s.trim().parse::<i32>().ok(), "{:?}", s);
        assert_eq!(parse_u64_trimmed(s), s.trim().parse::<u64>().ok(), "{:?}", s);
    }
}

#[test]
fn wmic_output_gives_commit_figures() {
    let output = "\r\nNode,FreeVirtualMemory,TotalVirtualMemorySize\r\nHOST, 1000 ,4000\r\n";
    assert_eq!(try_wmic_memory(output), Ok(Some((4096000, 3072000, 409600))));
    // WMIC ends its lines with "\r\r\n", which leaves blank lines between
    let output = "\r\r\nNode,FreeVirtualMemory,TotalVirtualMemorySize\r\r\nHOST,2,8\r\r\n";
    assert_eq!(try_wmic_memory(output), Ok(Some((8192, 6144, 819))));
    // the columns come from the header, in whatever order it names them
    let output = "Node,TotalVirtualMemorySize,FreeVirtualMemory\nHOST,8,2\n";
    assert_eq!(try_wmic_memory(output), Ok(Some((8192, 6144, 819))));
    // a data line without numbers is passed over
    let output = "Node,FreeVirtualMemory,TotalVirtualMemorySize\nHOST,x,8\nHOST,2,8\n";
    assert_eq!(try_wmic_memory(output), Ok(Some((8192, 6144, 819))));
    // a header with no data line, or no header at all
    assert_eq!(try_wmic_memory("Node,FreeVirtualMemory,TotalVirtualMemorySize\r\n"), Ok(None));
    assert_eq!(try_wmic_memory("TotalVirtualMemorySize, 4000 , 1000\r\n"), Ok(None));
    assert_eq!(try_wmic_memory("HOST,1000,4000\n"), Ok(None));
    assert_eq!(try_wmic_memory(""), Ok(None));
    // more free memory than there is in all
    let output = "Node,FreeVirtualMemory,TotalVirtualMemorySize\nHOST,2,1\n";
    assert_eq!(try_wmic_memory(output), Err(ArithmeticOverflow));
}

#[test]
fn powershell_output_gives_commit_figures() {
    let output = "\"TotalVirtualMemorySize\",\"FreeVirtualMemory\"\r\n\"2000\",\"500\"\r\n";
    assert_eq!(try_powershell_memory(output), Ok(Some((2048000, 1536000, 204800))));
    assert_eq!(try_powershell_memory("header only\n"), Ok(None));
    assert_eq!(try_powershell_memory("h\n\"12\"\n"), Ok(None));
    assert_eq!(try_powershell_memory("h\n\" 12\",\"1\"\n"), Ok(None));
}

#[test]
fn commit_figures_from_kilobytes() {
    assert_eq!(commit_from_kb(10, 4), Ok((10240, 6144, 1024)));
    assert_eq!(commit_from_kb(u64::MAX / 1024 + 1, 0), Err(ArithmeticOverflow));
    assert_eq!(commit_from_kb(3, 4), Err(ArithmeticOverflow));
    assert_eq!(collect_extended_memory_info(None), (0, 0, 0));
    assert_eq!(collect_extended_memory_info(Some((1, 2, 3))), (1, 2, 3));
}

fn sample(name: &str, received: u64, transmitted: u64) -> NetworkSample {
    NetworkSample { name: name.to_string(), received, transmitted }
}

#[test]
fn network_totals_and_adapter() {
    let samples = vec![sample("lo", 0, 0), sample("", 5, 0), sample("eth0", 10, 20), sample("wlan0", 1, 1)];
    assert_eq!(get_network_totals(&samples), Ok((21, 16)));
    assert_eq!(active_adapter_name(&samples), "eth0");
    assert_eq!(active_adapter_name(&vec![sample("lo", 0, 0)]), "");
    let huge = vec![sample("a", u64::MAX, 0), sample("b", 1, 0)];
    assert_eq!(get_network_totals(&huge), Err(ArithmeticOverflow));
    assert_eq!(adapter_info("", "1.2.3.4"), "No adapter");
    assert_eq!(adapter_info("eth0", "10.0.0.2"), "eth0 · 10.0.0.2");
}

#[test]
fn counters_report_growth() {
    let mut c = CounterPair::new(100, 50);
    assert_eq!(c.advance(150, 40), (50, 0));
    assert_eq!((c.last_first, c.last_second), (150, 40));
    assert_eq!(c.advance(150, 40), (0, 0));
}

#[test]
fn diskstats_totals() {
    let content = "   8       0 sda 100 0 2000 0 50 0 3000 0 0 0 0\n   8       1 sda1 x 0 x 0 0 0 9 0 0 0 0\n short line\n 259 0 nvme0n1 1 2 10 4 5 6 20 8\n";
    assert_eq!(get_disk_totals(content, 512), Ok(((2000 + 10) * 512, (3000 + 20) * 512)));
    assert_eq!(get_disk_totals("", 512), Ok((0, 0)));
    let big = "1 2 3 4 5 18446744073709551615 7 8 9 1\n";
    assert_eq!(get_disk_totals(big, 2), Err(ArithmeticOverflow));
    assert_eq!(get_disk_totals(big, 1), Ok((u64::MAX, 512 * 0 + 1)));
}

#[test]
fn sector_size_first_readable_number() {
    assert_eq!(get_sector_size(&vec![None, Some("abc".to_string()), Some(" 512\n".to_string()), Some("4096".to_string())]), 512);
    assert_eq!(get_sector_size(&vec![None, None]), 4096);
    assert_eq!(get_sector_size(&vec![]), 4096);
}

#[test]
fn nvidia_smi_csv_fields() {
    let fields = nvidia_smi_fields(" NVIDIA GeForce RTX 3080, 45, 1024, 10240, 60\n");
    let text: Vec<String> = fields.iter().map(|f| f.iter().collect()).collect();
    assert_eq!(text, vec!["NVIDIA GeForce RTX 3080", "45", "1024", "10240", "60"]);
    assert_eq!(mib_field_bytes(&fields[2]), Ok(1024 * 1024 * 1024));
    assert_eq!(mib_field_bytes(&"n/a".chars().collect()), Ok(0));
    assert_eq!(mib_field_bytes(&"18446744073709551615".chars().collect()), Err(ArithmeticOverflow));
}

#[test]
fn display_mode_thresholds() {
    assert_eq!(get_display_mode(0), DisplayMode::Warning);
    assert_eq!(get_display_mode(23), DisplayMode::Warning);
    assert_eq!(get_display_mode(24), DisplayMode::Compact);
    assert_eq!(get_display_mode(35), DisplayMode::Compact);
    assert_eq!(get_display_mode(36), DisplayMode::Standard);
    assert_eq!(get_display_mode(49), DisplayMode::Standard);
    assert_eq!(get_display_mode(50), DisplayMode::Spacious);
}

fn area(x: u16, y: u16, width: u16, height: u16) -> Area {
    Area { x, y, width, height }
}

#[test]
fn rectangles_clip_like_ratatui() {
    assert_eq!(area_new(65530, 10, 20, 5), area(65530, 10, 5, 5));
    assert_eq!(area_new(1, 65535, 3, 4), area(1, 65535, 3, 0));
    assert_eq!(inner_area(area(10, 10, 20, 8), 2, 1), area(12, 11, 16, 6));
    assert_eq!(inner_area(area(10, 10, 3, 8), 2, 1), area(0, 0, 0, 0));
    assert_eq!(safe_inner(area(0, 0, 10, 10), 1), area(1, 1, 8, 8));
    assert_eq!(safe_inner(area(0, 0, 1, 1), 1), area(1, 1, 0, 0));
}

#[test]
fn screen_layout_compact_with_gpu() {
    let l = screen_layout(area(0, 0, 80, 24), DisplayMode::Compact, true).unwrap();
    assert_eq!(l.header, area(2, 0, 77, 1));
    assert_eq!(l.footer, area(2, 23, 77, 1));
    let p = l.panels.unwrap();
    assert_eq!(p.cpu, area(2, 1, 25, 4));
    assert_eq!(p.gpu, Some(area(27, 1, 25, 4)));
    assert_eq!(p.memory, area(52, 1, 27, 4));
    assert_eq!(p.cpu_history, area(2, 5, 38, 3));
    assert_eq!(p.ram_history, area(40, 5, 39, 3));
    assert_eq!(p.vram_history, Some(area(40, 8, 39, 3)));
    assert_eq!(p.network, area(2, 11, 25, 11));
    assert_eq!(p.disk_io, area(52, 11, 27, 11));
    assert_eq!(p.bottom, None);
}

#[test]
fn screen_layout_standard_without_gpu() {
    let l = screen_layout(area(0, 0, 100, 40), DisplayMode::Standard, false).unwrap();
    let p = l.panels.unwrap();
    assert_eq!(p.cpu, area(2, 1, 48, 6));
    assert_eq!(p.memory, area(50, 1, 49, 6));
    assert_eq!(p.gpu, None);
    assert_eq!(p.network, area(2, 10, 97, 4));
    assert_eq!(p.disk, area(2, 14, 48, 4));
    assert_eq!(p.disk_io, area(50, 14, 49, 4));
    assert_eq!(p.bottom, Some(area(2, 19, 97, 20)));
    assert!(screen_layout(area(0, 0, 39, 40), DisplayMode::Standard, false).is_none());
    assert!(screen_layout(area(0, 0, 80, 20), DisplayMode::Warning, false).unwrap().panels.is_none());
}

#[test]
fn panel_layouts_direct() {
    let c = compact_layout(area(2, 1, 77, 30), false);
    assert_eq!(c.disk_io, area(2, 12, 77, 3));
    assert_eq!(c.bottom, Some(area(2, 15, 77, 16)));
    let s = standard_layout(area(2, 1, 77, 48), true);
    assert_eq!(s.bottom, Some(area(2, 18, 77, 30)));
    assert_eq!(s.network, area(2, 13, 25, 4));
}

#[test]
fn keys_drive_the_view() {
    let mut v = ViewState::new();
    assert_eq!(v.handle_key(' ', false), KeyAction::ToggleProcesses);
    assert!(v.show_processes);
    assert_eq!(v.handle_key(' ', false), KeyAction::ToggleProcesses);
    assert!(!v.show_processes);
    assert_eq!(v.handle_key('c', false), KeyAction::Ignore);
    assert!(v.running);
    assert_eq!(v.handle_key('r', false), KeyAction::ForceRefresh);
    assert!(v.force_refresh);
    assert_eq!(v.handle_key('g', true), KeyAction::RestartGame);
    assert!(v.restart_game);
    assert_eq!(v.handle_key('c', true), KeyAction::Quit);
    assert!(!v.running);
    let mut w = ViewState::new();
    assert_eq!(w.handle_key('q', false), KeyAction::Quit);
    assert!(!w.running);
}

#[test]
fn drawing_and_game_decisions() {
    assert!(can_draw(80, 24));
    assert!(!can_draw(79, 50));
    assert!(!can_draw(200, 23));
    assert!(game_tick_due(false, 200));
    assert!(!game_tick_due(false, 199));
    assert!(!game_tick_due(true, 1000));
    let canvas = game_canvas(area(2, 19, 97, 20));
    assert_eq!(canvas, area(4, 21, 93, 16));
    assert_eq!(game_size(canvas), Some((93, 32)));
    assert_eq!(game_size(area(0, 0, 2, 10)), None);
    assert_eq!(game_size(area(0, 0, 5, 1)), None);
    assert!(needs_new_game(&None, 3, 3));
    let g = Some(GameOfLife::new(3, 4));
    assert!(!needs_new_game(&g, 3, 4));
    assert!(needs_new_game(&g, 4, 3));
    assert_eq!(dead_message_area(canvas), area(46, 29, 9, 1));
    assert_eq!(history_line_area(area(0, 0, 12, 3)), Some(area(1, 1, 10, 1)));
    assert_eq!(history_line_area(area(0, 0, 11, 3)), None);
}

#[test]
fn process_columns_split_three_ways() {
    let c = process_columns(area(0, 0, 100, 20)).unwrap();
    assert_eq!(c.columns[0], area(2, 2, 30, 16));
    assert_eq!(c.columns[1], area(34, 2, 30, 16));
    assert_eq!(c.columns[2], area(66, 2, 30, 16));
    assert_eq!(c.name_width, 20);
    assert_eq!(c.rows, 16);
    assert!(process_columns(area(0, 0, 33, 20)).is_none());
}

#[test]
fn disks_and_system_text() {
    let d = DiskData::from_space("sda1".to_string(), "/".to_string(), 100, 30, "ext4".to_string());
    assert_eq!(d.used, 70);
    assert_eq!(d.label(), "/ (ext4)");
    let e = DiskData::from_space(String::new(), "/boot".to_string(), 10, 30, "vfat".to_string());
    assert_eq!(e.used, 0);
    assert_eq!(e.label(), "/boot");
    let info = SystemInfoData {
        hostname: "box".to_string(),
        os_name: "Linux".to_string(),
        os_version: "6.1".to_string(),
        uptime: 90061,
    };
    assert_eq!(info.summary(), "Linux 6.1  ·  Uptime: 1d 1h 1m");
}

#[test]
fn config_loading_rules() {
    assert_eq!(Config::loaded_or_default(None).interval, 2);
    assert_eq!(Config::loaded_or_default(Some(Config { interval: 7 })).interval, 7);
    let mut c = Config::loaded_or_default(Some(Config { interval: 7 }));
    c.merge_cli(&CliArgs { interval: Some(1) });
    assert_eq!(c.interval, 1);
    c.merge_cli(&CliArgs { interval: None });
    assert_eq!(c.interval, 1);
    let mut from_file = Config::loaded_or_default(Some(Config { interval: 5 }));
    from_file.merge_cli(&CliArgs { interval: None });
    assert_eq!(from_file.interval, 5);
}

#[test]
fn vram_sizes_stop_at_gigabytes() {
    assert_eq!(dmeter::format::format_vram_bytes(512), "512 B");
    assert_eq!(dmeter::format::format_vram_bytes(1536), "1.5 KB");
    assert_eq!(dmeter::format::format_vram_bytes(1073741824), "1.0 GB");
    assert_eq!(dmeter::format::format_vram_bytes(1099511627776), "1024.0 GB");
    assert_eq!(dmeter::format::format_vram_bytes(10 * 1024 * 1024 * 1024 + 1), "10.0 GB");
}

#[test]
fn uptime_parts_add_up() {
    for s in [0u64, 59, 60, 3599, 3600, 86399, 86400, 90061, 1_000_000, u64::MAX] {
        let days = s / 86400;
        let hours = (s % 86400) / 3600;
        let minutes = (s % 3600) / 60;
        assert!(hours < 24 && minutes < 60);
        let shown = days as u128 * 86400 + hours as u128 * 3600 + minutes as u128 * 60;
        assert!(shown <= s as u128 && (s as u128) < shown + 60);
    }
}

#[test]
fn ttl_cache_keeps_stored_value() {
    let long_ago = std::time::Instant::now() - std::time::Duration::from_secs(60);
    let mut cache: dmeter::clock::TtlCache<u32> = dmeter::clock::TtlCache::new(long_ago);
    assert_eq!(cache.get(), None);
    assert!(cache.is_stale());
    cache.store(Some(42));
    assert_eq!(cache.get(), Some(42));
    assert!(!cache.is_stale());
}

#[test]
fn ttl_expires_from_ten_seconds() {
    assert!(!dmeter::clock::ttl_expired(0));
    assert!(!dmeter::clock::ttl_expired(9));
    assert!(dmeter::clock::ttl_expired(10));
    assert!(dmeter::clock::ttl_expired(u64::MAX));
}

#[test]
fn dead_game_restarts_after_ten_seconds() {
    assert!(!dmeter::gol::restart_due(0));
    assert!(!dmeter::gol::restart_due(9));
    assert!(dmeter::gol::restart_due(10));
    assert!(dmeter::gol::restart_due(u64::MAX));

    let mut gol = cleared(6, 3);
    gol.generation = 41;
    gol.step();
    assert!(gol.is_dead());
    // nine seconds after its death the game still waits
    gol.step_after(9);
    assert!(gol.is_dead());
    assert_eq!(gol.generation(), 42);
    assert!(gol.cells.iter().all(|&c| !c));
    // ten seconds after, it is seeded from the generation at which it died
    gol.step_after(10);
    assert!(!gol.is_dead());
    assert_eq!(gol.generation(), 0);
    assert!(gol.death_time.is_none());
    let mut expected = cleared(6, 3);
    expected.generation = 42;
    expected.randomize();
    assert_eq!(gol.cells, expected.cells);
}

#[test]
fn live_game_ignores_elapsed_time() {
    let mut a = cleared(5, 5);
    a.cells[11] = true;
    a.cells[12] = true;
    a.cells[13] = true;
    let mut b = a.cells.clone();
    a.step_after(100);
    let mut gol = cleared(5, 5);
    gol.cells = std::mem::take(&mut b);
    gol.step();
    assert_eq!(a.cells, gol.cells);
    assert_eq!(a.generation(), 1);
    // the column of three through the centre
    assert!(a.cell_alive(2, 1) && a.cell_alive(2, 2) && a.cell_alive(2, 3));
    assert!(!a.cell_alive(1, 2) && !a.cell_alive(3, 2));
}

#[test]
fn block_in_corner_stays() {
    let mut gol = cleared(3, 3);
    for idx in [0usize, 1, 3, 4] {
        gol.cells[idx] = true;
    }
    let start = gol.cells.clone();
    gol.step();
    assert_eq!(gol.cells, start);
    assert_eq!(gol.generation(), 1);
    assert!(!gol.is_dead());
}

#[test]
fn collector_naps_then_collects() {
    // an interval of 2 s is twenty naps of 100 ms
    assert_eq!(collector_step(0, 2, false, false), (CollectorAction::Nap, false));
    assert_eq!(collector_step(19, 2, false, false), (CollectorAction::Nap, false));
    assert_eq!(collector_step(20, 2, false, false), (CollectorAction::Collect, false));
    // a forced refresh cuts the naps short and is used up
    assert_eq!(collector_step(3, 2, false, true), (CollectorAction::Collect, false));
    // at the end of the naps it is left for the next round
    assert_eq!(collector_step(20, 2, false, true), (CollectorAction::Collect, true));
    // shutdown wins over everything
    assert_eq!(collector_step(20, 2, true, true), (CollectorAction::Stop, true));
    assert_eq!(collector_step(0, 2, true, false), (CollectorAction::Stop, false));
    // an interval of 0 collects all the time; a huge one does not overflow
    assert_eq!(collector_step(0, 0, false, false), (CollectorAction::Collect, false));
    assert_eq!(collector_step(u64::MAX, u64::MAX, false, false), (CollectorAction::Nap, false));
}

#[test]
fn display_updates_once_per_interval() {
    assert!(!update_due(1999, 2));
    assert!(update_due(2000, 2));
    assert!(update_due(0, 0));
    assert!(!update_due(u128::from(u64::MAX), u64::MAX));
}

#[test]
fn rates_are_per_second() {
    assert_eq!(per_second(4096, 2000), 2048);
    assert_eq!(per_second(1000, 1500), 666);
    assert_eq!(per_second(5, 0), 0);
    assert_eq!(per_second(0, 2000), 0);
    assert_eq!(per_second(u64::MAX, 1), u64::MAX);
    assert_eq!(per_second(u64::MAX, 1000), u64::MAX);
    assert_eq!(per_second(u64::MAX, 2000), u64::MAX / 2);
}

#[test]
fn size_warning_is_centred() {
    assert_eq!(size_warning_text(), "Terminal too small. Please resize to at least 80x24.");
    assert_eq!(warning_area(area(0, 0, 79, 23)), Some(area(11, 10, 56, 3)));
    assert_eq!(warning_area(area(0, 0, 40, 10)), Some(area(0, 3, 40, 3)));
    assert_eq!(warning_area(area(5, 2, 30, 3)), Some(area(5, 2, 30, 3)));
    assert_eq!(warning_area(area(0, 0, 9, 24)), None);
    assert_eq!(warning_area(area(0, 0, 80, 2)), None);
}

#[test]
fn panel_widths_and_disk_rows() {
    assert_eq!(sparkline_width(100, 30), 68);
    assert_eq!(sparkline_width(50, 30), 20);
    assert_eq!(sparkline_width(10, 30), 20);
    // the text's length is taken as a u16 holds it
    assert_eq!(sparkline_width(100, 65536 + 30), 68);
    assert_eq!(shown_disk_count(5, 3), 3);
    assert_eq!(shown_disk_count(2, 3), 2);
    assert_eq!(shown_disk_count(0, 3), 0);
}

#[test]
fn disk_labels_pad_to_the_longest() {
    let disks = vec![
        DiskData::from_space("sda1".to_string(), "/".to_string(), 100, 40, "ext4".to_string()),
        DiskData::from_space(String::new(), "/mnt/backup".to_string(), 100, 40, "xfs".to_string()),
        DiskData::from_space("nvme".to_string(), "/home".to_string(), 100, 40, "btrfs".to_string()),
    ];
    // "/home (btrfs)" is 13 bytes, "/mnt/backup" 11, "/ (ext4)" 8
    assert_eq!(dmeter::state::label_width(&disks), 13);
    assert_eq!(dmeter::state::label_width(&disks[..2]), 11);
    assert_eq!(dmeter::state::label_width(&[]), 0);
    // the width counts bytes, as the padding of the labels does
    let accented = DiskData::from_space(String::new(), "/média".to_string(), 1, 0, String::new());
    assert_eq!(dmeter::state::label_width(&[accented]), 7);
}

#[test]
fn one_row_grid_follows_conway() {
    // a row of three in a grid one cell high shrinks to its centre
    let mut gol = cleared(7, 1);
    gol.cells[2] = true;
    gol.cells[3] = true;
    gol.cells[4] = true;
    gol.step();
    assert_eq!(gol.cells, vec![false, false, false, true, false, false, false]);
    gol.step();
    assert!(gol.is_dead());
}

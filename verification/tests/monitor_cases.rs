use dmeter::collect::{check_nvidia_driver_present, DriverCheck};
use dmeter::config::{CliArgs, Config};
use dmeter::format::{format_bytes, format_bytes_per_sec, format_uptime};
use dmeter::gol::GameOfLife;
use dmeter::history::HistoryBuffer;
use dmeter::state::{MemoryData, SystemInfoData};

#[test]
fn test_nvidia_driver_check_caching() {
    let mut cache = DriverCheck::Unchecked;
    // First call
    let result1 = check_nvidia_driver_present(&mut cache, false);
    // Second call should return cached result
    let result2 = check_nvidia_driver_present(&mut cache, true);
    // Results should be consistent
    assert_eq!(result1, result2);
}

#[test]
fn test_cli_args_defaults() {
    let args = CliArgs { interval: Some(2) };
    assert_eq!(args.interval, Some(2));
}

#[test]
fn test_config_default() {
    let config = Config::default();
    assert_eq!(config.interval, 2);
}

#[test]
fn test_config_merge_cli() {
    let mut config = Config::default();
    let cli = CliArgs { interval: Some(5) };

    config.merge_cli(&cli);

    assert_eq!(config.interval, 5);
}

#[test]
fn test_memory_data_default() {
    let mem = MemoryData::default();
    assert_eq!(mem.total, 0);
    assert_eq!(mem.used, 0);
    assert_eq!(mem.swap_total, 0);
    assert_eq!(mem.swap_used, 0);
}

#[test]
fn test_system_info_data_default() {
    let info = SystemInfoData::default();
    assert_eq!(info.hostname, "");
    assert_eq!(info.os_name, "");
    assert_eq!(info.os_version, "");
    assert_eq!(info.uptime, 0);
}

#[test]
fn test_history_buffer_new() {
    let buffer: HistoryBuffer<f32> = HistoryBuffer::new(5);
    assert_eq!(buffer.get().len(), 5);
    assert!(buffer.get().iter().all(|&x| x == 0.0));
}

#[test]
fn test_history_buffer_push() {
    let mut buffer: HistoryBuffer<f32> = HistoryBuffer::new(3);

    buffer.push(1.0);
    assert_eq!(buffer.get(), vec![0.0, 0.0, 1.0]);

    buffer.push(2.0);
    buffer.push(3.0);
    assert_eq!(buffer.get(), vec![1.0, 2.0, 3.0]);

    buffer.push(4.0);
    assert_eq!(buffer.get(), vec![2.0, 3.0, 4.0]);
}

#[test]
fn test_history_buffer_zero_capacity() {
    let mut buffer: HistoryBuffer<f32> = HistoryBuffer::new(0);
    assert_eq!(buffer.get().len(), 0);

    buffer.push(1.0);
    assert_eq!(buffer.get().len(), 0);
}

#[test]
fn test_vertical_neighbors() {
    let mut gol = GameOfLife::new(5, 5);
    // Clear all cells
    gol.cells.iter_mut().for_each(|c| *c = false);

    // Create vertical stack at (2, 1) and (2, 2)
    gol.cells[7] = true; // y=1, x=2: 1*5+2
    gol.cells[12] = true; // y=2, x=2: 2*5+2

    assert_eq!(gol.count_neighbors(2, 1), 1);
    assert_eq!(gol.count_neighbors(2, 2), 1);

    // Add a third cell above at (2, 0)
    gol.cells[2] = true; // y=0, x=2: 0*5+2

    assert_eq!(gol.count_neighbors(2, 1), 2);
}

#[test]
fn test_cell_alive() {
    let mut gol = GameOfLife::new(5, 5);
    gol.cells.iter_mut().for_each(|c| *c = false);
    gol.cells[13] = true; // y=2, x=3: 2*5+3

    assert!(gol.cell_alive(3, 2));
    assert!(!gol.cell_alive(0, 0));
    assert!(!gol.cell_alive(10, 10)); // out of bounds
}

#[test]
fn test_step_blinker() {
    // Horizontal blinker at row 2: cells (1,2), (2,2), (3,2)
    let mut gol = GameOfLife::new(5, 5);
    gol.cells.iter_mut().for_each(|c| *c = false);
    gol.cells[11] = true; // y=2, x=1: 2*5+1
    gol.cells[12] = true; // y=2, x=2: 2*5+2
    gol.cells[13] = true; // y=2, x=3: 2*5+3

    gol.step();

    // After one step, blinker should be vertical: (2,1), (2,2), (2,3)
    assert!(gol.cell_alive(2, 1));
    assert!(gol.cell_alive(2, 2));
    assert!(gol.cell_alive(2, 3));
    assert!(!gol.cell_alive(1, 2));
    assert!(!gol.cell_alive(3, 2));
}

#[test]
fn test_format_bytes() {
    assert_eq!(format_bytes(0), "0 B");
    assert_eq!(format_bytes(512), "512 B");
    assert_eq!(format_bytes(1023), "1023 B");
    assert_eq!(format_bytes(1024), "1.0 KB");
    assert_eq!(format_bytes(1536), "1.5 KB");
    assert_eq!(format_bytes(1048576), "1.0 MB");
    assert_eq!(format_bytes(1073741824), "1.0 GB");
    assert_eq!(format_bytes(1099511627776), "1.0 TB");
}

#[test]
fn test_format_bytes_per_sec() {
    assert_eq!(format_bytes_per_sec(1024.0f64 as u64), "1.0 KB/s");
    assert_eq!(format_bytes_per_sec(1048576.0f64 as u64), "1.0 MB/s");
    assert_eq!(format_bytes_per_sec(1073741824.0f64 as u64), "1.0 GB/s");
}

#[test]
fn test_format_uptime() {
    assert_eq!(format_uptime(0), "0m");
    assert_eq!(format_uptime(60), "1m");
    assert_eq!(format_uptime(3600), "1h 0m");
    assert_eq!(format_uptime(86400), "1d 0h 0m");
    assert_eq!(format_uptime(90061), "1d 1h 1m");
}

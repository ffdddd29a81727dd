use info_bar_x11::color::parse_color;
use info_bar_x11::line::Line;
use info_bar_x11::options::{Align, AppOptions};
use info_bar_x11::probe::{get_info, CoreTemp, FileSysteUsage, SystemInfo};
use info_bar_x11::status::{hottest, status_line};

const GIB: u64 = 1024 * 1024 * 1024;
const MIB: u64 = 1024 * 1024;

fn sample(memory_free: u64, load_1m: u64, load_5m: u64) -> SystemInfo {
    SystemInfo {
        uptime: 100,
        load_1m,
        load_5m,
        memory_total: 8 * GIB,
        memory_free,
        memory_available: 0,
        swap_total: 0,
        swap_free: 0,
        num_procs: 200,
    }
}

fn temps(values: &[i64]) -> Vec<CoreTemp> {
    values
        .iter()
        .enumerate()
        .map(|(i, v)| CoreTemp { input: *v, label: format!("Core {}", i) })
        .collect()
}

#[test]
fn defaults_without_sampling_errors() {
    let options = AppOptions::default();
    let info = sample(4 * GIB, 32768, 39322);
    let line = status_line(&options, &info, &temps(&[45000, 50000]), &Vec::new());
    assert_eq!(
        line,
        "%{r}     |       RAM Free: 4096 M       |       LoadAvg: 0.50, 0.60       |       \
         Core Temp.: 50 ºC       |        "
    );
}

#[test]
fn memory_alert() {
    let options = AppOptions::default();
    let info = sample(100 * MIB, 32768, 39322);
    let line = status_line(&options, &info, &temps(&[45000]), &Vec::new());
    assert!(line.contains("%{F#fff}%{B#700}  RAM Free: 100 M  %{F-}%{B-}     |     "));
}

#[test]
fn memory_warn_between_thresholds() {
    let options = AppOptions::default();
    let info = sample(300 * MIB, 0, 0);
    let line = status_line(&options, &info, &Vec::new(), &Vec::new());
    assert!(line.contains("%{F#000}%{B#fa7}  RAM Free: 300 M  %{F-}%{B-}"));
}

#[test]
fn load_warn_not_alert() {
    let options = AppOptions::default();
    let info = sample(4 * GIB, 98304, 39322);
    let line = status_line(&options, &info, &temps(&[45000]), &Vec::new());
    assert!(line.contains("%{F#000}%{B#fa7}  LoadAvg: 1.50, 0.60  %{F-}%{B-}"));
}

#[test]
fn load_alert_from_five_minute_value() {
    let options = AppOptions::default();
    let info = sample(4 * GIB, 0, 3 * 65536);
    let line = status_line(&options, &info, &Vec::new(), &Vec::new());
    assert!(line.contains("%{F#fff}%{B#700}  LoadAvg: 0.00, 3.00  %{F-}%{B-}"));
}

#[test]
fn load_scaling_by_two_to_the_sixteenth() {
    let options = AppOptions::default();
    let info = sample(4 * GIB, 65536, 16384);
    let line = status_line(&options, &info, &Vec::new(), &Vec::new());
    assert!(line.contains("  LoadAvg: 1.00, 0.25  "));
}

#[test]
fn cpu_alert_at_boundary() {
    let options = AppOptions::default();
    let info = sample(4 * GIB, 0, 0);
    let line = status_line(&options, &info, &temps(&[45000, 70000]), &Vec::new());
    assert!(line.contains("%{F#fff}%{B#700}  Core Temp.: 70 ºC  %{F-}%{B-}"));
}

#[test]
fn cpu_just_below_alert_is_warn() {
    let options = AppOptions::default();
    let info = sample(4 * GIB, 0, 0);
    let line = status_line(&options, &info, &temps(&[69999]), &Vec::new());
    assert!(line.contains("%{F#000}%{B#fa7}  Core Temp.: 70 ºC  %{F-}%{B-}"));
}

#[test]
fn no_temperatures_show_zero() {
    let options = AppOptions::default();
    let info = sample(4 * GIB, 0, 0);
    let line = status_line(&options, &info, &Vec::new(), &Vec::new());
    assert!(line.contains("       Core Temp.: 0 ºC       |     "));
    assert_eq!(hottest(&Vec::new()), 0);
    assert_eq!(hottest(&temps(&[3, 9, 4])), 9);
}

#[test]
fn disk_listing() {
    let mut options = AppOptions::default();
    options.mountpoints = vec!["/".to_string(), "/home".to_string()];
    let fss = get_info(&options.mountpoints, &vec![Some((1000, 40)), None]);
    assert_eq!(fss.len(), 1);
    let info = sample(4 * GIB, 0, 0);
    let line = status_line(&options, &info, &Vec::new(), &fss);
    assert!(line.contains("%{F#fff}%{B#700}  / = 4% free  %{F-}%{B-}     |     "));
    assert!(!line.contains("/home"));
}

#[test]
fn disk_with_no_blocks_is_zero_percent() {
    let options = AppOptions::default();
    let fss = vec![FileSysteUsage { path: "/empty".to_string(), block_size: 0, block_free: 0 }];
    let line = status_line(&options, &sample(4 * GIB, 0, 0), &Vec::new(), &fss);
    assert!(line.contains("%{F#fff}%{B#700}  /empty = 0% free  %{F-}%{B-}"));
}

#[test]
fn disk_percent_rounds_to_nearest() {
    let options = AppOptions::default();
    let fss = vec![
        FileSysteUsage { path: "/a".to_string(), block_size: 1000, block_free: 126 },
        FileSysteUsage { path: "/b".to_string(), block_size: 3, block_free: 2 },
    ];
    let line = status_line(&options, &sample(4 * GIB, 0, 0), &Vec::new(), &fss);
    assert!(line.ends_with("       /a = 13% free       |       /b = 67% free       |        "));
}

#[test]
fn mount_order_is_kept() {
    let paths = vec!["/c".to_string(), "/a".to_string(), "/x".to_string(), "/b".to_string()];
    let fss = get_info(&paths, &vec![Some((10, 1)), Some((20, 2)), None, Some((30, 3))]);
    let got: Vec<(&str, u64, u64)> =
        fss.iter().map(|f| (f.path.as_str(), f.block_size, f.block_free)).collect();
    assert_eq!(got, vec![("/c", 10, 1), ("/a", 20, 2), ("/b", 30, 3)]);
}

#[test]
fn screen_and_alignment_header() {
    let mut options = AppOptions::default();
    options.screen = Some(12);
    options.align = Align::Center;
    let mut line = Line::from_options(&options);
    line.reset();
    assert_eq!(line.buffer_line, "%{S12}%{c}     |     ");
    assert_eq!(line.text(), "%{S12}%{c}     |        ");
}

#[test]
fn alert_color_wins_over_warn() {
    let options = AppOptions::default();
    let mut a = Line::from_options(&options);
    a.append("x", true, true);
    let mut b = Line::from_options(&options);
    b.append("x", false, true);
    assert_eq!(a.buffer_line, b.buffer_line);
    assert_eq!(a.buffer_line, "%{F#fff}%{B#700}  x  %{F-}%{B-}     |     ");
}

#[test]
fn plain_segment_has_no_color() {
    let options = AppOptions::default();
    let mut line = Line::from_options(&options);
    line.append("plain", false, false);
    assert_eq!(line.buffer_line, "  plain       |     ");
    assert!(!line.buffer_line.contains("%{F"));
    assert!(!line.buffer_line.contains("%{B"));
}

#[test]
fn reset_only_when_colored() {
    let options = AppOptions::default();
    for (warn, alert) in [(false, false), (true, false), (false, true), (true, true)] {
        let mut line = Line::from_options(&options);
        line.append("seg", warn, alert);
        assert_eq!(line.buffer_line.contains("%{F-}%{B-}"), warn || alert);
    }
}

#[test]
fn line_colors_are_parsed_once() {
    let mut options = AppOptions::default();
    options.color_warn = "#123".to_string();
    options.color_alert = "/#456".to_string();
    let line = Line::from_options(&options);
    assert_eq!(line.code_warn, parse_color("#123"));
    assert_eq!(line.code_alert, "%{B#456}");
}

#[test]
fn halves_round_to_even() {
    let options = AppOptions::default();
    let info = sample(4 * GIB, 8192, 24576);
    let line = status_line(&options, &info, &temps(&[50500]), &Vec::new());
    assert!(line.contains("  LoadAvg: 0.12, 0.38  "));
    assert!(line.contains("  Core Temp.: 50 ºC  "));
    let line = status_line(&options, &info, &temps(&[51500]), &Vec::new());
    assert!(line.contains("  Core Temp.: 52 ºC  "));
    let fss = vec![FileSysteUsage { path: "/h".to_string(), block_size: 200, block_free: 25 }];
    let line = status_line(&options, &info, &Vec::new(), &fss);
    assert!(line.contains("  /h = 12% free  "));
}

#[test]
fn thresholds_in_thousandths() {
    let mut options = AppOptions::default();
    options.memory_free_warn_threshold = 100_500;
    options.memory_free_alert_threshold = 0;
    let info = sample(100 * MIB, 0, 0);
    let line = status_line(&options, &info, &Vec::new(), &Vec::new());
    assert!(line.contains("%{F#000}%{B#fa7}  RAM Free: 100 M  %{F-}%{B-}"));
    options.memory_free_warn_threshold = 100_000;
    let line = status_line(&options, &info, &Vec::new(), &Vec::new());
    assert!(line.contains("       RAM Free: 100 M       |     "));
}

#[test]
fn negative_temperatures() {
    let options = AppOptions::default();
    let info = sample(4 * GIB, 0, 0);
    let line = status_line(&options, &info, &temps(&[-5000, -7600]), &Vec::new());
    assert!(line.contains("       Core Temp.: -5 ºC       |     "));
    assert_eq!(hottest(&temps(&[-5000, -7600])), -5000);
    let line = status_line(&options, &info, &temps(&[-400]), &Vec::new());
    assert!(line.contains("  Core Temp.: -0 ºC  "));
}

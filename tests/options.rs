use info_bar_x11::color::parse_color;
use info_bar_x11::options::{str_eq_ignore_ascii_case, Align, AppOptions};

#[test]
fn alignment_codes() {
    assert_eq!(Align::Left.code(), "l");
    assert_eq!(Align::Center.code(), "c");
    assert_eq!(Align::Right.code(), "r");
}

#[test]
fn alignment_names_ignore_case() {
    assert_eq!("left".parse::<Align>().ok(), Some(Align::Left));
    assert_eq!("LEFT".parse::<Align>().ok(), Some(Align::Left));
    assert_eq!(Align::parse_name("Center").ok(), Some(Align::Center));
    assert_eq!(Align::parse_name("rIgHt").ok(), Some(Align::Right));
}

#[test]
fn unknown_alignment_is_rejected() {
    let err = Align::parse_name("middle").unwrap_err();
    assert_eq!(err.0, "middle");
    assert_eq!(
        err.message(),
        "Invalid align 'middle'. Should be one of 'left', 'center', or 'right'"
    );
    assert!(Align::parse_name("lef").is_err());
    assert!(Align::parse_name("").is_err());
}

#[test]
fn ascii_case_comparison() {
    assert!(str_eq_ignore_ascii_case("AbC", "aBc"));
    assert!(!str_eq_ignore_ascii_case("abc", "abd"));
    assert!(!str_eq_ignore_ascii_case("ab", "abc"));
    assert!(!str_eq_ignore_ascii_case("[", "{"));
}

#[test]
fn foreground_only_color() {
    assert_eq!(parse_color("#abc"), "%{F#abc}");
}

#[test]
fn background_only_color() {
    assert_eq!(parse_color("/#abc"), "%{B#abc}");
}

#[test]
fn foreground_and_background_color() {
    assert_eq!(parse_color("#fff/#700"), "%{F#fff}%{B#700}");
    assert_eq!(parse_color("#a/#b/#c"), "%{F#a}%{B#b/#c}");
}

#[test]
fn default_options() {
    let o = AppOptions::default();
    assert!(!o.help);
    assert_eq!(o.screen, None);
    assert_eq!(o.align, Align::Right);
    assert_eq!(o.update_interval, 5);
    assert!(o.mountpoints.is_empty());
    assert_eq!(o.disk_usage_warn_threshold, 10_000);
    assert_eq!(o.disk_usage_alert_threshold, 5_000);
    assert_eq!(o.cpu_temp_warn_threshold, 60_000);
    assert_eq!(o.cpu_temp_alert_threshold, 70_000);
    assert_eq!(o.memory_free_warn_threshold, 512_000);
    assert_eq!(o.memory_free_alert_threshold, 128_000);
    assert_eq!(o.loadavg_warn_threshold, 1_000);
    assert_eq!(o.loadavg_alert_threshold, 2_000);
    assert_eq!(o.color_warn, "#000/#fa7");
    assert_eq!(o.color_alert, "#fff/#700");
}

#[test]
fn parsed_name_gives_its_first_letter() {
    for (name, code) in [("LEFT", "l"), ("Center", "c"), ("rIgHt", "r")] {
        assert_eq!(name.parse::<Align>().unwrap().code(), code);
    }
    assert_eq!("r".parse::<Align>().unwrap_err().0, "r");
    assert!(" left".parse::<Align>().is_err());
}

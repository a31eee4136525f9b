use wndsize::cli::parse_args;
use wndsize::cli::usage_text;
use wndsize::cli::validate_args;
use wndsize::decimal::fmt_i32;
use wndsize::decimal::parse_i32;

fn args(list: &[&str]) -> Vec<String> {
    list.iter().map(|s| s.to_string()).collect()
}

#[test]
fn neither_command_yields_the_exact_message() {
    let r = parse_args(&args(&[]));
    assert_eq!(
        r.unwrap_err(),
        "One of the following values are required: --list-windows or --resize-window"
    );
}

#[test]
fn unrelated_flags_alone_still_need_a_command() {
    let r = parse_args(&args(&["-w", "800"]));
    assert_eq!(
        r.unwrap_err(),
        "One of the following values are required: --list-windows or --resize-window"
    );
}

#[test]
fn resize_without_width_yields_the_exact_message() {
    let r = parse_args(&args(&["-r"]));
    assert_eq!(r.unwrap_err(), "These arguments are required: --width, --height, --title.");
}

#[test]
fn resize_with_partial_arguments_yields_the_exact_message() {
    let r = parse_args(&args(&["-r", "-w", "800", "-h", "600"]));
    assert_eq!(r.unwrap_err(), "These arguments are required: --width, --height, --title.");
}

#[test]
fn list_command_parses() {
    let a = parse_args(&args(&["-l"])).unwrap();
    assert!(a.cmd_list_windows);
    assert!(!a.cmd_resize_window);
    assert!(!a.showed_help);
}

#[test]
fn absent_dimensions_and_title_default_to_zero_and_empty() {
    let a = parse_args(&args(&["-l"])).unwrap();
    assert_eq!(a.window_width, 0);
    assert_eq!(a.window_height, 0);
    assert_eq!(a.window_title, "");
}

#[test]
fn long_flags_parse_too() {
    let a = parse_args(&args(&["--list-windows"])).unwrap();
    assert!(a.cmd_list_windows);
}

#[test]
fn resize_command_parses_all_arguments() {
    let a = parse_args(&args(&["-r", "-w", "800", "-h", "600", "-t", "NoSuchWindowXYZ"])).unwrap();
    assert!(a.cmd_resize_window);
    assert!(!a.cmd_list_windows);
    assert_eq!(a.window_width, 800);
    assert_eq!(a.window_height, 600);
    assert_eq!(a.window_title, "NoSuchWindowXYZ");
}

#[test]
fn help_asks_for_usage_only() {
    let a = parse_args(&args(&["--help"])).unwrap();
    assert!(a.showed_help);
    assert!(!a.cmd_list_windows);
    assert!(!a.cmd_resize_window);
}

#[test]
fn usage_text_carries_the_brief_and_the_options() {
    let u = usage_text();
    assert!(u.contains("Usage: wndsize [options]"));
    assert!(u.contains("--list-windows"));
    assert!(u.contains("--resize-window"));
    assert!(u.contains("--title"));
}

#[test]
fn a_rejected_option_is_reported_not_fatal() {
    let r = parse_args(&args(&["--bogus"]));
    assert!(r.unwrap_err().contains("bogus"));
}

#[test]
fn a_non_numeric_width_is_reported() {
    let r = parse_args(&args(&["-r", "-w", "eight", "-h", "600", "-t", "x"]));
    assert_eq!(r.unwrap_err(), "These arguments must be integers: --width, --height.");
}

#[test]
fn validate_args_accepts_exactly_the_allowed_shapes() {
    assert!(validate_args(true, false, false, false, false, false).is_ok());
    assert!(validate_args(false, true, false, false, false, false).is_ok());
    assert!(validate_args(false, false, true, true, true, true).is_ok());
    assert!(validate_args(false, false, false, true, true, true).is_err());
    assert!(validate_args(false, false, true, true, false, true).is_err());
}

#[test]
fn fmt_i32_exact_values() {
    assert_eq!(fmt_i32(0), "0");
    assert_eq!(fmt_i32(800), "800");
    assert_eq!(fmt_i32(-1), "-1");
    assert_eq!(fmt_i32(i32::MAX), "2147483647");
    assert_eq!(fmt_i32(i32::MIN), "-2147483648");
}

#[test]
fn parse_i32_exact_values() {
    assert_eq!(parse_i32("800"), Some(800));
    assert_eq!(parse_i32("+42"), Some(42));
    assert_eq!(parse_i32("-2147483648"), Some(i32::MIN));
    assert_eq!(parse_i32("2147483647"), Some(i32::MAX));
}

#[test]
fn parse_i32_rejects_what_is_not_a_number() {
    assert_eq!(parse_i32(""), None);
    assert_eq!(parse_i32("-"), None);
    assert_eq!(parse_i32("+"), None);
    assert_eq!(parse_i32("12a"), None);
    assert_eq!(parse_i32("eight"), None);
    assert_eq!(parse_i32("2147483648"), None);
    assert_eq!(parse_i32("-2147483649"), None);
    assert_eq!(parse_i32("99999999999999999999"), None);
}

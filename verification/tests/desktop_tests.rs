use wndsize::commands::not_found_message;
use wndsize::commands::resize_report_lines;
use wndsize::commands::resize_window;
use wndsize::commands::show_windows_list;
use wndsize::desktop::Desktop;
use wndsize::desktop::Window;
use wndsize::desktop::WindowHandle;
use wndsize::wide::encode_wide;

fn window(id: u64, title: &str, x: i32, y: i32, width: i32, height: i32) -> Window {
    Window { handle: WindowHandle { id }, title: encode_wide(title), x, y, width, height }
}

fn sample_desktop() -> Desktop {
    Desktop {
        windows: vec![
            window(1, "Editor", 10, 20, 640, 480),
            window(2, "", 0, 0, 100, 100),
            window(3, "Browser", 30, 40, 800, 600),
        ],
    }
}

#[test]
fn handle_list_in_enumeration_order() {
    let d = sample_desktop();
    let handles = d.get_window_handle_list();
    assert_eq!(handles, vec![
        WindowHandle { id: 1 },
        WindowHandle { id: 2 },
        WindowHandle { id: 3 },
    ]);
}

#[test]
fn get_title_reads_existing_window() {
    let d = sample_desktop();
    let t = d.get_window_title(WindowHandle { id: 3 }).unwrap();
    assert_eq!(t, "Browser");
}

#[test]
fn get_title_of_untitled_window_is_empty() {
    let d = sample_desktop();
    assert_eq!(d.get_window_title(WindowHandle { id: 2 }).unwrap(), "");
}

#[test]
fn get_title_of_stale_handle_is_empty() {
    let d = sample_desktop();
    assert_eq!(d.get_window_title(WindowHandle { id: 99 }).unwrap(), "");
}

#[test]
fn get_title_truncates_at_256_units() {
    let long: String = "a".repeat(300);
    let d = Desktop { windows: vec![window(7, &long, 0, 0, 1, 1)] };
    let t = d.get_window_title(WindowHandle { id: 7 }).unwrap();
    assert_eq!(t.chars().count(), 256);
    assert_eq!(t, "a".repeat(256));
}

#[test]
fn get_title_fails_when_truncation_splits_a_pair() {
    // 255 ordinary units followed by a surrogate pair: the bounded read
    // keeps 256 units and ends on the lone high surrogate.
    let mut title = String::new();
    for _ in 0..255 {
        title.push('a');
    }
    title.push('\u{1D11E}');
    let d = Desktop { windows: vec![window(8, &title, 0, 0, 1, 1)] };
    assert!(d.get_window_title(WindowHandle { id: 8 }).is_err());
}

#[test]
fn get_title_fails_on_malformed_stored_title() {
    let d = Desktop {
        windows: vec![Window {
            handle: WindowHandle { id: 9 },
            title: vec![0x48, 0xD800],
            x: 0,
            y: 0,
            width: 1,
            height: 1,
        }],
    };
    assert!(d.get_window_title(WindowHandle { id: 9 }).is_err());
}

#[test]
fn find_by_title_exact_match() {
    let d = sample_desktop();
    assert_eq!(d.find_window_from_title("Browser"), Some(WindowHandle { id: 3 }));
}

#[test]
fn find_by_title_first_match_wins() {
    let d = Desktop {
        windows: vec![window(4, "Twin", 0, 0, 1, 1), window(5, "Twin", 0, 0, 1, 1)],
    };
    assert_eq!(d.find_window_from_title("Twin"), Some(WindowHandle { id: 4 }));
}

#[test]
fn find_by_title_absent_is_none() {
    let d = sample_desktop();
    assert_eq!(d.find_window_from_title("6a1c23b0-9f1e-4e61-8a5c-000000000000"), None);
}

#[test]
fn find_by_title_is_case_sensitive_in_the_model() {
    let d = sample_desktop();
    assert_eq!(d.find_window_from_title("browser"), None);
}

#[test]
fn resize_changes_size_and_keeps_position() {
    let mut d = sample_desktop();
    d.set_window_size(WindowHandle { id: 1 }, 800, 600);
    assert_eq!(d.windows[0].x, 10);
    assert_eq!(d.windows[0].y, 20);
    assert_eq!(d.windows[0].width, 800);
    assert_eq!(d.windows[0].height, 600);
    assert_eq!(d.windows[0].handle, WindowHandle { id: 1 });
    // the other windows are untouched
    assert_eq!(d.windows[2].width, 800);
    assert_eq!(d.windows[2].height, 600);
    assert_eq!(d.windows[2].x, 30);
    assert_eq!(d.windows[1].width, 100);
}

#[test]
fn resize_with_stale_handle_is_a_no_op() {
    let mut d = sample_desktop();
    d.set_window_size(WindowHandle { id: 42 }, 5, 5);
    assert_eq!(d.windows[0].width, 640);
    assert_eq!(d.windows[1].width, 100);
    assert_eq!(d.windows[2].width, 800);
}

#[test]
fn listing_keeps_nonempty_titles_in_order() {
    let d = sample_desktop();
    let lines = show_windows_list(&d).unwrap();
    assert_eq!(lines, vec!["Editor".to_string(), "Browser".to_string()]);
}

#[test]
fn listing_of_empty_desktop_is_empty() {
    let d = Desktop { windows: vec![] };
    assert_eq!(show_windows_list(&d).unwrap(), Vec::<String>::new());
}

#[test]
fn listing_fails_on_a_malformed_title() {
    let d = Desktop {
        windows: vec![Window {
            handle: WindowHandle { id: 9 },
            title: vec![0xDC00],
            x: 0,
            y: 0,
            width: 1,
            height: 1,
        }],
    };
    assert!(show_windows_list(&d).is_err());
}

#[test]
fn report_lines_exact_text() {
    let lines = resize_report_lines("Editor", -5, 0);
    assert_eq!(lines, vec![
        "window title: Editor".to_string(),
        "width: -5".to_string(),
        "height: 0".to_string(),
    ]);
    assert_eq!(not_found_message(), "Not found window.");
}

#[test]
fn resize_command_reports_and_resizes() {
    let mut d = sample_desktop();
    let lines = resize_window(&mut d, "Editor", 1024, 768);
    assert_eq!(lines, vec![
        "window title: Editor".to_string(),
        "width: 1024".to_string(),
        "height: 768".to_string(),
    ]);
    assert_eq!(d.windows[0].width, 1024);
    assert_eq!(d.windows[0].height, 768);
    assert_eq!(d.windows[0].x, 10);
    assert_eq!(d.windows[0].y, 20);
}

#[test]
fn resize_command_not_found_touches_nothing() {
    let mut d = sample_desktop();
    let lines = resize_window(&mut d, "NoSuchWindowXYZ", 800, 600);
    assert_eq!(lines, vec![
        "window title: NoSuchWindowXYZ".to_string(),
        "width: 800".to_string(),
        "height: 600".to_string(),
        "Not found window.".to_string(),
    ]);
    assert_eq!(d.windows[0].width, 640);
    assert_eq!(d.windows[0].height, 480);
    assert_eq!(d.windows[2].width, 800);
    assert_eq!(d.windows[2].height, 600);
}

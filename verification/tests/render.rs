use rmux::format::FormatContext;
use rmux::layout::{layout_even_horizontal, layout_even_vertical};
use rmux::render::{
    border_segments, build_status_context, clip_size, status_line_text, BorderSegment, StatusConfig, WindowInfo,
};
use rmux::style::{Attrs, Color, Style};

fn win(idx: u32, name: &str, is_active: bool) -> WindowInfo {
    WindowInfo { idx, name: name.to_string(), is_active }
}

fn config(left: &str, right: &str, fmt: &str, current: &str) -> StatusConfig {
    StatusConfig {
        left: left.to_string(),
        right: right.to_string(),
        window_status_format: fmt.to_string(),
        window_status_current_format: current.to_string(),
        status_style: Style {
            fg: Color::black(),
            bg: Color::green(),
            us: Color::Default,
            attrs: Attrs::empty(),
        },
        pane_border_style: Style::default_value(),
        pane_active_border_style: Style { fg: Color::green(), ..Style::default_value() },
    }
}

#[test]
fn build_status_context_sets_vars() {
    let wl = vec![win(3, "vim", true)];
    let ctx = build_status_context("work", "vim", &wl, Some((0, "")), 1, None);
    assert_eq!(ctx.get("session_name"), Some("work"));
    assert_eq!(ctx.get("window_name"), Some("vim"));
    assert_eq!(ctx.get("window_index"), Some("3"));
    assert_eq!(ctx.get("pane_active"), Some("1"));
}

#[test]
fn status_context_pane_and_host_vars() {
    let wl = vec![win(0, "a", false), win(2, "b", true)];
    let ctx = build_status_context("s", "b", &wl, Some((7, "title")), 2, Some("box.example.org"));
    assert_eq!(ctx.get("window_index"), Some("2"));
    assert_eq!(ctx.get("pane_index"), Some("7"));
    assert_eq!(ctx.get("pane_id"), Some("%7"));
    assert_eq!(ctx.get("pane_title"), Some("title"));
    assert_eq!(ctx.get("pane_count"), Some("2"));
    assert_eq!(ctx.get("window_panes"), Some("2"));
    assert_eq!(ctx.get("host_short"), Some("box"));
    assert_eq!(ctx.get("host"), Some("box.example.org"));
}

#[test]
fn status_context_without_active_window_or_pane() {
    let wl = vec![win(0, "a", false)];
    let ctx = build_status_context("s", "a", &wl, None, 0, None);
    assert_eq!(ctx.get("window_index"), None);
    assert_eq!(ctx.get("pane_active"), None);
    assert_eq!(ctx.get("host"), None);
    assert_eq!(ctx.get("pane_count"), Some("0"));
}

#[test]
fn status_line_shows_multiple_windows() {
    let wl = vec![win(0, "bash", true), win(1, "vim", false), win(2, "logs", false)];
    let ctx = FormatContext::new();
    let line = status_line_text("sess", &wl, 1, None, 80, None, &ctx).unwrap();
    assert!(line.contains("0:bash*"));
    assert!(line.contains("1:vim"));
    assert!(line.contains("2:logs"));
    assert!(line.starts_with("[sess] 0:bash* 1:vim 2:logs"));
    assert_eq!(line.len(), 80);
}

#[test]
fn status_line_exact_padding() {
    let wl = vec![win(0, "bash", true)];
    let ctx = FormatContext::new();
    let line = status_line_text("s", &wl, 1, None, 12, None, &ctx).unwrap();
    assert_eq!(line, "[s] 0:bash* ");
}

#[test]
fn status_line_wider_than_width_has_no_padding() {
    let wl = vec![win(0, "bash", true)];
    let ctx = FormatContext::new();
    let line = status_line_text("s", &wl, 1, None, 3, None, &ctx).unwrap();
    assert_eq!(line, "[s] 0:bash*");
}

#[test]
fn status_line_shows_pane_count() {
    let wl = vec![win(0, "cnt", true)];
    let ctx = FormatContext::new();
    let line = status_line_text("sess", &wl, 2, None, 0, None, &ctx).unwrap();
    assert_eq!(line, "[sess] 0:cnt* (2 panes)");
}

#[test]
fn status_line_shows_copy_mode() {
    let wl = vec![win(0, "cp", true)];
    let ctx = FormatContext::new();
    let line = status_line_text("sess", &wl, 1, Some((0, 5)), 0, None, &ctx).unwrap();
    assert_eq!(line, "[sess] 0:cp* [Copy mode - 0/5]");
}

#[test]
fn status_line_with_format_expansion() {
    let wl = vec![win(0, "bash", true)];
    let cfg = config("[#{session_name}] ", "RIGHT", "#I:#W#F", "#I:#W#F");
    let ctx = build_status_context("dev", "bash", &wl, Some((0, "")), 1, None);
    let line = status_line_text("dev", &wl, 1, None, 80, Some(&cfg), &ctx).unwrap();
    assert!(line.contains("[dev]"));
    assert!(line.ends_with("RIGHT"));
    assert_eq!(line.len(), 80);
}

#[test]
fn custom_window_status_format() {
    let wl = vec![win(0, "bash", true), win(1, "vim", false)];
    let cfg = config("[#S] ", "", "[#I]#W", "[#I]#W*");
    let ctx = build_status_context("s", "bash", &wl, None, 1, None);
    let line = status_line_text("s", &wl, 1, None, 0, Some(&cfg), &ctx).unwrap();
    assert_eq!(line, "[s] [0]bash* [1]vim");
}

#[test]
fn borders_of_side_by_side_panes() {
    let layout = layout_even_horizontal(80, 24, &[0, 1]);
    let b = border_segments(&layout, 0, 24);
    assert_eq!(b, vec![BorderSegment { x: 40, y: 0, len: 24, vertical: true, active: true }]);
    let b = border_segments(&layout, 7, 10);
    assert_eq!(b, vec![BorderSegment { x: 40, y: 0, len: 10, vertical: true, active: false }]);
}

#[test]
fn borders_of_stacked_panes_cut_at_height() {
    let layout = layout_even_vertical(80, 24, &[0, 1]);
    assert_eq!(
        border_segments(&layout, 1, 24),
        vec![BorderSegment { x: 0, y: 12, len: 80, vertical: false, active: true }]
    );
    assert!(border_segments(&layout, 1, 12).is_empty());
}

#[test]
fn clip_size_cuts_at_edge() {
    assert_eq!(clip_size(40, 80, 50), 30);
    assert_eq!(clip_size(20, 80, 50), 20);
    assert_eq!(clip_size(20, 10, 50), 0);
}

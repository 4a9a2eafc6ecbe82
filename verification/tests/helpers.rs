use alttabway::config_worker::ColorConfig;
use alttabway::config_worker::Config;
use alttabway::config_worker::ItemConfig;
use alttabway::config_worker::WindowConfig;
use alttabway::geometry_worker::CorrelationTracker;
use alttabway::gui_state::GuiState;
use alttabway::icon_helper::IconHelper;
use alttabway::image_resizer::ImageResizer;

#[test]
fn hex_colors_parse_in_all_four_widths() {
    let c = ColorConfig::from_hex("#1af").unwrap();
    assert_eq!((c.r, c.g, c.b, c.a), (0x11, 0xaa, 0xff, 0xff));
    let c = ColorConfig::from_hex("#1af8").unwrap();
    assert_eq!((c.r, c.g, c.b, c.a), (0x11, 0xaa, 0xff, 0x88));
    let c = ColorConfig::from_hex("#191919").unwrap();
    assert_eq!((c.r, c.g, c.b, c.a), (0x19, 0x19, 0x19, 0xff));
    let c = ColorConfig::from_hex("#191919ee").unwrap();
    assert_eq!((c.r, c.g, c.b, c.a), (0x19, 0x19, 0x19, 0xee));
    let c = ColorConfig::from_hex("#AbCdEf").unwrap();
    assert_eq!((c.r, c.g, c.b), (0xab, 0xcd, 0xef));
}

#[test]
fn bad_hex_colors_are_rejected() {
    assert_eq!(ColorConfig::from_hex(""), None);
    assert_eq!(ColorConfig::from_hex("191919"), None);
    assert_eq!(ColorConfig::from_hex("#19191"), None);
    assert_eq!(ColorConfig::from_hex("#19191g"), None);
    assert_eq!(ColorConfig::from_hex("#"), None);
}

#[test]
fn config_clamps_into_layout_range() {
    let mut g = GuiState::default();
    let mut cfg = Config::default();
    cfg.window.padding = 1_000_000;
    cfg.window.gap = [4, 1_000_000];
    cfg.item.padding = 3;
    g.update_from_config(&cfg);
    let p = g.get_params();
    // padding stays within half the window width
    assert_eq!(p.window_padding, 400);
    assert_eq!(p.items_horizontal_gap, 4);
    assert_eq!(p.items_vertical_gap, 16384);
    assert_eq!(p.item_padding, 3);
}

#[test]
fn config_defaults_match_the_shipped_file() {
    let w = WindowConfig::default();
    assert_eq!(w.padding, 10);
    assert_eq!(w.gap, [10, 10]);
    let i = ItemConfig::default();
    assert_eq!((i.padding, i.border_width, i.icon_size), (7, 2, 18));
    assert_eq!(i.gap, [7, 5]);
}

#[test]
fn correlation_only_honors_the_latest_id() {
    let mut t = CorrelationTracker::new();
    let a = t.issue(7);
    let b = t.issue(8);
    assert!(a < b);
    assert!(!t.accept(a));
    assert!(t.accept(b));
    assert_eq!(t.resolve(a), None);
    assert_eq!(t.resolve(b), Some(8));
    // resolved means retired: the same id is not honored twice
    assert_eq!(t.resolve(b), None);
}

#[test]
fn icon_lookup_without_directories_finds_nothing() {
    assert_eq!(IconHelper::find_icon_file(&vec![], "missing.png"), None);
    let dirs = vec!["/nonexistent-for-sure-d41d8cd9".to_string()];
    assert_eq!(IconHelper::find_icon_file(&dirs, "missing.png"), None);
}

#[test]
fn icon_value_blank_resolves_to_nothing() {
    let dirs = vec!["/nonexistent-for-sure-d41d8cd9".to_string()];
    assert_eq!(IconHelper::resolve_icon_path(&dirs, "   "), None);
    assert_eq!(IconHelper::resolve_icon_path(&dirs, ""), None);
    // a bare name is searched with .png appended; nothing exists there
    assert_eq!(IconHelper::resolve_icon_path(&dirs, "editor"), None);
}

#[test]
fn channel_swap_exchanges_blue_and_red() {
    let mut px = vec![1u8, 2, 3, 4, 5, 6, 7, 8];
    ImageResizer::swap_channels(&mut px);
    assert_eq!(px, vec![3, 2, 1, 4, 7, 6, 5, 8]);
}

#[test]
fn channel_swap_leaves_trailing_bytes() {
    let mut px = vec![1u8, 2, 3, 4, 5, 6];
    ImageResizer::swap_channels(&mut px);
    assert_eq!(px, vec![3, 2, 1, 4, 5, 6]);
}

#[test]
fn resize_scales_to_destination() {
    // a 2x2 BGRA image of one solid color
    let px = vec![
        10u8, 20, 30, 255,
        10, 20, 30, 255,
        10, 20, 30, 255,
        10, 20, 30, 255,
    ];
    let out = ImageResizer::resize_bgra_pixels((px, 2), (1, 1)).unwrap();
    // one RGBA pixel of the same color, channels swapped back
    assert_eq!(out, vec![30, 20, 10, 255]);
}

#[test]
fn resize_rejects_empty_dimensions() {
    assert_eq!(ImageResizer::resize_bgra_pixels((vec![], 0), (1, 1)), None);
    assert_eq!(ImageResizer::resize_bgra_pixels((vec![0; 16], 2), (0, 1)), None);
    assert_eq!(ImageResizer::resize_bgra_pixels((vec![0; 2], 2), (1, 1)), None);
}

#[test]
fn geometry_reply_parses_position_and_size() {
    let reply = br#"{"address":"0xab","at":[10,20],"size":[640,480],"title":"t"}"#.to_vec();
    let g = alttabway::geometry_ipc::parse_active_window_reply(&reply);
    assert_eq!(g, Some((10, 20, 640, 480)));
}

#[test]
fn geometry_reply_takes_spaces_and_negatives() {
    let reply = b"{ \"at\": [ -5 , 20 ] , \"size\": [ 1 , 2 ] }".to_vec();
    let g = alttabway::geometry_ipc::parse_active_window_reply(&reply);
    assert_eq!(g, Some((-5, 20, 1, 2)));
}

#[test]
fn geometry_reply_malformed_yields_nothing() {
    let parse = alttabway::geometry_ipc::parse_active_window_reply;
    assert_eq!(parse(&b"{}".to_vec()), None);
    assert_eq!(parse(&b"{\"at\":[1,2]}".to_vec()), None);
    assert_eq!(parse(&b"{\"at\":[1,],\"size\":[3,4]}".to_vec()), None);
    assert_eq!(parse(&b"{\"at\":[1,2],\"size\":[3,4444444444]}".to_vec()), None);
    assert_eq!(parse(&Vec::new()), None);
}

#[test]
fn exec_line_matches_its_application() {
    let matches = IconHelper::exec_matches_app_id;
    assert!(matches("editor --flag %U", "editor"));
    assert!(matches("  /usr/bin/editor --flag", "editor"));
    assert!(matches("\"/opt/apps/editor.bin\" %F", "editor"));
    assert!(matches("editor.sh", "editor"));
    assert!(!matches("vieweditor", "editor"));
    assert!(!matches("", "editor"));
    assert!(!matches("   ", "editor"));
    assert!(!matches("/usr/bin/", "editor"));
}

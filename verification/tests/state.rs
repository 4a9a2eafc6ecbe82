use alttabway::gui_state::GuiState;
use alttabway::gui_state::Rect;
use alttabway::timer::Timer;

#[test]
fn items_keep_most_recently_used_order() {
    let mut g = GuiState::default();
    g.add_item(1);
    g.add_item(2);
    g.add_item(3);
    g.signal_item_activation(3);
    let ids: Vec<u32> = g.items.iter().map(|it| it.id).collect();
    assert_eq!(ids, vec![3, 1, 2]);
    g.signal_item_activation(1);
    let ids: Vec<u32> = g.items.iter().map(|it| it.id).collect();
    assert_eq!(ids, vec![1, 3, 2]);
    // activating an untracked id changes nothing
    g.signal_item_activation(9);
    let ids: Vec<u32> = g.items.iter().map(|it| it.id).collect();
    assert_eq!(ids, vec![1, 3, 2]);
}

#[test]
fn removal_keeps_the_rest_in_order() {
    let mut g = GuiState::default();
    g.add_item(1);
    g.add_item(2);
    g.add_item(3);
    g.remove_item(2);
    let ids: Vec<u32> = g.items.iter().map(|it| it.id).collect();
    assert_eq!(ids, vec![1, 3]);
    g.remove_item(9);
    assert_eq!(g.items.len(), 2);
}

#[test]
fn titles_update_the_right_item() {
    let mut g = GuiState::default();
    g.add_item(1);
    g.add_item(2);
    g.update_item_title(2, "editor".to_string());
    g.update_item_app_id(2, "dev.editor".to_string());
    assert_eq!(g.items[0].get_title(), "Untitled Window");
    assert_eq!(g.items[1].get_title(), "editor | Dev.editor");
    assert_eq!(g.items[1].get_app_id(), "dev.editor");
}

#[test]
fn title_uppercases_only_the_first_letter() {
    let mut g = GuiState::default();
    g.add_item(1);
    g.add_item(2);
    g.update_item_title(1, "t".to_string());
    g.update_item_app_id(1, "Already Upper".to_string());
    g.update_item_title(2, "t".to_string());
    g.update_item_app_id(2, "1password".to_string());
    // an uppercase or non-letter first character stays as it is
    assert_eq!(g.items[0].get_title(), "t | Already Upper");
    assert_eq!(g.items[1].get_title(), "t | 1password");
}

#[test]
fn title_without_app_id_stands_alone() {
    let mut g = GuiState::default();
    g.add_item(1);
    g.update_item_title(1, "plain".to_string());
    assert_eq!(g.items[0].get_title(), "plain");
}

#[test]
fn selection_starts_on_the_second_item_and_wraps() {
    let mut g = GuiState::default();
    g.add_item(10);
    g.add_item(20);
    g.add_item(30);
    g.reset_selected_item();
    assert_eq!(g.get_selected_item_id(), Some(20));
    g.select_next_item();
    assert_eq!(g.get_selected_item_id(), Some(30));
    g.select_next_item();
    assert_eq!(g.get_selected_item_id(), Some(10));
    g.select_previous_item();
    assert_eq!(g.get_selected_item_id(), Some(30));
}

#[test]
fn selection_on_empty_list_yields_nothing() {
    let mut g = GuiState::default();
    g.reset_selected_item();
    assert_eq!(g.get_selected_item_id(), None);
    g.select_next_item();
    g.select_previous_item();
    assert_eq!(g.get_selected_item_id(), None);
}

#[test]
fn hover_only_repaints_on_change() {
    let mut g = GuiState::default();
    g.mark_repainted();
    g.set_hovered_item(None);
    assert!(!g.needs_repaint());
    g.set_hovered_item(Some(2));
    assert!(g.needs_repaint());
}

#[test]
fn preview_size_keeps_aspect_within_band() {
    let g = GuiState::default();
    // defaults: height 100, width clamped into 100..=200
    assert_eq!(g.calculate_preview_size((400, 200)), (200, 100));
    assert_eq!(g.calculate_preview_size((300, 200)), (150, 100));
    assert_eq!(g.calculate_preview_size((100, 200)), (100, 100));
    assert_eq!(g.calculate_preview_size((1000, 100)), (200, 100));
}

#[test]
fn empty_layout_reports_minimum_window() {
    let mut g = GuiState::default();
    let r = g.calculate_layout();
    assert_eq!((r.window_width, r.window_height), (0, 0));
    assert!(g.layout_computed.item_rects.is_empty());
}

#[test]
fn single_row_layout_positions_items() {
    let mut g = GuiState::default();
    g.add_item(1);
    g.add_item(2);
    let r = g.calculate_layout();
    // each item: preview_min_width 100 wide; item height = title 25 + preview 100
    assert_eq!(r.window_width, 200);
    assert_eq!(r.window_height, 125);
    assert_eq!(
        g.layout_computed.item_rects,
        vec![
            Rect { x0: 0, y0: 0, x1: 100, y1: 125 },
            Rect { x0: 100, y0: 0, x1: 200, y1: 125 },
        ]
    );
}

#[test]
fn overflowing_row_wraps_and_centers() {
    let mut g = GuiState::default();
    for id in 0..9 {
        g.add_item(id);
    }
    let r = g.calculate_layout();
    // 9 items of width 100 into 800: 8 in the first row, 1 in the second
    assert_eq!(r.window_width, 800);
    assert_eq!(r.window_height, 250);
    assert_eq!(g.layout_computed.item_rects.len(), 9);
    let last = g.layout_computed.item_rects[8];
    // the lone second-row item is centered under the longest row
    assert_eq!(last, Rect { x0: 350, y0: 125, x1: 450, y1: 250 });
}

#[test]
fn timer_ping_only_shortens_the_wait() {
    let mut t = Timer::new(500);
    t.ping_after(200);
    assert_eq!(t.remaining_ms, 200);
    // a longer ping never delays the next fire
    t.ping_after(400);
    assert_eq!(t.remaining_ms, 200);
    assert!(!t.advance(199));
    assert_eq!(t.remaining_ms, 1);
    assert!(t.advance(1));
    // a fire restores the full period
    assert_eq!(t.remaining_ms, 500);
}

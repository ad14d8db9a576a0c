//! Editor selections, presets, themes and the UI overlay layout.

use sssssssssampler::color_system::{srgb_hex_channels, theme_colors, THEME_CHART, THEME_COUNT, THEME_HEX};
use sssssssssampler::editor_state::{
    feel_index, machine_preset, EditorEvent, EditorSelection, Feel, MachinePreset, DEFAULT_PRESET, DEFAULT_THEME,
    PRESET_COUNT,
};
use sssssssssampler::ui_layout::{
    click_cell, theme_dropdown_cell, theme_item_hovered, ClickAction, DropdownKind, UiRow, ROW_BITS, ROW_MACHINE,
    ROW_MORE, ROW_SR, ROW_THEME, UI_COL,
};

#[test]
fn selection_defaults() {
    let s = EditorSelection::new();
    assert_eq!(s.theme_id, DEFAULT_THEME);
    assert!(s.dark_mode);
    assert_eq!(s.preset_idx, DEFAULT_PRESET);
    assert_eq!(s.feel, Feel::Expressive);
    assert!(!s.ui_expanded);
    assert_eq!(s.frame_update_counter, 0);
}

#[test]
fn counter_ticks_on_every_event() {
    let mut s = EditorSelection::new();
    let a = s.handle(EditorEvent::Tick);
    assert_eq!(s.frame_update_counter, 1);
    assert!(!a.broadcast_tick);
    let b = s.handle(EditorEvent::Tick);
    assert_eq!(s.frame_update_counter, 2);
    assert!(b.broadcast_tick);
    assert!(!b.render_frame);
    let c = s.handle(EditorEvent::UpdateFrameBuffer);
    assert!(c.render_frame);
    s.frame_update_counter = usize::MAX;
    let d = s.handle(EditorEvent::Tick);
    assert_eq!(s.frame_update_counter, 0);
    assert!(d.broadcast_tick);
}

#[test]
fn theme_cycle_returns_after_all_themes() {
    let mut s = EditorSelection::new();
    let start = s.theme_id;
    for k in 1..=THEME_COUNT {
        s.handle(EditorEvent::CycleTheme);
        assert_eq!(s.theme_id, (start + k) % THEME_COUNT);
    }
    assert_eq!(s.theme_id, start);
}

#[test]
fn toggles_undo_themselves() {
    let mut s = EditorSelection::new();
    s.handle(EditorEvent::ToggleMode);
    assert!(!s.dark_mode);
    s.handle(EditorEvent::ToggleMode);
    assert!(s.dark_mode);
    let a = s.handle(EditorEvent::ToggleUiExpand);
    assert!(a.publish_ui_expanded);
    assert!(s.ui_expanded);
    s.handle(EditorEvent::ToggleUiExpand);
    assert!(!s.ui_expanded);
}

#[test]
fn feel_cycles_with_period_three() {
    let mut s = EditorSelection::new();
    s.handle(EditorEvent::CycleFeel);
    assert_eq!(s.feel, Feel::Chaotic);
    assert_eq!(feel_index(s.feel), 2);
    s.handle(EditorEvent::CycleFeel);
    assert_eq!(s.feel, Feel::Tight);
    assert_eq!(feel_index(s.feel), 0);
    s.handle(EditorEvent::CycleFeel);
    assert_eq!(s.feel, Feel::Expressive);
}

#[test]
fn preset_steps_stop_at_the_ends() {
    let mut s = EditorSelection::new();
    let a = s.handle(EditorEvent::NextPreset);
    assert_eq!(s.preset_idx, 3);
    assert_eq!(a.apply_preset, Some(machine_preset(3)));
    let b = s.handle(EditorEvent::PrevPreset);
    assert_eq!(s.preset_idx, 2);
    assert_eq!(b.apply_preset, Some(machine_preset(2)));
    s.handle(EditorEvent::SelectPreset(PRESET_COUNT - 1));
    let c = s.handle(EditorEvent::NextPreset);
    assert_eq!(s.preset_idx, PRESET_COUNT - 1);
    assert_eq!(c.apply_preset, None);
    s.handle(EditorEvent::SelectPreset(0));
    let d = s.handle(EditorEvent::PrevPreset);
    assert_eq!(s.preset_idx, 0);
    assert_eq!(d.apply_preset, None);
}

#[test]
fn out_of_range_selections_are_ignored() {
    let mut s = EditorSelection::new();
    let a = s.handle(EditorEvent::SelectPreset(PRESET_COUNT));
    assert_eq!(s.preset_idx, DEFAULT_PRESET);
    assert_eq!(a.apply_preset, None);
    s.handle(EditorEvent::SelectTheme(THEME_COUNT));
    assert_eq!(s.theme_id, DEFAULT_THEME);
    s.handle(EditorEvent::SelectTheme(0));
    assert_eq!(s.theme_id, 0);
}

#[test]
fn machine_presets_table() {
    assert_eq!(machine_preset(0), MachinePreset { sr_hz: 26_040, bits: 12, jitter_milli: 10, poles: 2 });
    assert_eq!(machine_preset(2), MachinePreset { sr_hz: 48_000, bits: 12, jitter_milli: 10, poles: 6 });
    assert_eq!(machine_preset(3).bits, 8);
    assert_eq!(machine_preset(5).jitter_milli, 0);
    assert_eq!(machine_preset(6).sr_hz, 44_100);
}

#[test]
fn theme_colors_read_the_tables() {
    let c = theme_colors(0, true);
    assert_eq!(c.background, 0x2D1028);
    assert_eq!(c.primary, 0xFF88EB);
    let l = theme_colors(0, false);
    assert_eq!(l.background, THEME_HEX[6]);
    assert_eq!(l.chart[0].l_milli, THEME_CHART[12]);
    let f = theme_colors(THEME_COUNT + 5, false);
    let d = theme_colors(3, true);
    assert_eq!(f.background, d.background);
    assert_eq!(f.border, d.border);
    assert_eq!(f.chart[3].hue_deg, d.chart[3].hue_deg);
}

#[test]
fn hex_channels_split() {
    assert_eq!(srgb_hex_channels(0x2D1028), (0x2D, 0x10, 0x28));
    assert_eq!(srgb_hex_channels(0xFF00FF80), (0x00, 0xFF, 0x80));
}

#[test]
fn rows_of_the_overlay() {
    assert_eq!(UiRow::from_grid_row(ROW_SR, 5, false, false), Some(UiRow::SampleRate));
    assert_eq!(UiRow::from_grid_row(ROW_MORE, 5, false, false), None);
    assert_eq!(UiRow::from_grid_row(ROW_MORE, 5, true, false), Some(UiRow::MoreToggle));
    assert_eq!(UiRow::from_grid_row(ROW_BITS, 5, true, false), None);
    assert_eq!(UiRow::from_grid_row(ROW_BITS, 5, true, true), Some(UiRow::BitDepth));
    assert!(UiRow::Mix.is_draggable());
    assert!(!UiRow::Mode.is_draggable());
    assert_eq!(UiRow::BitDepth.drag_grid_row(), ROW_BITS);
    assert_eq!(UiRow::Feel.drag_grid_row(), usize::MAX);
}

#[test]
fn clicks_on_the_overlay() {
    let o = click_cell(UI_COL, ROW_SR, None, true, false);
    assert_eq!(o.action, ClickAction::StartDrag(UiRow::SampleRate));
    let o = click_cell(0, ROW_SR, None, true, false);
    assert_eq!(o.action, ClickAction::Nothing);
    let o = click_cell(UI_COL, ROW_MACHINE, None, true, false);
    assert_eq!(o.dropdown, Some(DropdownKind::Machine));
    let o = click_cell(UI_COL, ROW_MACHINE + 1 + 4, Some(DropdownKind::Machine), true, false);
    assert_eq!(o.action, ClickAction::SelectPreset(4));
    assert_eq!(o.dropdown, None);
    let o = click_cell(UI_COL, ROW_MORE, None, true, false);
    assert!(o.more_expanded);
    let (dc, dr) = theme_dropdown_cell(9);
    assert_eq!((dc, dr), (12, ROW_THEME + 1 + 2));
    let o = click_cell(UI_COL + dc, dr, Some(DropdownKind::Theme), true, true);
    assert_eq!(o.action, ClickAction::SelectTheme(9));
    assert!(theme_item_hovered(9, Some(dr), Some(UI_COL + dc)));
    assert!(!theme_item_hovered(2, Some(dr), Some(UI_COL + dc)));
    assert!(!theme_item_hovered(9, None, Some(UI_COL + dc)));
}

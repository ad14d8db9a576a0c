use vstd::prelude::*;
use crate::color_system::THEME_COUNT;
use crate::editor_state::PRESET_COUNT;

verus! {

/// Columns of the display grid.
pub const GRID_COLS: usize = 54;
/// Rows of the display grid.
pub const GRID_ROWS: usize = 42;
/// First grid column of the UI text.
pub const UI_COL: usize = 3;
/// Width in columns of the clickable UI area.
pub const UI_WIDTH: usize = 20;

pub const ROW_SR: usize = 3;
pub const ROW_FILTER: usize = 4;
pub const ROW_AA: usize = 5;
pub const ROW_MACHINE: usize = 6;
pub const ROW_SEPARATOR: usize = 7;
pub const ROW_MORE: usize = 8;
pub const ROW_SOUND_HDR: usize = 9;
pub const ROW_BITS: usize = 10;
pub const ROW_JITTER: usize = 11;
pub const ROW_MIX: usize = 12;
pub const ROW_VISUAL_HDR: usize = 14;
pub const ROW_THEME: usize = 15;
pub const ROW_MODE: usize = 16;
pub const ROW_FEEL: usize = 17;

/// Number of rows per column of the theme dropdown.
pub const THEME_ROWS: usize = 7;
/// Column offset of the second column of the theme dropdown.
pub const THEME_COL2: usize = 12;
/// Width in columns of the machine dropdown's clickable area.
pub const MACHINE_DROPDOWN_WIDTH: usize = 14;

/// The interactive rows of the UI overlay.
#[derive(Clone, Copy, Debug, PartialEq, Eq, Structural)]
pub enum UiRow {
    SampleRate,
    Filter,
    AntiAlias,
    MachineSelect,
    MoreToggle,
    BitDepth,
    Jitter,
    Mix,
    ThemeSelect,
    Mode,
    Feel,
}

/// The open dropdown list.
#[derive(Clone, Copy, Debug, PartialEq, Eq, Structural)]
pub enum DropdownKind {
    Machine,
    Theme,
}

/// The interactive row at a grid row: the sample-rate, filter, anti-alias and machine
/// rows always; the "more" toggle while the menu is visible; the sound and visual
/// settings while the menu is visible and expanded.
pub open spec fn ui_row_at(grid_row: int, menu_vis: bool, more_open: bool) -> Option<UiRow> {
    if grid_row == ROW_SR {
        Some(UiRow::SampleRate)
    } else if grid_row == ROW_FILTER {
        Some(UiRow::Filter)
    } else if grid_row == ROW_AA {
        Some(UiRow::AntiAlias)
    } else if grid_row == ROW_MACHINE {
        Some(UiRow::MachineSelect)
    } else if grid_row == ROW_MORE && menu_vis {
        Some(UiRow::MoreToggle)
    } else if !(menu_vis && more_open) {
        None
    } else if grid_row == ROW_BITS {
        Some(UiRow::BitDepth)
    } else if grid_row == ROW_JITTER {
        Some(UiRow::Jitter)
    } else if grid_row == ROW_MIX {
        Some(UiRow::Mix)
    } else if grid_row == ROW_THEME {
        Some(UiRow::ThemeSelect)
    } else if grid_row == ROW_MODE {
        Some(UiRow::Mode)
    } else if grid_row == ROW_FEEL {
        Some(UiRow::Feel)
    } else {
        None
    }
}

/// Rows whose value is changed by dragging.
pub open spec fn draggable(row: UiRow) -> bool {
    row is SampleRate || row is Filter || row is BitDepth || row is Jitter || row is Mix
}

impl UiRow {
    /// The interactive row at a grid row (see [`ui_row_at`]).
    pub fn from_grid_row(grid_row: usize, _col: usize, menu_vis: bool, more_open: bool) -> (r: Option<Self>)
        ensures
            r == ui_row_at(grid_row as int, menu_vis, more_open),
    {
        if grid_row == ROW_SR {
            Some(UiRow::SampleRate)
        } else if grid_row == ROW_FILTER {
            Some(UiRow::Filter)
        } else if grid_row == ROW_AA {
            Some(UiRow::AntiAlias)
        } else if grid_row == ROW_MACHINE {
            Some(UiRow::MachineSelect)
        } else if grid_row == ROW_MORE && menu_vis {
            Some(UiRow::MoreToggle)
        } else if !(menu_vis && more_open) {
            None
        } else if grid_row == ROW_BITS {
            Some(UiRow::BitDepth)
        } else if grid_row == ROW_JITTER {
            Some(UiRow::Jitter)
        } else if grid_row == ROW_MIX {
            Some(UiRow::Mix)
        } else if grid_row == ROW_THEME {
            Some(UiRow::ThemeSelect)
        } else if grid_row == ROW_MODE {
            Some(UiRow::Mode)
        } else if grid_row == ROW_FEEL {
            Some(UiRow::Feel)
        } else {
            None
        }
    }

    /// Whether the row's value is changed by dragging.
    pub fn is_draggable(self) -> (r: bool)
        ensures
            r == draggable(self),
    {
        match self {
            UiRow::SampleRate | UiRow::Filter | UiRow::BitDepth | UiRow::Jitter | UiRow::Mix => true,
            _ => false,
        }
    }

    /// Grid row highlighted while this row is dragged (`usize::MAX` for rows that are
    /// not dragged).
    pub fn drag_grid_row(self) -> (r: usize)
        ensures
            draggable(self) ==> ui_row_at(r as int, true, true) == Some(self),
            !draggable(self) ==> r == usize::MAX,
    {
        match self {
            UiRow::SampleRate => ROW_SR,
            UiRow::Filter => ROW_FILTER,
            UiRow::BitDepth => ROW_BITS,
            UiRow::Jitter => ROW_JITTER,
            UiRow::Mix => ROW_MIX,
            _ => usize::MAX,
        }
    }
}

/// First grid row of the machine dropdown list.
pub open spec fn machine_list_row() -> int {
    ROW_MACHINE + 1
}

/// First grid row of the theme dropdown list.
pub open spec fn theme_list_row() -> int {
    ROW_THEME + 1
}

/// Column offset (from [`UI_COL`]) and grid row at which theme `i` is listed: two
/// columns of seven.
pub open spec fn theme_item_cell(i: int) -> (int, int) {
    (if i < THEME_ROWS { 0 } else { THEME_COL2 as int }, theme_list_row() + i % THEME_ROWS as int)
}

/// Placement of theme `i` in the theme dropdown (see [`theme_item_cell`]).
pub fn theme_dropdown_cell(i: usize) -> (r: (usize, usize))
    requires
        i < THEME_COUNT,
    ensures
        r.0 as int == theme_item_cell(i as int).0,
        r.1 as int == theme_item_cell(i as int).1,
{
    let col_offset = if i < THEME_ROWS { 0 } else { THEME_COL2 };
    (col_offset, ROW_THEME + 1 + i % THEME_ROWS)
}

/// Whether hovering column `hover_col` selects an item in the left (`i < 7`) or
/// right theme column.
pub open spec fn theme_hover_matches(i: int, hover_col: int) -> bool {
    if i < THEME_ROWS {
        hover_col < UI_COL + THEME_COL2
    } else {
        hover_col >= UI_COL + THEME_COL2
    }
}

/// Whether theme item `i` is highlighted for the hovered cell.
pub fn theme_item_hovered(i: usize, hover_row: Option<usize>, hover_col: Option<usize>) -> (r: bool)
    requires
        i < THEME_COUNT,
    ensures
        r == (hover_row == Some((theme_item_cell(i as int).1) as usize) && hover_col is Some
            && theme_hover_matches(i as int, hover_col->0 as int)),
{
    let target_row = ROW_THEME + 1 + i % THEME_ROWS;
    match (hover_row, hover_col) {
        (Some(hr), Some(hc)) => hr == target_row && if i < THEME_ROWS {
            hc < UI_COL + THEME_COL2
        } else {
            hc >= UI_COL + THEME_COL2
        },
        _ => false,
    }
}

/// What a click on the UI overlay asks for.
#[derive(Clone, Copy, Debug, PartialEq, Eq, Structural)]
pub enum ClickAction {
    Nothing,
    SelectPreset(usize),
    SelectTheme(usize),
    StartDrag(UiRow),
    ToggleAntiAlias,
    ToggleMode,
    CycleFeel,
}

/// The display state after a click, and what the click asks for.
#[derive(Clone, Copy, Debug)]
pub struct ClickOutcome {
    pub action: ClickAction,
    pub dropdown: Option<DropdownKind>,
    pub more_expanded: bool,
}

/// Theme picked by a click in the theme dropdown at a column and a row offset.
pub open spec fn theme_pick(col: int, row_offset: int) -> int {
    if col >= UI_COL + THEME_COL2 {
        row_offset + THEME_ROWS
    } else {
        row_offset
    }
}

/// Outcome of a left click on grid cell `(col, row)` (see [`click_cell`]).
pub open spec fn click_outcome(
    col: int,
    row: int,
    dropdown: Option<DropdownKind>,
    menu_vis: bool,
    more_expanded: bool,
) -> ClickOutcome {
    match dropdown {
        Some(DropdownKind::Machine) => ClickOutcome {
            action: if machine_list_row() <= row < machine_list_row() + PRESET_COUNT && UI_COL <= col < UI_COL
                + MACHINE_DROPDOWN_WIDTH {
                ClickAction::SelectPreset((row - machine_list_row()) as usize)
            } else {
                ClickAction::Nothing
            },
            dropdown: None,
            more_expanded,
        },
        Some(DropdownKind::Theme) => ClickOutcome {
            action: if theme_list_row() <= row < theme_list_row() + THEME_ROWS && theme_pick(
                col,
                row - theme_list_row(),
            ) < THEME_COUNT {
                ClickAction::SelectTheme(theme_pick(col, row - theme_list_row()) as usize)
            } else {
                ClickAction::Nothing
            },
            dropdown: None,
            more_expanded,
        },
        None => {
            let target = ui_row_at(row, menu_vis, more_expanded);
            if col < UI_COL || col >= UI_COL + UI_WIDTH || target is None {
                ClickOutcome { action: ClickAction::Nothing, dropdown: None, more_expanded }
            } else {
                let u = target->0;
                ClickOutcome {
                    action: if draggable(u) {
                        ClickAction::StartDrag(u)
                    } else if u is AntiAlias {
                        ClickAction::ToggleAntiAlias
                    } else if u is Mode {
                        ClickAction::ToggleMode
                    } else if u is Feel {
                        ClickAction::CycleFeel
                    } else {
                        ClickAction::Nothing
                    },
                    dropdown: if u is MachineSelect {
                        Some(DropdownKind::Machine)
                    } else if u is ThemeSelect {
                        Some(DropdownKind::Theme)
                    } else {
                        None
                    },
                    more_expanded: if u is MoreToggle {
                        !more_expanded
                    } else {
                        more_expanded
                    },
                }
            }
        },
    }
}

/// Handles a left click on grid cell `(col, row)`. With a dropdown open, the click
/// selects the listed item under it, if any, and closes the dropdown. Otherwise clicks
/// outside the UI columns are ignored; on an interactive row the click starts a drag,
/// toggles anti-aliasing or the "more" section, opens or closes a dropdown, toggles
/// the mode or cycles the feel.
pub fn click_cell(
    col: usize,
    row: usize,
    dropdown: Option<DropdownKind>,
    menu_vis: bool,
    more_expanded: bool,
) -> (r: ClickOutcome)
    ensures
        r == click_outcome(col as int, row as int, dropdown, menu_vis, more_expanded),
        (dropdown is None && UI_COL <= col < UI_COL + UI_WIDTH && menu_vis && more_expanded && row == ROW_MODE)
            ==> r.action == ClickAction::ToggleMode,
        (dropdown is None && UI_COL <= col < UI_COL + UI_WIDTH && menu_vis && more_expanded && row == ROW_FEEL)
            ==> r.action == ClickAction::CycleFeel,
{
    match dropdown {
        Some(DropdownKind::Machine) => {
            let start_row = ROW_MACHINE + 1;
            let end_row = start_row + PRESET_COUNT;
            let action = if row >= start_row && row < end_row && col >= UI_COL && col < UI_COL
                + MACHINE_DROPDOWN_WIDTH {
                ClickAction::SelectPreset(row - start_row)
            } else {
                ClickAction::Nothing
            };
            return ClickOutcome { action, dropdown: None, more_expanded };
        },
        Some(DropdownKind::Theme) => {
            let start_row = ROW_THEME + 1;
            let end_row = start_row + THEME_ROWS;
            let mut action = ClickAction::Nothing;
            if row >= start_row && row < end_row {
                let row_offset = row - start_row;
                let theme_idx = if col >= UI_COL + THEME_COL2 {
                    row_offset + THEME_ROWS
                } else {
                    row_offset
                };
                if theme_idx < THEME_COUNT {
                    action = ClickAction::SelectTheme(theme_idx);
                }
            }
            return ClickOutcome { action, dropdown: None, more_expanded };
        },
        None => {},
    }
    if col < UI_COL || col >= UI_COL + UI_WIDTH {
        return ClickOutcome { action: ClickAction::Nothing, dropdown, more_expanded };
    }
    match UiRow::from_grid_row(row, col, menu_vis, more_expanded) {
        None => ClickOutcome { action: ClickAction::Nothing, dropdown, more_expanded },
        Some(ui_row) => {
            if ui_row.is_draggable() {
                ClickOutcome { action: ClickAction::StartDrag(ui_row), dropdown, more_expanded }
            } else {
                match ui_row {
                    UiRow::AntiAlias => ClickOutcome { action: ClickAction::ToggleAntiAlias, dropdown, more_expanded },
                    UiRow::MoreToggle => ClickOutcome {
                        action: ClickAction::Nothing,
                        dropdown,
                        more_expanded: !more_expanded,
                    },
                    UiRow::MachineSelect => ClickOutcome {
                        action: ClickAction::Nothing,
                        dropdown: if dropdown == Some(DropdownKind::Machine) {
                            None
                        } else {
                            Some(DropdownKind::Machine)
                        },
                        more_expanded,
                    },
                    UiRow::ThemeSelect => ClickOutcome {
                        action: ClickAction::Nothing,
                        dropdown: if dropdown == Some(DropdownKind::Theme) {
                            None
                        } else {
                            Some(DropdownKind::Theme)
                        },
                        more_expanded,
                    },
                    UiRow::Mode => ClickOutcome { action: ClickAction::ToggleMode, dropdown, more_expanded },
                    UiRow::Feel => ClickOutcome { action: ClickAction::CycleFeel, dropdown, more_expanded },
                    _ => ClickOutcome { action: ClickAction::Nothing, dropdown, more_expanded },
                }
            }
        },
    }
}

/// With no dropdown open, a click inside the UI columns acts on the row under it: the
/// sample-rate, filter, bit-depth, jitter and mix rows start a drag of that row, the
/// anti-alias row toggles anti-aliasing, the mode row toggles light/dark mode, the feel
/// row cycles the feel, the machine and theme rows open their dropdowns and the "more"
/// row folds or unfolds the extra settings. The sound and visual rows act only while the
/// menu is visible and unfolded.
pub proof fn law_rows_do_what_they_show(col: int, menu_vis: bool, more_expanded: bool)
    requires
        UI_COL <= col < UI_COL + UI_WIDTH,
    ensures
        click_outcome(col, ROW_SR as int, None, menu_vis, more_expanded).action == ClickAction::StartDrag(
            UiRow::SampleRate,
        ),
        click_outcome(col, ROW_FILTER as int, None, menu_vis, more_expanded).action == ClickAction::StartDrag(
            UiRow::Filter,
        ),
        click_outcome(col, ROW_AA as int, None, menu_vis, more_expanded).action == ClickAction::ToggleAntiAlias,
        click_outcome(col, ROW_MACHINE as int, None, menu_vis, more_expanded).action == ClickAction::Nothing,
        click_outcome(col, ROW_MACHINE as int, None, menu_vis, more_expanded).dropdown == Some(DropdownKind::Machine),
        menu_vis ==> click_outcome(col, ROW_MORE as int, None, menu_vis, more_expanded).more_expanded
            == !more_expanded,
        menu_vis ==> click_outcome(col, ROW_MORE as int, None, menu_vis, more_expanded).action == ClickAction::Nothing,
        (menu_vis && more_expanded) ==> {
            &&& click_outcome(col, ROW_BITS as int, None, true, true).action == ClickAction::StartDrag(UiRow::BitDepth)
            &&& click_outcome(col, ROW_JITTER as int, None, true, true).action == ClickAction::StartDrag(UiRow::Jitter)
            &&& click_outcome(col, ROW_MIX as int, None, true, true).action == ClickAction::StartDrag(UiRow::Mix)
            &&& click_outcome(col, ROW_THEME as int, None, true, true).action == ClickAction::Nothing
            &&& click_outcome(col, ROW_THEME as int, None, true, true).dropdown == Some(DropdownKind::Theme)
            &&& click_outcome(col, ROW_MODE as int, None, true, true).action == ClickAction::ToggleMode
            &&& click_outcome(col, ROW_FEEL as int, None, true, true).action == ClickAction::CycleFeel
        },
        !(menu_vis && more_expanded) ==> {
            &&& click_outcome(col, ROW_MODE as int, None, menu_vis, more_expanded).action == ClickAction::Nothing
            &&& click_outcome(col, ROW_FEEL as int, None, menu_vis, more_expanded).action == ClickAction::Nothing
            &&& click_outcome(col, ROW_BITS as int, None, menu_vis, more_expanded).action == ClickAction::Nothing
        },
{
}

/// Clicking where a preset or theme is listed in its open dropdown selects exactly that
/// item, and a theme item is highlighted for a hovered cell exactly when clicking that
/// cell selects it.
pub proof fn law_dropdown_items_select_themselves(i: int, col: int, row: int, more_expanded: bool)
    ensures
        0 <= i < PRESET_COUNT ==> click_outcome(
            UI_COL as int,
            machine_list_row() + i,
            Some(DropdownKind::Machine),
            true,
            more_expanded,
        ).action == ClickAction::SelectPreset(i as usize),
        0 <= i < THEME_COUNT ==> click_outcome(
            UI_COL + theme_item_cell(i).0,
            theme_item_cell(i).1,
            Some(DropdownKind::Theme),
            true,
            more_expanded,
        ).action == ClickAction::SelectTheme(i as usize),
        (0 <= i < THEME_COUNT && 0 <= col && 0 <= row) ==> ((row == theme_item_cell(i).1 && theme_hover_matches(
            i,
            col,
        )) <==> click_outcome(col, row, Some(DropdownKind::Theme), true, more_expanded).action
            == ClickAction::SelectTheme(i as usize)),
{
    if 0 <= i < THEME_COUNT && 0 <= col && 0 <= row {
        if row == theme_item_cell(i).1 {
            assert(row - theme_list_row() == i % THEME_ROWS as int);
        }
    }
}

} // verus!

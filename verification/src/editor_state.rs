use vstd::prelude::*;
use crate::color_system::THEME_COUNT;

verus! {

/// Number of machine presets.
pub const PRESET_COUNT: usize = 7;
/// Preset selected when the editor opens (the S950).
pub const DEFAULT_PRESET: usize = 2;
/// Theme selected when the editor opens.
pub const DEFAULT_THEME: usize = 4;

/// Sampler settings of a machine preset. The jitter amount is in thousandths.
#[derive(Clone, Copy, Debug, PartialEq, Eq, Structural)]
pub struct MachinePreset {
    pub sr_hz: u32,
    pub bits: u8,
    pub jitter_milli: u16,
    pub poles: u8,
}

/// The preset table: SP-1200, MPC60, S950, Mirage, Prophet 2000, MPC3000, SP-303.
pub open spec fn preset_spec(idx: int) -> MachinePreset {
    if idx == 0 {
        MachinePreset { sr_hz: 26_040, bits: 12, jitter_milli: 10, poles: 2 }
    } else if idx == 1 {
        MachinePreset { sr_hz: 40_000, bits: 12, jitter_milli: 5, poles: 4 }
    } else if idx == 2 {
        MachinePreset { sr_hz: 48_000, bits: 12, jitter_milli: 10, poles: 6 }
    } else if idx == 3 {
        MachinePreset { sr_hz: 33_000, bits: 8, jitter_milli: 30, poles: 4 }
    } else if idx == 4 {
        MachinePreset { sr_hz: 41_667, bits: 12, jitter_milli: 10, poles: 4 }
    } else if idx == 5 {
        MachinePreset { sr_hz: 44_100, bits: 16, jitter_milli: 0, poles: 4 }
    } else {
        MachinePreset { sr_hz: 44_100, bits: 16, jitter_milli: 10, poles: 4 }
    }
}

/// Settings of machine preset `idx`.
pub fn machine_preset(idx: usize) -> (r: MachinePreset)
    requires
        idx < PRESET_COUNT,
    ensures
        r == preset_spec(idx as int),
{
    match idx {
        0 => MachinePreset { sr_hz: 26_040, bits: 12, jitter_milli: 10, poles: 2 },
        1 => MachinePreset { sr_hz: 40_000, bits: 12, jitter_milli: 5, poles: 4 },
        2 => MachinePreset { sr_hz: 48_000, bits: 12, jitter_milli: 10, poles: 6 },
        3 => MachinePreset { sr_hz: 33_000, bits: 8, jitter_milli: 30, poles: 4 },
        4 => MachinePreset { sr_hz: 41_667, bits: 12, jitter_milli: 10, poles: 4 },
        5 => MachinePreset { sr_hz: 44_100, bits: 16, jitter_milli: 0, poles: 4 },
        _ => MachinePreset { sr_hz: 44_100, bits: 16, jitter_milli: 10, poles: 4 },
    }
}

/// Animation feel presets, cycled in this order.
#[derive(Clone, Copy, Debug, PartialEq, Eq, Structural)]
pub enum Feel {
    Tight,
    Expressive,
    Chaotic,
}

/// Position of a feel in the cycle.
pub open spec fn feel_pos(f: Feel) -> int {
    match f {
        Feel::Tight => 0,
        Feel::Expressive => 1,
        Feel::Chaotic => 2,
    }
}

/// The feel after `f` in the cycle.
pub open spec fn next_feel(f: Feel) -> Feel {
    match f {
        Feel::Tight => Feel::Expressive,
        Feel::Expressive => Feel::Chaotic,
        Feel::Chaotic => Feel::Tight,
    }
}

/// Index of a feel in the cycle (0 tight, 1 expressive, 2 chaotic).
pub fn feel_index(f: Feel) -> (r: u8)
    ensures
        r as int == feel_pos(f),
{
    match f {
        Feel::Tight => 0,
        Feel::Expressive => 1,
        Feel::Chaotic => 2,
    }
}

/// Events the editor reacts to.
#[derive(Clone, Copy, Debug)]
pub enum EditorEvent {
    PrevPreset,
    NextPreset,
    SelectPreset(usize),
    SelectTheme(usize),
    UpdateFrameBuffer,
    CycleTheme,
    ToggleMode,
    CycleFeel,
    ToggleUiExpand,
    Tick,
}

/// What the editor must do after an event, besides updating its selection.
#[derive(Clone, Copy, Debug)]
pub struct EditorAction {
    /// Broadcast a tick to the whole view tree (keeps the canvas redrawing).
    pub broadcast_tick: bool,
    /// Load this machine preset into the plugin parameters (cutoff fully open).
    pub apply_preset: Option<MachinePreset>,
    /// Publish the new UI-expanded flag to the display.
    pub publish_ui_expanded: bool,
    /// Render a new frame.
    pub render_frame: bool,
}

/// The editor's discrete selections: theme, light/dark mode, machine preset, feel,
/// expanded UI, and the event counter that drives redraws.
#[derive(Clone, Copy, Debug)]
pub struct EditorSelection {
    pub theme_id: usize,
    pub dark_mode: bool,
    pub preset_idx: usize,
    pub feel: Feel,
    pub ui_expanded: bool,
    pub frame_update_counter: usize,
}

impl EditorSelection {
    /// Theme and preset are valid indices.
    pub open spec fn wf(&self) -> bool {
        self.theme_id < THEME_COUNT && self.preset_idx < PRESET_COUNT
    }

    /// The selection after handling `e` (the counter is counted separately).
    pub open spec fn after(self, e: EditorEvent) -> Self {
        match e {
            EditorEvent::ToggleUiExpand => EditorSelection { ui_expanded: !self.ui_expanded, ..self },
            EditorEvent::CycleTheme => EditorSelection { theme_id: ((self.theme_id + 1) % THEME_COUNT as int) as usize, ..self },
            EditorEvent::ToggleMode => EditorSelection { dark_mode: !self.dark_mode, ..self },
            EditorEvent::CycleFeel => EditorSelection { feel: next_feel(self.feel), ..self },
            EditorEvent::PrevPreset => if self.preset_idx > 0 {
                EditorSelection { preset_idx: (self.preset_idx - 1) as usize, ..self }
            } else {
                self
            },
            EditorEvent::NextPreset => if self.preset_idx + 1 < PRESET_COUNT {
                EditorSelection { preset_idx: (self.preset_idx + 1) as usize, ..self }
            } else {
                self
            },
            EditorEvent::SelectPreset(i) => if i < PRESET_COUNT {
                EditorSelection { preset_idx: i, ..self }
            } else {
                self
            },
            EditorEvent::SelectTheme(i) => if i < THEME_COUNT {
                EditorSelection { theme_id: i, ..self }
            } else {
                self
            },
            _ => self,
        }
    }

    /// Whether handling `e` loads a preset.
    pub open spec fn loads_preset(self, e: EditorEvent) -> bool {
        match e {
            EditorEvent::PrevPreset => self.preset_idx > 0,
            EditorEvent::NextPreset => self.preset_idx + 1 < PRESET_COUNT,
            EditorEvent::SelectPreset(i) => i < PRESET_COUNT,
            _ => false,
        }
    }

    /// The selection the editor opens with.
    pub fn new() -> (r: Self)
        ensures
            r.wf(),
            r.theme_id == DEFAULT_THEME,
            r.dark_mode,
            r.preset_idx == DEFAULT_PRESET,
            r.feel == Feel::Expressive,
            !r.ui_expanded,
            r.frame_update_counter == 0,
    {
        EditorSelection {
            theme_id: DEFAULT_THEME,
            dark_mode: true,
            preset_idx: DEFAULT_PRESET,
            feel: Feel::Expressive,
            ui_expanded: false,
            frame_update_counter: 0,
        }
    }

    /// Handles one editor event. The event counter advances (wrapping) on every event
    /// and a tick is broadcast whenever it becomes even. Theme and mode, feel and UI
    /// expansion cycle or toggle; presets step or are selected within range (loading
    /// the new preset); out-of-range selections are ignored.
    pub fn handle(&mut self, e: EditorEvent) -> (r: EditorAction)
        requires
            e is CycleTheme ==> old(self).theme_id < usize::MAX,
            e is PrevPreset ==> old(self).preset_idx <= PRESET_COUNT,
            e is NextPreset ==> old(self).preset_idx < usize::MAX,
        ensures
            final(self).frame_update_counter == vstd::wrapping::usize_specs::wrapping_add(
                old(self).frame_update_counter,
                1,
            ),
            (EditorSelection { frame_update_counter: 0, ..*final(self) }) == (EditorSelection {
                frame_update_counter: 0,
                ..old(self).after(e)
            }),
            r.broadcast_tick == (final(self).frame_update_counter % 2 == 0),
            r.apply_preset == if old(self).loads_preset(e) {
                Some(preset_spec(final(self).preset_idx as int))
            } else {
                None::<MachinePreset>
            },
            e matches EditorEvent::SelectPreset(i) ==> (i < PRESET_COUNT ==> final(self).preset_idx == i
                && r.apply_preset == Some(preset_spec(i as int))),
            (e is NextPreset && old(self).preset_idx + 1 < PRESET_COUNT) ==> r.apply_preset == Some(
                preset_spec(old(self).preset_idx + 1),
            ),
            (e is PrevPreset && old(self).preset_idx > 0) ==> r.apply_preset == Some(
                preset_spec(old(self).preset_idx - 1),
            ),
            !(e is SelectPreset || e is NextPreset || e is PrevPreset) ==> r.apply_preset is None,
            r.publish_ui_expanded == (e is ToggleUiExpand),
            r.render_frame == (e is UpdateFrameBuffer),
            old(self).wf() ==> final(self).wf(),
    {
        self.frame_update_counter = self.frame_update_counter.wrapping_add(1);
        let broadcast_tick = self.frame_update_counter % 2 == 0;
        let mut action = EditorAction {
            broadcast_tick,
            apply_preset: None,
            publish_ui_expanded: false,
            render_frame: false,
        };
        match e {
            EditorEvent::ToggleUiExpand => {
                self.ui_expanded = !self.ui_expanded;
                action.publish_ui_expanded = true;
            },
            EditorEvent::CycleTheme => {
                self.theme_id = (self.theme_id + 1) % THEME_COUNT;
            },
            EditorEvent::ToggleMode => {
                self.dark_mode = !self.dark_mode;
            },
            EditorEvent::CycleFeel => {
                self.feel = match self.feel {
                    Feel::Tight => Feel::Expressive,
                    Feel::Expressive => Feel::Chaotic,
                    Feel::Chaotic => Feel::Tight,
                };
            },
            EditorEvent::PrevPreset => {
                if self.preset_idx > 0 {
                    self.preset_idx = self.preset_idx - 1;
                    action.apply_preset = Some(machine_preset(self.preset_idx));
                }
            },
            EditorEvent::NextPreset => {
                if self.preset_idx + 1 < PRESET_COUNT {
                    self.preset_idx = self.preset_idx + 1;
                    action.apply_preset = Some(machine_preset(self.preset_idx));
                }
            },
            EditorEvent::SelectPreset(idx) => {
                if idx < PRESET_COUNT {
                    self.preset_idx = idx;
                    action.apply_preset = Some(machine_preset(self.preset_idx));
                }
            },
            EditorEvent::SelectTheme(idx) => {
                if idx < THEME_COUNT {
                    self.theme_id = idx;
                }
            },
            EditorEvent::Tick => {},
            EditorEvent::UpdateFrameBuffer => {
                action.render_frame = true;
            },
        }
        action
    }
}

/// The selection after handling `e` `n` times in a row.
pub open spec fn repeat_event(s: EditorSelection, e: EditorEvent, n: nat) -> EditorSelection
    decreases n,
{
    if n == 0 {
        s
    } else {
        repeat_event(s, e, (n - 1) as nat).after(e)
    }
}

/// Selecting a listed preset makes it the current preset and loads its settings;
/// stepping to the next or previous preset loads the one stepped to; events that do not
/// touch the preset load nothing.
pub proof fn law_selected_preset_is_loaded(s: EditorSelection, i: usize, e: EditorEvent)
    ensures
        i < PRESET_COUNT ==> s.after(EditorEvent::SelectPreset(i)).preset_idx == i,
        i < PRESET_COUNT ==> s.loads_preset(EditorEvent::SelectPreset(i)),
        i >= PRESET_COUNT ==> !s.loads_preset(EditorEvent::SelectPreset(i)),
        s.preset_idx + 1 < PRESET_COUNT ==> s.loads_preset(EditorEvent::NextPreset) && s.after(
            EditorEvent::NextPreset,
        ).preset_idx == s.preset_idx + 1,
        s.preset_idx > 0 ==> s.loads_preset(EditorEvent::PrevPreset) && s.after(EditorEvent::PrevPreset).preset_idx
            == s.preset_idx - 1,
        !(e is SelectPreset || e is NextPreset || e is PrevPreset) ==> !s.loads_preset(e) && s.after(e).preset_idx
            == s.preset_idx,
{
}

/// Toggling the mode or the expanded UI twice restores the selection.
pub proof fn law_toggles_are_involutions(s: EditorSelection)
    ensures
        s.after(EditorEvent::ToggleMode).after(EditorEvent::ToggleMode) == s,
        s.after(EditorEvent::ToggleUiExpand).after(EditorEvent::ToggleUiExpand) == s,
{
}

/// Cycling the theme once per theme returns to the starting theme.
pub proof fn law_theme_cycle_period(s: EditorSelection)
    requires
        s.wf(),
    ensures
        repeat_event(s, EditorEvent::CycleTheme, THEME_COUNT as nat) == s,
{
    lemma_theme_cycle_steps(s, THEME_COUNT as nat);
}

proof fn lemma_theme_cycle_steps(s: EditorSelection, n: nat)
    requires
        s.wf(),
        n <= THEME_COUNT,
    ensures
        repeat_event(s, EditorEvent::CycleTheme, n) == (EditorSelection {
            theme_id: ((s.theme_id + n) % THEME_COUNT as int) as usize,
            ..s
        }),
    decreases n,
{
    if n > 0 {
        lemma_theme_cycle_steps(s, (n - 1) as nat);
        let t = (s.theme_id + (n - 1)) % THEME_COUNT as int;
        vstd::arithmetic::div_mod::lemma_add_mod_noop(s.theme_id + (n - 1), 1, THEME_COUNT as int);
        vstd::arithmetic::div_mod::lemma_small_mod(1, THEME_COUNT as nat);
        vstd::arithmetic::div_mod::lemma_mod_bound(s.theme_id + (n - 1), THEME_COUNT as int);
        assert((t + 1) % THEME_COUNT as int == (s.theme_id + n) % THEME_COUNT as int);
    } else {
        vstd::arithmetic::div_mod::lemma_small_mod(s.theme_id as nat, THEME_COUNT as nat);
    }
}

/// Cycling the feel three times returns to the starting feel.
pub proof fn law_feel_cycle_period(s: EditorSelection)
    ensures
        repeat_event(s, EditorEvent::CycleFeel, 3) == s,
{
    reveal_with_fuel(repeat_event, 4);
}

/// Stepping to the previous preset and back (or to the next and back) restores the
/// selection when the first step moves.
pub proof fn law_preset_steps_undo(s: EditorSelection)
    requires
        s.wf(),
    ensures
        s.preset_idx > 0 ==> s.after(EditorEvent::PrevPreset).after(EditorEvent::NextPreset) == s,
        s.preset_idx + 1 < PRESET_COUNT ==> s.after(EditorEvent::NextPreset).after(EditorEvent::PrevPreset) == s,
{
}

} // verus!

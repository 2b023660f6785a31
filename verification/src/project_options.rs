//! The project options panel: canvas size presets and the panel's editing state.
use vstd::prelude::*;

use crate::project::{Composition, Project};

verus! {

/// A named canvas size offered by the preset chooser; `Custom` stands for any other size.
#[derive(Clone, Copy, Debug, PartialEq, Eq, Structural)]
pub enum ResolutionPreset {
    Custom,
    Hd,
    FullHd,
    Qhd,
    Uhd4k,
    Dci4k,
    Uhd8k,
    VerticalFullHd,
    Square,
}

/// How many presets the chooser lists.
pub const RESOLUTION_PRESET_COUNT: usize = 9;

/// The preset the chooser lists at `index`, if the list is that long.
pub open spec fn preset_at(index: int) -> Option<ResolutionPreset> {
    if index == 0 {
        Some(ResolutionPreset::Custom)
    } else if index == 1 {
        Some(ResolutionPreset::Hd)
    } else if index == 2 {
        Some(ResolutionPreset::FullHd)
    } else if index == 3 {
        Some(ResolutionPreset::Qhd)
    } else if index == 4 {
        Some(ResolutionPreset::Uhd4k)
    } else if index == 5 {
        Some(ResolutionPreset::Dci4k)
    } else if index == 6 {
        Some(ResolutionPreset::Uhd8k)
    } else if index == 7 {
        Some(ResolutionPreset::VerticalFullHd)
    } else if index == 8 {
        Some(ResolutionPreset::Square)
    } else {
        None
    }
}

/// The canvas size of the preset listed at `index`; none for `Custom` and past the list.
pub open spec fn preset_size_at(index: int) -> Option<[u32; 2]> {
    match preset_at(index) {
        Some(preset) => preset_dimensions(preset),
        None => None,
    }
}

/// The text the chooser shows for a preset.
pub open spec fn preset_label(preset: ResolutionPreset) -> Seq<char> {
    match preset {
        ResolutionPreset::Custom => "Custom"@,
        ResolutionPreset::Hd => "HD: 1280 × 720"@,
        ResolutionPreset::FullHd => "Full HD: 1920×1080"@,
        ResolutionPreset::Qhd => "QHD: 2560×1440"@,
        ResolutionPreset::Uhd4k => "UHD 4K: 3840×2160"@,
        ResolutionPreset::Dci4k => "DCI 4K: 4096×2160"@,
        ResolutionPreset::Uhd8k => "UHD 8K: 7680×4320"@,
        ResolutionPreset::VerticalFullHd => "Vertical FHD: 1080×1920"@,
        ResolutionPreset::Square => "Square: 1080×1080"@,
    }
}

/// The canvas size a preset sets, width first; none for `Custom`.
pub open spec fn preset_dimensions(preset: ResolutionPreset) -> Option<[u32; 2]> {
    match preset {
        ResolutionPreset::Custom => None,
        ResolutionPreset::Hd => Some([1280, 720]),
        ResolutionPreset::FullHd => Some([1920, 1080]),
        ResolutionPreset::Qhd => Some([2560, 1440]),
        ResolutionPreset::Uhd4k => Some([3840, 2160]),
        ResolutionPreset::Dci4k => Some([4096, 2160]),
        ResolutionPreset::Uhd8k => Some([7680, 4320]),
        ResolutionPreset::VerticalFullHd => Some([1080, 1920]),
        ResolutionPreset::Square => Some([1080, 1080]),
    }
}

/// The position of the first listed preset of the given size; 0 (`Custom`) where none has it.
pub open spec fn preset_index_of(size: [u32; 2]) -> usize {
    if exists|i: int| 0 <= i < 9 && #[trigger] preset_size_at(i) == Some(size) {
        let i = choose|i: int| 0 <= i < 9 && #[trigger] preset_size_at(i) == Some(size)
            && forall|j: int| 0 <= j < i ==> #[trigger] preset_size_at(j) != Some(size);
        i as usize
    } else {
        0
    }
}

impl ResolutionPreset {
    /// The preset listed at `index`, if there is one.
    pub fn at(index: usize) -> (preset: Option<ResolutionPreset>)
        ensures
            preset == preset_at(index as int),
    {
        match index {
            0 => Some(ResolutionPreset::Custom),
            1 => Some(ResolutionPreset::Hd),
            2 => Some(ResolutionPreset::FullHd),
            3 => Some(ResolutionPreset::Qhd),
            4 => Some(ResolutionPreset::Uhd4k),
            5 => Some(ResolutionPreset::Dci4k),
            6 => Some(ResolutionPreset::Uhd8k),
            7 => Some(ResolutionPreset::VerticalFullHd),
            8 => Some(ResolutionPreset::Square),
            _ => None,
        }
    }

    /// The text the chooser shows for this preset.
    pub fn label(self) -> (label: &'static str)
        ensures
            label@ == preset_label(self),
    {
        match self {
            ResolutionPreset::Custom => "Custom",
            ResolutionPreset::Hd => "HD: 1280 × 720",
            ResolutionPreset::FullHd => "Full HD: 1920×1080",
            ResolutionPreset::Qhd => "QHD: 2560×1440",
            ResolutionPreset::Uhd4k => "UHD 4K: 3840×2160",
            ResolutionPreset::Dci4k => "DCI 4K: 4096×2160",
            ResolutionPreset::Uhd8k => "UHD 8K: 7680×4320",
            ResolutionPreset::VerticalFullHd => "Vertical FHD: 1080×1920",
            ResolutionPreset::Square => "Square: 1080×1080",
        }
    }

    /// The canvas size this preset sets; none for `Custom`.
    pub fn dimensions(self) -> (size: Option<[u32; 2]>)
        ensures
            size == preset_dimensions(self),
    {
        match self {
            ResolutionPreset::Custom => None,
            ResolutionPreset::Hd => Some([1280, 720]),
            ResolutionPreset::FullHd => Some([1920, 1080]),
            ResolutionPreset::Qhd => Some([2560, 1440]),
            ResolutionPreset::Uhd4k => Some([3840, 2160]),
            ResolutionPreset::Dci4k => Some([4096, 2160]),
            ResolutionPreset::Uhd8k => Some([7680, 4320]),
            ResolutionPreset::VerticalFullHd => Some([1080, 1920]),
            ResolutionPreset::Square => Some([1080, 1080]),
        }
    }

    /// The chooser entry for a canvas size: the first preset of that size, else `Custom`.
    pub fn index_for(size: [u32; 2]) -> (index: usize)
        ensures
            index == preset_index_of(size),
            index < 9,
    {
        let mut i: usize = 0;
        while i < 9
            invariant
                i <= 9,
                forall|j: int| 0 <= j < i ==> #[trigger] preset_size_at(j) != Some(size),
            decreases 9 - i,
        {
            let preset = ResolutionPreset::at(i);
            if let Some(p) = preset {
                let dims = p.dimensions();
                if let Some(d) = dims {
                    if d[0] == size[0] && d[1] == size[1] {
                        proof {
                            assert(d =~= size);
                            assert(preset_size_at(i as int) == Some(size));
                            let w = choose|w: int| 0 <= w < 9 && #[trigger] preset_size_at(w) == Some(size)
                                && forall|j: int| 0 <= j < w ==> #[trigger] preset_size_at(j) != Some(size);
                            assert(0 <= i < 9 && preset_size_at(i as int) == Some(size)
                                && forall|j: int| 0 <= j < i ==> #[trigger] preset_size_at(j) != Some(size));
                            if w < i {
                                assert(preset_size_at(w) != Some(size));
                            }
                            if i < w {
                                assert(preset_size_at(i as int) != Some(size));
                            }
                        }
                        return i;
                    }
                }
                proof {
                    if preset_size_at(i as int) == Some(size) {
                        let d = preset_size_at(i as int)->0;
                        assert(d[0] == size[0] && d[1] == size[1]);
                    }
                }
            }
            i = i + 1;
        }
        0
    }
}

/// The chooser shows the preset just applied: the entry found for the size of a listed preset
/// other than `Custom` is that preset's own, as no two presets share a size.
pub proof fn lemma_preset_round_trip(index: int)
    requires
        1 <= index < 9,
    ensures
        preset_size_at(index) is Some,
        preset_index_of(preset_size_at(index)->0) == index,
{
    let size = preset_size_at(index)->0;
    assert(preset_size_at(index) == Some(size));
    assert forall|j: int| 0 <= j < 9 && j != index implies #[trigger] preset_size_at(j) != Some(size) by {
        if preset_size_at(j) == Some(size) {
            let d = preset_size_at(j)->0;
            assert(d[0] == size[0] && d[1] == size[1]);
        }
    }
    let w = choose|w: int| 0 <= w < 9 && #[trigger] preset_size_at(w) == Some(size)
        && forall|j: int| 0 <= j < w ==> #[trigger] preset_size_at(j) != Some(size);
    assert(0 <= index < 9 && preset_size_at(index) == Some(size)
        && forall|j: int| 0 <= j < index ==> #[trigger] preset_size_at(j) != Some(size));
}

/// The position of the first composition with the given id.
pub open spec fn composition_position(compositions: Seq<Composition>, id: u64) -> Option<int> {
    if exists|i: int| 0 <= i < compositions.len() && #[trigger] compositions[i].id == id {
        Some(choose|i: int| 0 <= i < compositions.len() && #[trigger] compositions[i].id == id
            && forall|j: int| 0 <= j < i ==> #[trigger] compositions[j].id != id)
    } else {
        None
    }
}

/// The first composition with the given id, found by position.
pub fn find_composition(compositions: &Vec<Composition>, id: u64) -> (position: Option<usize>)
    ensures
        match position {
            Some(p) => composition_position(compositions@, id) == Some(p as int) && p < compositions.len()
                && compositions@[p as int].id == id,
            None => composition_position(compositions@, id) is None,
        },
{
    let mut i: usize = 0;
    while i < compositions.len()
        invariant
            i <= compositions.len(),
            forall|j: int| 0 <= j < i ==> #[trigger] compositions@[j].id != id,
        decreases compositions.len() - i,
    {
        if compositions[i].id == id {
            proof {
                let w = choose|w: int| 0 <= w < compositions.len() && #[trigger] compositions@[w].id == id
                    && forall|j: int| 0 <= j < w ==> #[trigger] compositions@[j].id != id;
                assert(0 <= i < compositions.len() && compositions@[i as int].id == id
                    && forall|j: int| 0 <= j < i ==> #[trigger] compositions@[j].id != id);
                if w < i {
                    assert(compositions@[w].id != id);
                }
                if i < w {
                    assert(compositions@[i as int].id != id);
                }
            }
            return Some(i);
        }
        i = i + 1;
    }
    None
}

/// Which number field of the options panel a value belongs to.
#[derive(Clone, Copy, Debug, PartialEq, Eq, Structural)]
pub enum ProjectNumberField {
    ResolutionX,
    ResolutionY,
    FrameRate,
}

/// Where a key or text input of the options panel goes.
#[derive(Clone, Copy, Debug, PartialEq, Eq, Structural)]
pub enum OptionsEditOutcome {
    /// The colour picker took it: its colour becomes the composition's background.
    ApplyColor,
    /// The number field being edited takes it.
    EditNumber(ProjectNumberField),
    /// Nothing took it.
    Ignored,
}

/// Which editor of the options panel places the text input caret.
#[derive(Clone, Copy, Debug, PartialEq, Eq, Structural)]
pub enum OptionsCaret {
    ColorPicker,
    Numbers,
}

/// The decisions of the project options panel. The widgets' drawing and animation stay with
/// the drawing layer; this holds which of them is open or being edited.
#[derive(Clone, Copy, Debug, PartialEq, Eq, Structural)]
pub struct ProjectOptionsState {
    /// The number field whose text is being edited.
    pub editing: Option<ProjectNumberField>,
    /// The preset chooser's list is open.
    pub preset_open: bool,
    /// The chooser entry shown.
    pub preset_selected: usize,
    /// The background colour picker is open.
    pub color_open: bool,
    /// A value is being dragged in a number field or in the colour picker.
    pub value_drag: bool,
}

impl ProjectOptionsState {
    /// A panel with nothing open or edited, showing `Custom`.
    pub fn new() -> (state: Self)
        ensures
            state == (ProjectOptionsState {
                editing: None,
                preset_open: false,
                preset_selected: 0,
                color_open: false,
                value_drag: false,
            }),
    {
        ProjectOptionsState { editing: None, preset_open: false, preset_selected: 0, color_open: false, value_drag: false }
    }

    /// The panel animates while its number fields, its preset chooser or its colour picker do.
    pub fn is_animating(&self, numbers_animating: bool, preset_animating: bool, color_animating: bool) -> (animating: bool)
        ensures
            animating == (numbers_animating || preset_animating || color_animating),
    {
        numbers_animating || preset_animating || color_animating
    }

    /// A value is being dragged in a number field or in the colour picker.
    pub fn is_value_dragging(&self) -> (dragging: bool)
        ensures
            dragging == self.value_drag,
    {
        self.value_drag
    }

    /// Losing focus ends the number edit and closes the preset chooser and the colour picker.
    pub fn set_focused(&mut self, focused: bool)
        ensures
            focused ==> *final(self) == *old(self),
            !focused ==> *final(self) == (ProjectOptionsState {
                editing: None,
                preset_open: false,
                color_open: false,
                ..*old(self)
            }),
    {
        if focused {
            return;
        }
        self.editing = None;
        self.preset_open = false;
        self.color_open = false;
    }

    /// A release ends the colour picker's drag and the number fields' drag; both are told of
    /// it, the second even where the first had a drag, and the release counts where either had
    /// one. No value drag remains.
    pub fn pointer_released(&mut self, color_released: bool, numbers_released: bool) -> (released: bool)
        ensures
            released == (color_released || numbers_released),
            *final(self) == (ProjectOptionsState { value_drag: false, ..*old(self) }),
            !final(self).value_drag,
    {
        self.value_drag = false;
        color_released || numbers_released
    }

    /// Where a key goes: to the colour picker where it took it, else to the number field being
    /// edited.
    pub fn handle_key(&self, color_handled: bool) -> (outcome: OptionsEditOutcome)
        ensures
            outcome == (if color_handled {
                OptionsEditOutcome::ApplyColor
            } else {
                match self.editing {
                    Some(field) => OptionsEditOutcome::EditNumber(field),
                    None => OptionsEditOutcome::Ignored,
                }
            }),
    {
        if color_handled {
            return OptionsEditOutcome::ApplyColor;
        }
        match self.editing {
            Some(field) => OptionsEditOutcome::EditNumber(field),
            None => OptionsEditOutcome::Ignored,
        }
    }

    /// Where composed text goes; the same way as a key.
    pub fn handle_ime(&self, color_handled: bool) -> (outcome: OptionsEditOutcome)
        ensures
            outcome == (if color_handled {
                OptionsEditOutcome::ApplyColor
            } else {
                match self.editing {
                    Some(field) => OptionsEditOutcome::EditNumber(field),
                    None => OptionsEditOutcome::Ignored,
                }
            }),
    {
        self.handle_key(color_handled)
    }

    /// While the chooser's list is closed it shows the entry of the composition's size.
    pub fn sync_preset(&mut self, canvas_size: [u32; 2])
        ensures
            *final(self) == if old(self).preset_open {
                *old(self)
            } else {
                ProjectOptionsState { preset_selected: preset_index_of(canvas_size), ..*old(self) }
            },
    {
        if !self.preset_open {
            self.preset_selected = ResolutionPreset::index_for(canvas_size);
        }
    }

    /// Gives the composition `id` the size of the preset listed at `index`. Nothing changes
    /// for `Custom`, for an index past the list or for an unknown composition.
    pub fn apply_resolution_preset(&self, index: usize, project: &mut Project, id: u64)
        ensures
            ({
                match (preset_size_at(index as int), composition_position(old(project).compositions@, id)) {
                    (Some(size), Some(p)) => {
                        &&& final(project).compositions@.len() == old(project).compositions@.len()
                        &&& forall|i: int| 0 <= i < old(project).compositions@.len() && i != p
                            ==> #[trigger] final(project).compositions@[i] == old(project).compositions@[i]
                        &&& final(project).compositions@[p] == (Composition { canvas_size: size, ..old(project).compositions@[p] })
                        &&& final(project).media == old(project).media
                        &&& final(project).pipelines == old(project).pipelines
                        &&& final(project).active_composition == old(project).active_composition
                    },
                    _ => *final(project) == *old(project),
                }
            }),
    {
        let preset = ResolutionPreset::at(index);
        let size = match preset {
            Some(p) => p.dimensions(),
            None => None,
        };
        let size = match size {
            Some(s) => s,
            None => return,
        };
        let position = find_composition(&project.compositions, id);
        match position {
            Some(p) => {
                let mut composition = project.compositions.remove(p);
                composition.canvas_size = size;
                project.compositions.insert(p, composition);
                assert(project.compositions@ =~= old(project).compositions@.update(
                    p as int,
                    Composition { canvas_size: size, ..old(project).compositions@[p as int] },
                ));
            },
            None => {},
        }
    }

    /// Which editor places the text input caret: the colour picker where it shows one, else the
    /// number field being edited.
    pub fn ime_area(&self, color_caret: bool) -> (owner: OptionsCaret)
        ensures
            owner == (if color_caret { OptionsCaret::ColorPicker } else { OptionsCaret::Numbers }),
    {
        if color_caret {
            OptionsCaret::ColorPicker
        } else {
            OptionsCaret::Numbers
        }
    }
}

} // verus!

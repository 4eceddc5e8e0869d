//! The level editor's tool palette, selections and small editing rules.
use vstd::prelude::*;

use crate::level::{LevelObjectKind, LevelTriggerKind, ObjectMeta};

verus! {
/// The groups of the tool palette.
#[derive(Clone, Copy, Debug, PartialEq, Eq, Structural)]
pub enum EditorCategory {
    Building,
    Utility,
    Enemy,
    Triggers,
    Deco,
}
/// What a click in build mode places.
#[derive(Clone, Copy, Debug, PartialEq, Eq, Structural)]
pub enum EditorTool {
    Portalable,
    Solid,
    Hazard,
    Door,
    Checkpoint,
    WorldPortal,
    Text,
    Filth,
    LevelStart,
    LevelEnd,
    EnemySpawnTrigger,
}
#[derive(Clone, Copy, Debug, PartialEq, Eq, Structural)]
pub enum EditorMode {
    Build,
    Edit,
    Delete,
}
/// The kind of the selected object, for the inspector.
#[derive(Clone, Copy, Debug, PartialEq, Eq, Structural)]
pub enum EditorSelectionKind {
    Empty,
    Solid,
    Door,
    Hazard,
    Checkpoint,
    Enemy,
    Trigger,
    Text,
    WorldPortal,
}
pub open spec fn spec_category_index(x: EditorCategory) -> int {
    match x {
        EditorCategory::Building => 0,
        EditorCategory::Utility => 1,
        EditorCategory::Enemy => 2,
        EditorCategory::Triggers => 3,
        EditorCategory::Deco => 4,
    }
}

pub open spec fn spec_category_label(x: EditorCategory) -> Seq<char> {
    match x {
        EditorCategory::Building => "BUILDING"@,
        EditorCategory::Utility => "UTILITY"@,
        EditorCategory::Enemy => "ENEMY"@,
        EditorCategory::Triggers => "TRIGGERS"@,
        EditorCategory::Deco => "DECO"@,
    }
}

/// The tools each category offers, in palette order.
pub open spec fn spec_category_tools(x: EditorCategory) -> Seq<EditorTool> {
    match x {
        EditorCategory::Building => seq![EditorTool::Portalable, EditorTool::Solid, EditorTool::Hazard],
        EditorCategory::Utility => seq![EditorTool::Door, EditorTool::Checkpoint, EditorTool::WorldPortal, EditorTool::Text],
        EditorCategory::Enemy => seq![EditorTool::Filth],
        EditorCategory::Triggers => seq![EditorTool::LevelStart, EditorTool::LevelEnd, EditorTool::EnemySpawnTrigger],
        EditorCategory::Deco => Seq::<EditorTool>::empty(),
    }
}

/// The palette number of each tool, from 1.
pub open spec fn spec_tool_index(x: EditorTool) -> int {
    match x {
        EditorTool::Portalable => 1,
        EditorTool::Solid => 2,
        EditorTool::Hazard => 3,
        EditorTool::Door => 4,
        EditorTool::Checkpoint => 5,
        EditorTool::WorldPortal => 6,
        EditorTool::Text => 7,
        EditorTool::Filth => 8,
        EditorTool::LevelStart => 9,
        EditorTool::LevelEnd => 10,
        EditorTool::EnemySpawnTrigger => 11,
    }
}

pub open spec fn spec_tool_label(x: EditorTool) -> Seq<char> {
    match x {
        EditorTool::Portalable => "P SURF"@,
        EditorTool::Solid => "SURFACE"@,
        EditorTool::Hazard => "ACID"@,
        EditorTool::Door => "DOOR"@,
        EditorTool::Checkpoint => "CHECK"@,
        EditorTool::WorldPortal => "W PORT"@,
        EditorTool::Text => "TEXT"@,
        EditorTool::Filth => "FILTH"@,
        EditorTool::LevelStart => "START"@,
        EditorTool::LevelEnd => "END"@,
        EditorTool::EnemySpawnTrigger => "SPAWN"@,
    }
}

pub open spec fn spec_tool_category(x: EditorTool) -> EditorCategory {
    match x {
        EditorTool::Portalable => EditorCategory::Building,
        EditorTool::Solid => EditorCategory::Building,
        EditorTool::Hazard => EditorCategory::Building,
        EditorTool::Door => EditorCategory::Utility,
        EditorTool::Checkpoint => EditorCategory::Utility,
        EditorTool::WorldPortal => EditorCategory::Utility,
        EditorTool::Text => EditorCategory::Utility,
        EditorTool::Filth => EditorCategory::Enemy,
        EditorTool::LevelStart => EditorCategory::Triggers,
        EditorTool::LevelEnd => EditorCategory::Triggers,
        EditorTool::EnemySpawnTrigger => EditorCategory::Triggers,
    }
}

pub open spec fn spec_mode_index(x: EditorMode) -> int {
    match x {
        EditorMode::Build => 0,
        EditorMode::Edit => 1,
        EditorMode::Delete => 2,
    }
}

pub open spec fn spec_mode_label(x: EditorMode) -> Seq<char> {
    match x {
        EditorMode::Build => "BUILD"@,
        EditorMode::Edit => "EDIT"@,
        EditorMode::Delete => "DELETE"@,
    }
}

pub open spec fn spec_selection_kind_label(x: EditorSelectionKind) -> Seq<char> {
    match x {
        EditorSelectionKind::Empty => "NONE"@,
        EditorSelectionKind::Solid => "SOLID"@,
        EditorSelectionKind::Door => "DOOR"@,
        EditorSelectionKind::Hazard => "ACID"@,
        EditorSelectionKind::Checkpoint => "CHECKPOINT"@,
        EditorSelectionKind::Enemy => "FILTH"@,
        EditorSelectionKind::Trigger => "TRIGGER"@,
        EditorSelectionKind::Text => "TEXT"@,
        EditorSelectionKind::WorldPortal => "WORLD PORTAL"@,
    }
}

pub open spec fn spec_category_from_index(i: int) -> Option<EditorCategory> {
    if i == 0 {
        Some(EditorCategory::Building)
    } else if i == 1 {
        Some(EditorCategory::Utility)
    } else if i == 2 {
        Some(EditorCategory::Enemy)
    } else if i == 3 {
        Some(EditorCategory::Triggers)
    } else if i == 4 {
        Some(EditorCategory::Deco)
    } else {
        None
    }
}

pub open spec fn spec_tool_from_index(i: int) -> Option<EditorTool> {
    if i == 1 {
        Some(EditorTool::Portalable)
    } else if i == 2 {
        Some(EditorTool::Solid)
    } else if i == 3 {
        Some(EditorTool::Hazard)
    } else if i == 4 {
        Some(EditorTool::Door)
    } else if i == 5 {
        Some(EditorTool::Checkpoint)
    } else if i == 6 {
        Some(EditorTool::WorldPortal)
    } else if i == 7 {
        Some(EditorTool::Text)
    } else if i == 8 {
        Some(EditorTool::Filth)
    } else if i == 9 {
        Some(EditorTool::LevelStart)
    } else if i == 10 {
        Some(EditorTool::LevelEnd)
    } else if i == 11 {
        Some(EditorTool::EnemySpawnTrigger)
    } else {
        None
    }
}

pub open spec fn spec_mode_from_index(i: int) -> Option<EditorMode> {
    if i == 0 {
        Some(EditorMode::Build)
    } else if i == 1 {
        Some(EditorMode::Edit)
    } else if i == 2 {
        Some(EditorMode::Delete)
    } else {
        None
    }
}

impl EditorCategory {
    pub const COUNT: usize = 5;

    pub fn index(self) -> (r: usize)
        ensures
            r == spec_category_index(self),
    {
        match self {
            Self::Building => 0,
            Self::Utility => 1,
            Self::Enemy => 2,
            Self::Triggers => 3,
            Self::Deco => 4,
        }
    }

    pub fn from_index(index: usize) -> (r: Option<EditorCategory>)
        ensures
            r == spec_category_from_index(index as int),
    {
        match index {
            0 => Some(Self::Building),
            1 => Some(Self::Utility),
            2 => Some(Self::Enemy),
            3 => Some(Self::Triggers),
            4 => Some(Self::Deco),
            _ => None,
        }
    }

    pub fn label(self) -> (r: &'static str)
        ensures
            r@ == spec_category_label(self),
    {
        match self {
            Self::Building => "BUILDING",
            Self::Utility => "UTILITY",
            Self::Enemy => "ENEMY",
            Self::Triggers => "TRIGGERS",
            Self::Deco => "DECO",
        }
    }

    /// The tools of this category, in palette order.
    pub fn tools(self) -> (r: Vec<EditorTool>)
        ensures
            r@ == spec_category_tools(self),
    {
        let mut v: Vec<EditorTool> = Vec::new();
        match self {
            Self::Building => {
                v.push(EditorTool::Portalable);
                v.push(EditorTool::Solid);
                v.push(EditorTool::Hazard);
            },
            Self::Utility => {
                v.push(EditorTool::Door);
                v.push(EditorTool::Checkpoint);
                v.push(EditorTool::WorldPortal);
                v.push(EditorTool::Text);
            },
            Self::Enemy => {
                v.push(EditorTool::Filth);
            },
            Self::Triggers => {
                v.push(EditorTool::LevelStart);
                v.push(EditorTool::LevelEnd);
                v.push(EditorTool::EnemySpawnTrigger);
            },
            Self::Deco => {
            },
        }
        assert(v@ =~= spec_category_tools(self));
        v
    }

    pub fn contains_tool(self, tool: EditorTool) -> (b: bool)
        ensures
            b == spec_category_tools(self).contains(tool),
    {
        let tools = self.tools();
        let mut i: usize = 0;
        while i < tools.len()
            invariant
                tools@ == spec_category_tools(self),
                i <= tools@.len(),
                forall|k: int| 0 <= k < i ==> tools@[k] != tool,
            decreases tools@.len() - i,
        {
            if tools[i] == tool {
                assert(tools@[i as int] == tool);
                return true;
            }
            i = i + 1;
        }
        false
    }
}

impl EditorTool {
    pub fn portalable(self) -> (b: bool)
        ensures
            b == (self is Portalable),
    {
        matches!(self, Self::Portalable)
    }

    pub fn category(self) -> (r: EditorCategory)
        ensures
            r == spec_tool_category(self),
    {
        match self {
            Self::Portalable => EditorCategory::Building,
            Self::Solid => EditorCategory::Building,
            Self::Hazard => EditorCategory::Building,
            Self::Door => EditorCategory::Utility,
            Self::Checkpoint => EditorCategory::Utility,
            Self::WorldPortal => EditorCategory::Utility,
            Self::Text => EditorCategory::Utility,
            Self::Filth => EditorCategory::Enemy,
            Self::LevelStart => EditorCategory::Triggers,
            Self::LevelEnd => EditorCategory::Triggers,
            Self::EnemySpawnTrigger => EditorCategory::Triggers,
        }
    }

    pub fn index(self) -> (r: usize)
        ensures
            r == spec_tool_index(self),
    {
        match self {
            Self::Portalable => 1,
            Self::Solid => 2,
            Self::Hazard => 3,
            Self::Door => 4,
            Self::Checkpoint => 5,
            Self::WorldPortal => 6,
            Self::Text => 7,
            Self::Filth => 8,
            Self::LevelStart => 9,
            Self::LevelEnd => 10,
            Self::EnemySpawnTrigger => 11,
        }
    }

    pub fn from_index(index: usize) -> (r: Option<EditorTool>)
        ensures
            r == spec_tool_from_index(index as int),
    {
        match index {
            1 => Some(Self::Portalable),
            2 => Some(Self::Solid),
            3 => Some(Self::Hazard),
            4 => Some(Self::Door),
            5 => Some(Self::Checkpoint),
            6 => Some(Self::WorldPortal),
            7 => Some(Self::Text),
            8 => Some(Self::Filth),
            9 => Some(Self::LevelStart),
            10 => Some(Self::LevelEnd),
            11 => Some(Self::EnemySpawnTrigger),
            _ => None,
        }
    }

    pub fn label(self) -> (r: &'static str)
        ensures
            r@ == spec_tool_label(self),
    {
        match self {
            Self::Portalable => "P SURF",
            Self::Solid => "SURFACE",
            Self::Hazard => "ACID",
            Self::Door => "DOOR",
            Self::Checkpoint => "CHECK",
            Self::WorldPortal => "W PORT",
            Self::Text => "TEXT",
            Self::Filth => "FILTH",
            Self::LevelStart => "START",
            Self::LevelEnd => "END",
            Self::EnemySpawnTrigger => "SPAWN",
        }
    }

}

impl EditorMode {
    pub const COUNT: usize = 3;

    pub fn index(self) -> (r: usize)
        ensures
            r == spec_mode_index(self),
    {
        match self {
            Self::Build => 0,
            Self::Edit => 1,
            Self::Delete => 2,
        }
    }

    pub fn from_index(index: usize) -> (r: Option<EditorMode>)
        ensures
            r == spec_mode_from_index(index as int),
    {
        match index {
            0 => Some(Self::Build),
            1 => Some(Self::Edit),
            2 => Some(Self::Delete),
            _ => None,
        }
    }

    pub fn label(self) -> (r: &'static str)
        ensures
            r@ == spec_mode_label(self),
    {
        match self {
            Self::Build => "BUILD",
            Self::Edit => "EDIT",
            Self::Delete => "DELETE",
        }
    }

}

impl EditorSelectionKind {
    pub fn label(self) -> (r: &'static str)
        ensures
            r@ == spec_selection_kind_label(self),
    {
        match self {
            Self::Empty => "NONE",
            Self::Solid => "SOLID",
            Self::Door => "DOOR",
            Self::Hazard => "ACID",
            Self::Checkpoint => "CHECKPOINT",
            Self::Enemy => "FILTH",
            Self::Trigger => "TRIGGER",
            Self::Text => "TEXT",
            Self::WorldPortal => "WORLD PORTAL",
        }
    }

}

#[derive(Clone, Copy, Debug, PartialEq, Eq, Structural)]
pub enum EditorQuickAction {
    Rotate,
    Snap,
    Special,
    Save,
}
impl EditorQuickAction {
    pub fn from_index(index: usize) -> (r: Option<EditorQuickAction>)
        ensures
            index == 0 ==> r == Some(EditorQuickAction::Rotate),
            index == 1 ==> r == Some(EditorQuickAction::Snap),
            index == 2 ==> r == Some(EditorQuickAction::Special),
            index == 3 ==> r == Some(EditorQuickAction::Save),
            index >= 4 ==> r is None,
    {
        match index {
            0 => Some(Self::Rotate),
            1 => Some(Self::Snap),
            2 => Some(Self::Special),
            3 => Some(Self::Save),
            _ => None,
        }
    }
}

#[derive(Clone, Copy, Debug, PartialEq, Eq, Structural)]
pub enum EditorTopAction {
    Undo,
    Delete,
    Special,
    Save,
}
impl EditorTopAction {
    pub fn from_index(index: usize) -> (r: Option<EditorTopAction>)
        ensures
            index == 0 ==> r == Some(EditorTopAction::Undo),
            index == 1 ==> r == Some(EditorTopAction::Delete),
            index == 2 ==> r == Some(EditorTopAction::Special),
            index == 3 ==> r == Some(EditorTopAction::Save),
            index >= 4 ==> r is None,
    {
        match index {
            0 => Some(Self::Undo),
            1 => Some(Self::Delete),
            2 => Some(Self::Special),
            3 => Some(Self::Save),
            _ => None,
        }
    }
}

/// The palette slots of a category that hold real tools, by tool number.
pub open spec fn spec_palette_real_tools(category_index: int) -> Seq<usize> {
    if category_index == 0 {
        seq![1, 2, 3]
    } else if category_index == 1 {
        seq![4, 5, 6, 7]
    } else if category_index == 2 {
        seq![8]
    } else if category_index == 3 {
        seq![9, 10, 11]
    } else {
        Seq::<usize>::empty()
    }
}

pub fn editor_palette_real_tools(category_index: usize) -> (r: Vec<usize>)
    ensures
        r@ == spec_palette_real_tools(category_index as int),
{
    let mut v: Vec<usize> = Vec::new();
    if category_index == 0 {
        v.push(1);
        v.push(2);
        v.push(3);
    } else if category_index == 1 {
        v.push(4);
        v.push(5);
        v.push(6);
        v.push(7);
    } else if category_index == 2 {
        v.push(8);
    } else if category_index == 3 {
        v.push(9);
        v.push(10);
        v.push(11);
    }
    assert(v@ =~= spec_palette_real_tools(category_index as int));
    v
}

/// The number of palette slots a category shows.
pub fn editor_palette_slot_count(category_index: usize) -> (n: usize)
    ensures
        n == (if category_index == 1 || category_index == 3 {
            7usize
        } else if category_index == 2 {
            5usize
        } else {
            6usize
        }),
{
    match category_index {
        0 => 6,
        1 => 7,
        2 => 5,
        3 => 7,
        4 => 6,
        _ => 6,
    }
}

/// A selected object of the level being edited: its kind and its index.
#[derive(Clone, Copy, Debug, PartialEq, Eq, Structural)]
pub enum EditorSelection {
    Solid(usize),
    Door(usize),
    Hazard(usize),
    Checkpoint(usize),
    Enemy(usize),
    Trigger(usize),
    Text(usize),
    WorldPortal(usize),
}

/// The order in which selections are listed: by kind, then by index.
pub open spec fn spec_selection_sort_key(s: EditorSelection) -> (usize, usize) {
    match s {
        EditorSelection::Solid(index) => (0, index),
        EditorSelection::Door(index) => (1, index),
        EditorSelection::Hazard(index) => (2, index),
        EditorSelection::Checkpoint(index) => (3, index),
        EditorSelection::Enemy(index) => (4, index),
        EditorSelection::Trigger(index) => (5, index),
        EditorSelection::Text(index) => (6, index),
        EditorSelection::WorldPortal(index) => (7, index),
    }
}

/// The object a selection names.
pub open spec fn spec_selection_object_key(s: EditorSelection) -> (LevelObjectKind, usize) {
    match s {
        EditorSelection::Solid(index) => (LevelObjectKind::Solid, index),
        EditorSelection::Door(index) => (LevelObjectKind::Door, index),
        EditorSelection::Hazard(index) => (LevelObjectKind::Hazard, index),
        EditorSelection::Checkpoint(index) => (LevelObjectKind::Checkpoint, index),
        EditorSelection::Enemy(index) => (LevelObjectKind::Enemy, index),
        EditorSelection::Trigger(index) => (LevelObjectKind::Trigger, index),
        EditorSelection::Text(index) => (LevelObjectKind::Text, index),
        EditorSelection::WorldPortal(index) => (LevelObjectKind::WorldPortal, index),
    }
}

pub fn selection_sort_key(selection: &EditorSelection) -> (r: (usize, usize))
    ensures
        r == spec_selection_sort_key(*selection),
{
    match selection {
        EditorSelection::Solid(index) => (0, *index),
        EditorSelection::Door(index) => (1, *index),
        EditorSelection::Hazard(index) => (2, *index),
        EditorSelection::Checkpoint(index) => (3, *index),
        EditorSelection::Enemy(index) => (4, *index),
        EditorSelection::Trigger(index) => (5, *index),
        EditorSelection::Text(index) => (6, *index),
        EditorSelection::WorldPortal(index) => (7, *index),
    }
}

pub fn selection_object_key(selection: EditorSelection) -> (r: (LevelObjectKind, usize))
    ensures
        r == spec_selection_object_key(selection),
{
    match selection {
        EditorSelection::Solid(index) => (LevelObjectKind::Solid, index),
        EditorSelection::Door(index) => (LevelObjectKind::Door, index),
        EditorSelection::Hazard(index) => (LevelObjectKind::Hazard, index),
        EditorSelection::Checkpoint(index) => (LevelObjectKind::Checkpoint, index),
        EditorSelection::Enemy(index) => (LevelObjectKind::Enemy, index),
        EditorSelection::Trigger(index) => (LevelObjectKind::Trigger, index),
        EditorSelection::Text(index) => (LevelObjectKind::Text, index),
        EditorSelection::WorldPortal(index) => (LevelObjectKind::WorldPortal, index),
    }
}

/// The indices of the selected objects, kind by kind, in selection order.
#[derive(Clone, Debug)]
pub struct SelectionBuckets {
    pub solids: Vec<usize>,
    pub doors: Vec<usize>,
    pub hazards: Vec<usize>,
    pub checkpoints: Vec<usize>,
    pub enemies: Vec<usize>,
    pub triggers: Vec<usize>,
    pub texts: Vec<usize>,
    pub world_portals: Vec<usize>,
}

/// The indices of the selections of one kind, in order.
pub open spec fn indices_of_kind(sel: Seq<EditorSelection>, kind: LevelObjectKind) -> Seq<usize>
    decreases sel.len(),
{
    if sel.len() == 0 {
        seq![]
    } else {
        indices_of_kind(sel.drop_last(), kind) + if spec_selection_object_key(sel.last()).0 == kind {
            seq![spec_selection_object_key(sel.last()).1]
        } else {
            seq![]
        }
    }
}

impl SelectionBuckets {
    pub open spec fn bucket(&self, kind: LevelObjectKind) -> Seq<usize> {
        match kind {
            LevelObjectKind::Solid => self.solids@,
            LevelObjectKind::Door => self.doors@,
            LevelObjectKind::Hazard => self.hazards@,
            LevelObjectKind::Checkpoint => self.checkpoints@,
            LevelObjectKind::Enemy => self.enemies@,
            LevelObjectKind::Trigger => self.triggers@,
            LevelObjectKind::Text => self.texts@,
            LevelObjectKind::WorldPortal => self.world_portals@,
        }
    }

    pub fn new() -> (b: Self)
        ensures
            forall|k: LevelObjectKind| #[trigger] b.bucket(k) == Seq::<usize>::empty(),
    {
        SelectionBuckets {
            solids: Vec::new(),
            doors: Vec::new(),
            hazards: Vec::new(),
            checkpoints: Vec::new(),
            enemies: Vec::new(),
            triggers: Vec::new(),
            texts: Vec::new(),
            world_portals: Vec::new(),
        }
    }

    /// Files one selection under its kind.
    pub fn push(&mut self, selection: EditorSelection)
        ensures
            forall|k: LevelObjectKind| #[trigger] final(self).bucket(k) == if spec_selection_object_key(selection).0 == k {
                old(self).bucket(k).push(spec_selection_object_key(selection).1)
            } else {
                old(self).bucket(k)
            },
    {
        match selection {
            EditorSelection::Solid(index) => self.solids.push(index),
            EditorSelection::Door(index) => self.doors.push(index),
            EditorSelection::Hazard(index) => self.hazards.push(index),
            EditorSelection::Checkpoint(index) => self.checkpoints.push(index),
            EditorSelection::Enemy(index) => self.enemies.push(index),
            EditorSelection::Trigger(index) => self.triggers.push(index),
            EditorSelection::Text(index) => self.texts.push(index),
            EditorSelection::WorldPortal(index) => self.world_portals.push(index),
        }
    }

    /// Sorts selections into buckets by kind, keeping their order within each kind.
    pub fn from_selected(selected: &[EditorSelection]) -> (b: Self)
        ensures
            forall|k: LevelObjectKind| #[trigger] b.bucket(k) == indices_of_kind(selected@, k),
    {
        let mut buckets = SelectionBuckets::new();
        let mut i: usize = 0;
        while i < selected.len()
            invariant
                i <= selected@.len(),
                forall|k: LevelObjectKind| #[trigger]
                    buckets.bucket(k) == indices_of_kind(selected@.take(i as int), k),
            decreases selected@.len() - i,
        {
            buckets.push(selected[i]);
            proof {
                assert(selected@.take(i + 1).drop_last() =~= selected@.take(i as int));
                assert(selected@.take(i + 1).last() == selected@[i as int]);
                assert forall|k: LevelObjectKind| #[trigger]
                    buckets.bucket(k) == indices_of_kind(selected@.take(i + 1), k) by {
                    if spec_selection_object_key(selected@[i as int]).0 == k {
                        assert(indices_of_kind(selected@.take(i + 1), k) =~= indices_of_kind(
                            selected@.take(i as int),
                            k,
                        ).push(spec_selection_object_key(selected@[i as int]).1));
                    } else {
                        assert(indices_of_kind(selected@.take(i + 1), k) =~= indices_of_kind(
                            selected@.take(i as int),
                            k,
                        ));
                    }
                }
            }
            i = i + 1;
        }
        assert(selected@.take(i as int) =~= selected@);
        buckets
    }
}

/// A display resolution in pixels.
#[derive(Clone, Copy, Debug, PartialEq, Eq, Structural)]
pub struct Resolution {
    pub width: u32,
    pub height: u32,
}

/// The common resolutions the options menu offers, largest first.
pub open spec fn resolution_table() -> Seq<(u32, u32)> {
    seq![
        (3840, 2160),
        (3440, 1440),
        (3200, 1800),
        (2560, 1440),
        (2560, 1080),
        (2304, 1296),
        (2048, 1152),
        (1920, 1200),
        (1920, 1080),
        (1920, 800),
        (1680, 1050),
        (1600, 900),
        (1440, 1080),
        (1440, 960),
        (1440, 900),
        (1366, 768),
        (1280, 1024),
        (1280, 720),
        (1024, 768),
        (960, 540),
        (800, 600),
        (640, 480),
        (320, 240),
        (320, 200),
    ]
}

/// The entries of `t` that fit within `max_width` by `max_height`, in order.
pub open spec fn fitting(t: Seq<(u32, u32)>, max_width: u32, max_height: u32) -> Seq<Resolution>
    decreases t.len(),
{
    if t.len() == 0 {
        seq![]
    } else {
        fitting(t.drop_last(), max_width, max_height) + if t.last().0 <= max_width && t.last().1
            <= max_height {
            seq![Resolution { width: t.last().0, height: t.last().1 }]
        } else {
            seq![]
        }
    }
}

fn resolution_table_vec() -> (v: Vec<(u32, u32)>)
    ensures
        v@ == resolution_table(),
{
    let mut v: Vec<(u32, u32)> = Vec::new();
    v.push((3840, 2160));
    v.push((3440, 1440));
    v.push((3200, 1800));
    v.push((2560, 1440));
    v.push((2560, 1080));
    v.push((2304, 1296));
    v.push((2048, 1152));
    v.push((1920, 1200));
    v.push((1920, 1080));
    v.push((1920, 800));
    v.push((1680, 1050));
    v.push((1600, 900));
    v.push((1440, 1080));
    v.push((1440, 960));
    v.push((1440, 900));
    v.push((1366, 768));
    v.push((1280, 1024));
    v.push((1280, 720));
    v.push((1024, 768));
    v.push((960, 540));
    v.push((800, 600));
    v.push((640, 480));
    v.push((320, 240));
    v.push((320, 200));
    assert(v@ =~= resolution_table());
    v
}

/// The common resolutions that fit the monitor.
pub fn common_resolutions(max_width: u32, max_height: u32) -> (r: Vec<Resolution>)
    ensures
        r@ == fitting(resolution_table(), max_width, max_height),
{
    let table = resolution_table_vec();
    let mut out: Vec<Resolution> = Vec::new();
    let mut i: usize = 0;
    while i < table.len()
        invariant
            table@ == resolution_table(),
            i <= table@.len(),
            out@ == fitting(table@.take(i as int), max_width, max_height),
        decreases table@.len() - i,
    {
        let (width, height) = table[i];
        assert(table@.take(i + 1).drop_last() =~= table@.take(i as int));
        if width <= max_width && height <= max_height {
            out.push(Resolution { width, height });
        }
        assert(out@ =~= fitting(table@.take(i + 1), max_width, max_height));
        i = i + 1;
    }
    assert(table@.take(i as int) =~= table@);
    out
}

/// Every tool is offered by the category it reports.
pub proof fn lemma_tool_in_its_category(t: EditorTool)
    ensures
        spec_category_tools(spec_tool_category(t)).contains(t),
{
    let tools = spec_category_tools(spec_tool_category(t));
    match t {
        EditorTool::Portalable => {
            assert(tools[0] == t);
        },
        EditorTool::Solid => {
            assert(tools[1] == t);
        },
        EditorTool::Hazard => {
            assert(tools[2] == t);
        },
        EditorTool::Door => {
            assert(tools[0] == t);
        },
        EditorTool::Checkpoint => {
            assert(tools[1] == t);
        },
        EditorTool::WorldPortal => {
            assert(tools[2] == t);
        },
        EditorTool::Text => {
            assert(tools[3] == t);
        },
        EditorTool::Filth => {
            assert(tools[0] == t);
        },
        EditorTool::LevelStart => {
            assert(tools[0] == t);
        },
        EditorTool::LevelEnd => {
            assert(tools[1] == t);
        },
        EditorTool::EnemySpawnTrigger => {
            assert(tools[2] == t);
        },
    }
}

/// The palette numbers of a category's real tools are the numbers of the tools it offers, in
/// the same order.
pub proof fn lemma_palette_matches_tools(c: EditorCategory)
    ensures
        spec_palette_real_tools(spec_category_index(c)) == spec_category_tools(c).map_values(
            |t: EditorTool| spec_tool_index(t) as usize,
        ),
{
    assert(spec_palette_real_tools(spec_category_index(c)) =~= spec_category_tools(c).map_values(
        |t: EditorTool| spec_tool_index(t) as usize,
    ));
}

/// Category, tool and mode numbers read back as what they number.
pub proof fn lemma_editor_index_round_trips(c: EditorCategory, t: EditorTool, m: EditorMode)
    ensures
        spec_category_from_index(spec_category_index(c)) == Some(c),
        spec_tool_from_index(spec_tool_index(t)) == Some(t),
        spec_mode_from_index(spec_mode_index(m)) == Some(m),
{
}

// ---------------------------------------------------------------------------
// Editing rules.

/// `value` moved by `delta`, held within the `u16` range.
pub open spec fn spec_offset_u16(value: u16, delta: i16) -> u16 {
    let v = value + delta;
    if v < 0 {
        0
    } else if v > 65535 {
        65535
    } else {
        v as u16
    }
}

/// Moves `value` by `delta`, saturating at both ends of the `u16` range.
pub fn offset_u16(value: u16, delta: i16) -> (r: u16)
    ensures
        r == spec_offset_u16(value, delta),
{
    if delta < 0 {
        let d = (0 - (delta as i32)) as u16;
        if d > value {
            0
        } else {
            value - d
        }
    } else {
        let d = delta as u16;
        if value > 65535 - d {
            65535
        } else {
            value + d
        }
    }
}

/// Moves `value` by `delta` as `offset_u16` does, but never below `min`.
pub fn offset_u16_min(value: u16, delta: i16, min: u16) -> (r: u16)
    ensures
        r == if spec_offset_u16(value, delta) < min {
            min
        } else {
            spec_offset_u16(value, delta)
        },
{
    let v = offset_u16(value, delta);
    if v < min {
        min
    } else {
        v
    }
}

/// The items of `s` whose positions are not listed in `indices`, in order.
pub open spec fn without_indices<T>(s: Seq<T>, indices: Seq<usize>) -> Seq<T>
    decreases s.len(),
{
    if s.len() == 0 {
        seq![]
    } else {
        without_indices(s.drop_last(), indices) + if indices.contains((s.len() - 1) as usize) {
            Seq::<T>::empty()
        } else {
            seq![s.last()]
        }
    }
}

/// The positions below `n` that `indices` does not list, in increasing order.
pub open spec fn kept_positions(n: nat, indices: Seq<usize>) -> Seq<int>
    decreases n,
{
    if n == 0 {
        seq![]
    } else {
        kept_positions((n - 1) as nat, indices) + if indices.contains((n - 1) as usize) {
            Seq::<int>::empty()
        } else {
            seq![n - 1]
        }
    }
}

/// The positions below `n` that `indices` lists, as a set.
pub open spec fn listed_below(n: nat, indices: Seq<usize>) -> Set<usize>
    decreases n,
{
    if n == 0 {
        Set::empty()
    } else if indices.contains((n - 1) as usize) {
        listed_below((n - 1) as nat, indices).insert((n - 1) as usize)
    } else {
        listed_below((n - 1) as nat, indices)
    }
}

proof fn lemma_kept_positions(s_len: nat, indices: Seq<usize>)
    requires
        s_len <= usize::MAX + 1,
    ensures
        kept_positions(s_len, indices).len() + listed_below(s_len, indices).len() == s_len,
        listed_below(s_len, indices).finite(),
        forall|k: usize| #[trigger]
            listed_below(s_len, indices).contains(k) == (k < s_len && indices.contains(k)),
        forall|i: int, j: int|
            0 <= i < j < kept_positions(s_len, indices).len() ==> kept_positions(s_len, indices)[i]
                < kept_positions(s_len, indices)[j],
        forall|i: int|
            0 <= i < kept_positions(s_len, indices).len() ==> 0 <= #[trigger] kept_positions(
                s_len,
                indices,
            )[i] < s_len && !indices.contains(kept_positions(s_len, indices)[i] as usize),
        forall|k: int|
            0 <= k < s_len && !indices.contains(k as usize) ==> #[trigger] kept_positions(
                s_len,
                indices,
            ).contains(k),
    decreases s_len,
{
    broadcast use vstd::set::axiom_set_insert_len, vstd::set::axiom_set_insert_finite;

    if s_len > 0 {
        let n1 = (s_len - 1) as nat;
        lemma_kept_positions(n1, indices);
        let p = kept_positions(n1, indices);
        let kp = kept_positions(s_len, indices);
        if indices.contains(n1 as usize) {
            assert(kp =~= p);
            assert(!listed_below(n1, indices).contains(n1 as usize));
        } else {
            assert(kp =~= p.push(n1 as int));
            assert forall|k: int|
                0 <= k < s_len && !indices.contains(k as usize) implies #[trigger] kp.contains(k) by {
                if k < n1 {
                    assert(p.contains(k));
                    let j = choose|j: int| 0 <= j < p.len() && p[j] == k;
                    assert(kp[j] == k);
                } else {
                    assert(kp[p.len() as int] == k);
                }
            }
        }
    }
}

proof fn lemma_without_is_kept<T>(s: Seq<T>, indices: Seq<usize>)
    ensures
        without_indices(s, indices) == kept_positions(s.len(), indices).map_values(|k: int| s[k]),
    decreases s.len(),
{
    if s.len() > 0 {
        let s1 = s.drop_last();
        lemma_without_is_kept(s1, indices);
        lemma_kept_positions_below(s1.len(), indices);
        let p = kept_positions(s1.len(), indices);
        assert(p.map_values(|k: int| s1[k]) =~= p.map_values(|k: int| s[k]));
        assert(without_indices(s, indices) =~= kept_positions(s.len(), indices).map_values(
            |k: int| s[k],
        ));
    }
}

proof fn lemma_kept_positions_below(n: nat, indices: Seq<usize>)
    ensures
        forall|i: int|
            0 <= i < kept_positions(n, indices).len() ==> 0 <= #[trigger] kept_positions(n, indices)[i]
                < n,
    decreases n,
{
    if n > 0 {
        lemma_kept_positions_below((n - 1) as nat, indices);
        let p = kept_positions((n - 1) as nat, indices);
        if indices.contains((n - 1) as usize) {
            assert(kept_positions(n, indices) =~= p);
        } else {
            assert(kept_positions(n, indices) =~= p.push(n - 1));
        }
    }
}

/// Removing the listed positions keeps exactly the items at the unlisted positions, in
/// their order: the result is `s` at an increasing run of positions, which are exactly the
/// positions `indices` does not list; it is shorter than `s` by the number of distinct
/// positions listed.
pub proof fn lemma_remove_indices_law<T>(s: Seq<T>, indices: Seq<usize>)
    requires
        s.len() <= usize::MAX,
        forall|i: int| 0 <= i < indices.len() ==> #[trigger] indices[i] < s.len(),
    ensures
        without_indices(s, indices).len() == s.len() - indices.to_set().len(),
        without_indices(s, indices) == kept_positions(s.len(), indices).map_values(|k: int| s[k]),
        forall|i: int, j: int|
            0 <= i < j < kept_positions(s.len(), indices).len() ==> kept_positions(s.len(), indices)[i]
                < kept_positions(s.len(), indices)[j],
        forall|k: int|
            0 <= k < s.len() ==> (#[trigger] kept_positions(s.len(), indices).contains(k)
                <==> !indices.contains(k as usize)),
{
    lemma_kept_positions(s.len(), indices);
    lemma_without_is_kept(s, indices);
    assert(listed_below(s.len(), indices) =~= indices.to_set()) by {
        assert forall|k: usize| indices.to_set().contains(k) implies k < s.len() by {
            let i = choose|i: int| 0 <= i < indices.len() && indices[i] == k;
            assert(indices[i] < s.len());
        }
    }
    let kp = kept_positions(s.len(), indices);
    assert forall|k: int| 0 <= k < s.len() implies (#[trigger] kp.contains(k)
        <==> !indices.contains(k as usize)) by {
        if kp.contains(k) {
            let j = choose|j: int| 0 <= j < kp.len() && kp[j] == k;
            assert(!indices.contains(kp[j] as usize));
        }
    }
}

/// `s` back to front.
pub open spec fn reversed<T>(s: Seq<T>) -> Seq<T>
    decreases s.len(),
{
    if s.len() == 0 {
        seq![]
    } else {
        seq![s.last()] + reversed(s.drop_last())
    }
}

fn contains_index(indices: &Vec<usize>, j: usize) -> (b: bool)
    ensures
        b == indices@.contains(j),
{
    let mut i: usize = 0;
    while i < indices.len()
        invariant
            i <= indices@.len(),
            forall|k: int| 0 <= k < i ==> indices@[k] != j,
        decreases indices@.len() - i,
    {
        if indices[i] == j {
            assert(indices@[i as int] == j);
            return true;
        }
        i = i + 1;
    }
    false
}

/// Removes the items at the given positions, each once however often it is listed, keeping
/// the order of the others.
pub fn remove_indices<T>(items: &mut Vec<T>, indices: Vec<usize>)
    requires
        forall|i: int| 0 <= i < indices@.len() ==> #[trigger] indices@[i] < old(items)@.len(),
    ensures
        final(items)@ == without_indices(old(items)@, indices@),
        final(items)@.len() == old(items)@.len() - indices@.to_set().len(),
        final(items)@ == kept_positions(old(items)@.len(), indices@).map_values(
            |k: int| old(items)@[k],
        ),
{
    let total: usize = items.len();
    proof {
        assert(items@.len() == total);
        lemma_remove_indices_law(items@, indices@);
    }
    let ghost original = items@;
    let mut kept_back: Vec<T> = Vec::new();
    let mut j = items.len();
    assert(original.take(j as int) =~= original);
    while j > 0
        invariant
            j <= original.len(),
            items@ == original.take(j as int),
            without_indices(original, indices@) == without_indices(original.take(j as int), indices@)
                + reversed(kept_back@),
        decreases j,
    {
        let x = items.pop().unwrap();
        j = j - 1;
        let ghost t = original.take(j + 1);
        assert(t.drop_last() =~= original.take(j as int));
        assert(t.last() == x);
        assert(items@ =~= original.take(j as int));
        let ghost before = kept_back@;
        if !contains_index(&indices, j) {
            kept_back.push(x);
            assert(kept_back@.drop_last() =~= before);
            assert(reversed(kept_back@) == seq![x] + reversed(before));
            assert(without_indices(original.take(j as int), indices@) + seq![x] + reversed(before)
                =~= without_indices(original.take(j as int), indices@) + (seq![x] + reversed(
                before,
            )));
        } else {
            assert(without_indices(t, indices@) =~= without_indices(original.take(j as int), indices@));
        }
    }
    assert(without_indices(original.take(0), indices@) =~= Seq::<T>::empty());
    assert(Seq::<T>::empty() + reversed(kept_back@) =~= reversed(kept_back@));
    let ghost target = reversed(kept_back@);
    assert(items@ + reversed(kept_back@) =~= target);
    while kept_back.len() > 0
        invariant
            items@ + reversed(kept_back@) == target,
        decreases kept_back@.len(),
    {
        let ghost before = kept_back@;
        let x = kept_back.pop().unwrap();
        assert(before.drop_last() =~= kept_back@);
        assert(reversed(before) == seq![x] + reversed(kept_back@));
        items.push(x);
        assert(items@ + reversed(kept_back@) =~= items@.drop_last() + (seq![x] + reversed(
            kept_back@,
        )));
    }
    assert(reversed(kept_back@) =~= Seq::<T>::empty());
    assert(items@ + Seq::<T>::empty() =~= items@);
}


/// `v` clamped to the `i16` range.
pub open spec fn spec_saturate_i16(v: int) -> i16 {
    if v < -32768 {
        -32768i16
    } else if v > 32767 {
        32767i16
    } else {
        v as i16
    }
}

/// `a + b`, saturating at both ends of the `i16` range.
pub fn saturating_add_i16(a: i16, b: i16) -> (r: i16)
    ensures
        r == spec_saturate_i16(a + b),
{
    let v: i32 = a as i32 + b as i32;
    if v < -32768 {
        -32768
    } else if v > 32767 {
        32767
    } else {
        v as i16
    }
}

/// The metadata of an object after a group and layer step: the group id moves within the
/// `u16` range, the editor layer saturates.
pub fn adjusted_object_meta(meta: ObjectMeta, group_delta: i16, layer_delta: i16) -> (r: ObjectMeta)
    ensures
        r.group_id == spec_offset_u16(meta.group_id, group_delta),
        r.editor_layer == spec_saturate_i16(meta.editor_layer + layer_delta),
{
    ObjectMeta {
        group_id: offset_u16(meta.group_id, group_delta),
        editor_layer: saturating_add_i16(meta.editor_layer, layer_delta),
    }
}

/// The id, receiver id and priority of a world portal after a step: the ids move within
/// the `u16` range, the priority saturates.
pub fn adjusted_world_portal_ids(
    id: u16,
    receiver_id: u16,
    priority: i16,
    id_delta: i16,
    receiver_delta: i16,
    priority_delta: i16,
) -> (r: (u16, u16, i16))
    ensures
        r == (
            spec_offset_u16(id, id_delta),
            spec_offset_u16(receiver_id, receiver_delta),
            spec_saturate_i16(priority + priority_delta),
        ),
{
    (
        offset_u16(id, id_delta),
        offset_u16(receiver_id, receiver_delta),
        saturating_add_i16(priority, priority_delta),
    )
}

/// With nothing selected, a layer step (and no group step) moves the current layer;
/// `None` when the step does nothing.
pub fn unselected_layer_step(current_layer: i16, group_delta: i16, layer_delta: i16) -> (r: Option<i16>)
    ensures
        (group_delta == 0 && layer_delta != 0) ==> r == Some(
            spec_saturate_i16(current_layer + layer_delta),
        ),
        !(group_delta == 0 && layer_delta != 0) ==> r is None,
{
    if group_delta == 0 && layer_delta != 0 {
        Some(saturating_add_i16(current_layer, layer_delta))
    } else {
        None
    }
}

/// The id and wave of an enemy spawn after a step: both stay at least 1, and a wave of 0
/// counts as 1 before the step.
pub fn adjusted_enemy_spawn(spawn_id: u16, spawn_wave: u16, id_delta: i16, wave_delta: i16) -> (r: (
    u16,
    u16,
))
    ensures
        r.0 == (if spec_offset_u16(spawn_id, id_delta) < 1 { 1 } else { spec_offset_u16(spawn_id, id_delta) }),
        r.1 == ({
            let w = if spawn_wave < 1 { 1u16 } else { spawn_wave };
            if spec_offset_u16(w, wave_delta) < 1 { 1 } else { spec_offset_u16(w, wave_delta) }
        }),
{
    let w = if spawn_wave < 1 { 1u16 } else { spawn_wave };
    (offset_u16_min(spawn_id, id_delta, 1), offset_u16_min(w, wave_delta, 1))
}

/// An enemy-spawn trigger after an id step (the id stays at least 1); `None` for the other
/// kinds of trigger, which the step leaves alone.
pub fn adjusted_spawn_trigger(kind: LevelTriggerKind, id_delta: i16) -> (r: Option<LevelTriggerKind>)
    ensures
        match kind {
            LevelTriggerKind::EnemySpawn { enemy_id } => r == Some(
                LevelTriggerKind::EnemySpawn {
                    enemy_id: if spec_offset_u16(enemy_id, id_delta) < 1 {
                        1u16
                    } else {
                        spec_offset_u16(enemy_id, id_delta)
                    },
                },
            ),
            _ => r is None,
        },
{
    match kind {
        LevelTriggerKind::EnemySpawn { enemy_id } => Some(
            LevelTriggerKind::EnemySpawn { enemy_id: offset_u16_min(enemy_id, id_delta, 1) },
        ),
        _ => None,
    }
}

} // verus!

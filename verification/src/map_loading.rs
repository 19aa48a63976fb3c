//! The order in which the map's assets are prepared, one per frame, and the progress
//! line shown meanwhile: the atlas, then each wonder, city and environment picture,
//! then the province labels of every zoom level.

use vstd::prelude::*;

use crate::text::push_all;

verus! {

/// Zoom levels whose province labels are prepared in advance.
pub const LABEL_ZOOM_LEVELS: usize = 30;

/// Wonders whose pictures are loaded, in loading order.
pub const WONDER_NAMES: [&'static str; 11] = [
    "Great Pyramid of Giza",
    "Oracle of Dodona",
    "Stonehenge",
    "Acropolis of Pergamon",
    "Temple of Zeus at Olympia",
    "Palace of the Argeads",
    "Ay Khanum",
    "Mausoleum at Halicarnassus",
    "Colossus of Rhodes",
    "Aqueduct of Segovia",
    "Pont du Gard",
];

/// City pictures, in loading order.
pub const CITY_IMAGE_NAMES: [&'static str; 2] = ["City illustration", "Rome illustration"];

/// Environment pictures and animations, in loading order.
pub const ENVIRONMENT_IMAGE_NAMES: [&'static str; 14] = [
    "Sea waves",
    "Moving clouds",
    "Coastal gradient",
    "Sea ripple texture",
    "Dolphin animation",
    "Whale animation",
    "Seabird animation",
    "Northwest terrain",
    "Northeast terrain",
    "Southwest terrain",
    "Southeast terrain",
    "Sea vortex animation",
    "Eagle animation",
    "Tern animation",
];

/// Number of load steps from nothing to a ready map: the atlas and every asset.
pub const TOTAL_LOAD_STEPS: usize = 58;

/// Edge length in pixels of the first city picture (the others load at full size).
pub const FIRST_CITY_RESOLUTION: u32 = 128;

/// Edge length in pixels of the later city pictures.
pub const CITY_RESOLUTION: u32 = 256;

/// How much of the map has been prepared.
#[derive(Clone, Copy, Debug, PartialEq, Eq, Structural)]
pub struct MapLoadCounts {
    /// The province atlas has been read.
    pub atlas_ready: bool,
    /// Wonder pictures loaded.
    pub wonders: usize,
    /// City pictures loaded.
    pub cities: usize,
    /// Environment pictures loaded.
    pub environments: usize,
    /// Zoom levels whose labels are prepared.
    pub label_levels: usize,
}

/// The next piece of the map to prepare.
#[derive(Clone, Copy, Debug, PartialEq, Eq, Structural)]
pub enum MapLoadStep {
    /// Read the province atlas.
    Atlas,
    /// Load the wonder picture with this index.
    Wonder(usize),
    /// Load the city picture with this index, scaled to this edge length.
    City { index: usize, resolution: u32 },
    /// Load the environment picture with this index.
    Environment(usize),
    /// Prepare the province labels of this zoom level.
    Labels(usize),
    /// Everything is prepared.
    Done,
}

/// Progress shown on the loading screen.
pub struct MapLoadProgress {
    /// Load steps done.
    pub completed: usize,
    /// Load steps in all.
    pub total: usize,
    /// What is being prepared now.
    pub item: String,
}

/// Everything has been prepared.
pub open spec fn loaded(c: MapLoadCounts) -> bool {
    &&& c.atlas_ready
    &&& c.wonders == 11
    &&& c.cities == 2
    &&& c.environments == 14
    &&& c.label_levels == LABEL_ZOOM_LEVELS
}

/// Load steps done so far.
pub open spec fn completed_steps(c: MapLoadCounts) -> int {
    (if c.atlas_ready {
        1int
    } else {
        0int
    }) + c.wonders + c.cities + c.environments + c.label_levels
}

/// Counts that loading in order can reach: each group fills up before the next starts.
pub open spec fn reachable(c: MapLoadCounts) -> bool {
    &&& c.wonders <= 11
    &&& c.cities <= 2
    &&& c.environments <= 14
    &&& c.label_levels <= LABEL_ZOOM_LEVELS
    &&& c.wonders > 0 ==> c.atlas_ready
    &&& c.cities > 0 ==> c.wonders == 11
    &&& c.environments > 0 ==> c.cities == 2
    &&& c.label_levels > 0 ==> c.environments == 14
}

/// The first piece still missing, in loading order.
pub open spec fn next_load_step(c: MapLoadCounts) -> MapLoadStep {
    if !c.atlas_ready {
        MapLoadStep::Atlas
    } else if c.wonders < 11 {
        MapLoadStep::Wonder(c.wonders)
    } else if c.cities < 2 {
        MapLoadStep::City {
            index: c.cities,
            resolution: if c.cities == 0 {
                FIRST_CITY_RESOLUTION
            } else {
                CITY_RESOLUTION
            },
        }
    } else if c.environments < 14 {
        MapLoadStep::Environment(c.environments)
    } else if c.label_levels < LABEL_ZOOM_LEVELS {
        MapLoadStep::Labels(c.label_levels)
    } else {
        MapLoadStep::Done
    }
}

/// The counts once `step` has been carried out.
pub open spec fn after_step(c: MapLoadCounts, step: MapLoadStep) -> MapLoadCounts {
    match step {
        MapLoadStep::Atlas => MapLoadCounts { atlas_ready: true, ..c },
        MapLoadStep::Wonder(_) => MapLoadCounts { wonders: (c.wonders + 1) as usize, ..c },
        MapLoadStep::City { .. } => MapLoadCounts { cities: (c.cities + 1) as usize, ..c },
        MapLoadStep::Environment(_) => MapLoadCounts {
            environments: (c.environments + 1) as usize,
            ..c
        },
        MapLoadStep::Labels(_) => MapLoadCounts {
            label_levels: (c.label_levels + 1) as usize,
            ..c
        },
        MapLoadStep::Done => c,
    }
}

/// The progress line for the piece being prepared.
pub open spec fn progress_item(c: MapLoadCounts) -> Seq<char> {
    if !c.atlas_ready {
        "Loading map..."@
    } else if c.wonders < 11 {
        "Loading wonder "@ + WONDER_NAMES@[c.wonders as int]@ + "..."@
    } else if c.cities < 2 {
        "Loading city "@ + CITY_IMAGE_NAMES@[c.cities as int]@ + "..."@
    } else if c.environments < 14 {
        "Loading environment "@ + ENVIRONMENT_IMAGE_NAMES@[c.environments as int]@ + "..."@
    } else if c.label_levels < LABEL_ZOOM_LEVELS {
        "Loading historical provinces..."@
    } else {
        "Game ready."@
    }
}

impl MapLoadCounts {
    /// Nothing prepared yet.
    pub fn new() -> (counts: MapLoadCounts)
        ensures
            counts == (MapLoadCounts {
                atlas_ready: false,
                wonders: 0,
                cities: 0,
                environments: 0,
                label_levels: 0,
            }),
    {
        MapLoadCounts { atlas_ready: false, wonders: 0, cities: 0, environments: 0, label_levels: 0 }
    }

    /// Whether the atlas and every asset are ready.
    pub fn is_loaded(&self) -> (ready: bool)
        ensures
            ready == loaded(*self),
    {
        self.atlas_ready && self.wonders == 11 && self.cities == 2 && self.environments == 14
            && self.label_levels == LABEL_ZOOM_LEVELS
    }

    /// The piece to prepare next.
    pub fn next_step(&self) -> (step: MapLoadStep)
        ensures
            step == next_load_step(*self),
    {
        if !self.atlas_ready {
            MapLoadStep::Atlas
        } else if self.wonders < 11 {
            MapLoadStep::Wonder(self.wonders)
        } else if self.cities < 2 {
            let resolution = if self.cities == 0 {
                FIRST_CITY_RESOLUTION
            } else {
                CITY_RESOLUTION
            };
            MapLoadStep::City { index: self.cities, resolution }
        } else if self.environments < 14 {
            MapLoadStep::Environment(self.environments)
        } else if self.label_levels < LABEL_ZOOM_LEVELS {
            MapLoadStep::Labels(self.label_levels)
        } else {
            MapLoadStep::Done
        }
    }

    /// Notes that `step` has been carried out.
    pub fn record(&mut self, step: MapLoadStep)
        requires
            old(self).wonders < usize::MAX,
            old(self).cities < usize::MAX,
            old(self).environments < usize::MAX,
            old(self).label_levels < usize::MAX,
        ensures
            *final(self) == after_step(*old(self), step),
    {
        match step {
            MapLoadStep::Atlas => self.atlas_ready = true,
            MapLoadStep::Wonder(_) => self.wonders = self.wonders + 1,
            MapLoadStep::City { .. } => self.cities = self.cities + 1,
            MapLoadStep::Environment(_) => self.environments = self.environments + 1,
            MapLoadStep::Labels(_) => self.label_levels = self.label_levels + 1,
            MapLoadStep::Done => {},
        }
    }

    /// Steps done, steps in all, and what is being prepared now.
    pub fn load_progress(&self) -> (progress: MapLoadProgress)
        requires
            completed_steps(*self) <= usize::MAX,
        ensures
            progress.completed == completed_steps(*self),
            progress.total == TOTAL_LOAD_STEPS,
            progress.item@ == progress_item(*self),
    {
        let ready: usize = if self.atlas_ready {
            1
        } else {
            0
        };
        let completed = ready + self.wonders + self.cities + self.environments + self.label_levels;
        let mut item = String::new();
        if !self.atlas_ready {
            push_all(&mut item, "Loading map...");
        } else if self.wonders < 11 {
            push_all(&mut item, "Loading wonder ");
            push_all(&mut item, WONDER_NAMES[self.wonders]);
            push_all(&mut item, "...");
        } else if self.cities < 2 {
            push_all(&mut item, "Loading city ");
            push_all(&mut item, CITY_IMAGE_NAMES[self.cities]);
            push_all(&mut item, "...");
        } else if self.environments < 14 {
            push_all(&mut item, "Loading environment ");
            push_all(&mut item, ENVIRONMENT_IMAGE_NAMES[self.environments]);
            push_all(&mut item, "...");
        } else if self.label_levels < LABEL_ZOOM_LEVELS {
            push_all(&mut item, "Loading historical provinces...");
        } else {
            push_all(&mut item, "Game ready.");
        }
        assert(item@ =~= progress_item(*self));
        MapLoadProgress { completed, total: TOTAL_LOAD_STEPS, item }
    }
}

/// Loading in order stays in order, and each step before the end prepares exactly one
/// more piece.
pub proof fn lemma_each_step_prepares_one_piece(c: MapLoadCounts)
    requires
        reachable(c),
    ensures
        reachable(after_step(c, next_load_step(c))),
        !loaded(c) ==> completed_steps(after_step(c, next_load_step(c))) == completed_steps(c) + 1,
        loaded(c) ==> next_load_step(c) == MapLoadStep::Done,
{
}

/// The map counts as loaded exactly when the progress shows every step done.
pub proof fn lemma_loaded_when_progress_is_full(c: MapLoadCounts)
    requires
        reachable(c),
    ensures
        loaded(c) <==> completed_steps(c) == TOTAL_LOAD_STEPS,
        completed_steps(c) <= TOTAL_LOAD_STEPS,
{
}

/// Every step names the first piece still missing: the wonder, city picture, environment
/// picture or label level whose index is the number of that kind already prepared, and
/// only once the kinds before it are complete. So loading from nothing prepares each
/// index of each kind exactly once, in order.
pub proof fn lemma_each_step_names_the_next_missing_piece(c: MapLoadCounts)
    requires
        reachable(c),
    ensures
        next_load_step(c) == MapLoadStep::Atlas <==> !c.atlas_ready,
        next_load_step(c) matches MapLoadStep::Wonder(i) ==> c.atlas_ready && i == c.wonders
            && i < 11,
        next_load_step(c) matches MapLoadStep::City { index, resolution } ==> c.wonders == 11
            && index == c.cities && index < 2 && resolution == (if index == 0 {
            128u32
        } else {
            256u32
        }),
        next_load_step(c) matches MapLoadStep::Environment(i) ==> c.cities == 2 && i
            == c.environments && i < 14,
        next_load_step(c) matches MapLoadStep::Labels(level) ==> c.environments == 14 && level
            == c.label_levels && level < LABEL_ZOOM_LEVELS,
        c.atlas_ready && c.wonders < 11 ==> next_load_step(c) == MapLoadStep::Wonder(c.wonders),
        c.wonders == 11 && c.cities < 2 ==> (next_load_step(c) matches MapLoadStep::City {
            index,
            ..
        } && index == c.cities),
        c.cities == 2 && c.environments < 14 ==> next_load_step(c) == MapLoadStep::Environment(
            c.environments,
        ),
        c.environments == 14 && c.label_levels < LABEL_ZOOM_LEVELS ==> next_load_step(c)
            == MapLoadStep::Labels(c.label_levels),
{
}

} // verus!

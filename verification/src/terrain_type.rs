//! Broad landscape portraits for the province overview. These are display
//! classifications, independent of the map's geographic land-cover texture.

use vstd::prelude::*;

use crate::production::{has_output, OUTPUT, PROVINCE_COUNT};
use crate::text::str_eq;

verus! {

/// Landscape class shown in a province's portrait.
#[derive(Clone, Copy, Debug, PartialEq, Eq, Structural)]
pub enum TerrainType {
    Desert,
    Farmland,
    Forest,
    Hills,
    Marsh,
    Mountains,
    Plains,
}

/// Slot of each landscape class in the sheet of twelve portraits.
pub open spec fn portrait_slot(terrain: TerrainType) -> usize {
    match terrain {
        TerrainType::Desert => 0,
        TerrainType::Farmland => 1,
        TerrainType::Forest => 2,
        TerrainType::Hills => 3,
        TerrainType::Marsh => 6,
        TerrainType::Mountains => 7,
        TerrainType::Plains => 8,
    }
}

/// Number of portraits in the landscape sheet.
pub const PORTRAIT_COUNT: usize = 12;

impl TerrainType {
    /// Position of this landscape class in the portrait sheet.
    pub fn image_index(self) -> (index: usize)
        ensures
            index == portrait_slot(self),
            index < PORTRAIT_COUNT,
    {
        match self {
            TerrainType::Desert => 0,
            TerrainType::Farmland => 1,
            TerrainType::Forest => 2,
            TerrainType::Hills => 3,
            TerrainType::Marsh => 6,
            TerrainType::Mountains => 7,
            TerrainType::Plains => 8,
        }
    }
}

/// Landscape class of each playable province, in the order of the production table.
pub const TERRAIN: [(&'static str, TerrainType); 54] = [
    ("Britannia", TerrainType::Forest),
    ("Lugdunensis", TerrainType::Forest),
    ("Belgica", TerrainType::Forest),
    ("Germania Inferior", TerrainType::Forest),
    ("Aquitania", TerrainType::Forest),
    ("Germania Superior", TerrainType::Forest),
    ("Alpes Graiae", TerrainType::Mountains),
    ("Transpadana", TerrainType::Farmland),
    ("Alpes Cottiae", TerrainType::Mountains),
    ("Alpes Maritimae", TerrainType::Mountains),
    ("Liguria", TerrainType::Hills),
    ("Narbonensis", TerrainType::Hills),
    ("Tarraconensis", TerrainType::Hills),
    ("Baetica", TerrainType::Farmland),
    ("Lusitania", TerrainType::Hills),
    ("Raetia", TerrainType::Mountains),
    ("Noricum", TerrainType::Mountains),
    ("Venetia", TerrainType::Farmland),
    ("Aemilia", TerrainType::Farmland),
    ("Etruria", TerrainType::Hills),
    ("Umbria", TerrainType::Hills),
    ("Samnium", TerrainType::Hills),
    ("Picenum", TerrainType::Hills),
    ("Latium", TerrainType::Farmland),
    ("Lucania", TerrainType::Hills),
    ("Sicilia", TerrainType::Farmland),
    ("Pannonia Superior", TerrainType::Hills),
    ("Pannonia Inferior", TerrainType::Marsh),
    ("Dalmatia", TerrainType::Hills),
    ("Apulia", TerrainType::Farmland),
    ("Sardinia", TerrainType::Plains),
    ("Moesia Superior", TerrainType::Hills),
    ("Dacia", TerrainType::Forest),
    ("Moesia Inferior", TerrainType::Plains),
    ("Thracia", TerrainType::Hills),
    ("Macedonia", TerrainType::Hills),
    ("Achaia", TerrainType::Hills),
    ("Bithynia", TerrainType::Hills),
    ("Cilicia", TerrainType::Hills),
    ("Cyrenaica", TerrainType::Desert),
    ("Creta", TerrainType::Plains),
    ("Cyprus", TerrainType::Plains),
    ("Aegyptus", TerrainType::Desert),
    ("Arabia", TerrainType::Desert),
    ("Iudaea", TerrainType::Plains),
    ("Syria", TerrainType::Hills),
    ("Africa Proconsularis", TerrainType::Farmland),
    ("Numidia", TerrainType::Desert),
    ("Mauretania Caesariensis", TerrainType::Desert),
    ("Mauretania Tingitana", TerrainType::Desert),
    ("Galatia", TerrainType::Hills),
    ("Lycia", TerrainType::Hills),
    ("Asia", TerrainType::Farmland),
    ("Armenia Mesopotamia", TerrainType::Mountains),
];

/// The terrain entry at `index` is the first one named `name`.
pub open spec fn first_terrain_entry(name: Seq<char>, index: int) -> bool {
    &&& 0 <= index < PROVINCE_COUNT
    &&& TERRAIN@[index].0@ == name
    &&& forall|earlier: int| 0 <= earlier < index ==> TERRAIN@[earlier].0@ != name
}

/// Some entry of the terrain table is named `name`.
pub open spec fn has_terrain(name: Seq<char>) -> bool {
    exists|index: int| 0 <= index < PROVINCE_COUNT && TERRAIN@[index].0@ == name
}

/// Landscape class of the province named `name`.
pub fn for_province(name: &str) -> (terrain: TerrainType)
    requires
        has_terrain(name@),
    ensures
        exists|index: int| first_terrain_entry(name@, index) && terrain == TERRAIN@[index].1,
{
    let mut index: usize = 0;
    while index < PROVINCE_COUNT
        invariant
            index <= PROVINCE_COUNT,
            has_terrain(name@),
            forall|earlier: int| 0 <= earlier < index ==> TERRAIN@[earlier].0@ != name@,
        decreases PROVINCE_COUNT - index,
    {
        if str_eq(TERRAIN[index].0, name) {
            assert(first_terrain_entry(name@, index as int));
            return TERRAIN[index].1;
        }
        index = index + 1;
    }
    assert(false);
    TerrainType::Plains
}

/// Both tables list the same provinces in the same order.
proof fn lemma_tables_share_names(index: int)
    requires
        0 <= index < PROVINCE_COUNT,
    ensures
        TERRAIN@[index].0@ == OUTPUT@[index].0@,
{
}

/// Every province that has a production entry also has a landscape portrait, and that
/// portrait lies inside the twelve-image sheet.
pub proof fn lemma_every_playable_province_has_a_portrait(name: Seq<char>)
    requires
        has_output(name),
    ensures
        has_terrain(name),
        forall|index: int|
            first_terrain_entry(name, index) ==> portrait_slot(TERRAIN@[index].1) < PORTRAIT_COUNT,
{
    let index = choose|index: int| 0 <= index < PROVINCE_COUNT && OUTPUT@[index].0@ == name;
    lemma_tables_share_names(index);
}

} // verus!

//! Base raw-resource potential of each playable province. Province population
//! scales these values into monthly output; they are game balance units of food
//! (grain), metal and stone.

use vstd::prelude::*;

use crate::text::str_eq;

verus! {

/// Number of playable provinces with a production entry.
pub const PROVINCE_COUNT: usize = 54;

/// Food, metal and stone potential of each province, in atlas order.
pub const OUTPUT: [(&'static str, [i32; 3]); 54] = [
    ("Britannia", [2, 3, 1]),
    ("Lugdunensis", [3, 1, 1]),
    ("Belgica", [3, 1, 0]),
    ("Germania Inferior", [2, 2, 1]),
    ("Aquitania", [3, 1, 1]),
    ("Germania Superior", [2, 2, 2]),
    ("Alpes Graiae", [0, 2, 3]),
    ("Transpadana", [4, 1, 2]),
    ("Alpes Cottiae", [0, 2, 3]),
    ("Alpes Maritimae", [1, 2, 3]),
    ("Liguria", [2, 2, 2]),
    ("Narbonensis", [3, 1, 2]),
    ("Tarraconensis", [3, 4, 2]),
    ("Baetica", [4, 4, 1]),
    ("Lusitania", [2, 4, 2]),
    ("Raetia", [1, 3, 2]),
    ("Noricum", [1, 5, 2]),
    ("Venetia", [3, 1, 1]),
    ("Aemilia", [4, 0, 1]),
    ("Etruria", [3, 3, 3]),
    ("Umbria", [3, 1, 2]),
    ("Samnium", [2, 2, 2]),
    ("Picenum", [3, 0, 1]),
    ("Latium", [3, 0, 2]),
    ("Lucania", [2, 1, 2]),
    ("Sicilia", [5, 1, 2]),
    ("Pannonia Superior", [2, 3, 1]),
    ("Pannonia Inferior", [2, 2, 1]),
    ("Dalmatia", [2, 3, 3]),
    ("Apulia", [4, 0, 1]),
    ("Sardinia", [3, 3, 2]),
    ("Moesia Superior", [2, 3, 2]),
    ("Dacia", [2, 5, 2]),
    ("Moesia Inferior", [4, 1, 1]),
    ("Thracia", [3, 3, 2]),
    ("Macedonia", [3, 3, 2]),
    ("Achaia", [2, 1, 4]),
    ("Bithynia", [3, 1, 3]),
    ("Cilicia", [2, 2, 2]),
    ("Cyrenaica", [2, 0, 2]),
    ("Creta", [2, 0, 2]),
    ("Cyprus", [2, 4, 2]),
    ("Aegyptus", [6, 1, 4]),
    ("Arabia", [0, 1, 2]),
    ("Iudaea", [2, 0, 2]),
    ("Syria", [3, 1, 2]),
    ("Africa Proconsularis", [5, 0, 3]),
    ("Numidia", [3, 1, 3]),
    ("Mauretania Caesariensis", [2, 2, 2]),
    ("Mauretania Tingitana", [2, 2, 2]),
    ("Galatia", [3, 2, 2]),
    ("Lycia", [2, 1, 4]),
    ("Asia", [4, 1, 4]),
    ("Armenia Mesopotamia", [3, 4, 2]),
];

/// The table entry at `index` is the first one named `name`.
pub open spec fn first_output_entry(name: Seq<char>, index: int) -> bool {
    &&& 0 <= index < PROVINCE_COUNT
    &&& OUTPUT@[index].0@ == name
    &&& forall|earlier: int| 0 <= earlier < index ==> OUTPUT@[earlier].0@ != name
}

/// Some entry of the production table is named `name`.
pub open spec fn has_output(name: Seq<char>) -> bool {
    exists|index: int| 0 <= index < PROVINCE_COUNT && OUTPUT@[index].0@ == name
}

/// Position of the first production entry named `name`, if any.
pub fn output_index(name: &str) -> (found: Option<usize>)
    ensures
        found is None <==> !has_output(name@),
        found matches Some(index) ==> first_output_entry(name@, index as int),
{
    let mut index: usize = 0;
    while index < PROVINCE_COUNT
        invariant
            index <= PROVINCE_COUNT,
            forall|earlier: int| 0 <= earlier < index ==> OUTPUT@[earlier].0@ != name@,
        decreases PROVINCE_COUNT - index,
    {
        if str_eq(OUTPUT[index].0, name) {
            return Some(index);
        }
        index = index + 1;
    }
    None
}

/// Food, metal and stone potential of the province named `name`.
pub fn for_province(name: &str) -> (output: [i32; 3])
    requires
        has_output(name@),
    ensures
        exists|index: int| first_output_entry(name@, index) && output == OUTPUT@[index].1,
{
    match output_index(name) {
        Some(index) => OUTPUT[index].1,
        None => {
            assert(false);
            [0, 0, 0]
        },
    }
}

/// No entry before position 42 is named `Aegyptus`.
proof fn lemma_first_aegyptus_entry()
    ensures
        first_output_entry("Aegyptus"@, 42),
{
    reveal_strlit("Aegyptus");
    reveal_strlit("Britannia");
    reveal_strlit("Lugdunensis");
    reveal_strlit("Belgica");
    reveal_strlit("Germania Inferior");
    reveal_strlit("Aquitania");
    reveal_strlit("Germania Superior");
    reveal_strlit("Alpes Graiae");
    reveal_strlit("Transpadana");
    reveal_strlit("Alpes Cottiae");
    reveal_strlit("Alpes Maritimae");
    reveal_strlit("Liguria");
    reveal_strlit("Narbonensis");
    reveal_strlit("Tarraconensis");
    reveal_strlit("Baetica");
    reveal_strlit("Lusitania");
    reveal_strlit("Raetia");
    reveal_strlit("Noricum");
    reveal_strlit("Venetia");
    reveal_strlit("Aemilia");
    reveal_strlit("Etruria");
    reveal_strlit("Umbria");
    reveal_strlit("Samnium");
    reveal_strlit("Picenum");
    reveal_strlit("Latium");
    reveal_strlit("Lucania");
    reveal_strlit("Sicilia");
    reveal_strlit("Pannonia Superior");
    reveal_strlit("Pannonia Inferior");
    reveal_strlit("Dalmatia");
    reveal_strlit("Apulia");
    reveal_strlit("Sardinia");
    reveal_strlit("Moesia Superior");
    reveal_strlit("Dacia");
    reveal_strlit("Moesia Inferior");
    reveal_strlit("Thracia");
    reveal_strlit("Macedonia");
    reveal_strlit("Achaia");
    reveal_strlit("Bithynia");
    reveal_strlit("Cilicia");
    reveal_strlit("Cyrenaica");
    reveal_strlit("Creta");
    reveal_strlit("Cyprus");
    assert forall|earlier: int| 0 <= earlier < 42 implies OUTPUT@[earlier].0@ != "Aegyptus"@ by {
        if earlier == 0 {
            assert(OUTPUT@[0].0@.len() != "Aegyptus"@.len());
        } else if earlier == 1 {
            assert(OUTPUT@[1].0@.len() != "Aegyptus"@.len());
        } else if earlier == 2 {
            assert(OUTPUT@[2].0@.len() != "Aegyptus"@.len());
        } else if earlier == 3 {
            assert(OUTPUT@[3].0@.len() != "Aegyptus"@.len());
        } else if earlier == 4 {
            assert(OUTPUT@[4].0@.len() != "Aegyptus"@.len());
        } else if earlier == 5 {
            assert(OUTPUT@[5].0@.len() != "Aegyptus"@.len());
        } else if earlier == 6 {
            assert(OUTPUT@[6].0@.len() != "Aegyptus"@.len());
        } else if earlier == 7 {
            assert(OUTPUT@[7].0@.len() != "Aegyptus"@.len());
        } else if earlier == 8 {
            assert(OUTPUT@[8].0@.len() != "Aegyptus"@.len());
        } else if earlier == 9 {
            assert(OUTPUT@[9].0@.len() != "Aegyptus"@.len());
        } else if earlier == 10 {
            assert(OUTPUT@[10].0@.len() != "Aegyptus"@.len());
        } else if earlier == 11 {
            assert(OUTPUT@[11].0@.len() != "Aegyptus"@.len());
        } else if earlier == 12 {
            assert(OUTPUT@[12].0@.len() != "Aegyptus"@.len());
        } else if earlier == 13 {
            assert(OUTPUT@[13].0@.len() != "Aegyptus"@.len());
        } else if earlier == 14 {
            assert(OUTPUT@[14].0@.len() != "Aegyptus"@.len());
        } else if earlier == 15 {
            assert(OUTPUT@[15].0@.len() != "Aegyptus"@.len());
        } else if earlier == 16 {
            assert(OUTPUT@[16].0@.len() != "Aegyptus"@.len());
        } else if earlier == 17 {
            assert(OUTPUT@[17].0@.len() != "Aegyptus"@.len());
        } else if earlier == 18 {
            assert(OUTPUT@[18].0@.len() != "Aegyptus"@.len());
        } else if earlier == 19 {
            assert(OUTPUT@[19].0@.len() != "Aegyptus"@.len());
        } else if earlier == 20 {
            assert(OUTPUT@[20].0@.len() != "Aegyptus"@.len());
        } else if earlier == 21 {
            assert(OUTPUT@[21].0@.len() != "Aegyptus"@.len());
        } else if earlier == 22 {
            assert(OUTPUT@[22].0@.len() != "Aegyptus"@.len());
        } else if earlier == 23 {
            assert(OUTPUT@[23].0@.len() != "Aegyptus"@.len());
        } else if earlier == 24 {
            assert(OUTPUT@[24].0@.len() != "Aegyptus"@.len());
        } else if earlier == 25 {
            assert(OUTPUT@[25].0@.len() != "Aegyptus"@.len());
        } else if earlier == 26 {
            assert(OUTPUT@[26].0@.len() != "Aegyptus"@.len());
        } else if earlier == 27 {
            assert(OUTPUT@[27].0@.len() != "Aegyptus"@.len());
        } else if earlier == 28 {
            assert(OUTPUT@[28].0@[0] != "Aegyptus"@[0]);
        } else if earlier == 29 {
            assert(OUTPUT@[29].0@.len() != "Aegyptus"@.len());
        } else if earlier == 30 {
            assert(OUTPUT@[30].0@[0] != "Aegyptus"@[0]);
        } else if earlier == 31 {
            assert(OUTPUT@[31].0@.len() != "Aegyptus"@.len());
        } else if earlier == 32 {
            assert(OUTPUT@[32].0@.len() != "Aegyptus"@.len());
        } else if earlier == 33 {
            assert(OUTPUT@[33].0@.len() != "Aegyptus"@.len());
        } else if earlier == 34 {
            assert(OUTPUT@[34].0@.len() != "Aegyptus"@.len());
        } else if earlier == 35 {
            assert(OUTPUT@[35].0@.len() != "Aegyptus"@.len());
        } else if earlier == 36 {
            assert(OUTPUT@[36].0@.len() != "Aegyptus"@.len());
        } else if earlier == 37 {
            assert(OUTPUT@[37].0@[0] != "Aegyptus"@[0]);
        } else if earlier == 38 {
            assert(OUTPUT@[38].0@.len() != "Aegyptus"@.len());
        } else if earlier == 39 {
            assert(OUTPUT@[39].0@.len() != "Aegyptus"@.len());
        } else if earlier == 40 {
            assert(OUTPUT@[40].0@.len() != "Aegyptus"@.len());
        } else if earlier == 41 {
            assert(OUTPUT@[41].0@.len() != "Aegyptus"@.len());
        }
    }
}

/// No entry before position 43 is named `Arabia`.
proof fn lemma_first_arabia_entry()
    ensures
        first_output_entry("Arabia"@, 43),
{
    reveal_strlit("Arabia");
    reveal_strlit("Britannia");
    reveal_strlit("Lugdunensis");
    reveal_strlit("Belgica");
    reveal_strlit("Germania Inferior");
    reveal_strlit("Aquitania");
    reveal_strlit("Germania Superior");
    reveal_strlit("Alpes Graiae");
    reveal_strlit("Transpadana");
    reveal_strlit("Alpes Cottiae");
    reveal_strlit("Alpes Maritimae");
    reveal_strlit("Liguria");
    reveal_strlit("Narbonensis");
    reveal_strlit("Tarraconensis");
    reveal_strlit("Baetica");
    reveal_strlit("Lusitania");
    reveal_strlit("Raetia");
    reveal_strlit("Noricum");
    reveal_strlit("Venetia");
    reveal_strlit("Aemilia");
    reveal_strlit("Etruria");
    reveal_strlit("Umbria");
    reveal_strlit("Samnium");
    reveal_strlit("Picenum");
    reveal_strlit("Latium");
    reveal_strlit("Lucania");
    reveal_strlit("Sicilia");
    reveal_strlit("Pannonia Superior");
    reveal_strlit("Pannonia Inferior");
    reveal_strlit("Dalmatia");
    reveal_strlit("Apulia");
    reveal_strlit("Sardinia");
    reveal_strlit("Moesia Superior");
    reveal_strlit("Dacia");
    reveal_strlit("Moesia Inferior");
    reveal_strlit("Thracia");
    reveal_strlit("Macedonia");
    reveal_strlit("Achaia");
    reveal_strlit("Bithynia");
    reveal_strlit("Cilicia");
    reveal_strlit("Cyrenaica");
    reveal_strlit("Creta");
    reveal_strlit("Cyprus");
    reveal_strlit("Aegyptus");
    assert forall|earlier: int| 0 <= earlier < 43 implies OUTPUT@[earlier].0@ != "Arabia"@ by {
        if earlier == 0 {
            assert(OUTPUT@[0].0@.len() != "Arabia"@.len());
        } else if earlier == 1 {
            assert(OUTPUT@[1].0@.len() != "Arabia"@.len());
        } else if earlier == 2 {
            assert(OUTPUT@[2].0@.len() != "Arabia"@.len());
        } else if earlier == 3 {
            assert(OUTPUT@[3].0@.len() != "Arabia"@.len());
        } else if earlier == 4 {
            assert(OUTPUT@[4].0@.len() != "Arabia"@.len());
        } else if earlier == 5 {
            assert(OUTPUT@[5].0@.len() != "Arabia"@.len());
        } else if earlier == 6 {
            assert(OUTPUT@[6].0@.len() != "Arabia"@.len());
        } else if earlier == 7 {
            assert(OUTPUT@[7].0@.len() != "Arabia"@.len());
        } else if earlier == 8 {
            assert(OUTPUT@[8].0@.len() != "Arabia"@.len());
        } else if earlier == 9 {
            assert(OUTPUT@[9].0@.len() != "Arabia"@.len());
        } else if earlier == 10 {
            assert(OUTPUT@[10].0@.len() != "Arabia"@.len());
        } else if earlier == 11 {
            assert(OUTPUT@[11].0@.len() != "Arabia"@.len());
        } else if earlier == 12 {
            assert(OUTPUT@[12].0@.len() != "Arabia"@.len());
        } else if earlier == 13 {
            assert(OUTPUT@[13].0@.len() != "Arabia"@.len());
        } else if earlier == 14 {
            assert(OUTPUT@[14].0@.len() != "Arabia"@.len());
        } else if earlier == 15 {
            assert(OUTPUT@[15].0@[0] != "Arabia"@[0]);
        } else if earlier == 16 {
            assert(OUTPUT@[16].0@.len() != "Arabia"@.len());
        } else if earlier == 17 {
            assert(OUTPUT@[17].0@.len() != "Arabia"@.len());
        } else if earlier == 18 {
            assert(OUTPUT@[18].0@.len() != "Arabia"@.len());
        } else if earlier == 19 {
            assert(OUTPUT@[19].0@.len() != "Arabia"@.len());
        } else if earlier == 20 {
            assert(OUTPUT@[20].0@[0] != "Arabia"@[0]);
        } else if earlier == 21 {
            assert(OUTPUT@[21].0@.len() != "Arabia"@.len());
        } else if earlier == 22 {
            assert(OUTPUT@[22].0@.len() != "Arabia"@.len());
        } else if earlier == 23 {
            assert(OUTPUT@[23].0@[0] != "Arabia"@[0]);
        } else if earlier == 24 {
            assert(OUTPUT@[24].0@.len() != "Arabia"@.len());
        } else if earlier == 25 {
            assert(OUTPUT@[25].0@.len() != "Arabia"@.len());
        } else if earlier == 26 {
            assert(OUTPUT@[26].0@.len() != "Arabia"@.len());
        } else if earlier == 27 {
            assert(OUTPUT@[27].0@.len() != "Arabia"@.len());
        } else if earlier == 28 {
            assert(OUTPUT@[28].0@.len() != "Arabia"@.len());
        } else if earlier == 29 {
            assert(OUTPUT@[29].0@[1] != "Arabia"@[1]);
        } else if earlier == 30 {
            assert(OUTPUT@[30].0@.len() != "Arabia"@.len());
        } else if earlier == 31 {
            assert(OUTPUT@[31].0@.len() != "Arabia"@.len());
        } else if earlier == 32 {
            assert(OUTPUT@[32].0@.len() != "Arabia"@.len());
        } else if earlier == 33 {
            assert(OUTPUT@[33].0@.len() != "Arabia"@.len());
        } else if earlier == 34 {
            assert(OUTPUT@[34].0@.len() != "Arabia"@.len());
        } else if earlier == 35 {
            assert(OUTPUT@[35].0@.len() != "Arabia"@.len());
        } else if earlier == 36 {
            assert(OUTPUT@[36].0@[1] != "Arabia"@[1]);
        } else if earlier == 37 {
            assert(OUTPUT@[37].0@.len() != "Arabia"@.len());
        } else if earlier == 38 {
            assert(OUTPUT@[38].0@.len() != "Arabia"@.len());
        } else if earlier == 39 {
            assert(OUTPUT@[39].0@.len() != "Arabia"@.len());
        } else if earlier == 40 {
            assert(OUTPUT@[40].0@.len() != "Arabia"@.len());
        } else if earlier == 41 {
            assert(OUTPUT@[41].0@[0] != "Arabia"@[0]);
        } else if earlier == 42 {
            assert(OUTPUT@[42].0@.len() != "Arabia"@.len());
        }
    }
}

/// No entry before position 16 is named `Noricum`.
proof fn lemma_first_noricum_entry()
    ensures
        first_output_entry("Noricum"@, 16),
{
    reveal_strlit("Noricum");
    reveal_strlit("Britannia");
    reveal_strlit("Lugdunensis");
    reveal_strlit("Belgica");
    reveal_strlit("Germania Inferior");
    reveal_strlit("Aquitania");
    reveal_strlit("Germania Superior");
    reveal_strlit("Alpes Graiae");
    reveal_strlit("Transpadana");
    reveal_strlit("Alpes Cottiae");
    reveal_strlit("Alpes Maritimae");
    reveal_strlit("Liguria");
    reveal_strlit("Narbonensis");
    reveal_strlit("Tarraconensis");
    reveal_strlit("Baetica");
    reveal_strlit("Lusitania");
    reveal_strlit("Raetia");
    assert forall|earlier: int| 0 <= earlier < 16 implies OUTPUT@[earlier].0@ != "Noricum"@ by {
        if earlier == 0 {
            assert(OUTPUT@[0].0@.len() != "Noricum"@.len());
        } else if earlier == 1 {
            assert(OUTPUT@[1].0@.len() != "Noricum"@.len());
        } else if earlier == 2 {
            assert(OUTPUT@[2].0@[0] != "Noricum"@[0]);
        } else if earlier == 3 {
            assert(OUTPUT@[3].0@.len() != "Noricum"@.len());
        } else if earlier == 4 {
            assert(OUTPUT@[4].0@.len() != "Noricum"@.len());
        } else if earlier == 5 {
            assert(OUTPUT@[5].0@.len() != "Noricum"@.len());
        } else if earlier == 6 {
            assert(OUTPUT@[6].0@.len() != "Noricum"@.len());
        } else if earlier == 7 {
            assert(OUTPUT@[7].0@.len() != "Noricum"@.len());
        } else if earlier == 8 {
            assert(OUTPUT@[8].0@.len() != "Noricum"@.len());
        } else if earlier == 9 {
            assert(OUTPUT@[9].0@.len() != "Noricum"@.len());
        } else if earlier == 10 {
            assert(OUTPUT@[10].0@[0] != "Noricum"@[0]);
        } else if earlier == 11 {
            assert(OUTPUT@[11].0@.len() != "Noricum"@.len());
        } else if earlier == 12 {
            assert(OUTPUT@[12].0@.len() != "Noricum"@.len());
        } else if earlier == 13 {
            assert(OUTPUT@[13].0@[0] != "Noricum"@[0]);
        } else if earlier == 14 {
            assert(OUTPUT@[14].0@.len() != "Noricum"@.len());
        } else if earlier == 15 {
            assert(OUTPUT@[15].0@.len() != "Noricum"@.len());
        }
    }
}

/// No entry before position 23 is named `Latium`.
proof fn lemma_first_latium_entry()
    ensures
        first_output_entry("Latium"@, 23),
{
    reveal_strlit("Latium");
    reveal_strlit("Britannia");
    reveal_strlit("Lugdunensis");
    reveal_strlit("Belgica");
    reveal_strlit("Germania Inferior");
    reveal_strlit("Aquitania");
    reveal_strlit("Germania Superior");
    reveal_strlit("Alpes Graiae");
    reveal_strlit("Transpadana");
    reveal_strlit("Alpes Cottiae");
    reveal_strlit("Alpes Maritimae");
    reveal_strlit("Liguria");
    reveal_strlit("Narbonensis");
    reveal_strlit("Tarraconensis");
    reveal_strlit("Baetica");
    reveal_strlit("Lusitania");
    reveal_strlit("Raetia");
    reveal_strlit("Noricum");
    reveal_strlit("Venetia");
    reveal_strlit("Aemilia");
    reveal_strlit("Etruria");
    reveal_strlit("Umbria");
    reveal_strlit("Samnium");
    reveal_strlit("Picenum");
    assert forall|earlier: int| 0 <= earlier < 23 implies OUTPUT@[earlier].0@ != "Latium"@ by {
        if earlier == 0 {
            assert(OUTPUT@[0].0@.len() != "Latium"@.len());
        } else if earlier == 1 {
            assert(OUTPUT@[1].0@.len() != "Latium"@.len());
        } else if earlier == 2 {
            assert(OUTPUT@[2].0@.len() != "Latium"@.len());
        } else if earlier == 3 {
            assert(OUTPUT@[3].0@.len() != "Latium"@.len());
        } else if earlier == 4 {
            assert(OUTPUT@[4].0@.len() != "Latium"@.len());
        } else if earlier == 5 {
            assert(OUTPUT@[5].0@.len() != "Latium"@.len());
        } else if earlier == 6 {
            assert(OUTPUT@[6].0@.len() != "Latium"@.len());
        } else if earlier == 7 {
            assert(OUTPUT@[7].0@.len() != "Latium"@.len());
        } else if earlier == 8 {
            assert(OUTPUT@[8].0@.len() != "Latium"@.len());
        } else if earlier == 9 {
            assert(OUTPUT@[9].0@.len() != "Latium"@.len());
        } else if earlier == 10 {
            assert(OUTPUT@[10].0@.len() != "Latium"@.len());
        } else if earlier == 11 {
            assert(OUTPUT@[11].0@.len() != "Latium"@.len());
        } else if earlier == 12 {
            assert(OUTPUT@[12].0@.len() != "Latium"@.len());
        } else if earlier == 13 {
            assert(OUTPUT@[13].0@.len() != "Latium"@.len());
        } else if earlier == 14 {
            assert(OUTPUT@[14].0@.len() != "Latium"@.len());
        } else if earlier == 15 {
            assert(OUTPUT@[15].0@[0] != "Latium"@[0]);
        } else if earlier == 16 {
            assert(OUTPUT@[16].0@.len() != "Latium"@.len());
        } else if earlier == 17 {
            assert(OUTPUT@[17].0@.len() != "Latium"@.len());
        } else if earlier == 18 {
            assert(OUTPUT@[18].0@.len() != "Latium"@.len());
        } else if earlier == 19 {
            assert(OUTPUT@[19].0@.len() != "Latium"@.len());
        } else if earlier == 20 {
            assert(OUTPUT@[20].0@[0] != "Latium"@[0]);
        } else if earlier == 21 {
            assert(OUTPUT@[21].0@.len() != "Latium"@.len());
        } else if earlier == 22 {
            assert(OUTPUT@[22].0@.len() != "Latium"@.len());
        }
    }
}

/// No entry before position 36 is named `Achaia`.
proof fn lemma_first_achaia_entry()
    ensures
        first_output_entry("Achaia"@, 36),
{
    reveal_strlit("Achaia");
    reveal_strlit("Britannia");
    reveal_strlit("Lugdunensis");
    reveal_strlit("Belgica");
    reveal_strlit("Germania Inferior");
    reveal_strlit("Aquitania");
    reveal_strlit("Germania Superior");
    reveal_strlit("Alpes Graiae");
    reveal_strlit("Transpadana");
    reveal_strlit("Alpes Cottiae");
    reveal_strlit("Alpes Maritimae");
    reveal_strlit("Liguria");
    reveal_strlit("Narbonensis");
    reveal_strlit("Tarraconensis");
    reveal_strlit("Baetica");
    reveal_strlit("Lusitania");
    reveal_strlit("Raetia");
    reveal_strlit("Noricum");
    reveal_strlit("Venetia");
    reveal_strlit("Aemilia");
    reveal_strlit("Etruria");
    reveal_strlit("Umbria");
    reveal_strlit("Samnium");
    reveal_strlit("Picenum");
    reveal_strlit("Latium");
    reveal_strlit("Lucania");
    reveal_strlit("Sicilia");
    reveal_strlit("Pannonia Superior");
    reveal_strlit("Pannonia Inferior");
    reveal_strlit("Dalmatia");
    reveal_strlit("Apulia");
    reveal_strlit("Sardinia");
    reveal_strlit("Moesia Superior");
    reveal_strlit("Dacia");
    reveal_strlit("Moesia Inferior");
    reveal_strlit("Thracia");
    reveal_strlit("Macedonia");
    assert forall|earlier: int| 0 <= earlier < 36 implies OUTPUT@[earlier].0@ != "Achaia"@ by {
        if earlier == 0 {
            assert(OUTPUT@[0].0@.len() != "Achaia"@.len());
        } else if earlier == 1 {
            assert(OUTPUT@[1].0@.len() != "Achaia"@.len());
        } else if earlier == 2 {
            assert(OUTPUT@[2].0@.len() != "Achaia"@.len());
        } else if earlier == 3 {
            assert(OUTPUT@[3].0@.len() != "Achaia"@.len());
        } else if earlier == 4 {
            assert(OUTPUT@[4].0@.len() != "Achaia"@.len());
        } else if earlier == 5 {
            assert(OUTPUT@[5].0@.len() != "Achaia"@.len());
        } else if earlier == 6 {
            assert(OUTPUT@[6].0@.len() != "Achaia"@.len());
        } else if earlier == 7 {
            assert(OUTPUT@[7].0@.len() != "Achaia"@.len());
        } else if earlier == 8 {
            assert(OUTPUT@[8].0@.len() != "Achaia"@.len());
        } else if earlier == 9 {
            assert(OUTPUT@[9].0@.len() != "Achaia"@.len());
        } else if earlier == 10 {
            assert(OUTPUT@[10].0@.len() != "Achaia"@.len());
        } else if earlier == 11 {
            assert(OUTPUT@[11].0@.len() != "Achaia"@.len());
        } else if earlier == 12 {
            assert(OUTPUT@[12].0@.len() != "Achaia"@.len());
        } else if earlier == 13 {
            assert(OUTPUT@[13].0@.len() != "Achaia"@.len());
        } else if earlier == 14 {
            assert(OUTPUT@[14].0@.len() != "Achaia"@.len());
        } else if earlier == 15 {
            assert(OUTPUT@[15].0@[0] != "Achaia"@[0]);
        } else if earlier == 16 {
            assert(OUTPUT@[16].0@.len() != "Achaia"@.len());
        } else if earlier == 17 {
            assert(OUTPUT@[17].0@.len() != "Achaia"@.len());
        } else if earlier == 18 {
            assert(OUTPUT@[18].0@.len() != "Achaia"@.len());
        } else if earlier == 19 {
            assert(OUTPUT@[19].0@.len() != "Achaia"@.len());
        } else if earlier == 20 {
            assert(OUTPUT@[20].0@[0] != "Achaia"@[0]);
        } else if earlier == 21 {
            assert(OUTPUT@[21].0@.len() != "Achaia"@.len());
        } else if earlier == 22 {
            assert(OUTPUT@[22].0@.len() != "Achaia"@.len());
        } else if earlier == 23 {
            assert(OUTPUT@[23].0@[0] != "Achaia"@[0]);
        } else if earlier == 24 {
            assert(OUTPUT@[24].0@.len() != "Achaia"@.len());
        } else if earlier == 25 {
            assert(OUTPUT@[25].0@.len() != "Achaia"@.len());
        } else if earlier == 26 {
            assert(OUTPUT@[26].0@.len() != "Achaia"@.len());
        } else if earlier == 27 {
            assert(OUTPUT@[27].0@.len() != "Achaia"@.len());
        } else if earlier == 28 {
            assert(OUTPUT@[28].0@.len() != "Achaia"@.len());
        } else if earlier == 29 {
            assert(OUTPUT@[29].0@[1] != "Achaia"@[1]);
        } else if earlier == 30 {
            assert(OUTPUT@[30].0@.len() != "Achaia"@.len());
        } else if earlier == 31 {
            assert(OUTPUT@[31].0@.len() != "Achaia"@.len());
        } else if earlier == 32 {
            assert(OUTPUT@[32].0@.len() != "Achaia"@.len());
        } else if earlier == 33 {
            assert(OUTPUT@[33].0@.len() != "Achaia"@.len());
        } else if earlier == 34 {
            assert(OUTPUT@[34].0@.len() != "Achaia"@.len());
        } else if earlier == 35 {
            assert(OUTPUT@[35].0@.len() != "Achaia"@.len());
        }
    }
}

/// No entry before position 22 is named `Picenum`.
proof fn lemma_first_picenum_entry()
    ensures
        first_output_entry("Picenum"@, 22),
{
    reveal_strlit("Picenum");
    reveal_strlit("Britannia");
    reveal_strlit("Lugdunensis");
    reveal_strlit("Belgica");
    reveal_strlit("Germania Inferior");
    reveal_strlit("Aquitania");
    reveal_strlit("Germania Superior");
    reveal_strlit("Alpes Graiae");
    reveal_strlit("Transpadana");
    reveal_strlit("Alpes Cottiae");
    reveal_strlit("Alpes Maritimae");
    reveal_strlit("Liguria");
    reveal_strlit("Narbonensis");
    reveal_strlit("Tarraconensis");
    reveal_strlit("Baetica");
    reveal_strlit("Lusitania");
    reveal_strlit("Raetia");
    reveal_strlit("Noricum");
    reveal_strlit("Venetia");
    reveal_strlit("Aemilia");
    reveal_strlit("Etruria");
    reveal_strlit("Umbria");
    reveal_strlit("Samnium");
    assert forall|earlier: int| 0 <= earlier < 22 implies OUTPUT@[earlier].0@ != "Picenum"@ by {
        if earlier == 0 {
            assert(OUTPUT@[0].0@.len() != "Picenum"@.len());
        } else if earlier == 1 {
            assert(OUTPUT@[1].0@.len() != "Picenum"@.len());
        } else if earlier == 2 {
            assert(OUTPUT@[2].0@[0] != "Picenum"@[0]);
        } else if earlier == 3 {
            assert(OUTPUT@[3].0@.len() != "Picenum"@.len());
        } else if earlier == 4 {
            assert(OUTPUT@[4].0@.len() != "Picenum"@.len());
        } else if earlier == 5 {
            assert(OUTPUT@[5].0@.len() != "Picenum"@.len());
        } else if earlier == 6 {
            assert(OUTPUT@[6].0@.len() != "Picenum"@.len());
        } else if earlier == 7 {
            assert(OUTPUT@[7].0@.len() != "Picenum"@.len());
        } else if earlier == 8 {
            assert(OUTPUT@[8].0@.len() != "Picenum"@.len());
        } else if earlier == 9 {
            assert(OUTPUT@[9].0@.len() != "Picenum"@.len());
        } else if earlier == 10 {
            assert(OUTPUT@[10].0@[0] != "Picenum"@[0]);
        } else if earlier == 11 {
            assert(OUTPUT@[11].0@.len() != "Picenum"@.len());
        } else if earlier == 12 {
            assert(OUTPUT@[12].0@.len() != "Picenum"@.len());
        } else if earlier == 13 {
            assert(OUTPUT@[13].0@[0] != "Picenum"@[0]);
        } else if earlier == 14 {
            assert(OUTPUT@[14].0@.len() != "Picenum"@.len());
        } else if earlier == 15 {
            assert(OUTPUT@[15].0@.len() != "Picenum"@.len());
        } else if earlier == 16 {
            assert(OUTPUT@[16].0@[0] != "Picenum"@[0]);
        } else if earlier == 17 {
            assert(OUTPUT@[17].0@[0] != "Picenum"@[0]);
        } else if earlier == 18 {
            assert(OUTPUT@[18].0@[0] != "Picenum"@[0]);
        } else if earlier == 19 {
            assert(OUTPUT@[19].0@[0] != "Picenum"@[0]);
        } else if earlier == 20 {
            assert(OUTPUT@[20].0@.len() != "Picenum"@.len());
        } else if earlier == 21 {
            assert(OUTPUT@[21].0@[0] != "Picenum"@[0]);
        }
    }
}

/// Every province yields nothing negative and something positive, and the table keeps
/// the expected contrasts: Aegyptus grows more food than Arabia, Noricum mines more metal
/// than Latium, and Achaia quarries more stone than Picenum.
pub proof fn lemma_production_is_plausible()
    ensures
        forall|i: int|
            0 <= i < PROVINCE_COUNT ==> {
                let row = #[trigger] OUTPUT@[i].1;
                &&& row@[0] >= 0 && row@[1] >= 0 && row@[2] >= 0
                &&& row@[0] > 0 || row@[1] > 0 || row@[2] > 0
            },
        first_output_entry("Aegyptus"@, 42) && first_output_entry("Arabia"@, 43)
            && OUTPUT@[42].1@[0] > OUTPUT@[43].1@[0],
        first_output_entry("Noricum"@, 16) && first_output_entry("Latium"@, 23)
            && OUTPUT@[16].1@[1] > OUTPUT@[23].1@[1],
        first_output_entry("Achaia"@, 36) && first_output_entry("Picenum"@, 22)
            && OUTPUT@[36].1@[2] > OUTPUT@[22].1@[2],
{
    lemma_first_aegyptus_entry();
    lemma_first_arabia_entry();
    lemma_first_noricum_entry();
    lemma_first_latium_entry();
    lemma_first_achaia_entry();
    lemma_first_picenum_entry();
}

} // verus!

use vstd::prelude::*;

verus! {

/// The league names the service currently offers snapshots for.
pub fn get_available_leagues() -> (r: Vec<&'static str>)
    ensures
        r@.len() == 6,
        r@[0]@ == "Standard"@,
        r@[1]@ == "Hardcore"@,
        r@[2]@ == "Settlers"@,
        r@[3]@ == "Hardcore Settlers"@,
        r@[4]@ == "Solo Self-Found"@,
        r@[5]@ == "Hardcore Solo Self-Found"@,
{
    let mut v: Vec<&'static str> = Vec::new();
    v.push("Standard");
    v.push("Hardcore");
    v.push("Settlers");
    v.push("Hardcore Settlers");
    v.push("Solo Self-Found");
    v.push("Hardcore Solo Self-Found");
    v
}

/// The two currency overview kinds the service accepts.
pub fn get_currency_types() -> (r: Vec<&'static str>)
    ensures
        r@.len() == 2,
        r@[0]@ == "Currency"@,
        r@[1]@ == "Fragment"@,
{
    let mut v: Vec<&'static str> = Vec::new();
    v.push("Currency");
    v.push("Fragment");
    v
}

/// The item overview kinds the service accepts.
pub fn get_item_types() -> (r: Vec<&'static str>)
    ensures
        r@.len() == 29,
        r@[0]@ == "Oil"@,
        r@[1]@ == "Incubator"@,
        r@[2]@ == "Scarab"@,
        r@[3]@ == "Fossil"@,
        r@[4]@ == "Resonator"@,
        r@[5]@ == "Essence"@,
        r@[6]@ == "DivinationCard"@,
        r@[7]@ == "SkillGem"@,
        r@[8]@ == "BaseType"@,
        r@[9]@ == "HelmetEnchant"@,
        r@[10]@ == "UniqueMap"@,
        r@[11]@ == "Map"@,
        r@[12]@ == "UniqueJewel"@,
        r@[13]@ == "UniqueFlask"@,
        r@[14]@ == "UniqueWeapon"@,
        r@[15]@ == "UniqueArmour"@,
        r@[16]@ == "UniqueAccessory"@,
        r@[17]@ == "Beast"@,
        r@[18]@ == "Vials"@,
        r@[19]@ == "DeliriumOrb"@,
        r@[20]@ == "Omen"@,
        r@[21]@ == "UniqueRelic"@,
        r@[22]@ == "ClusterJewel"@,
        r@[23]@ == "BlightedMap"@,
        r@[24]@ == "BlightRavagedMap"@,
        r@[25]@ == "Invitation"@,
        r@[26]@ == "Memory"@,
        r@[27]@ == "Coffin"@,
        r@[28]@ == "AllflameEmber"@,
{
    let mut v: Vec<&'static str> = Vec::new();
    v.push("Oil");
    v.push("Incubator");
    v.push("Scarab");
    v.push("Fossil");
    v.push("Resonator");
    v.push("Essence");
    v.push("DivinationCard");
    v.push("SkillGem");
    v.push("BaseType");
    v.push("HelmetEnchant");
    v.push("UniqueMap");
    v.push("Map");
    v.push("UniqueJewel");
    v.push("UniqueFlask");
    v.push("UniqueWeapon");
    v.push("UniqueArmour");
    v.push("UniqueAccessory");
    v.push("Beast");
    v.push("Vials");
    v.push("DeliriumOrb");
    v.push("Omen");
    v.push("UniqueRelic");
    v.push("ClusterJewel");
    v.push("BlightedMap");
    v.push("BlightRavagedMap");
    v.push("Invitation");
    v.push("Memory");
    v.push("Coffin");
    v.push("AllflameEmber");
    v
}

} // verus!

//! Default configuration data.
//!
//! The stock weapon power table, HEAT warhead classification,
//! submunition powers and tuning constants the engine ships with.
//! Powers are in milli units: a weapon of `100.0` host power units is
//! entered as `100_000`.

use vstd::prelude::*;
use vstd::string::StringSliceAdditionalSpecFns;

use crate::config::{
    add_heat, add_power, powers_bounded, AllVehiclesConfig, BlastWaveConfig, ClusterBombConfig,
    CookOffConfig, OrdnanceProtectionConfig, ShapedChargeConfig, SplashConfig, WaveExplosionConfig,
};
use crate::table::KeyedTable;

verus! {

/// One block of the default weapon power table.
fn powers_a(t: &mut KeyedTable<u64>)
    requires
        old(t).wf(),
        powers_bounded(*old(t)),
    ensures
        final(t).wf(),
        powers_bounded(*final(t)),
{
    add_power(t, "British_GP_250LB_Bomb_Mk1", 100000);
    add_power(t, "British_GP_250LB_Bomb_Mk4", 100000);
    add_power(t, "British_GP_250LB_Bomb_Mk5", 100000);
    add_power(t, "British_GP_500LB_Bomb_Mk1", 213000);
    add_power(t, "British_GP_500LB_Bomb_Mk4", 213000);
    add_power(t, "British_GP_500LB_Bomb_Mk4_Short", 213000);
    add_power(t, "British_GP_500LB_Bomb_Mk5", 213000);
    add_power(t, "British_MC_250LB_Bomb_Mk1", 100000);
    add_power(t, "British_MC_250LB_Bomb_Mk2", 100000);
    add_power(t, "British_MC_500LB_Bomb_Mk1_Short", 213000);
    add_power(t, "British_MC_500LB_Bomb_Mk2", 213000);
    add_power(t, "British_SAP_250LB_Bomb_Mk5", 100000);
    add_power(t, "British_SAP_500LB_Bomb_Mk5", 213000);
    add_power(t, "British_AP_25LBNo1_3INCHNo1", 4000);
    add_power(t, "British_HE_60LBSAPNo2_3INCHNo1", 4000);
    add_power(t, "British_HE_60LBFNo1_3INCHNo1", 4000);
    add_power(t, "SC_50", 20000);
    add_power(t, "ER_4_SC50", 20000);
    add_power(t, "SC_250_T1_L2", 100000);
    add_power(t, "SC_501_SC250", 100000);
    add_power(t, "Schloss500XIIC1_SC_250_T3_J", 100000);
    add_power(t, "SC_501_SC500", 213000);
    add_power(t, "SC_500_L2", 213000);
    add_power(t, "SD_250_Stg", 100000);
    add_power(t, "SD_500_A", 213000);
    add_power(t, "3xM8_ROCKETS_IN_TUBES", 4000);
    add_power(t, "WGr21", 4000);
    add_power(t, "M_117", 201000);
    add_power(t, "AN_M30A1", 45000);
    add_power(t, "AN_M57", 100000);
}

/// One block of the default weapon power table.
fn powers_b(t: &mut KeyedTable<u64>)
    requires
        old(t).wf(),
        powers_bounded(*old(t)),
    ensures
        final(t).wf(),
        powers_bounded(*final(t)),
{
    add_power(t, "AN_M64", 121000);
    add_power(t, "AN_M65", 400000);
    add_power(t, "AN_M66", 800000);
    add_power(t, "AN-M66A2", 536000);
    add_power(t, "AN-M81", 100000);
    add_power(t, "AN-M88", 100000);
    add_power(t, "Mk_81", 60000);
    add_power(t, "MK-81SE", 60000);
    add_power(t, "Mk_82", 100000);
    add_power(t, "MK_82AIR", 100000);
    add_power(t, "MK_82SNAKEYE", 100000);
    add_power(t, "Mk_83", 274000);
    add_power(t, "Mk_84", 582000);
    add_power(t, "HEBOMB", 40000);
    add_power(t, "HEBOMBD", 40000);
    add_power(t, "SAMP125LD", 60000);
    add_power(t, "SAMP250LD", 118000);
    add_power(t, "SAMP250HD", 118000);
    add_power(t, "SAMP400LD", 274000);
    add_power(t, "SAMP400HD", 274000);
    add_power(t, "BR_250", 100000);
    add_power(t, "BR_500", 100000);
    add_power(t, "FAB_100", 45000);
    add_power(t, "FAB_250", 118000);
    add_power(t, "FAB_250M54TU", 118000);
    add_power(t, "FAB-250-M62", 118000);
    add_power(t, "FAB_500", 213000);
    add_power(t, "FAB_1500", 675000);
    add_power(t, "Durandal", 64000);
    add_power(t, "BLU107B_DURANDAL", 64000);
}

/// One block of the default weapon power table.
fn powers_c(t: &mut KeyedTable<u64>)
    requires
        old(t).wf(),
        powers_bounded(*old(t)),
    ensures
        final(t).wf(),
        powers_bounded(*final(t)),
{
    add_power(t, "BAP_100", 32000);
    add_power(t, "BAP-100", 32000);
    add_power(t, "BAT-120", 32000);
    add_power(t, "TYPE-200A", 107000);
    add_power(t, "BetAB_500", 98000);
    add_power(t, "BetAB_500ShP", 107000);
    add_power(t, "GBU_10", 582000);
    add_power(t, "GBU_12", 100000);
    add_power(t, "GBU_16", 274000);
    add_power(t, "GBU_24", 582000);
    add_power(t, "KAB_1500Kr", 675000);
    add_power(t, "KAB_500Kr", 213000);
    add_power(t, "KAB_500", 213000);
    add_power(t, "GBU_31", 582000);
    add_power(t, "GBU_31_V_3B", 582000);
    add_power(t, "GBU_31_V_2B", 582000);
    add_power(t, "GBU_31_V_4B", 582000);
    add_power(t, "GBU_32_V_2B", 202000);
    add_power(t, "GBU_38", 100000);
    add_power(t, "GBU_54_V_1B", 100000);
    add_power(t, "AGM_154C", 305000);
    add_power(t, "AGM_154", 305000);
    add_power(t, "LS-6-100", 45000);
    add_power(t, "LS-6-250", 100000);
    add_power(t, "LS-6-500", 274000);
    add_power(t, "AGM_62", 400000);
    add_power(t, "AGM_65D", 38000);
    add_power(t, "AGM_65E", 80000);
    add_power(t, "AGM_65F", 80000);
    add_power(t, "AGM_65G", 80000);
}

/// One block of the default weapon power table.
fn powers_d(t: &mut KeyedTable<u64>)
    requires
        old(t).wf(),
        powers_bounded(*old(t)),
    ensures
        final(t).wf(),
        powers_bounded(*final(t)),
{
    add_power(t, "AGM_65H", 38000);
    add_power(t, "AGM_65K", 80000);
    add_power(t, "AGM_65L", 80000);
    add_power(t, "AGM_123", 274000);
    add_power(t, "AGM_130", 582000);
    add_power(t, "AGM_119", 176000);
    add_power(t, "AGM_114", 10000);
    add_power(t, "AGM_114K", 10000);
    add_power(t, "Rb 05A", 217000);
    add_power(t, "RB75", 38000);
    add_power(t, "RB75A", 38000);
    add_power(t, "RB75B", 38000);
    add_power(t, "RB75T", 80000);
    add_power(t, "HOT3_MBDA", 15000);
    add_power(t, "C-701T", 38000);
    add_power(t, "C-701IR", 38000);
    add_power(t, "Vikhr_M", 11000);
    add_power(t, "Vikhr_9M127_1", 11000);
    add_power(t, "AT_6", 11000);
    add_power(t, "Ataka_9M120", 11000);
    add_power(t, "Ataka_9M120F", 11000);
    add_power(t, "P_9M117", 0);
    add_power(t, "KH-66_Grom", 108000);
    add_power(t, "X_23", 111000);
    add_power(t, "X_23L", 111000);
    add_power(t, "X_28", 160000);
    add_power(t, "X_25ML", 89000);
    add_power(t, "X_25MR", 140000);
    add_power(t, "X_29L", 320000);
    add_power(t, "X_29T", 320000);
}

/// One block of the default weapon power table.
fn powers_e(t: &mut KeyedTable<u64>)
    requires
        old(t).wf(),
        powers_bounded(*old(t)),
    ensures
        final(t).wf(),
        powers_bounded(*final(t)),
{
    add_power(t, "X_29TE", 320000);
    add_power(t, "AKD-10", 10000);
    add_power(t, "AGM_88C", 69000);
    add_power(t, "AGM_88", 69000);
    add_power(t, "AGM_122", 12000);
    add_power(t, "LD-10", 75000);
    add_power(t, "AGM_45A", 66000);
    add_power(t, "AGM_45B", 66000);
    add_power(t, "X_58", 149000);
    add_power(t, "X_25MP", 90000);
    add_power(t, "X_31P", 90000);
    add_power(t, "AGM_84D", 488000);
    add_power(t, "Rb 15F", 500000);
    add_power(t, "C-802AK", 500000);
    add_power(t, "X_31A", 89000);
    add_power(t, "X_22", 1200000);
    add_power(t, "X_35", 145000);
    add_power(t, "CM-802AKG", 240000);
    add_power(t, "AGM_84E", 360000);
    add_power(t, "AGM_84H", 380000);
    add_power(t, "X_59M", 340000);
    add_power(t, "X_65", 545000);
    add_power(t, "X_101", 545000);
    add_power(t, "X_555", 545000);
    add_power(t, "AGM_86", 545000);
    add_power(t, "HYDRA_70M15", 5000);
    add_power(t, "HYDRA_70_MK1", 5000);
    add_power(t, "HYDRA_70_MK5", 8000);
    add_power(t, "HYDRA_70_M151", 5000);
    add_power(t, "HYDRA_70_M151_M433", 5000);
}

/// One block of the default weapon power table.
fn powers_f(t: &mut KeyedTable<u64>)
    requires
        old(t).wf(),
        powers_bounded(*old(t)),
    ensures
        final(t).wf(),
        powers_bounded(*final(t)),
{
    add_power(t, "HYDRA_70_M229", 10000);
    add_power(t, "FFAR Mk1 HE", 5000);
    add_power(t, "FFAR Mk5 HEAT", 8000);
    add_power(t, "HVAR", 5000);
    add_power(t, "Zuni_127", 8000);
    add_power(t, "ARAKM70BHE", 5000);
    add_power(t, "ARAKM70BAP", 8000);
    add_power(t, "SNEB_TYPE251_F1B", 4000);
    add_power(t, "SNEB_TYPE252_F1B", 4000);
    add_power(t, "SNEB_TYPE253_F1B", 5000);
    add_power(t, "SNEB_TYPE256_F1B", 6000);
    add_power(t, "SNEB_TYPE257_F1B", 8000);
    add_power(t, "SNEB_TYPE251_F4B", 4000);
    add_power(t, "SNEB_TYPE252_F4B", 4000);
    add_power(t, "SNEB_TYPE253_F4B", 5000);
    add_power(t, "SNEB_TYPE256_F4B", 6000);
    add_power(t, "SNEB_TYPE257_F4B", 8000);
    add_power(t, "SNEB_TYPE251_H1", 4000);
    add_power(t, "SNEB_TYPE252_H1", 4000);
    add_power(t, "SNEB_TYPE253_H1", 5000);
    add_power(t, "SNEB_TYPE256_H1", 6000);
    add_power(t, "SNEB_TYPE257_H1", 8000);
    add_power(t, "MATRA_F4_SNEBT251", 8000);
    add_power(t, "MATRA_F4_SNEBT253", 8000);
    add_power(t, "MATRA_F4_SNEBT256", 8000);
    add_power(t, "MATRA_F1_SNEBT253", 8000);
    add_power(t, "MATRA_F1_SNEBT256", 8000);
    add_power(t, "TELSON8_SNEBT251", 4000);
    add_power(t, "TELSON8_SNEBT253", 8000);
    add_power(t, "TELSON8_SNEBT256", 4000);
}

/// One block of the default weapon power table.
fn powers_g(t: &mut KeyedTable<u64>)
    requires
        old(t).wf(),
        powers_bounded(*old(t)),
    ensures
        final(t).wf(),
        powers_bounded(*final(t)),
{
    add_power(t, "TELSON8_SNEBT257", 6000);
    add_power(t, "ARF8M3API", 8000);
    add_power(t, "UG_90MM", 8000);
    add_power(t, "S-24A", 24000);
    add_power(t, "S-25OF", 194000);
    add_power(t, "S-25OFM", 150000);
    add_power(t, "S-25O", 150000);
    add_power(t, "S-25-O", 150000);
    add_power(t, "S_25L", 190000);
    add_power(t, "S-5M", 3000);
    add_power(t, "C_5", 8000);
    add_power(t, "C5", 5000);
    add_power(t, "C_8", 5000);
    add_power(t, "C_8OFP2", 5000);
    add_power(t, "C_13", 21000);
    add_power(t, "C_24", 123000);
    add_power(t, "C_25", 151000);
    add_power(t, "AGR_20", 8000);
    add_power(t, "AGR_20A", 8000);
    add_power(t, "AGR_20_M282", 8000);
    add_power(t, "Hydra_70_M282_MPP", 5000);
    add_power(t, "BRM-1_90MM", 8000);
    add_power(t, "C_701T", 38000);
    add_power(t, "C_701IR", 38000);
    add_power(t, "LS_6_100", 45000);
    add_power(t, "LS_6", 100000);
    add_power(t, "LS_6_500", 274000);
    add_power(t, "Type_200A", 107000);
    add_power(t, "C_802AK", 500000);
    add_power(t, "CM_802AKG", 240000);
}

/// One block of the default weapon power table.
fn powers_h(t: &mut KeyedTable<u64>)
    requires
        old(t).wf(),
        powers_bounded(*old(t)),
    ensures
        final(t).wf(),
        powers_bounded(*final(t)),
{
    add_power(t, "9M22U", 25000);
    add_power(t, "GRAD_9M22U", 25000);
    add_power(t, "M26", 0);
    add_power(t, "SCUD_RAKETA", 985000);
    add_power(t, "SMERCH_9M55F", 46000);
    add_power(t, "TOW2", 6500);
    add_power(t, "M48", 488000);
    add_power(t, "9M723_HE", 488000);
    add_power(t, "M39A1", 0);
    add_power(t, "9M723", 0);
    add_power(t, "M30", 0);
    add_power(t, "weapons.shells.M_105mm_HE", 12000);
    add_power(t, "weapons.shells.M_155mm_HE", 60000);
    add_power(t, "weapons.shells.2A60_120", 18000);
    add_power(t, "weapons.shells.2A18_122", 22000);
    add_power(t, "weapons.shells.2A33_152", 50000);
    add_power(t, "weapons.shells.PLZ_155_HE", 60000);
    add_power(t, "weapons.shells.M185_155", 60000);
    add_power(t, "weapons.shells.2A64_152", 50000);
    add_power(t, "weapons.shells.2A46M_125_HE", 5000);
    add_power(t, "weapons.shells.HESH_105", 6000);
    add_power(t, "BGM_109B", 450000);
    add_power(t, "AGM_84S", 225000);
    add_power(t, "P_500", 500000);
    add_power(t, "weapons.shells.AK176_76", 1000);
    add_power(t, "weapons.shells.A222_130", 5000);
    add_power(t, "weapons.shells.53-UBR-281U", 5000);
    add_power(t, "weapons.shells.PJ87_100_PFHE", 3000);
    add_power(t, "weapons.shells.AK100_100", 3000);
    add_power(t, "weapons.shells.AK130_130", 5000);
}

/// One block of the default weapon power table.
fn powers_i(t: &mut KeyedTable<u64>)
    requires
        old(t).wf(),
        powers_bounded(*old(t)),
    ensures
        final(t).wf(),
        powers_bounded(*final(t)),
{
    add_power(t, "weapons.shells.2A70_100", 3000);
    add_power(t, "weapons.shells.OTO_76", 1000);
    add_power(t, "weapons.shells.MK45_127", 5000);
    add_power(t, "weapons.shells.PJ26_76_PFHE", 1000);
    add_power(t, "weapons.shells.53-UOR-281U", 5000);
    add_power(t, "weapons.shells.MK75_76", 1000);
    add_power(t, "MK77mod0-WPN", 0);
    add_power(t, "MK77mod1-WPN", 0);
    add_power(t, "CBU_99", 0);
    add_power(t, "ROCKEYE", 0);
    add_power(t, "BLU_3B_GROUP", 0);
    add_power(t, "CBU_87", 0);
    add_power(t, "CBU_103", 0);
    add_power(t, "CBU_97", 0);
    add_power(t, "CBU_105", 0);
    add_power(t, "BELOUGA", 0);
    add_power(t, "BLG66_BELOUGA", 0);
    add_power(t, "BL_755", 0);
    add_power(t, "RBK_250", 0);
    add_power(t, "RBK_250_275_AO_1SCH", 0);
    add_power(t, "RBK_500", 0);
    add_power(t, "RBK_500U", 0);
    add_power(t, "RBK_500AO", 0);
    add_power(t, "RBK_500U_OAB_2_5RT", 0);
    add_power(t, "RBK_500_255_PTO_1M", 0);
    add_power(t, "RBK_500_255_ShO", 0);
    add_power(t, "AGM_154A", 0);
    add_power(t, "AGM_154B", 0);
    add_power(t, "BK90_MJ1", 0);
    add_power(t, "BK90_MJ1_MJ2", 0);
}

/// One block of the default weapon power table.
fn powers_j(t: &mut KeyedTable<u64>)
    requires
        old(t).wf(),
        powers_bounded(*old(t)),
    ensures
        final(t).wf(),
        powers_bounded(*final(t)),
{
    add_power(t, "BK90_MJ2", 0);
    add_power(t, "GB-6", 0);
    add_power(t, "GB-6-HE", 0);
    add_power(t, "GB-6-SFW", 0);
}

/// The pinned reference names are pairwise distinct as byte strings.
proof fn lemma_pinned_names_distinct()
    ensures
        "Mk_82".spec_bytes() != "Mk_84".spec_bytes(),
        "Mk_82".spec_bytes() != "AGM_65D".spec_bytes(),
        "Mk_82".spec_bytes() != "M26".spec_bytes(),
        "Mk_82".spec_bytes() != "CBU_87".spec_bytes(),
        "Mk_84".spec_bytes() != "AGM_65D".spec_bytes(),
        "Mk_84".spec_bytes() != "M26".spec_bytes(),
        "Mk_84".spec_bytes() != "CBU_87".spec_bytes(),
        "AGM_65D".spec_bytes() != "M26".spec_bytes(),
        "AGM_65D".spec_bytes() != "CBU_87".spec_bytes(),
        "M26".spec_bytes() != "CBU_87".spec_bytes(),
{
    broadcast use vstd::string::is_ascii_spec_bytes;

    reveal_strlit("Mk_82");
    reveal_strlit("Mk_84");
    reveal_strlit("AGM_65D");
    reveal_strlit("M26");
    reveal_strlit("CBU_87");
    assert(vstd::string::is_ascii("Mk_82"));
    assert(vstd::string::is_ascii("Mk_84"));
    assert(vstd::string::is_ascii("AGM_65D"));
    assert(vstd::string::is_ascii("M26"));
    assert(vstd::string::is_ascii("CBU_87"));
    assert("Mk_82".spec_bytes().len() == 5);
    assert("Mk_84".spec_bytes().len() == 5);
    assert("AGM_65D".spec_bytes().len() == 7);
    assert("M26".spec_bytes().len() == 3);
    assert("CBU_87".spec_bytes().len() == 6);
    assert("Mk_82".spec_bytes()[4] != "Mk_84".spec_bytes()[4]);
}

/// Re-assert the reference entries the configuration's contract names;
/// storing a key's value again is a no-op, and doing it last lets the
/// contract pin these entries without reasoning about the whole table.
fn pin_reference_powers(t: &mut KeyedTable<u64>)
    requires
        old(t).wf(),
        powers_bounded(*old(t)),
    ensures
        final(t).wf(),
        powers_bounded(*final(t)),
        final(t).spec_get("Mk_82".spec_bytes()) == Some(100_000u64),
        final(t).spec_get("Mk_84".spec_bytes()) == Some(582_000u64),
        final(t).spec_get("AGM_65D".spec_bytes()) == Some(38_000u64),
        final(t).spec_get("M26".spec_bytes()) == Some(0u64),
        final(t).spec_get("CBU_87".spec_bytes()) == Some(0u64),
{
    proof {
        lemma_pinned_names_distinct();
    }
    add_power(t, "Mk_82", 100_000);
    add_power(t, "Mk_84", 582_000);
    add_power(t, "AGM_65D", 38_000);
    add_power(t, "M26", 0);
    add_power(t, "CBU_87", 0);
}

/// The stock weapon power table.
pub fn default_weapon_powers() -> (t: KeyedTable<u64>)
    ensures
        t.wf(),
        powers_bounded(t),
        t.spec_get("Mk_82".spec_bytes()) == Some(100_000u64),
        t.spec_get("Mk_84".spec_bytes()) == Some(582_000u64),
        t.spec_get("AGM_65D".spec_bytes()) == Some(38_000u64),
        t.spec_get("M26".spec_bytes()) == Some(0u64),
        t.spec_get("CBU_87".spec_bytes()) == Some(0u64),
{
    let mut t: KeyedTable<u64> = KeyedTable::new();
    powers_a(&mut t);
    powers_b(&mut t);
    powers_c(&mut t);
    powers_d(&mut t);
    powers_e(&mut t);
    powers_f(&mut t);
    powers_g(&mut t);
    powers_h(&mut t);
    powers_i(&mut t);
    powers_j(&mut t);
    pin_reference_powers(&mut t);
    t
}

/// The stock HEAT warhead classification.
pub fn default_heat_weapons() -> (t: KeyedTable<bool>)
    ensures
        t.wf(),
        t.spec_get("AGM_65D".spec_bytes()) == Some(true),
{
    let mut t: KeyedTable<bool> = KeyedTable::new();
    add_heat(&mut t, "AGM_65E");
    add_heat(&mut t, "AGM_65F");
    add_heat(&mut t, "AGM_65G");
    add_heat(&mut t, "AGM_65H");
    add_heat(&mut t, "AGM_65K");
    add_heat(&mut t, "AGM_65L");
    add_heat(&mut t, "AGM_114");
    add_heat(&mut t, "AGM_114K");
    add_heat(&mut t, "X_35");
    add_heat(&mut t, "HYDRA_70_MK5");
    add_heat(&mut t, "FFAR Mk5 HEAT");
    add_heat(&mut t, "Hydra_70_M282_MPP");
    add_heat(&mut t, "TOW2");
    // last, so the contract can name it without table-wide reasoning
    add_heat(&mut t, "AGM_65D");
    t
}

/// The stock submunition power table.
pub fn default_submunition_powers() -> (t: KeyedTable<u64>)
    ensures
        t.wf(),
        powers_bounded(t),
        t.spec_get("BLU-97B".spec_bytes()) == Some(3_000u64),
{
    let mut t: KeyedTable<u64> = KeyedTable::new();
    add_power(&mut t, "Mk 118", 2000);
    add_power(&mut t, "BLU-97/B", 3000);
    add_power(&mut t, "BLU-108/B", 2000);
    add_power(&mut t, "AO-2-5", 2500);
    add_power(&mut t, "BLU-3", 1000);
    add_power(&mut t, "BLU-3B", 1000);
    add_power(&mut t, "BLU-4B", 1000);
    add_power(&mut t, "HEAT", 1500);
    add_power(&mut t, "MJ2", 1000);
    add_power(&mut t, "MJ1", 1000);
    add_power(&mut t, "GR_66_AC", 1000);
    add_power(&mut t, "9N235", 1850);
    add_power(&mut t, "GB-06", 2000);
    add_power(&mut t, "SD-10A", 1000);
    add_power(&mut t, "PTAB-2.5KO", 1000);
    add_power(&mut t, "PTAB-10-5", 2500);
    add_power(&mut t, "OAB-2-5RT", 1000);
    add_power(&mut t, "AO-1SCh", 1000);
    add_power(&mut t, "MM-06", 1500);
    add_power(&mut t, "BETAB-M", 5000);
    add_power(&mut t, "MJ1-MJ2", 1000);
    add_power(&mut t, "BLU-61", 1000);
    add_power(&mut t, "BLG-66 AC", 1000);
    add_power(&mut t, "PTAB-2-5", 1000);
    add_power(&mut t, "AO-2.5RT", 1000);
    add_power(&mut t, "M77", 1000);
    add_power(&mut t, "M74", 1000);
    add_power(&mut t, "9N722", 1000);
    add_power(&mut t, "SD-2", 1000);
    add_power(&mut t, "BLG-66 EG", 1000);
    add_power(&mut t, "M77 submunitions", 1000);
    // last, so the contract can name it without table-wide reasoning
    add_power(&mut t, "BLU-97B", 3000);
    t
}

impl Default for ClusterBombConfig {
    fn default() -> (r: Self)
        ensures
            r.valid(),
            r.enabled,
            r.bomblet_reduction_modifier,
            r.bomblet_damage_modifier_milli == 2_000,
            r.submunition_powers.spec_get("BLU-97B".spec_bytes()) == Some(3_000u64),
            r.base_length_cm == 15_000,
            r.base_width_cm == 20_000,
            r.max_length_cm == 30_000,
            r.max_width_cm == 40_000,
            r.min_length_cm == 10_000,
            r.min_width_cm == 15_000,
    {
        ClusterBombConfig {
            enabled: true,
            base_length_cm: 15_000,
            base_width_cm: 20_000,
            max_length_cm: 30_000,
            max_width_cm: 40_000,
            min_length_cm: 10_000,
            min_width_cm: 15_000,
            bomblet_reduction_modifier: true,
            bomblet_damage_modifier_milli: 2_000,
            submunition_powers: default_submunition_powers(),
        }
    }
}

impl Default for WaveExplosionConfig {
    fn default() -> (r: Self)
        ensures
            r == (WaveExplosionConfig {
                enabled: true,
                scaling_milli: 2_000,
                damage_threshold_milli: 100,
                always_cascade_explode: false,
            }),
    {
        WaveExplosionConfig {
            enabled: true,
            scaling_milli: 2_000,
            damage_threshold_milli: 100,
            always_cascade_explode: false,
        }
    }
}

impl Default for BlastWaveConfig {
    fn default() -> (r: Self)
        ensures
            r == (BlastWaveConfig {
                search_radius_cm: 9_000,
                use_dynamic_radius: true,
                dynamic_radius_modifier_milli: 2_000,
            }),
    {
        BlastWaveConfig {
            search_radius_cm: 9_000,
            use_dynamic_radius: true,
            dynamic_radius_modifier_milli: 2_000,
        }
    }
}

impl Default for ShapedChargeConfig {
    fn default() -> (r: Self)
        ensures
            r == (ShapedChargeConfig { enabled: true, multiplier_milli: 200 }),
    {
        ShapedChargeConfig { enabled: true, multiplier_milli: 200 }
    }
}

impl Default for OrdnanceProtectionConfig {
    fn default() -> (r: Self)
        ensures
            r == (OrdnanceProtectionConfig {
                enabled: true,
                protection_radius_cm: 2_000,
                detect_ordnance_destruction: true,
                snap_to_ground_if_destroyed: true,
                max_snapped_height_cm: 8_000,
                recent_large_explosion_snap: true,
                recent_large_explosion_range_cm: 10_000,
                recent_large_explosion_time_ms: 4_000,
            }),
    {
        OrdnanceProtectionConfig {
            enabled: true,
            protection_radius_cm: 2_000,
            detect_ordnance_destruction: true,
            snap_to_ground_if_destroyed: true,
            max_snapped_height_cm: 8_000,
            recent_large_explosion_snap: true,
            recent_large_explosion_range_cm: 10_000,
            recent_large_explosion_time_ms: 4_000,
        }
    }
}

impl Default for SplashConfig {
    fn default() -> (r: Self)
        ensures
            r.valid(),
            r.enabled,
            r.overall_scaling_milli == 1_500,
            r.rocket_multiplier_milli == 1_300,
            !r.only_players_weapons,
            r.cascade_damage_threshold_milli == 50,
            r.cascade_explode_threshold_milli == 80_000,
            r.cascade_scaling_milli == 2_000,
            r.cookoff.enabled,
            r.weapon_powers.spec_get("Mk_82".spec_bytes()) == Some(100_000u64),
            r.weapon_powers.spec_get("Mk_84".spec_bytes()) == Some(582_000u64),
            r.weapon_powers.spec_get("AGM_65D".spec_bytes()) == Some(38_000u64),
            r.weapon_powers.spec_get("M26".spec_bytes()) == Some(0u64),
            r.weapon_powers.spec_get("CBU_87".spec_bytes()) == Some(0u64),
            r.heat_weapons.spec_get("AGM_65D".spec_bytes()) == Some(true),
            r.cluster_bombs.submunition_powers.spec_get("BLU-97B".spec_bytes()) == Some(3_000u64),
    {
        SplashConfig {
            enabled: true,
            weapon_powers: default_weapon_powers(),
            cookoff: CookOffConfig::default(),
            wave_explosions: WaveExplosionConfig::default(),
            blast_wave: BlastWaveConfig::default(),
            shaped_charge: ShapedChargeConfig::default(),
            cluster_bombs: ClusterBombConfig::default(),
            ordnance_protection: OrdnanceProtectionConfig::default(),
            overall_scaling_milli: 1_500,
            rocket_multiplier_milli: 1_300,
            only_players_weapons: false,
            heat_weapons: default_heat_weapons(),
            cascade_damage_threshold_milli: 50,
            cascade_explode_threshold_milli: 80_000,
            cascade_scaling_milli: 2_000,
        }
    }
}

} // verus!

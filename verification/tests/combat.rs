use std::collections::HashMap;

use holyland::combat::{
    resolve_hit, roll_body_part, roll_damage, roll_damage_with_mult, ArmorDr, AttackerStats,
    BodyPart, DamageTriplet, DefenderStats, HitOutcome, WeaponProfile, NO_REACH_DAMAGE_PCT,
};
use holyland::rng::Rng;

fn weapon_dagger() -> WeaponProfile {
    WeaponProfile {
        to_hit: 1,
        damage_die: DamageTriplet { bash: 0, cut: 2, stab: 8 },
        move_cost: 70,
        reach: 1,
    }
}

fn no_armor() -> ArmorDr {
    ArmorDr::default()
}

#[test]
fn miss_when_attacker_far_below_defender() {
    let mut rng = Rng::from_state(0xAB12_3456);
    let atk = AttackerStats { melee_skill: 0, ..Default::default() };
    let def = DefenderStats { dodge_skill: 80, ..Default::default() };
    for _ in 0..100 {
        let out = resolve_hit(atk, def, weapon_dagger(), &mut rng);
        assert!(matches!(out, HitOutcome::Miss), "got {:?}", out);
    }
}

#[test]
fn crit_when_attacker_far_above_defender() {
    let mut rng = Rng::from_state(0xCAFE_1234);
    let atk = AttackerStats { melee_skill: 90, weapon_prof: 5, ..Default::default() };
    let def = DefenderStats { dodge_skill: 0, ..Default::default() };
    for _ in 0..100 {
        let out = resolve_hit(atk, def, weapon_dagger(), &mut rng);
        assert!(matches!(out, HitOutcome::Crit { .. }), "got {:?}", out);
    }
}

#[test]
fn damage_clamps_at_zero_when_armor_eats_everything() {
    let mut rng = Rng::from_state(0xDEAD_BEEF);
    let armor = ArmorDr { bash: 99, cut: 99, stab: 99 };
    let dmg = roll_damage(weapon_dagger(), AttackerStats::default(), armor, false, &mut rng);
    assert_eq!(dmg, DamageTriplet::default());
}

#[test]
fn damage_unarmored_dagger_lands_stab() {
    let mut rng = Rng::from_state(0xFEED_FACE);
    for _ in 0..50 {
        let dmg = roll_damage(weapon_dagger(), AttackerStats::default(), no_armor(), false, &mut rng);
        assert!(dmg.stab > 0, "stab should always roll >= 1 on cut+stab weapon");
        assert_eq!(dmg.bash, 0, "dagger has no bash die");
    }
}

#[test]
fn crit_increases_damage_by_50pct() {
    let mut rng_a = Rng::from_state(0x1234_5678);
    let mut rng_b = Rng::from_state(0x1234_5678);
    let atk = AttackerStats { str_bonus: 4, weapon_prof: 3, ..Default::default() };
    let base = roll_damage(weapon_dagger(), atk, no_armor(), false, &mut rng_a);
    let crit = roll_damage(weapon_dagger(), atk, no_armor(), true, &mut rng_b);
    assert_eq!(crit.bash, base.bash * 150 / 100);
    assert_eq!(crit.cut, base.cut * 150 / 100);
    assert_eq!(crit.stab, base.stab * 150 / 100);
}

#[test]
fn str_bonus_halves_for_stab() {
    let mut rng = Rng::from_state(0x9999_AAAA);
    let pure_weapon = WeaponProfile {
        to_hit: 0,
        damage_die: DamageTriplet { bash: 0, cut: 0, stab: 0 },
        move_cost: 100,
        reach: 1,
    };
    let atk = AttackerStats { str_bonus: 5, weapon_prof: 2, ..Default::default() };
    let dmg = roll_damage(pure_weapon, atk, no_armor(), false, &mut rng);
    assert_eq!(dmg.bash, 7);
    assert_eq!(dmg.cut, 7);
    assert_eq!(dmg.stab, 4);
}

#[test]
fn body_part_coverage_weights_sum_to_100() {
    let sum: u32 = BodyPart::all().iter().map(|p| p.coverage_weight() as u32).sum();
    assert_eq!(sum, 100);
}

#[test]
fn body_part_roll_distribution_approximates_coverage() {
    let mut rng = Rng::from_state(0xBEEF_F00D);
    let mut counts: HashMap<BodyPart, u32> = HashMap::new();
    let n = 20_000u32;
    for _ in 0..n {
        *counts.entry(roll_body_part(&mut rng)).or_insert(0) += 1;
    }
    for part in BodyPart::all() {
        let observed = *counts.get(&part).unwrap_or(&0) as f64 / n as f64;
        let expected = part.coverage_weight() as f64 / 100.0;
        let delta = (observed - expected).abs();
        assert!(
            delta < 0.03,
            "{:?}: observed {:.4}, expected {:.4} (delta {:.4})",
            part,
            observed,
            expected,
            delta
        );
    }
}

#[test]
fn body_part_save_key_round_trip() {
    for part in BodyPart::all() {
        assert_eq!(BodyPart::from_save_key(part.save_key()), Some(part));
    }
    assert_eq!(BodyPart::from_save_key("definitely_not_a_part"), None);
}

#[test]
fn body_part_role_helpers() {
    assert!(BodyPart::Head.is_vital() && !BodyPart::Head.is_arm() && !BodyPart::Head.is_leg());
    assert!(BodyPart::Torso.is_vital());
    assert!(BodyPart::LArm.is_arm() && !BodyPart::LArm.is_vital());
    assert!(BodyPart::RLeg.is_leg() && !BodyPart::RLeg.is_vital());
}

#[test]
fn outcome_helpers() {
    assert!(HitOutcome::Crit { margin: 20 }.is_crit());
    assert!(!HitOutcome::Hit { margin: 5 }.is_crit());
    assert!(HitOutcome::Hit { margin: 0 }.landed());
    assert!(HitOutcome::Crit { margin: 20 }.landed());
    assert!(!HitOutcome::Miss.landed());
}

#[test]
fn no_reach_penalty_scales_damage() {
    let pure_weapon = WeaponProfile {
        to_hit: 0,
        damage_die: DamageTriplet { bash: 0, cut: 0, stab: 0 },
        move_cost: 100,
        reach: 2,
    };
    let atk = AttackerStats { str_bonus: 10, weapon_prof: 0, ..Default::default() };
    let mut rng = Rng::from_state(7);
    let dmg = roll_damage_with_mult(pure_weapon, atk, no_armor(), false, NO_REACH_DAMAGE_PCT, &mut rng);
    assert_eq!(dmg, DamageTriplet { bash: 7, cut: 7, stab: 3 });
    let mut rng = Rng::from_state(7);
    let dmg = roll_damage_with_mult(pure_weapon, atk, ArmorDr { bash: 2, cut: 10, stab: 0 }, true, NO_REACH_DAMAGE_PCT, &mut rng);
    assert_eq!(dmg, DamageTriplet { bash: 8, cut: 0, stab: 5 });
}

#[test]
fn total_saturates() {
    assert_eq!(DamageTriplet { bash: 1, cut: 2, stab: 3 }.total(), 6);
    assert_eq!(DamageTriplet { bash: u16::MAX, cut: 2, stab: 3 }.total(), u16::MAX);
}

#[test]
fn body_part_labels() {
    assert_eq!(BodyPart::Torso.label(), "chest");
    assert_eq!(BodyPart::LArm.label(), "L-arm");
}

#[test]
fn same_seed_same_rolls() {
    let mut a = Rng::from_state(99);
    let mut b = Rng::from_state(99);
    for _ in 0..10 {
        assert_eq!(a.next_u32(), b.next_u32());
    }
    let mut d = Rng::from_world_seed(5);
    for _ in 0..100 {
        let r = d.d100();
        assert!((1..=100).contains(&r));
    }
}


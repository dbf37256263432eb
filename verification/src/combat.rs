//! Pure combat arithmetic: the contested hit roll, the bash/cut/stab damage
//! triplet with flat armour reduction, and the post-hit body-part roll.
//!
//! Each side's roll is `score + (d100 + d100 - 101) / 10` (a triangular
//! swing of roughly -9..=+9, truncated toward zero); the margin is the
//! attacker's roll minus the defender's.

use vstd::prelude::*;

use crate::rng::{rng_output, rng_step, Rng};
use crate::text::str_eq;

verus! {

/// Anatomical slots.
#[derive(Clone, Copy, Debug, PartialEq, Eq, Hash, Structural)]
pub enum BodyPart {
    Head,
    Torso,
    LArm,
    RArm,
    LLeg,
    RLeg,
}

pub open spec fn coverage(p: BodyPart) -> int {
    match p {
        BodyPart::Head => 11,
        BodyPart::Torso => 35,
        BodyPart::LArm => 12,
        BodyPart::RArm => 12,
        BodyPart::LLeg => 15,
        BodyPart::RLeg => 15,
    }
}

/// Parts in their stable iteration order.
pub open spec fn part_at(i: int) -> BodyPart {
    if i <= 0 {
        BodyPart::Head
    } else if i == 1 {
        BodyPart::Torso
    } else if i == 2 {
        BodyPart::LArm
    } else if i == 3 {
        BodyPart::RArm
    } else if i == 4 {
        BodyPart::LLeg
    } else {
        BodyPart::RLeg
    }
}

/// Total coverage of the first `i` parts in iteration order.
pub open spec fn coverage_before(i: int) -> int
    decreases i,
{
    if i <= 0 {
        0
    } else {
        coverage_before(i - 1) + coverage(part_at(i - 1))
    }
}

/// The part a coverage roll in 1..=100 lands on: head 1-11, torso 12-46,
/// left arm 47-58, right arm 59-70, left leg 71-85, right leg 86-100.
pub open spec fn part_for_roll(roll: int) -> BodyPart {
    if roll <= 11 {
        BodyPart::Head
    } else if roll <= 46 {
        BodyPart::Torso
    } else if roll <= 58 {
        BodyPart::LArm
    } else if roll <= 70 {
        BodyPart::RArm
    } else if roll <= 85 {
        BodyPart::LLeg
    } else {
        BodyPart::RLeg
    }
}

pub open spec fn part_key(p: BodyPart) -> Seq<char> {
    match p {
        BodyPart::Head => "head"@,
        BodyPart::Torso => "torso"@,
        BodyPart::LArm => "l_arm"@,
        BodyPart::RArm => "r_arm"@,
        BodyPart::LLeg => "l_leg"@,
        BodyPart::RLeg => "r_leg"@,
    }
}

pub open spec fn part_from_key(s: Seq<char>) -> Option<BodyPart> {
    if s == "head"@ {
        Some(BodyPart::Head)
    } else if s == "torso"@ {
        Some(BodyPart::Torso)
    } else if s == "l_arm"@ {
        Some(BodyPart::LArm)
    } else if s == "r_arm"@ {
        Some(BodyPart::RArm)
    } else if s == "l_leg"@ {
        Some(BodyPart::LLeg)
    } else if s == "r_leg"@ {
        Some(BodyPart::RLeg)
    } else {
        None
    }
}

pub open spec fn part_label(p: BodyPart) -> Seq<char> {
    match p {
        BodyPart::Head => "head"@,
        BodyPart::Torso => "chest"@,
        BodyPart::LArm => "L-arm"@,
        BodyPart::RArm => "R-arm"@,
        BodyPart::LLeg => "L-leg"@,
        BodyPart::RLeg => "R-leg"@,
    }
}

fn part_at_exec(i: usize) -> (p: BodyPart)
    ensures
        p == part_at(i as int),
{
    match i {
        0 => BodyPart::Head,
        1 => BodyPart::Torso,
        2 => BodyPart::LArm,
        3 => BodyPart::RArm,
        4 => BodyPart::LLeg,
        _ => BodyPart::RLeg,
    }
}

impl BodyPart {
    /// Every part in stable iteration order.
    pub fn all() -> (r: [BodyPart; 6])
        ensures
            forall|i: int| 0 <= i < 6 ==> r@[i] == part_at(i),
    {
        [
            BodyPart::Head,
            BodyPart::Torso,
            BodyPart::LArm,
            BodyPart::RArm,
            BodyPart::LLeg,
            BodyPart::RLeg,
        ]
    }

    /// Weight on the post-hit body-part roll; the six weights sum to 100.
    pub fn coverage_weight(self) -> (r: u8)
        ensures
            r as int == coverage(self),
    {
        match self {
            BodyPart::Head => 11,
            BodyPart::Torso => 35,
            BodyPart::LArm => 12,
            BodyPart::RArm => 12,
            BodyPart::LLeg => 15,
            BodyPart::RLeg => 15,
        }
    }

    pub fn is_arm(self) -> (r: bool)
        ensures
            r == (self == BodyPart::LArm || self == BodyPart::RArm),
    {
        matches!(self, BodyPart::LArm | BodyPart::RArm)
    }

    pub fn is_leg(self) -> (r: bool)
        ensures
            r == (self == BodyPart::LLeg || self == BodyPart::RLeg),
    {
        matches!(self, BodyPart::LLeg | BodyPart::RLeg)
    }

    /// Head and torso: zero hit points there is death.
    pub fn is_vital(self) -> (r: bool)
        ensures
            r == (self == BodyPart::Head || self == BodyPart::Torso),
    {
        matches!(self, BodyPart::Head | BodyPart::Torso)
    }

    /// Short label for the combat log.
    pub fn label(self) -> (r: &'static str)
        ensures
            r@ == part_label(self),
    {
        match self {
            BodyPart::Head => "head",
            BodyPart::Torso => "chest",
            BodyPart::LArm => "L-arm",
            BodyPart::RArm => "R-arm",
            BodyPart::LLeg => "L-leg",
            BodyPart::RLeg => "R-leg",
        }
    }

    /// Stable key for saves.
    pub fn save_key(self) -> (r: &'static str)
        ensures
            r@ == part_key(self),
    {
        match self {
            BodyPart::Head => "head",
            BodyPart::Torso => "torso",
            BodyPart::LArm => "l_arm",
            BodyPart::RArm => "r_arm",
            BodyPart::LLeg => "l_leg",
            BodyPart::RLeg => "r_leg",
        }
    }

    /// The part saved under `s`; `None` for an unknown key.
    pub fn from_save_key(s: &str) -> (r: Option<Self>)
        ensures
            r == part_from_key(s@),
    {
        if str_eq(s, "head") {
            Some(BodyPart::Head)
        } else if str_eq(s, "torso") {
            Some(BodyPart::Torso)
        } else if str_eq(s, "l_arm") {
            Some(BodyPart::LArm)
        } else if str_eq(s, "r_arm") {
            Some(BodyPart::RArm)
        } else if str_eq(s, "l_leg") {
            Some(BodyPart::LLeg)
        } else if str_eq(s, "r_leg") {
            Some(BodyPart::RLeg)
        } else {
            None
        }
    }
}

/// Each body part's save key leads back to it.
pub proof fn law_part_key_round_trip(p: BodyPart)
    ensures
        part_from_key(part_key(p)) == Some(p),
{
    reveal_strlit("head");
    reveal_strlit("torso");
    reveal_strlit("l_arm");
    reveal_strlit("r_arm");
    reveal_strlit("l_leg");
    reveal_strlit("r_leg");
    assert("torso"@.len() != "head"@.len());
    assert("l_arm"@[0] != "torso"@[0]);
    assert("r_arm"@[0] != "torso"@[0]);
    assert("r_arm"@[0] != "l_arm"@[0]);
    assert("l_leg"@[0] != "torso"@[0]);
    assert("l_leg"@[2] != "l_arm"@[2]);
    assert("l_leg"@[0] != "r_arm"@[0]);
    assert("r_leg"@[0] != "torso"@[0]);
    assert("r_leg"@[0] != "l_arm"@[0]);
    assert("r_leg"@[2] != "r_arm"@[2]);
    assert("r_leg"@[0] != "l_leg"@[0]);
}

/// The coverage weights of the six parts sum to 100, and the roll bands
/// follow the parts' iteration order.
pub proof fn law_coverage_sums_to_100()
    ensures
        coverage_before(6) == 100,
        forall|roll: int, i: int|
            0 <= i < 6 && coverage_before(i) < roll <= coverage_before(i + 1) ==> part_for_roll(
                roll,
            ) == part_at(i),
{
    reveal_with_fuel(coverage_before, 7);
}

/// Rolls a body part by coverage weight from one d100-style draw.
pub fn roll_body_part(rng: &mut Rng) -> (r: BodyPart)
    ensures
        r == part_for_roll(rng_output(old(rng).state()) % 100 + 1),
        final(rng).state() == rng_step(old(rng).state()),
{
    proof {
        law_coverage_sums_to_100();
    }
    let ghost roll0 = rng_output(rng.state()) % 100 + 1;
    let mut roll: u8 = (rng.next_u32() % 100 + 1) as u8;
    let mut i: usize = 0;
    while i < 6
        invariant
            i <= 6,
            1 <= roll0 <= 100,
            roll0 == rng_output(old(rng).state()) % 100 + 1,
            rng.state() == rng_step(old(rng).state()),
            roll as int == roll0 - coverage_before(i as int),
            roll0 > coverage_before(i as int),
            coverage_before(6) == 100,
            forall|r: int, k: int|
                0 <= k < 6 && coverage_before(k) < r <= coverage_before(k + 1) ==> part_for_roll(r)
                    == part_at(k),
        decreases 6 - i,
    {
        let part = part_at_exec(i);
        let w = part.coverage_weight();
        proof {
            assert(coverage_before(i as int + 1) == coverage_before(i as int) + coverage(
                part_at(i as int),
            ));
        }
        if roll <= w {
            return part;
        }
        roll = roll - w;
        i += 1;
    }
    proof {
        assert(false);
    }
    BodyPart::Torso
}

/// Per-type damage from one swing.
#[derive(Clone, Copy, Debug, PartialEq, Eq, Structural)]
pub struct DamageTriplet {
    pub bash: u16,
    pub cut: u16,
    pub stab: u16,
}

impl Default for DamageTriplet {
    fn default() -> (r: Self)
        ensures
            r == (DamageTriplet { bash: 0, cut: 0, stab: 0 }),
    {
        DamageTriplet { bash: 0, cut: 0, stab: 0 }
    }
}

pub open spec fn sat_u16(x: int) -> u16 {
    if x > u16::MAX {
        u16::MAX
    } else {
        x as u16
    }
}

impl DamageTriplet {
    /// Sum of the three components, saturating.
    pub fn total(self) -> (r: u16)
        ensures
            r == sat_u16(self.bash + self.cut + self.stab),
    {
        let s = self.bash as u32 + self.cut as u32 + self.stab as u32;
        if s > 0xffff {
            u16::MAX
        } else {
            s as u16
        }
    }
}

/// Flat per-type damage reduction.
#[derive(Clone, Copy, Debug, PartialEq, Eq, Structural)]
pub struct ArmorDr {
    pub bash: u16,
    pub cut: u16,
    pub stab: u16,
}

impl Default for ArmorDr {
    fn default() -> (r: Self)
        ensures
            r == (ArmorDr { bash: 0, cut: 0, stab: 0 }),
    {
        ArmorDr { bash: 0, cut: 0, stab: 0 }
    }
}

/// Static weapon characteristics.
#[derive(Clone, Copy, Debug)]
pub struct WeaponProfile {
    /// Additive bonus on the contested roll.
    pub to_hit: i16,
    /// Maximum of each per-type damage die; 0 means no damage of that type
    /// (and no draw from the generator).
    pub damage_die: DamageTriplet,
    /// Swing cost in moves.
    pub move_cost: u32,
    /// Maximum attack distance in Chebyshev tiles.
    pub reach: u8,
}

/// Damage percentage when a reach-2 weapon strikes an adjacent target.
pub const NO_REACH_DAMAGE_PCT: u16 = 70;

/// Ranged weapon profile.
#[derive(Clone, Copy, Debug)]
pub struct RangedProfile {
    pub to_hit: i16,
    pub damage_die: DamageTriplet,
    pub move_cost: u32,
    pub max_range: u8,
    /// Save key of the ammunition consumed per shot; empty for none.
    pub ammo_kind: &'static str,
}

#[derive(Clone, Copy, Debug)]
pub struct AttackerStats {
    pub melee_skill: i16,
    pub weapon_prof: i16,
    pub agi_mod: i16,
    /// Added to bash and cut damage in full; stab gets half.
    pub str_bonus: i16,
}

impl Default for AttackerStats {
    fn default() -> (r: Self)
        ensures
            r.melee_skill == 0 && r.weapon_prof == 0 && r.agi_mod == 0 && r.str_bonus == 0,
    {
        AttackerStats { melee_skill: 0, weapon_prof: 0, agi_mod: 0, str_bonus: 0 }
    }
}

#[derive(Clone, Copy, Debug)]
pub struct DefenderStats {
    pub dodge_skill: i16,
    pub agi_mod: i16,
    /// Subtracted from the defender's score.
    pub encumbrance: i16,
}

impl Default for DefenderStats {
    fn default() -> (r: Self)
        ensures
            r.dodge_skill == 0 && r.agi_mod == 0 && r.encumbrance == 0,
    {
        DefenderStats { dodge_skill: 0, agi_mod: 0, encumbrance: 0 }
    }
}

#[derive(Clone, Copy, Debug, PartialEq, Eq, Structural)]
pub enum HitOutcome {
    Miss,
    Hit { margin: i16 },
    Crit { margin: i16 },
}

impl HitOutcome {
    pub fn is_crit(self) -> (r: bool)
        ensures
            r == (self is Crit),
    {
        matches!(self, HitOutcome::Crit { .. })
    }

    pub fn landed(self) -> (r: bool)
        ensures
            r == !(self is Miss),
    {
        !matches!(self, HitOutcome::Miss)
    }
}

/// Margin at which a hit becomes a critical.
pub const CRIT_MARGIN: i16 = 15;

/// Critical damage multiplier in percent.
pub const CRIT_DMG_MULT_PCT: u16 = 150;

/// Integer division by 10 truncated toward zero, as Rust's `/` does.
pub open spec fn trunc_div10(x: int) -> int {
    if x >= 0 {
        x / 10
    } else {
        -((-x) / 10)
    }
}

/// A d100 draw from state `s`.
pub open spec fn d100_at(s: u64) -> int {
    rng_output(s) % 100 + 1
}

/// The triangular swing drawn from state `s` (two d100 draws).
pub open spec fn swing_at(s: u64) -> int {
    trunc_div10(d100_at(s) + d100_at(rng_step(s)) - 101)
}

/// State after two draws.
pub open spec fn after_two(s: u64) -> u64 {
    rng_step(rng_step(s))
}

pub open spec fn attack_score(atk: AttackerStats, weapon: WeaponProfile) -> int {
    atk.melee_skill + atk.weapon_prof + weapon.to_hit + atk.agi_mod
}

pub open spec fn defense_score(def: DefenderStats) -> int {
    def.dodge_skill + def.agi_mod - def.encumbrance
}

/// Attacker roll minus defender roll, the attacker swinging first.
pub open spec fn hit_margin(
    atk: AttackerStats,
    def: DefenderStats,
    weapon: WeaponProfile,
    s: u64,
) -> int {
    (attack_score(atk, weapon) + swing_at(s)) - (defense_score(def) + swing_at(after_two(s)))
}

pub open spec fn fits_i16(x: int) -> bool {
    i16::MIN <= x <= i16::MAX
}

/// Every intermediate sum of the hit roll fits in an `i16` (the rolls
/// overflow otherwise).
pub open spec fn hit_roll_fits(
    atk: AttackerStats,
    def: DefenderStats,
    weapon: WeaponProfile,
    s: u64,
) -> bool {
    &&& fits_i16(atk.melee_skill + atk.weapon_prof)
    &&& fits_i16(atk.melee_skill + atk.weapon_prof + weapon.to_hit)
    &&& fits_i16(attack_score(atk, weapon))
    &&& fits_i16(def.dodge_skill + def.agi_mod)
    &&& fits_i16(defense_score(def))
    &&& fits_i16(attack_score(atk, weapon) + swing_at(s))
    &&& fits_i16(defense_score(def) + swing_at(after_two(s)))
    &&& fits_i16(hit_margin(atk, def, weapon, s))
}

pub open spec fn outcome_for_margin(m: int) -> HitOutcome {
    if m < 0 {
        HitOutcome::Miss
    } else if m >= 15 {
        HitOutcome::Crit { margin: m as i16 }
    } else {
        HitOutcome::Hit { margin: m as i16 }
    }
}

proof fn lemma_swing_bounds(s: u64)
    ensures
        -9 <= swing_at(s) <= 9,
{
    let x = d100_at(s) + d100_at(rng_step(s)) - 101;
    assert(-99 <= x <= 99);
    if x >= 0 {
        assert(x / 10 <= 9);
    } else {
        assert((-x) / 10 <= 9);
    }
}

fn triangular_swing(rng: &mut Rng) -> (r: i16)
    ensures
        r == swing_at(old(rng).state()),
        final(rng).state() == after_two(old(rng).state()),
{
    let a = rng.d100() as i16;
    let b = rng.d100() as i16;
    let x = a + b - 101;
    if x >= 0 {
        x / 10
    } else {
        -((-x) / 10)
    }
}

/// Contested hit roll.
pub fn resolve_hit(atk: AttackerStats, def: DefenderStats, weapon: WeaponProfile, rng: &mut Rng) -> (r:
    HitOutcome)
    requires
        hit_roll_fits(atk, def, weapon, old(rng).state()),
    ensures
        r == outcome_for_margin(hit_margin(atk, def, weapon, old(rng).state())),
        final(rng).state() == after_two(after_two(old(rng).state())),
{
    let atk_score = atk.melee_skill + atk.weapon_prof + weapon.to_hit + atk.agi_mod;
    let def_score = def.dodge_skill + def.agi_mod - def.encumbrance;
    let atk_roll = atk_score + triangular_swing(rng);
    let def_roll = def_score + triangular_swing(rng);
    let margin = atk_roll - def_roll;
    if margin < 0 {
        HitOutcome::Miss
    } else if margin >= CRIT_MARGIN {
        HitOutcome::Crit { margin }
    } else {
        HitOutcome::Hit { margin }
    }
}

/// The swings are bounded, so a gap of more than 18 points between the
/// scores decides the outcome: an attacker more than 18 below always
/// misses, and one at least 33 above always lands a critical (for rolls
/// that fit, as `resolve_hit` needs).
pub proof fn law_score_gap_decides_hit(
    atk: AttackerStats,
    def: DefenderStats,
    weapon: WeaponProfile,
    s: u64,
)
    requires
        hit_roll_fits(atk, def, weapon, s),
    ensures
        attack_score(atk, weapon) + 18 < defense_score(def) ==> outcome_for_margin(
            hit_margin(atk, def, weapon, s),
        ) == HitOutcome::Miss,
        attack_score(atk, weapon) >= defense_score(def) + 33 ==> outcome_for_margin(
            hit_margin(atk, def, weapon, s),
        ) is Crit,
{
    lemma_swing_bounds(s);
    lemma_swing_bounds(after_two(s));
}

/// A die roll of `max` from state `s`: 1..=max, or 0 (with no draw) for a
/// zero die.
pub open spec fn die_at(max: u16, s: u64) -> int {
    if max == 0 {
        0
    } else {
        (rng_output(s) as int) % (max as int) + 1
    }
}

/// State after a die roll of `max`.
pub open spec fn after_die(max: u16, s: u64) -> u64 {
    if max == 0 {
        s
    } else {
        rng_step(s)
    }
}

pub open spec fn str_part(atk: AttackerStats) -> int {
    if atk.str_bonus < 0 {
        0
    } else {
        atk.str_bonus as int
    }
}

pub open spec fn prof_part(atk: AttackerStats) -> int {
    if atk.weapon_prof < 0 {
        0
    } else {
        atk.weapon_prof as int
    }
}

/// Raw (pre-multiplier) bash, cut and stab values drawn from state `s`:
/// each die plus the strength bonus (halved for stab) plus proficiency.
pub open spec fn raw_damage(weapon: WeaponProfile, atk: AttackerStats, s: u64) -> (int, int, int) {
    let s1 = after_die(weapon.damage_die.bash, s);
    let s2 = after_die(weapon.damage_die.cut, s1);
    (
        die_at(weapon.damage_die.bash, s) + str_part(atk) + prof_part(atk),
        die_at(weapon.damage_die.cut, s1) + str_part(atk) + prof_part(atk),
        die_at(weapon.damage_die.stab, s2) + str_part(atk) / 2 + prof_part(atk),
    )
}

/// State after the three damage dice.
pub open spec fn after_damage(weapon: WeaponProfile, s: u64) -> u64 {
    after_die(
        weapon.damage_die.stab,
        after_die(weapon.damage_die.cut, after_die(weapon.damage_die.bash, s)),
    )
}

/// Combined percent factor of the crit multiplier and `mult_pct`.
pub open spec fn damage_factor(crit: bool, mult_pct: u16) -> int {
    (if crit {
        150int
    } else {
        100int
    }) * mult_pct
}

/// `raw` scaled by `factor / 10_000`, capped at `u16::MAX`.
pub open spec fn scaled(raw: int, factor: int) -> int {
    if raw * factor / 10_000 > u16::MAX {
        u16::MAX as int
    } else {
        raw * factor / 10_000
    }
}

/// `x` reduced by `dr`, floored at 0.
pub open spec fn reduced(x: int, dr: u16) -> u16 {
    if x <= dr {
        0
    } else {
        (x - dr) as u16
    }
}

pub open spec fn damage_result(
    weapon: WeaponProfile,
    atk: AttackerStats,
    armor: ArmorDr,
    crit: bool,
    mult_pct: u16,
    s: u64,
) -> DamageTriplet {
    let (b, c, t) = raw_damage(weapon, atk, s);
    let f = damage_factor(crit, mult_pct);
    DamageTriplet {
        bash: reduced(scaled(b, f), armor.bash),
        cut: reduced(scaled(c, f), armor.cut),
        stab: reduced(scaled(t, f), armor.stab),
    }
}

/// The raw values fit in a `u16`, with every partial sum, and each scaled
/// product fits in a `u32` (the computation overflows otherwise).
pub open spec fn damage_fits(weapon: WeaponProfile, atk: AttackerStats, crit: bool, mult_pct: u16, s: u64) -> bool {
    let (b, c, t) = raw_damage(weapon, atk, s);
    let s1 = after_die(weapon.damage_die.bash, s);
    let s2 = after_die(weapon.damage_die.cut, s1);
    let f = damage_factor(crit, mult_pct);
    &&& die_at(weapon.damage_die.bash, s) + str_part(atk) <= u16::MAX
    &&& die_at(weapon.damage_die.cut, s1) + str_part(atk) <= u16::MAX
    &&& die_at(weapon.damage_die.stab, s2) + str_part(atk) / 2 <= u16::MAX
    &&& b <= u16::MAX
    &&& c <= u16::MAX
    &&& t <= u16::MAX
    &&& b * f <= u32::MAX
    &&& c * f <= u32::MAX
    &&& t * f <= u32::MAX
}

fn roll_die(max: u16, rng: &mut Rng) -> (r: u16)
    ensures
        r as int == die_at(max, old(rng).state()),
        final(rng).state() == after_die(max, old(rng).state()),
{
    if max == 0 {
        return 0;
    }
    (rng.next_u32() % max as u32 + 1) as u16
}

fn bonus_u16(prof: i16) -> (r: u16)
    ensures
        r == (if prof < 0 {
            0
        } else {
            prof as int
        }),
{
    if prof < 0 {
        0
    } else {
        prof as u16
    }
}

fn apply_dr(raw: u16, dr: u16) -> (r: u16)
    ensures
        r == reduced(raw as int, dr),
{
    if raw <= dr {
        0
    } else {
        raw - dr
    }
}

fn scale(raw: u16, factor: u32) -> (r: u16)
    requires
        raw * factor <= u32::MAX,
    ensures
        r == scaled(raw as int, factor as int),
{
    let v = raw as u32 * factor / 10_000;
    if v > 0xffff {
        u16::MAX
    } else {
        v as u16
    }
}

/// Damage of a landed hit (no situational multiplier).
pub fn roll_damage(weapon: WeaponProfile, atk: AttackerStats, armor: ArmorDr, crit: bool, rng: &mut Rng) -> (r:
    DamageTriplet)
    requires
        damage_fits(weapon, atk, crit, 100, old(rng).state()),
    ensures
        r == damage_result(weapon, atk, armor, crit, 100, old(rng).state()),
        final(rng).state() == after_damage(weapon, old(rng).state()),
{
    roll_damage_with_mult(weapon, atk, armor, crit, 100, rng)
}

/// Damage of a landed hit with an extra percent multiplier on top of the
/// crit multiplier. Dice are rolled bash, cut, stab; strength and
/// proficiency are added; the combined multiplier is applied; armour is
/// subtracted last, flooring at 0.
pub fn roll_damage_with_mult(
    weapon: WeaponProfile,
    atk: AttackerStats,
    armor: ArmorDr,
    crit: bool,
    mult_pct: u16,
    rng: &mut Rng,
) -> (r: DamageTriplet)
    requires
        damage_fits(weapon, atk, crit, mult_pct, old(rng).state()),
    ensures
        r == damage_result(weapon, atk, armor, crit, mult_pct, old(rng).state()),
        final(rng).state() == after_damage(weapon, old(rng).state()),
{
    let str_b: u16 = if atk.str_bonus < 0 { 0 } else { atk.str_bonus as u16 };
    let prof = bonus_u16(atk.weapon_prof);
    let bash_raw = roll_die(weapon.damage_die.bash, rng) + str_b + prof;
    let cut_raw = roll_die(weapon.damage_die.cut, rng) + str_b + prof;
    let stab_raw = roll_die(weapon.damage_die.stab, rng) + str_b / 2 + prof;
    let crit_mult: u32 = if crit { CRIT_DMG_MULT_PCT as u32 } else { 100 };
    let factor = crit_mult * mult_pct as u32;
    DamageTriplet {
        bash: apply_dr(scale(bash_raw, factor), armor.bash),
        cut: apply_dr(scale(cut_raw, factor), armor.cut),
        stab: apply_dr(scale(stab_raw, factor), armor.stab),
    }
}

/// With the same draws and no armour, a critical deals half again the
/// normal damage, rounded down, per type (below the `u16` cap).
pub proof fn law_crit_adds_half(weapon: WeaponProfile, atk: AttackerStats, s: u64)
    requires
        damage_fits(weapon, atk, true, 100, s),
    ensures
        ({
            let normal = damage_result(weapon, atk, ArmorDr { bash: 0, cut: 0, stab: 0 }, false, 100, s);
            let critical = damage_result(weapon, atk, ArmorDr { bash: 0, cut: 0, stab: 0 }, true, 100, s);
            &&& critical.bash == sat_u16(normal.bash * 150 / 100)
            &&& critical.cut == sat_u16(normal.cut * 150 / 100)
            &&& critical.stab == sat_u16(normal.stab * 150 / 100)
        }),
{
    let (b, c, t) = raw_damage(weapon, atk, s);
    lemma_scale_crit(b);
    lemma_scale_crit(c);
    lemma_scale_crit(t);
}

/// Per damage type, the most a roll can reach before the multiplier: the
/// die's size plus the strength bonus (halved for stab) plus proficiency.
pub open spec fn damage_ceiling(weapon: WeaponProfile, atk: AttackerStats) -> (int, int, int) {
    (
        weapon.damage_die.bash + str_part(atk) + prof_part(atk),
        weapon.damage_die.cut + str_part(atk) + prof_part(atk),
        weapon.damage_die.stab + str_part(atk) / 2 + prof_part(atk),
    )
}

/// A die of size `max` rolls from 0 (no die) up to `max`.
proof fn lemma_die_bound(max: u16, s: u64)
    ensures
        0 <= die_at(max, s) <= max,
{
    if max > 0 {
        vstd::arithmetic::div_mod::lemma_mod_pos_bound(rng_output(s) as int, max as int);
    }
}

/// With the same draws and no armour, a critical deals exactly half again
/// the normal damage, rounded down, per type, whenever no type can reach
/// past 43 690 before the multiplier: then nothing overflows and nothing
/// meets the `u16` cap.
pub proof fn law_crit_adds_half_exactly(weapon: WeaponProfile, atk: AttackerStats, s: u64)
    requires
        damage_ceiling(weapon, atk).0 <= 43_690,
        damage_ceiling(weapon, atk).1 <= 43_690,
        damage_ceiling(weapon, atk).2 <= 43_690,
    ensures
        damage_fits(weapon, atk, true, 100, s),
        damage_fits(weapon, atk, false, 100, s),
        ({
            let normal = damage_result(weapon, atk, ArmorDr { bash: 0, cut: 0, stab: 0 }, false, 100, s);
            let critical = damage_result(weapon, atk, ArmorDr { bash: 0, cut: 0, stab: 0 }, true, 100, s);
            &&& critical.bash == normal.bash * 150 / 100
            &&& critical.cut == normal.cut * 150 / 100
            &&& critical.stab == normal.stab * 150 / 100
        }),
{
    let s1 = after_die(weapon.damage_die.bash, s);
    let s2 = after_die(weapon.damage_die.cut, s1);
    lemma_die_bound(weapon.damage_die.bash, s);
    lemma_die_bound(weapon.damage_die.cut, s1);
    lemma_die_bound(weapon.damage_die.stab, s2);
    let (b, c, t) = raw_damage(weapon, atk, s);
    assert(b * 15_000 <= 43_690 * 15_000 && c * 15_000 <= 43_690 * 15_000 && t * 15_000 <= 43_690 * 15_000) by (nonlinear_arith)
        requires
            0 <= b <= 43_690,
            0 <= c <= 43_690,
            0 <= t <= 43_690,
    ;
    assert(b * 10_000 <= 43_690 * 10_000 && c * 10_000 <= 43_690 * 10_000 && t * 10_000 <= 43_690 * 10_000) by (nonlinear_arith)
        requires
            0 <= b <= 43_690,
            0 <= c <= 43_690,
            0 <= t <= 43_690,
    ;
    law_crit_adds_half(weapon, atk, s);
    assert(b * 150 / 100 <= 65_535 && c * 150 / 100 <= 65_535 && t * 150 / 100 <= 65_535) by (nonlinear_arith)
        requires
            0 <= b <= 43_690,
            0 <= c <= 43_690,
            0 <= t <= 43_690,
    ;
}

proof fn lemma_scale_crit(x: int)
    requires
        0 <= x <= u16::MAX,
    ensures
        scaled(x, 10_000) == x,
        scaled(x, 15_000) == sat_u16(x * 150 / 100),
{
    assert(x * 10_000 / 10_000 == x) by (nonlinear_arith);
    assert(x * 15_000 / 10_000 == x * 150 / 100) by (nonlinear_arith)
        requires
            x >= 0,
    ;
}

/// For the same draws, each point of the defender's dodge or agility
/// takes a point off the hit margin and each point of encumbrance adds
/// one: the defender's score is dodge plus agility minus encumbrance.
pub proof fn law_defender_stats_shift_margin(
    atk: AttackerStats,
    d1: DefenderStats,
    d2: DefenderStats,
    weapon: WeaponProfile,
    s: u64,
)
    ensures
        hit_margin(atk, d2, weapon, s) - hit_margin(atk, d1, weapon, s) == (d1.dodge_skill - d2.dodge_skill) + (
        d1.agi_mod - d2.agi_mod) + (d2.encumbrance - d1.encumbrance),
{
}

/// Encumbrance only makes a defender easier to hit: with the same
/// draws, raising it never turns a landed blow into a miss, and lowering
/// dodge or agility never does either.
pub proof fn law_burdened_defender_is_no_harder_to_hit(
    atk: AttackerStats,
    d1: DefenderStats,
    d2: DefenderStats,
    weapon: WeaponProfile,
    s: u64,
)
    requires
        d2.dodge_skill <= d1.dodge_skill,
        d2.agi_mod <= d1.agi_mod,
        d2.encumbrance >= d1.encumbrance,
        outcome_for_margin(hit_margin(atk, d1, weapon, s)) != HitOutcome::Miss,
    ensures
        outcome_for_margin(hit_margin(atk, d2, weapon, s)) != HitOutcome::Miss,
        hit_margin(atk, d2, weapon, s) >= hit_margin(atk, d1, weapon, s),
{
    law_defender_stats_shift_margin(atk, d1, d2, weapon, s);
}

/// The swings span at most 18 points between them, so an attacker whose
/// skill, proficiency, weapon bonus and agility exceed the defender's
/// dodge plus agility minus encumbrance by 18 or more always lands the
/// blow, and one 19 or more below it always misses.
pub proof fn law_hit_decided_by_stat_gap(atk: AttackerStats, def: DefenderStats, weapon: WeaponProfile, s: u64)
    ensures
        (atk.melee_skill + atk.weapon_prof + weapon.to_hit + atk.agi_mod) - (def.dodge_skill + def.agi_mod
            - def.encumbrance) >= 18 ==> outcome_for_margin(hit_margin(atk, def, weapon, s)) != HitOutcome::Miss,
        (atk.melee_skill + atk.weapon_prof + weapon.to_hit + atk.agi_mod) - (def.dodge_skill + def.agi_mod
            - def.encumbrance) <= -19 ==> outcome_for_margin(hit_margin(atk, def, weapon, s)) == HitOutcome::Miss,
{
    lemma_swing_bounds(s);
    lemma_swing_bounds(after_two(s));
}

/// For the same draws, each point of the attacker's melee skill, weapon
/// proficiency, agility or the weapon's to-hit bonus adds a point to the
/// hit margin.
pub proof fn law_attacker_stats_shift_margin(
    a1: AttackerStats,
    a2: AttackerStats,
    w1: WeaponProfile,
    w2: WeaponProfile,
    def: DefenderStats,
    s: u64,
)
    ensures
        hit_margin(a2, def, w2, s) - hit_margin(a1, def, w1, s) == (a2.melee_skill - a1.melee_skill) + (
        a2.weapon_prof - a1.weapon_prof) + (a2.agi_mod - a1.agi_mod) + (w2.to_hit - w1.to_hit),
{
}

/// A negative margin misses, a margin of 15 or more is a critical, and
/// anything between is a plain hit; hits and criticals carry the margin.
pub proof fn law_margin_classes(m: int)
    requires
        i16::MIN <= m <= i16::MAX,
    ensures
        m < 0 <==> outcome_for_margin(m) == HitOutcome::Miss,
        0 <= m < 15 ==> outcome_for_margin(m) == (HitOutcome::Hit { margin: m as i16 }),
        m >= 15 ==> outcome_for_margin(m) == (HitOutcome::Crit { margin: m as i16 }),
{
}

} // verus!

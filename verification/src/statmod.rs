//! Dynamic in-battle statistic stages.
use vstd::prelude::*;

use crate::types::StatModifierType;

verus! {

/// The lowest stage of the attack, defense, special and speed statistics.
pub const STAGE_MIN: StatModifierType = -6;

/// The highest stage of the attack, defense, special and speed statistics.
pub const STAGE_MAX: StatModifierType = 6;

/// The mathematical clamp of `value` into `[min, max]`.
pub open spec fn clamp_spec(value: int, min: int, max: int) -> int {
    if value < min {
        min
    } else if value > max {
        max
    } else {
        value
    }
}

/// Restricts `value` to lie within `[min, max]`: the minimum of `max` and the maximum of
/// `value` and `min`.
pub fn clamp(value: StatModifierType, min: StatModifierType, max: StatModifierType) -> (r:
    StatModifierType)
    requires
        min <= max,
    ensures
        r == clamp_spec(value as int, min as int, max as int),
{
    let low = if value < min {
        min
    } else {
        value
    };
    if max < low {
        max
    } else {
        low
    }
}

/// The two's complement wrap of `v` into the range of `i8`, for `v` within `[-256, 255]`.
pub open spec fn wrap_i8(v: int) -> i8 {
    if v > 127 {
        (v - 256) as i8
    } else if v < -128 {
        (v + 256) as i8
    } else {
        v as i8
    }
}

/// The new critical stage after adding `delta` to `stage`: the wrapped sum, or 0 where that
/// sum is positive.
pub open spec fn critical_after(stage: int, delta: int) -> i8 {
    if wrap_i8(stage + delta) > 0 {
        0i8
    } else {
        wrap_i8(stage + delta)
    }
}

/// The stages `n` that applying `modifiers` to the stages `o` gives: every stage changes by
/// the attack stage of `modifiers`, and accuracy and evasion follow the new speed stage.
pub open spec fn apply_spec(o: StatStages, modifiers: StatStages, n: StatStages) -> bool {
    let d = modifiers.attack as int;
    &&& n.attack == clamp_spec(o.attack + d, -6, 6)
    &&& n.defense == clamp_spec(o.defense + d, -6, 6)
    &&& n.sp_attack == clamp_spec(o.sp_attack + d, -6, 6)
    &&& n.sp_defense == clamp_spec(o.sp_defense + d, -6, 6)
    &&& n.speed == clamp_spec(o.speed + d, -6, 6)
    &&& n.accuracy == clamp_spec(n.speed + d, -6, 6)
    &&& n.evasion == clamp_spec(n.speed + d, -6, 6)
    &&& n.critical == critical_after(o.critical as int, d)
}

/// The stages of a `StatModifiers`, as plain values.
#[derive(PartialEq, Eq, Structural, Clone, Copy)]
pub struct StatStages {
    pub attack: StatModifierType,
    pub defense: StatModifierType,
    pub sp_attack: StatModifierType,
    pub sp_defense: StatModifierType,
    pub speed: StatModifierType,
    pub accuracy: StatModifierType,
    pub evasion: StatModifierType,
    pub critical: StatModifierType,
}

/// A stage lies within the normal range of `[-6, 6]`.
pub open spec fn in_stage_range(stage: int) -> bool {
    STAGE_MIN <= stage <= STAGE_MAX
}

/// The stages that every `StatModifiers` keeps: all but the critical stage lie in `[-6, 6]`,
/// and the critical stage is never positive.
pub open spec fn stages_valid(s: StatStages) -> bool {
    &&& in_stage_range(s.attack as int)
    &&& in_stage_range(s.defense as int)
    &&& in_stage_range(s.sp_attack as int)
    &&& in_stage_range(s.sp_defense as int)
    &&& in_stage_range(s.speed as int)
    &&& in_stage_range(s.accuracy as int)
    &&& in_stage_range(s.evasion as int)
    &&& s.critical <= 0
}

/// Statistic stages of an active party member. Each starts at 0.
#[derive(PartialEq, Eq, Structural, Clone, Copy, Debug)]
pub struct StatModifiers {
    attack: StatModifierType,
    defense: StatModifierType,
    sp_attack: StatModifierType,
    sp_defense: StatModifierType,
    speed: StatModifierType,
    accuracy: StatModifierType,
    evasion: StatModifierType,
    critical: StatModifierType,
}

impl View for StatModifiers {
    type V = StatStages;

    closed spec fn view(&self) -> StatStages {
        StatStages {
            attack: self.attack,
            defense: self.defense,
            sp_attack: self.sp_attack,
            sp_defense: self.sp_defense,
            speed: self.speed,
            accuracy: self.accuracy,
            evasion: self.evasion,
            critical: self.critical,
        }
    }
}

/// The stages where every stage is 0.
pub open spec fn stages_zero() -> StatStages {
    StatStages {
        attack: 0,
        defense: 0,
        sp_attack: 0,
        sp_defense: 0,
        speed: 0,
        accuracy: 0,
        evasion: 0,
        critical: 0,
    }
}

/// The numerator and denominator of the multiplier that a stage in `[-6, 6]` gives the attack,
/// defense, special and speed statistics: `2 / (2 - stage)` below 0, `(2 + stage) / 2` from 0.
pub open spec fn base_ratio_spec(stage: int) -> (int, int) {
    if stage < 0 {
        (2, 2 - stage)
    } else {
        (2 + stage, 2)
    }
}

/// The numerator and denominator of the multiplier that a stage in `[-6, 6]` gives accuracy and
/// evasion: `3 / (3 - stage)` below 0, `(3 + stage) / 3` from 0.
pub open spec fn evasion_accuracy_ratio_spec(stage: int) -> (int, int) {
    if stage < 0 {
        (3, 3 - stage)
    } else {
        (3 + stage, 3)
    }
}

impl Default for StatModifiers {
    fn default() -> (r: Self)
        ensures
            r@ == stages_zero(),
    {
        StatModifiers::new()
    }
}

impl StatModifiers {
    pub const ATTACK_MIN: StatModifierType = -6;

    pub const ATTACK_MAX: StatModifierType = 6;

    pub const DEFENSE_MIN: StatModifierType = -6;

    pub const DEFENSE_MAX: StatModifierType = 6;

    pub const SP_ATTACK_MIN: StatModifierType = -6;

    pub const SP_ATTACK_MAX: StatModifierType = 6;

    pub const SP_DEFENSE_MIN: StatModifierType = -6;

    pub const SP_DEFENSE_MAX: StatModifierType = 6;

    pub const SPEED_MIN: StatModifierType = -6;

    pub const SPEED_MAX: StatModifierType = 6;

    pub const ACCURACY_MIN: StatModifierType = -6;

    pub const ACCURACY_MAX: StatModifierType = 6;

    pub const EVASION_MIN: StatModifierType = -6;

    pub const EVASION_MAX: StatModifierType = 6;

    pub const CRITICAL_MIN: StatModifierType = 0;

    pub const CRITICAL_MAX: StatModifierType = 127;

    #[verifier::type_invariant]
    spec fn inv(self) -> bool {
        stages_valid(self@)
    }

    /// Modifiers with every stage at 0.
    pub fn new() -> (r: Self)
        ensures
            stages_valid(r@),
            r@ == stages_zero(),
    {
        StatModifiers {
            attack: 0,
            defense: 0,
            sp_attack: 0,
            sp_defense: 0,
            speed: 0,
            accuracy: 0,
            evasion: 0,
            critical: 0,
        }
    }

    /// Changes every stage by the attack stage of `modifiers`, as each `_delta` method does.
    pub fn apply(&mut self, modifiers: &StatModifiers)
        ensures
            stages_valid(final(self)@),
            apply_spec(old(self)@, modifiers@, final(self)@),
    {
        proof {
            use_type_invariant(&*self);
            use_type_invariant(modifiers);
        }
        let delta = modifiers.attack;
        self.attack_delta(delta);
        self.defense_delta(delta);
        self.sp_attack_delta(delta);
        self.sp_defense_delta(delta);
        self.speed_delta(delta);
        self.accuracy_delta(delta);
        self.evasion_delta(delta);
        self.critical_delta(delta);
    }

    /// The numerator and denominator of the multiplier of a stage of the attack, defense,
    /// special or speed statistic.
    pub fn base_ratio(stage: StatModifierType) -> (r: (u8, u8))
        requires
            in_stage_range(stage as int),
        ensures
            (r.0 as int, r.1 as int) == base_ratio_spec(stage as int),
    {
        if stage < 0 {
            (2, (2 - stage) as u8)
        } else {
            ((2 + stage) as u8, 2)
        }
    }

    /// The numerator and denominator of the multiplier of an accuracy or evasion stage.
    pub fn evasion_accuracy_ratio(stage: StatModifierType) -> (r: (u8, u8))
        requires
            in_stage_range(stage as int),
        ensures
            (r.0 as int, r.1 as int) == evasion_accuracy_ratio_spec(stage as int),
    {
        if stage < 0 {
            (3, (3 - stage) as u8)
        } else {
            ((3 + stage) as u8, 3)
        }
    }

    /// The multiplier of the attack statistic.
    pub fn attack_ratio(&self) -> (r: (u8, u8))
        ensures
            (r.0 as int, r.1 as int) == base_ratio_spec(self@.attack as int),
    {
        proof {
            use_type_invariant(self);
        }
        StatModifiers::base_ratio(self.attack)
    }

    pub fn attack_stage(&self) -> (r: StatModifierType)
        ensures
            r == self@.attack,
    {
        self.attack
    }

    /// Adds `delta` to the attack stage, clamped to `[-6, 6]`.
    pub fn attack_delta(&mut self, delta: StatModifierType)
        requires
            -128 <= old(self)@.attack + delta <= 127,
        ensures
            stages_valid(final(self)@),
            final(self)@ == (StatStages {
                attack: clamp_spec(old(self)@.attack + delta, -6, 6) as i8,
                ..old(self)@
            }),
    {
        proof {
            use_type_invariant(&*self);
        }
        self.attack = clamp(self.attack + delta, StatModifiers::ATTACK_MIN, StatModifiers::ATTACK_MAX);
    }

    /// The multiplier of the defense statistic.
    pub fn defense_ratio(&self) -> (r: (u8, u8))
        ensures
            (r.0 as int, r.1 as int) == base_ratio_spec(self@.defense as int),
    {
        proof {
            use_type_invariant(self);
        }
        StatModifiers::base_ratio(self.defense)
    }

    pub fn defense_stage(&self) -> (r: StatModifierType)
        ensures
            r == self@.defense,
    {
        self.defense
    }

    /// Adds `delta` to the defense stage, clamped to `[-6, 6]`.
    pub fn defense_delta(&mut self, delta: StatModifierType)
        requires
            -128 <= old(self)@.defense + delta <= 127,
        ensures
            stages_valid(final(self)@),
            final(self)@ == (StatStages {
                defense: clamp_spec(old(self)@.defense + delta, -6, 6) as i8,
                ..old(self)@
            }),
    {
        proof {
            use_type_invariant(&*self);
        }
        self.defense = clamp(
            self.defense + delta,
            StatModifiers::DEFENSE_MIN,
            StatModifiers::DEFENSE_MAX,
        );
    }

    /// The multiplier of the special attack statistic, which follows the attack stage.
    pub fn sp_attack_ratio(&self) -> (r: (u8, u8))
        ensures
            (r.0 as int, r.1 as int) == base_ratio_spec(self@.attack as int),
    {
        proof {
            use_type_invariant(self);
        }
        StatModifiers::base_ratio(self.attack)
    }

    pub fn sp_attack_stage(&self) -> (r: StatModifierType)
        ensures
            r == self@.sp_attack,
    {
        self.sp_attack
    }

    /// Adds `delta` to the special attack stage, clamped to `[-6, 6]`.
    pub fn sp_attack_delta(&mut self, delta: StatModifierType)
        requires
            -128 <= old(self)@.sp_attack + delta <= 127,
        ensures
            stages_valid(final(self)@),
            final(self)@ == (StatStages {
                sp_attack: clamp_spec(old(self)@.sp_attack + delta, -6, 6) as i8,
                ..old(self)@
            }),
    {
        proof {
            use_type_invariant(&*self);
        }
        self.sp_attack = clamp(
            self.sp_attack + delta,
            StatModifiers::SP_ATTACK_MIN,
            StatModifiers::SP_ATTACK_MAX,
        );
    }

    /// The multiplier of the special defense statistic, which follows the defense stage.
    pub fn sp_defense_ratio(&self) -> (r: (u8, u8))
        ensures
            (r.0 as int, r.1 as int) == base_ratio_spec(self@.defense as int),
    {
        proof {
            use_type_invariant(self);
        }
        StatModifiers::base_ratio(self.defense)
    }

    pub fn sp_defense_stage(&self) -> (r: StatModifierType)
        ensures
            r == self@.sp_defense,
    {
        self.sp_defense
    }

    /// Adds `delta` to the special defense stage, clamped to `[-6, 6]`.
    pub fn sp_defense_delta(&mut self, delta: StatModifierType)
        requires
            -128 <= old(self)@.sp_defense + delta <= 127,
        ensures
            stages_valid(final(self)@),
            final(self)@ == (StatStages {
                sp_defense: clamp_spec(old(self)@.sp_defense + delta, -6, 6) as i8,
                ..old(self)@
            }),
    {
        proof {
            use_type_invariant(&*self);
        }
        self.sp_defense = clamp(
            self.sp_defense + delta,
            StatModifiers::SP_DEFENSE_MIN,
            StatModifiers::SP_DEFENSE_MAX,
        );
    }

    /// The multiplier of the speed statistic.
    pub fn speed_ratio(&self) -> (r: (u8, u8))
        ensures
            (r.0 as int, r.1 as int) == base_ratio_spec(self@.speed as int),
    {
        proof {
            use_type_invariant(self);
        }
        StatModifiers::base_ratio(self.speed)
    }

    pub fn speed_stage(&self) -> (r: StatModifierType)
        ensures
            r == self@.speed,
    {
        self.speed
    }

    /// Adds `delta` to the speed stage, clamped to `[-6, 6]`.
    pub fn speed_delta(&mut self, delta: StatModifierType)
        requires
            -128 <= old(self)@.speed + delta <= 127,
        ensures
            stages_valid(final(self)@),
            final(self)@ == (StatStages {
                speed: clamp_spec(old(self)@.speed + delta, -6, 6) as i8,
                ..old(self)@
            }),
    {
        proof {
            use_type_invariant(&*self);
        }
        self.speed = clamp(self.speed + delta, StatModifiers::SPEED_MIN, StatModifiers::SPEED_MAX);
    }

    /// The multiplier of accuracy.
    pub fn accuracy_ratio(&self) -> (r: (u8, u8))
        ensures
            (r.0 as int, r.1 as int) == evasion_accuracy_ratio_spec(self@.accuracy as int),
    {
        proof {
            use_type_invariant(self);
        }
        StatModifiers::evasion_accuracy_ratio(self.accuracy)
    }

    pub fn accuracy_stage(&self) -> (r: StatModifierType)
        ensures
            r == self@.accuracy,
    {
        self.accuracy
    }

    /// Sets the accuracy stage to the speed stage plus `delta`, clamped to `[-6, 6]`.
    pub fn accuracy_delta(&mut self, delta: StatModifierType)
        requires
            -128 <= old(self)@.speed + delta <= 127,
        ensures
            stages_valid(final(self)@),
            final(self)@ == (StatStages {
                accuracy: clamp_spec(old(self)@.speed + delta, -6, 6) as i8,
                ..old(self)@
            }),
    {
        proof {
            use_type_invariant(&*self);
        }
        self.accuracy = clamp(
            self.speed + delta,
            StatModifiers::ACCURACY_MIN,
            StatModifiers::ACCURACY_MAX,
        );
    }

    /// The multiplier of evasion.
    pub fn evasion_ratio(&self) -> (r: (u8, u8))
        ensures
            (r.0 as int, r.1 as int) == evasion_accuracy_ratio_spec(self@.evasion as int),
    {
        proof {
            use_type_invariant(self);
        }
        StatModifiers::evasion_accuracy_ratio(self.evasion)
    }

    pub fn evasion_stage(&self) -> (r: StatModifierType)
        ensures
            r == self@.evasion,
    {
        self.evasion
    }

    /// Sets the evasion stage to the speed stage plus `delta`, clamped to `[-6, 6]`.
    pub fn evasion_delta(&mut self, delta: StatModifierType)
        requires
            -128 <= old(self)@.speed + delta <= 127,
        ensures
            stages_valid(final(self)@),
            final(self)@ == (StatStages {
                evasion: clamp_spec(old(self)@.speed + delta, -6, 6) as i8,
                ..old(self)@
            }),
    {
        proof {
            use_type_invariant(&*self);
        }
        self.evasion = clamp(
            self.speed + delta,
            StatModifiers::EVASION_MIN,
            StatModifiers::EVASION_MAX,
        );
    }

    /// The critical stage, which reads the attack stage.
    pub fn critical_stage(&self) -> (r: StatModifierType)
        ensures
            r == self@.attack,
    {
        self.attack
    }

    /// Adds `delta` to the critical stage with wrapping, and keeps the result only when it is
    /// not positive (0 otherwise).
    pub fn critical_delta(&mut self, delta: StatModifierType)
        ensures
            stages_valid(final(self)@),
            final(self)@ == (StatStages {
                critical: critical_after(old(self)@.critical as int, delta as int),
                ..old(self)@
            }),
    {
        proof {
            use_type_invariant(&*self);
        }
        let sum = self.critical.wrapping_add(delta);
        self.critical = if sum > 0 {
            0
        } else {
            sum
        };
    }
}

/// Opposite stages give multipliers that undo each other: the ratio of `-stage` is the ratio of
/// `stage` upside down, for the base statistics and for accuracy and evasion alike.
pub proof fn lemma_opposite_stages_invert(stage: int)
    ensures
        base_ratio_spec(-stage) == (base_ratio_spec(stage).1, base_ratio_spec(stage).0),
        evasion_accuracy_ratio_spec(-stage) == (
            evasion_accuracy_ratio_spec(stage).1,
            evasion_accuracy_ratio_spec(stage).0,
        ),
{
}

/// A higher stage always gives a larger multiplier.
pub proof fn lemma_higher_stage_larger(low: int, high: int)
    requires
        low < high,
    ensures
        base_ratio_spec(low).0 * base_ratio_spec(high).1 < base_ratio_spec(high).0
            * base_ratio_spec(low).1,
        evasion_accuracy_ratio_spec(low).0 * evasion_accuracy_ratio_spec(high).1
            < evasion_accuracy_ratio_spec(high).0 * evasion_accuracy_ratio_spec(low).1,
{
    let (a, b) = (base_ratio_spec(low), base_ratio_spec(high));
    let (c, d) = (evasion_accuracy_ratio_spec(low), evasion_accuracy_ratio_spec(high));
    if low < 0 && high >= 0 {
        assert(a.0 * b.1 < b.0 * a.1) by (nonlinear_arith)
            requires
                a == (2int, 2 - low),
                b == (2 + high, 2int),
                low < 0,
                high >= 0,
        ;
        assert(c.0 * d.1 < d.0 * c.1) by (nonlinear_arith)
            requires
                c == (3int, 3 - low),
                d == (3 + high, 3int),
                low < 0,
                high >= 0,
        ;
    } else if low < 0 {
        assert(a.0 * b.1 == 2 * b.1 && b.0 * a.1 == 2 * a.1);
        assert(c.0 * d.1 == 3 * d.1 && d.0 * c.1 == 3 * c.1);
    } else {
        assert(a.0 * b.1 == a.0 * 2 && b.0 * a.1 == b.0 * 2);
        assert(c.0 * d.1 == c.0 * 3 && d.0 * c.1 == d.0 * 3);
    }
}

} // verus!

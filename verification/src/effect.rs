//! The effects that battle commands produce.
use vstd::prelude::*;

use crate::lingering::LingeringType;
use crate::statmod::{StatModifiers, StatStages};
use crate::types::{ExperienceType, StatType};

verus! {

/// The battle flags value type for `BattleFlags`.
pub type BattleFlagsType = u8;

/// An exact ratio `num / den`, used for the elemental bonus of a damage effect.
#[derive(PartialEq, Eq, Structural, Clone, Copy, Debug)]
pub struct Ratio {
    pub num: u32,
    pub den: u32,
}

/// A single change to a battle that a command causes.
#[derive(PartialEq, Eq, Debug)]
pub enum Effect {
    Damage(Damage),
    Switch(Switch),
    Retreat(Retreat),
    Modifier(Modifier),
    ExperienceGain(ExperienceGain),
    FlagsChange(FlagsChange),
    LingeringAdd(LingeringAdd),
    LingeringChange(LingeringChange),
    /// A command that changed nothing.
    NoChange(NoneReason),
}

/// Health lost by a party member.
#[derive(PartialEq, Eq, Structural, Clone, Copy, Debug)]
pub struct Damage {
    pub party: usize,
    pub active: usize,
    pub member: usize,
    pub meta: DamageMeta,
}

impl Damage {
    pub fn amount(&self) -> (r: StatType)
        ensures
            r == self.meta.amount,
    {
        self.meta.amount
    }

    pub fn party(&self) -> (r: usize)
        ensures
            r == self.party,
    {
        self.party
    }

    pub fn member(&self) -> (r: usize)
        ensures
            r == self.member,
    {
        self.member
    }

    pub fn critical(&self) -> (r: bool)
        ensures
            r == self.meta.critical,
    {
        self.meta.critical
    }

    pub fn type_bonus(&self) -> (r: Ratio)
        ensures
            r == self.meta.type_bonus,
    {
        self.meta.type_bonus
    }
}

/// How much damage was done, and why.
#[derive(PartialEq, Eq, Structural, Clone, Copy, Debug)]
pub struct DamageMeta {
    pub amount: StatType,
    pub type_bonus: Ratio,
    pub critical: bool,
}

/// An active party member switched with another party member.
#[derive(PartialEq, Eq, Structural, Clone, Copy, Debug)]
pub struct Switch {
    pub party: usize,
    pub member: usize,
    pub target: usize,
}

/// An active party member requested to be switched out.
#[derive(PartialEq, Eq, Structural, Clone, Copy, Debug)]
pub struct Retreat {
    pub party: usize,
    pub active: usize,
}

/// A change to the statistic stages of an active party member.
#[derive(PartialEq, Eq, Structural, Debug)]
pub struct Modifier {
    party: usize,
    active: usize,
    modifiers: StatModifiers,
}

impl Modifier {
    pub fn new(party: usize, active: usize, modifiers: StatModifiers) -> (r: Self)
        ensures
            r.party_spec() == party,
            r.active_spec() == active,
            r.modifiers_spec() == modifiers@,
    {
        Modifier { party: party, active: active, modifiers: modifiers }
    }

    pub closed spec fn party_spec(&self) -> usize {
        self.party
    }

    pub closed spec fn active_spec(&self) -> usize {
        self.active
    }

    pub closed spec fn modifiers_spec(&self) -> StatStages {
        self.modifiers@
    }

    pub fn party(&self) -> (r: usize)
        ensures
            r == self.party_spec(),
    {
        self.party
    }

    pub fn active(&self) -> (r: usize)
        ensures
            r == self.active_spec(),
    {
        self.active
    }

    pub fn modifiers(&self) -> (r: &StatModifiers)
        ensures
            r@ == self.modifiers_spec(),
    {
        &self.modifiers
    }
}

/// Experience gained by a party member.
#[derive(PartialEq, Eq, Structural, Clone, Copy, Debug)]
pub struct ExperienceGain {
    pub party: usize,
    pub member: usize,
    pub amount: ExperienceType,
    /// The original level of the party member.
    pub level: u8,
}

impl ExperienceGain {
    pub fn new(party: usize, member: usize, amount: ExperienceType, level: u8) -> (r: Self)
        ensures
            r == (ExperienceGain { party, member, amount, level }),
    {
        ExperienceGain { party: party, member: member, amount: amount, level: level }
    }
}

/// Why a command had no effect.
#[derive(PartialEq, Eq, Structural, Clone, Copy, Debug)]
pub enum NoneReason {
    /// Nothing happened.
    Nothing,
    Miss,
    Escape,
    Turn,
}

/// The battle flags changed to `flags`.
#[derive(PartialEq, Eq, Structural, Clone, Copy, Debug)]
pub struct FlagsChange {
    pub flags: BattleFlagsType,
}

/// A lingering effect was added to the battle.
#[derive(PartialEq, Eq, Debug)]
pub struct LingeringAdd {
    pub lingering: LingeringType,
}

/// The lingering effect at `index` changed state.
#[derive(PartialEq, Eq, Structural, Clone, Copy, Debug)]
pub struct LingeringChange {
    pub index: usize,
}

} // verus!

//! Data types and their respective sizes.
use vstd::prelude::*;

verus! {

/// The location identifier.
pub type LocationId = u8;

/// The sub-location identifier, as paired with `LocationId`.
pub type SubLocationId = u8;

/// The identifier type for `Element`.
pub type ElementId = u8;

/// The identifier type for `Attack`.
pub type AttackId = u16;

/// The base power type for `Attack`.
pub type PowerType = u8;

/// The usage limit type for `Attack`.
pub type LimitType = u8;

/// The identifier value for `Attack` categories.
pub type CategoryId = u8;

/// The attack priority order type for `Attack`.
pub type PriorityType = i8;

/// The identifier value for `Gender`.
pub type GenderId = u8;

/// The identifier value for `GenderRatio`.
pub type GenderRatioId = u8;

/// The identifier type for `Species`.
pub type SpeciesId = u16;

/// The forms identifier, unique to each individual species.
pub type FormId = u8;

/// The identifier type for `Species` growth rates.
pub type GrowthId = u8;

/// The identifier type for `Species` colors.
pub type ColorId = u8;

/// The identifier type for `Species` natural habitats.
pub type HabitatId = u8;

/// The experience that a `Species` yields for defeat.
pub type ExperienceYieldType = u16;

/// How easy a `Species` is to recruit.
pub type RarenessType = u8;

/// How friendly a `Species` is upon recruit.
pub type FriendshipType = u8;

/// The maximum egg cycles a `Species` must go through before it hatches.
pub type HatchType = u8;

/// The value type for `Species` base statistics.
pub type StatBaseType = u8;

/// The value type that a `Species` can yield for statistic bonuses.
pub type StatYieldType = u8;

/// The value type for a `Monster` level.
pub type LevelType = u8;

/// The random personality value, unique to each `Monster`.
pub type PersonalityType = u32;

/// The identifier type for `Monster` natures.
pub type NatureId = u8;

/// The value type for `Monster` statistics.
pub type StatType = u16;

/// The value type for `Monster` unique statistics.
pub type StatIndividualType = u8;

/// The identifier type for `Monster` recruit methods.
pub type RecruitMethodId = u8;

/// A value type for `Monster` experience points.
pub type ExperienceType = u32;

/// The type storing dynamic statistic modifiers while in battle.
pub type StatModifierType = i8;

} // verus!

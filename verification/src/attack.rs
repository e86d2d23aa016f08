//! Attacks that party members use during battle, and whom they may target.
use vstd::prelude::*;

use crate::types::{CategoryId, ElementId, LimitType, PowerType, PriorityType};

verus! {

/// The target flags value type for `Target`.
pub type TargetType = u8;

/// Constants for battle target bitflags.
pub struct Target;

impl Target {
    /// The attack hits enemies.
    pub const SIDE_ENEMY: TargetType = 0b00001;

    /// The attack hits allies.
    pub const SIDE_ALLY: TargetType = 0b00010;

    /// The attack hits both enemies and allies.
    pub const SIDE_ALL: TargetType = 0b00011;

    /// The attack hits targets adjacent to itself.
    pub const RANGE_ADJACENT: TargetType = 0b00100;

    /// The attack hits targets opposite of itself.
    pub const RANGE_OPPOSITE: TargetType = 0b01000;

    /// The attack is capable of hitting any target.
    pub const RANGE_ALL: TargetType = 0b01100;

    /// The attack target may include itself.
    pub const TARGET_SELF: TargetType = 0b10000;

    /// The attack hits every target that the other flags allow.
    pub const MULTI: TargetType = 0b100000;

    /// Returns true if the active slots `to` and `from` are the same or next to each other.
    pub fn is_adjacent_with(to: usize, from: usize) -> (r: bool)
        ensures
            r == is_adjacent(to as int, from as int),
    {
        to == from || (to > 0 && to - 1 == from) || (to < usize::MAX && to + 1 == from)
    }
}

/// Two active slots are the same or next to each other.
pub open spec fn is_adjacent(to: int, from: int) -> bool {
    to == from || to - 1 == from || to + 1 == from
}

/// Whether the given flag bit is set in `target`.
pub open spec fn has_flag(target: TargetType, flag: TargetType) -> bool {
    target & flag != 0
}

/// The meta-data of a single action used by a `Monster` in battle that the battle rules read.
#[derive(PartialEq, Eq, Structural, Clone, Copy, Debug)]
pub struct AttackMeta {
    /// The elemental category of the attack.
    pub element: ElementId,
    /// The category of the attack that determines the damage calculation.
    pub category: CategoryId,
    /// The base power for the move.
    pub power: PowerType,
    /// The limit that this move can be used.
    pub limit: LimitType,
    /// The priority of the move in terms of whether it hits first.
    pub priority: PriorityType,
    /// The targets that this attack is capable of hitting.
    pub target: TargetType,
}

/// Whether an attack with the target flags `target`, used from active slot `active`, may target
/// active slot `target_active` of a party that is the user's own where `same_party` holds.
pub open spec fn target_allowed(
    target: TargetType,
    same_party: bool,
    active: int,
    target_active: int,
) -> bool {
    let adjacent = is_adjacent(active, target_active);
    &&& (same_party || has_flag(target, Target::SIDE_ENEMY))
    &&& (!same_party || has_flag(target, Target::SIDE_ALLY))
    &&& (!adjacent || has_flag(target, Target::RANGE_ADJACENT))
    &&& (adjacent || has_flag(target, Target::RANGE_OPPOSITE))
    &&& (!(same_party && active == target_active) || has_flag(target, Target::TARGET_SELF))
}

/// Checks the target rules of an attack: the side, the range and whether the user itself may be
/// the target.
pub fn check_target(target: TargetType, same_party: bool, active: usize, target_active: usize) -> (r:
    bool)
    ensures
        r == target_allowed(target, same_party, active as int, target_active as int),
{
    if (target & Target::SIDE_ENEMY) == 0 && !same_party {
        return false;
    }
    if (target & Target::SIDE_ALLY) == 0 && same_party {
        return false;
    }
    let is_adjacent = Target::is_adjacent_with(active, target_active);
    if (target & Target::RANGE_ADJACENT) == 0 && is_adjacent {
        return false;
    }
    if (target & Target::RANGE_OPPOSITE) == 0 && !is_adjacent {
        return false;
    }
    let same_member = active == target_active;
    if (target & Target::TARGET_SELF) == 0 && same_party && same_member {
        return false;
    }
    true
}

/// An attack whose target flags lack `TARGET_SELF` may not target its own user, and one whose
/// flags have it, with the ally side and the adjacent range, may.
pub proof fn lemma_self_target_needs_flag(target: TargetType, active: int)
    ensures
        !has_flag(target, Target::TARGET_SELF) ==> !target_allowed(target, true, active, active),
        has_flag(target, Target::TARGET_SELF) && has_flag(target, Target::SIDE_ALLY) && has_flag(
            target,
            Target::RANGE_ADJACENT,
        ) ==> target_allowed(target, true, active, active),
{
}

/// A member of another party may be targeted only by an attack that hits enemies, and a member
/// of the user's own party only by one that hits allies; a slot next to the user's (or its own)
/// needs the adjacent range, and any other slot the opposite range.
pub proof fn lemma_target_side_and_range(
    target: TargetType,
    same_party: bool,
    active: int,
    target_active: int,
)
    requires
        target_allowed(target, same_party, active, target_active),
    ensures
        !same_party ==> has_flag(target, Target::SIDE_ENEMY),
        same_party ==> has_flag(target, Target::SIDE_ALLY),
        (target_active == active - 1 || target_active == active + 1) ==> has_flag(
            target,
            Target::RANGE_ADJACENT,
        ),
        (target_active < active - 1 || target_active > active + 1) ==> has_flag(
            target,
            Target::RANGE_OPPOSITE,
        ),
{
}

} // verus!

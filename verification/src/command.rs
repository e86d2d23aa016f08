//! Commands that party members give in battle, and the order in which they run.
use vstd::prelude::*;

use core::cmp::Ordering;

use crate::effect::BattleFlagsType;
use crate::party::{Party, scaled_stat};
use crate::statmod::base_ratio_spec;
use crate::types::{PriorityType, StatType};

verus! {

/// Constants for battle setting bitflags.
pub struct BattleFlags;

impl BattleFlags {
    /// Reverses the priority order so that attacks with lower priority go first.
    pub const PRIORITY_REVERSE: BattleFlagsType = 0b01;

    /// Reverses the speed order so that monsters with a slower speed go first.
    pub const SPEED_REVERSE: BattleFlagsType = 0b10;
}

/// A command given for a party or one of its members.
#[derive(Debug, PartialEq, Eq, Structural, Clone, Copy)]
pub enum CommandType {
    Attack(CommandAttack),
    Switch(CommandSwitch),
    Escape(CommandEscape),
    Turn,
}

/// A party escapes, ending the battle.
#[derive(Debug, PartialEq, Eq, Structural, Clone, Copy)]
pub struct CommandEscape {
    pub party: usize,
}

/// An active member uses one of its attacks on a target.
#[derive(Debug, PartialEq, Eq, Structural, Clone, Copy)]
pub struct CommandAttack {
    pub party: usize,
    pub member: usize,
    pub attack_index: usize,
    pub target_party: usize,
    pub target_member: usize,
}

/// An active member switches with another party member.
#[derive(Debug, PartialEq, Eq, Structural, Clone, Copy)]
pub struct CommandSwitch {
    pub party: usize,
    pub member: usize,
    pub target: usize,
}

/// The party member chosen to replace a retreating one.
#[derive(Debug, PartialEq, Eq, Structural, Clone, Copy)]
pub struct CommandRetreat {
    pub target: usize,
}

/// The three-way comparison of two integers.
pub open spec fn cmp_int(a: int, b: int) -> Ordering {
    if a < b {
        Ordering::Less
    } else if a == b {
        Ordering::Equal
    } else {
        Ordering::Greater
    }
}

/// The lexicographic comparison of two triples of integers.
pub open spec fn cmp_key(a: (int, int, int), b: (int, int, int)) -> Ordering {
    if a.0 != b.0 {
        cmp_int(a.0, b.0)
    } else if a.1 != b.1 {
        cmp_int(a.1, b.1)
    } else {
        cmp_int(a.2, b.2)
    }
}

/// The attack command refers to an active member that exists, and to one of its attacks.
pub open spec fn attack_valid(parties: Seq<Party>, c: CommandAttack) -> bool {
    &&& c.party < parties.len()
    &&& c.member < parties[c.party as int].active_spec().len()
    &&& parties[c.party as int].active_spec()[c.member as int] is Some
    &&& c.attack_index < parties[c.party as int].members_spec()[parties[c.party as int].active_spec()[c.member as int]->0 as int].attacks_spec().len()
}

/// Whether the attack command refers to an active member that exists, and to one of its attacks.
pub fn attack_is_valid(parties: &[Party], c: &CommandAttack) -> (r: bool)
    ensures
        r == attack_valid(parties@, *c),
{
    if c.party < parties.len() && c.member < parties[c.party].active_count() {
        match parties[c.party].active_member_index(c.member) {
            Some(m) => c.attack_index < parties[c.party].member(m).attacks().len(),
            None => false,
        }
    } else {
        false
    }
}

/// The priority of the attack that an attack command uses.
pub open spec fn attack_priority(parties: Seq<Party>, c: CommandAttack) -> int {
    let party = parties[c.party as int];
    let member = party.members_spec()[party.active_spec()[c.member as int]->0 as int];
    member.attacks_spec()[c.attack_index as int].meta_spec().priority as int
}

/// The speed of the member that gives an attack command, scaled by its speed stage.
pub open spec fn attack_speed(parties: Seq<Party>, c: CommandAttack) -> int {
    let party = parties[c.party as int];
    let member = party.members_spec()[party.active_spec()[c.member as int]->0 as int];
    scaled_stat(
        member.values_spec().stats.speed as int,
        base_ratio_spec(party.active_modifiers_spec()[c.member as int]->0.speed as int),
    )
}

/// The sort key of a command other than `Turn`: escapes first by party, then switches by party,
/// then attacks by higher priority and then higher speed (each lower first where the flags
/// reverse it).
pub open spec fn command_key(c: CommandType, parties: Seq<Party>, flags: BattleFlagsType) -> (
    int,
    int,
    int,
) {
    match c {
        CommandType::Escape(e) => (0, e.party as int, 0),
        CommandType::Switch(s) => (1, s.party as int, 0),
        CommandType::Attack(a) => (
            2,
            if flags & BattleFlags::PRIORITY_REVERSE == 0 {
                -attack_priority(parties, a)
            } else {
                attack_priority(parties, a)
            },
            if flags & BattleFlags::SPEED_REVERSE == 0 {
                -attack_speed(parties, a)
            } else {
                attack_speed(parties, a)
            },
        ),
        CommandType::Turn => (3, 0, 0),
    }
}

/// The order of two commands: `Less` means that `a` runs before `b`. A `Turn` compares less
/// than anything, and an attack compares greater than a `Turn`, a switch or escape less.
pub open spec fn command_cmp(
    a: CommandType,
    b: CommandType,
    parties: Seq<Party>,
    flags: BattleFlagsType,
) -> Ordering {
    if a is Turn {
        Ordering::Less
    } else if b is Turn {
        if a is Attack {
            Ordering::Greater
        } else {
            Ordering::Less
        }
    } else {
        cmp_key(command_key(a, parties, flags), command_key(b, parties, flags))
    }
}

/// The command is not an attack, or it is a valid one.
pub open spec fn command_valid(c: CommandType, parties: Seq<Party>) -> bool {
    match c {
        CommandType::Attack(a) => attack_valid(parties, a),
        _ => true,
    }
}

fn cmp_usize(a: usize, b: usize) -> (r: Ordering)
    ensures
        r == (if a < b {
            Ordering::Less
        } else if a == b {
            Ordering::Equal
        } else {
            Ordering::Greater
        }),
{
    if a < b {
        Ordering::Less
    } else if a == b {
        Ordering::Equal
    } else {
        Ordering::Greater
    }
}

fn cmp_priority(a: PriorityType, b: PriorityType) -> (r: Ordering)
    ensures
        r == (if a < b {
            Ordering::Less
        } else if a == b {
            Ordering::Equal
        } else {
            Ordering::Greater
        }),
{
    if a < b {
        Ordering::Less
    } else if a == b {
        Ordering::Equal
    } else {
        Ordering::Greater
    }
}

fn cmp_stat(a: StatType, b: StatType) -> (r: Ordering)
    ensures
        r == (if a < b {
            Ordering::Less
        } else if a == b {
            Ordering::Equal
        } else {
            Ordering::Greater
        }),
{
    if a < b {
        Ordering::Less
    } else if a == b {
        Ordering::Equal
    } else {
        Ordering::Greater
    }
}

fn attack_priority_exec(parties: &[Party], c: &CommandAttack) -> (r: PriorityType)
    requires
        attack_valid(parties@, *c),
    ensures
        r == attack_priority(parties@, *c),
{
    let party = &parties[c.party];
    let member = party.member(party.active_member_index(c.member).unwrap());
    member.attacks()[c.attack_index].attack().priority
}

fn attack_speed_exec(parties: &[Party], c: &CommandAttack) -> (r: StatType)
    requires
        attack_valid(parties@, *c),
    ensures
        r == attack_speed(parties@, *c),
{
    parties[c.party].active_member(c.member).unwrap().speed()
}

impl CommandAttack {
    /// Orders two attack commands by the priority of their attacks, then by the speed of their
    /// users: the higher goes first (the lower, where `flags` reverse it).
    pub fn cmp(&self, other: &CommandAttack, parties: &[Party], flags: BattleFlagsType) -> (r:
        Ordering)
        requires
            attack_valid(parties@, *self),
            attack_valid(parties@, *other),
        ensures
            r == command_cmp(
                CommandType::Attack(*self),
                CommandType::Attack(*other),
                parties@,
                flags,
            ),
    {
        let attack_priority_other = attack_priority_exec(parties, other);
        let attack_priority_self = attack_priority_exec(parties, self);
        let attack_priority_cmp = if flags & BattleFlags::PRIORITY_REVERSE == 0 {
            cmp_priority(attack_priority_other, attack_priority_self)
        } else {
            cmp_priority(attack_priority_self, attack_priority_other)
        };
        match attack_priority_cmp {
            Ordering::Equal => {
                let speed_other = attack_speed_exec(parties, other);
                let speed_self = attack_speed_exec(parties, self);
                if flags & BattleFlags::SPEED_REVERSE == 0 {
                    cmp_stat(speed_other, speed_self)
                } else {
                    cmp_stat(speed_self, speed_other)
                }
            },
            _ => attack_priority_cmp,
        }
    }
}

impl CommandType {
    /// Orders two commands: `Less` means that `self` runs first.
    pub fn cmp(&self, other: &CommandType, parties: &[Party], flags: BattleFlagsType) -> (r:
        Ordering)
        requires
            *self is Attack && *other is Attack ==> command_valid(*self, parties@) && command_valid(
                *other,
                parties@,
            ),
        ensures
            r == command_cmp(*self, *other, parties@, flags),
    {
        match self {
            CommandType::Attack(attack_self) => {
                if let CommandType::Attack(attack_other) = other {
                    attack_self.cmp(attack_other, parties, flags)
                } else {
                    Ordering::Greater
                }
            },
            CommandType::Switch(switch_self) => {
                if let CommandType::Switch(switch_other) = other {
                    cmp_usize(switch_self.party, switch_other.party)
                } else if let CommandType::Escape(_) = other {
                    Ordering::Greater
                } else {
                    Ordering::Less
                }
            },
            CommandType::Escape(escape_self) => {
                if let CommandType::Escape(escape_other) = other {
                    cmp_usize(escape_self.party, escape_other.party)
                } else {
                    Ordering::Less
                }
            },
            CommandType::Turn => Ordering::Less,
        }
    }
}

/// `a` runs before `b`.
pub open spec fn runs_before(
    a: CommandType,
    b: CommandType,
    parties: Seq<Party>,
    flags: BattleFlagsType,
) -> bool {
    command_cmp(a, b, parties, flags) == Ordering::Less
}

/// Returns true if `a` runs before `b`.
pub fn command_runs_before(
    a: &CommandType,
    b: &CommandType,
    parties: &[Party],
    flags: BattleFlagsType,
) -> (r: bool)
    requires
        *a is Attack && *b is Attack ==> command_valid(*a, parties@) && command_valid(*b, parties@),
    ensures
        r == runs_before(*a, *b, parties@, flags),
{
    match a.cmp(b, parties, flags) {
        Ordering::Less => true,
        _ => false,
    }
}

/// Running before is transitive among commands other than `Turn`.
pub proof fn lemma_runs_before_transitive(
    a: CommandType,
    b: CommandType,
    c: CommandType,
    parties: Seq<Party>,
    flags: BattleFlagsType,
)
    requires
        !(a is Turn),
        !(b is Turn),
        !(c is Turn),
        runs_before(a, b, parties, flags),
        runs_before(b, c, parties, flags),
    ensures
        runs_before(a, c, parties, flags),
{
}

/// Among commands other than `Turn`, `a` runs before `b` exactly when `b` runs after `a`.
pub proof fn lemma_command_order_antisymmetric(
    a: CommandType,
    b: CommandType,
    parties: Seq<Party>,
    flags: BattleFlagsType,
)
    requires
        !(a is Turn),
        !(b is Turn),
    ensures
        (command_cmp(a, b, parties, flags) == Ordering::Less) == (command_cmp(b, a, parties, flags)
            == Ordering::Greater),
{
}

/// A command other than `Turn` never runs before itself.
pub proof fn lemma_runs_before_irreflexive(a: CommandType, parties: Seq<Party>, flags: BattleFlagsType)
    requires
        !(a is Turn),
    ensures
        !runs_before(a, a, parties, flags),
{
}

/// Without `PRIORITY_REVERSE`, of two attack commands the one whose attack has the higher
/// priority runs first, whatever the speeds of the users.
pub proof fn lemma_higher_priority_runs_first(
    a: CommandAttack,
    b: CommandAttack,
    parties: Seq<Party>,
    flags: BattleFlagsType,
)
    requires
        flags & BattleFlags::PRIORITY_REVERSE == 0,
        attack_priority(parties, a) > attack_priority(parties, b),
    ensures
        runs_before(CommandType::Attack(a), CommandType::Attack(b), parties, flags),
        !runs_before(CommandType::Attack(b), CommandType::Attack(a), parties, flags),
{
}

/// With `PRIORITY_REVERSE`, of two attack commands the one whose attack has the lower priority
/// runs first, whatever the speeds of the users.
pub proof fn lemma_reversed_priority_runs_lower_first(
    a: CommandAttack,
    b: CommandAttack,
    parties: Seq<Party>,
    flags: BattleFlagsType,
)
    requires
        flags & BattleFlags::PRIORITY_REVERSE != 0,
        attack_priority(parties, a) < attack_priority(parties, b),
    ensures
        runs_before(CommandType::Attack(a), CommandType::Attack(b), parties, flags),
        !runs_before(CommandType::Attack(b), CommandType::Attack(a), parties, flags),
{
}

/// Of two attack commands whose attacks have the same priority, without `SPEED_REVERSE` the one
/// whose user is faster runs first, and with it the slower one.
pub proof fn lemma_equal_priority_speed_decides(
    a: CommandAttack,
    b: CommandAttack,
    parties: Seq<Party>,
    flags: BattleFlagsType,
)
    requires
        attack_priority(parties, a) == attack_priority(parties, b),
        attack_speed(parties, a) != attack_speed(parties, b),
    ensures
        runs_before(CommandType::Attack(a), CommandType::Attack(b), parties, flags) == if flags
            & BattleFlags::SPEED_REVERSE == 0 {
            attack_speed(parties, a) > attack_speed(parties, b)
        } else {
            attack_speed(parties, a) < attack_speed(parties, b)
        },
{
}

/// Escapes run before switches, and switches before attacks.
pub proof fn lemma_escape_switch_attack_order(
    e: CommandEscape,
    s: CommandSwitch,
    a: CommandAttack,
    parties: Seq<Party>,
    flags: BattleFlagsType,
)
    ensures
        runs_before(CommandType::Escape(e), CommandType::Switch(s), parties, flags),
        runs_before(CommandType::Switch(s), CommandType::Attack(a), parties, flags),
        runs_before(CommandType::Escape(e), CommandType::Attack(a), parties, flags),
{
}

} // verus!

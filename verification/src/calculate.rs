//! The effects that attacks produce on their targets.
use vstd::prelude::*;

use rand::rngs::StdRng;
use rand::Rng;

use crate::attack::{has_flag, is_adjacent, Target, TargetType};
use crate::command::CommandAttack;
use crate::effect::{
    BattleFlagsType,
    Damage,
    DamageMeta,
    Effect,
    FlagsChange,
    Modifier,
    NoneReason,
    Ratio,
    Retreat,
};
use crate::monster::Monster;
use crate::party::Party;
use crate::runner::{BattleEffects, BattleState};
use crate::statmod::{clamp_spec, StatModifiers, StatStages};
use crate::types::{StatModifierType, StatType};

verus! {

#[verifier::external_type_specification]
#[verifier::external_body]
pub struct ExStdRng(StdRng);

/// A party member by party and member index.
#[derive(Debug, PartialEq, Eq, Structural, Clone, Copy)]
pub struct MemberIndex {
    pub party: usize,
    pub member: usize,
}

/// A random byte from `rng` (`Rng::gen::<u8>`). Nothing is claimed of the byte.
#[verifier::external_body]
fn random_byte(rng: &mut StdRng) -> (r: u8) {
    rng.gen::<u8>()
}

/// The command's user, in party `party`, is an active member with the attack it uses.
pub open spec fn user_valid(parties: Seq<Party>, party: int, c: CommandAttack) -> bool {
    &&& 0 <= party < parties.len()
    &&& c.member < parties[party].active_spec().len()
    &&& parties[party].active_spec()[c.member as int] is Some
    &&& c.attack_index < user_member(parties, party, c).attacks_spec().len()
}

/// The member that gives the command, in party `party`.
pub open spec fn user_member(parties: Seq<Party>, party: int, c: CommandAttack) -> Monster {
    parties[party].members_spec()[parties[party].active_spec()[c.member as int]->0 as int]
}

/// The target flags of the attack that the command's user, in party `party`, uses.
pub open spec fn user_target(parties: Seq<Party>, party: int, c: CommandAttack) -> TargetType {
    user_member(parties, party, c).attacks_spec()[c.attack_index as int].meta_spec().target
}

/// Whether a multi-target attack of the party `party` hits the parties of `p`: enemies where it
/// hits enemies, its own party where it hits allies.
pub open spec fn party_hit(target: TargetType, party: int, p: int) -> bool {
    let same_side = party == p;
    (has_flag(target, Target::SIDE_ENEMY) && !same_side) || (has_flag(target, Target::SIDE_ALLY)
        && same_side)
}

/// Whether a multi-target attack hits active slot `a` of party `p`: by range from the user's slot;
/// the user itself is hit only where the attack may target its user.
pub open spec fn slot_hit(target: TargetType, c: CommandAttack, party: int, p: int, a: int) -> bool {
    let adjacent = is_adjacent(c.member as int, a);
    let hit_adjacent = has_flag(target, Target::RANGE_ADJACENT) && adjacent;
    let hit_opposite = has_flag(target, Target::RANGE_OPPOSITE) && !adjacent;
    let includes_self = has_flag(target, Target::TARGET_SELF);
    let is_self = p == party && a == c.member;
    (hit_adjacent || hit_opposite) && (!is_self || includes_self)
}

/// The slots `0` to `n - 1` of party `p` that a multi-target attack hits.
pub open spec fn slot_hits(target: TargetType, c: CommandAttack, party: int, p: int, n: nat) -> Seq<
    (usize, usize),
>
    decreases n,
{
    if n == 0 {
        Seq::empty()
    } else {
        slot_hits(target, c, party, p, (n - 1) as nat) + if slot_hit(
            target,
            c,
            party,
            p,
            n - 1,
        ) {
            seq![(p as usize, (n - 1) as usize)]
        } else {
            Seq::empty()
        }
    }
}

/// The slots of parties `0` to `n - 1` that a multi-target attack hits.
pub open spec fn party_hits(
    parties: Seq<Party>,
    target: TargetType,
    c: CommandAttack,
    party: int,
    n: nat,
) -> Seq<(usize, usize)>
    decreases n,
{
    if n == 0 {
        Seq::empty()
    } else {
        party_hits(parties, target, c, party, (n - 1) as nat) + if party_hit(target, party, n - 1) {
            slot_hits(target, c, party, n - 1, parties[n - 1].active_spec().len())
        } else {
            Seq::empty()
        }
    }
}

/// The targets, as party and active slot, of the attack of a command given by a member of party
/// `party`: the chosen target, or every slot that a multi-target attack hits.
pub open spec fn targets(parties: Seq<Party>, party: int, c: CommandAttack) -> Seq<(usize, usize)> {
    let t = user_target(parties, party, c);
    if !has_flag(t, Target::MULTI) {
        seq![(c.target_party, c.target_member)]
    } else {
        party_hits(parties, t, c, party, parties.len())
    }
}

/// The targets of the attack of a command given by a member of party `party`.
pub fn for_targets(command: &CommandAttack, party: usize, state: &BattleState) -> (r: Vec<
    (usize, usize),
>)
    requires
        user_valid(state.parties_spec(), party as int, *command),
    ensures
        r@ == targets(state.parties_spec(), party as int, *command),
{
    let parties = state.parties();
    let member = parties[party].active_member(command.member).unwrap();
    let target = member.member.attacks()[command.attack_index].attack().target;
    let mut r: Vec<(usize, usize)> = Vec::new();
    if target & Target::MULTI == 0 {
        r.push((command.target_party, command.target_member));
        proof {
            assert(r@ =~= seq![(command.target_party, command.target_member)]);
        }
        return r;
    }
    let mut party_index: usize = 0;
    while party_index < parties.len()
        invariant
            parties@ == state.parties_spec(),
            target == user_target(state.parties_spec(), party as int, *command),
            0 <= party_index <= parties@.len(),
            r@ == party_hits(parties@, target, *command, party as int, party_index as nat),
        decreases parties@.len() - party_index,
    {
        let same_side = party == party_index;
        let hit_enemies = target & Target::SIDE_ENEMY != 0 && !same_side;
        let hit_allies = target & Target::SIDE_ALLY != 0 && same_side;
        if hit_enemies || hit_allies {
            let ghost start = r@;
            let count = parties[party_index].active_count();
            let mut active_index: usize = 0;
            while active_index < count
                invariant
                    0 <= active_index <= count,
                    r@ == start + slot_hits(
                        target,
                        *command,
                        party as int,
                        party_index as int,
                        active_index as nat,
                    ),
                decreases count - active_index,
            {
                let is_adjacent = Target::is_adjacent_with(command.member, active_index);
                let hit_adjacent = target & Target::RANGE_ADJACENT != 0 && is_adjacent;
                let hit_opposite = target & Target::RANGE_OPPOSITE != 0 && !is_adjacent;
                if hit_adjacent || hit_opposite {
                    let includes_self = target & Target::TARGET_SELF != 0;
                    let is_self = party_index == party && active_index == command.member;
                    if !is_self || includes_self {
                        r.push((party_index, active_index));
                    }
                }
                proof {
                    assert(r@ =~= start + slot_hits(
                        target,
                        *command,
                        party as int,
                        party_index as int,
                        (active_index + 1) as nat,
                    ));
                }
                active_index += 1;
            }
        }
        proof {
            assert(r@ =~= party_hits(
                parties@,
                target,
                *command,
                party as int,
                (party_index + 1) as nat,
            ));
        }
        party_index += 1;
    }
    r
}

/// The damage effect of a fixed amount on target `t`: the member is the one in the command's
/// chosen target slot.
pub open spec fn fixed_damage(parties: Seq<Party>, c: CommandAttack, amount: StatType, t: (usize, usize)) -> Effect {
    Effect::Damage(
        Damage {
            party: t.0,
            active: t.1,
            member: parties[c.target_party as int].active_spec()[c.target_member as int]->0,
            meta: DamageMeta { amount, type_bonus: Ratio { num: 1, den: 1 }, critical: false },
        },
    )
}

/// The command's chosen target is an active member.
pub open spec fn chosen_target_valid(parties: Seq<Party>, c: CommandAttack) -> bool {
    &&& c.target_party < parties.len()
    &&& c.target_member < parties[c.target_party as int].active_spec().len()
    &&& parties[c.target_party as int].active_spec()[c.target_member as int] is Some
}

/// Adds, for each target, damage of the fixed `amount`, which no element changes.
pub fn damage_fixed(
    effects: &mut BattleEffects,
    command: &CommandAttack,
    party: usize,
    state: &BattleState,
    amount: StatType,
)
    requires
        user_valid(state.parties_spec(), party as int, *command),
        targets(state.parties_spec(), party as int, *command).len() > 0 ==> chosen_target_valid(
            state.parties_spec(),
            *command,
        ),
    ensures
        final(effects)@ == old(effects)@ + targets(
            state.parties_spec(),
            party as int,
            *command,
        ).map_values(|t: (usize, usize)| fixed_damage(state.parties_spec(), *command, amount, t)),
{
    let targets = for_targets(command, party, state);
    let ghost ts = targets@;
    let ghost ps = state.parties_spec();
    let mut i: usize = 0;
    while i < targets.len()
        invariant
            ts == targets@,
            ps == state.parties_spec(),
            ts.len() > 0 ==> chosen_target_valid(ps, *command),
            0 <= i <= ts.len(),
            effects@ == old(effects)@ + ts.take(i as int).map_values(
                |t: (usize, usize)| fixed_damage(ps, *command, amount, t),
            ),
        decreases ts.len() - i,
    {
        let defending_party = &state.parties()[command.target_party];
        let member = defending_party.active_member_index(command.target_member).unwrap();
        let (target_party, target_member) = targets[i];
        effects.effect_add(
            Effect::Damage(
                Damage {
                    party: target_party,
                    active: target_member,
                    member,
                    meta: DamageMeta {
                        amount,
                        type_bonus: Ratio { num: 1, den: 1 },
                        critical: false,
                    },
                },
            ),
        );
        proof {
            assert(ts.take(i + 1) =~= ts.take(i as int).push(ts[i as int]));
            assert(effects@ =~= old(effects)@ + ts.take(i + 1).map_values(
                |t: (usize, usize)| fixed_damage(ps, *command, amount, t),
            ));
        }
        i += 1;
    }
    proof {
        assert(ts.take(i as int) =~= ts);
    }
}

/// The retreat effect of target `t`.
pub open spec fn retreat_of(t: (usize, usize)) -> Effect {
    Effect::Retreat(Retreat { party: t.0, active: t.1 })
}

/// Adds, for each target, a retreat of that active member.
pub fn retreat(effects: &mut BattleEffects, command: &CommandAttack, party: usize, state: &BattleState)
    requires
        user_valid(state.parties_spec(), party as int, *command),
    ensures
        final(effects)@ == old(effects)@ + targets(
            state.parties_spec(),
            party as int,
            *command,
        ).map_values(|t: (usize, usize)| retreat_of(t)),
{
    let targets = for_targets(command, party, state);
    let ghost ts = targets@;
    let mut i: usize = 0;
    while i < targets.len()
        invariant
            ts == targets@,
            0 <= i <= ts.len(),
            effects@ == old(effects)@ + ts.take(i as int).map_values(
                |t: (usize, usize)| retreat_of(t),
            ),
        decreases ts.len() - i,
    {
        let (target_party, target_member) = targets[i];
        effects.effect_add(Effect::Retreat(Retreat { party: target_party, active: target_member }));
        proof {
            assert(ts.take(i + 1) =~= ts.take(i as int).push(ts[i as int]));
            assert(effects@ =~= old(effects)@ + ts.take(i + 1).map_values(
                |t: (usize, usize)| retreat_of(t),
            ));
        }
        i += 1;
    }
    proof {
        assert(ts.take(i as int) =~= ts);
    }
}

/// Adds an effect of nothing happening.
pub fn nothing(effects: &mut BattleEffects)
    ensures
        final(effects)@ == old(effects)@.push(Effect::NoChange(NoneReason::Nothing)),
{
    effects.effect_add(Effect::NoChange(NoneReason::Nothing));
}

/// Adds a change of the battle flags that toggles `flags`.
pub fn battle_flags_toggle(effects: &mut BattleEffects, state: &BattleState, flags: BattleFlagsType)
    ensures
        final(effects)@ == old(effects)@.push(
            Effect::FlagsChange(FlagsChange { flags: state.flags_spec() ^ flags }),
        ),
{
    effects.effect_add(Effect::FlagsChange(FlagsChange { flags: state.flags() ^ flags }));
}

/// The stages that a delta of `amount` to one stage gives, from all stages at 0.
pub open spec fn delta_stages(which: int, amount: int) -> StatStages {
    let s = clamp_spec(amount, -6, 6) as i8;
    StatStages {
        attack: if which == 0 { s } else { 0 },
        defense: if which == 1 { s } else { 0 },
        sp_attack: 0,
        sp_defense: 0,
        speed: 0,
        accuracy: if which == 2 { s } else { 0 },
        evasion: 0,
        critical: 0,
    }
}

/// The effect added is a modifier of the command's chosen target with the given stages.
pub open spec fn modifier_added(
    before: Seq<Effect>,
    after: Seq<Effect>,
    c: CommandAttack,
    stages: StatStages,
) -> bool {
    &&& after.len() == before.len() + 1
    &&& after.take(before.len() as int) == before
    &&& after.last() matches Effect::Modifier(m) && m.party_spec() == c.target_party
        && m.active_spec() == c.target_member && m.modifiers_spec() == stages
}

fn modifier_delta(effects: &mut BattleEffects, command: &CommandAttack, which: u8, amount: StatModifierType)
    requires
        which < 3,
    ensures
        modifier_added(old(effects)@, final(effects)@, *command, delta_stages(which as int, amount as int)),
{
    let mut stats: StatModifiers = Default::default();
    if which == 0 {
        stats.attack_delta(amount);
    } else if which == 1 {
        stats.defense_delta(amount);
    } else {
        stats.accuracy_delta(amount);
    }
    proof {
        assert(stats@ == delta_stages(which as int, amount as int));
    }
    let modifier = Modifier::new(command.target_party, command.target_member, stats);
    effects.effect_add(Effect::Modifier(modifier));
    proof {
        assert(effects@.take(old(effects)@.len() as int) =~= old(effects)@);
    }
}

/// Adds a modifier of the command's chosen target that changes its attack stage by `amount`.
pub fn attack_delta(effects: &mut BattleEffects, command: &CommandAttack, amount: StatModifierType)
    ensures
        modifier_added(old(effects)@, final(effects)@, *command, delta_stages(0, amount as int)),
{
    modifier_delta(effects, command, 0, amount)
}

/// Adds a modifier of the command's chosen target that changes its defense stage by `amount`.
pub fn defense_delta(effects: &mut BattleEffects, command: &CommandAttack, amount: StatModifierType)
    ensures
        modifier_added(old(effects)@, final(effects)@, *command, delta_stages(1, amount as int)),
{
    modifier_delta(effects, command, 1, amount)
}

/// Adds a modifier of the command's chosen target that changes its accuracy stage by `amount`.
pub fn accuracy_delta(effects: &mut BattleEffects, command: &CommandAttack, amount: StatModifierType)
    ensures
        modifier_added(old(effects)@, final(effects)@, *command, delta_stages(2, amount as int)),
{
    modifier_delta(effects, command, 2, amount)
}

/// Whether an attack lands a critical hit, by its critical stage, whether its chance is high, and
/// a random byte: the byte modulo a rate that halves with each stage (32, 16, 8, then 4) is at
/// most 1, or 2 where the chance is high.
pub open spec fn critical_spec(stage: StatModifierType, high_chance: bool, random: u8) -> bool {
    let rate: int = if stage == 0 {
        32
    } else if stage == 1 {
        16
    } else if stage == 2 {
        8
    } else {
        4
    };
    let odds: int = if high_chance {
        2
    } else {
        1
    };
    random as int % rate <= odds
}

/// Decides a critical hit from the random byte `random`.
pub fn critical_hit(stage: StatModifierType, high_chance: bool, random: u8) -> (r: bool)
    ensures
        r == critical_spec(stage, high_chance, random),
{
    let rate: u8 = match stage {
        0 => 32,
        1 => 16,
        2 => 8,
        _ => 4,
    };
    let odds: u8 = if high_chance {
        2
    } else {
        1
    };
    random % rate <= odds
}

/// Decides a critical hit with a random byte from `rng`.
pub fn is_critical(stage: StatModifierType, high_chance: bool, rng: &mut StdRng) -> (r: bool)
    ensures
        exists|b: u8| r == critical_spec(stage, high_chance, b),
{
    let b = random_byte(rng);
    critical_hit(stage, high_chance, b)
}

} // verus!

//! The state of a running battle and the queue of effects that its commands produce.
use vstd::prelude::*;

use crate::command::{attack_valid, CommandRetreat, CommandType};
use crate::effect::{
    BattleFlagsType,
    Damage,
    DamageMeta,
    Effect,
    LingeringChange,
    NoneReason,
    Ratio,
    Switch,
};
use crate::lingering::{DeathAllTurns, LingeringType};
use crate::party::{members_switched, Party};
use crate::replay::BattleReplay;
use crate::statmod::apply_spec;
use crate::types::StatType;

verus! {

/// Constants for battle setting bitflags.
pub struct BattleFlags;

impl BattleFlags {
    /// Reverses the priority order so that attacks with lower priority go first.
    pub const PRIORITY_REVERSE: BattleFlagsType = 0b01;

    /// Reverses the speed order so that monsters with a slower speed go first.
    pub const SPEED_REVERSE: BattleFlagsType = 0b10;
}

/// A member of a party in battle.
#[derive(Debug, PartialEq, Eq, Structural, Clone, Copy)]
pub struct BattlePartyMember {
    pub party: usize,
    pub member: usize,
}

/// What running a battle step did.
#[derive(Debug, PartialEq, Eq, Structural, Clone, Copy)]
pub enum BattleExecution {
    /// A new command has been executed. An effect for this command has not been executed yet.
    Command,
    /// A new effect has been executed. A command for this effect is active.
    Effect,
    /// No possible execution is possible. The entire command list has been consumed.
    Ready,
    /// Waiting for user input.
    Waiting,
    /// A damage effect has been executed that resulted in the death of a party member.
    Death(BattlePartyMember),
    /// A party has the ability to switch dead party members.
    SwitchWaiting,
    /// A party member has requested to be switched out.
    RetreatWaiting(BattlePartyMember),
    /// Occurs when the battle is over. Further commands cannot be added or processed.
    Finished(u8),
}

/// The parties of a battle, its setting flags and its lingering effects.
#[derive(Debug)]
pub struct BattleState {
    parties: Vec<Party>,
    flags: BattleFlagsType,
    lingering: Vec<LingeringType>,
}

impl BattleState {
    pub closed spec fn parties_spec(&self) -> Seq<Party> {
        self.parties@
    }

    pub closed spec fn flags_spec(&self) -> BattleFlagsType {
        self.flags
    }

    pub closed spec fn lingering_spec(&self) -> Seq<LingeringType> {
        self.lingering@
    }

    /// A battle between `parties`, with no flags set and no lingering effects.
    pub fn new(parties: Vec<Party>) -> (r: Self)
        ensures
            r.parties_spec() == parties@,
            r.flags_spec() == 0,
            r.lingering_spec() == Seq::<LingeringType>::empty(),
    {
        BattleState { parties, flags: 0, lingering: Vec::new() }
    }

    pub fn parties(&self) -> (r: &[Party])
        ensures
            r@ == self.parties_spec(),
    {
        self.parties.as_slice()
    }

    pub fn flags(&self) -> (r: BattleFlagsType)
        ensures
            r == self.flags_spec(),
    {
        self.flags
    }

    pub fn lingering(&self) -> (r: &[LingeringType])
        ensures
            r@ == self.lingering_spec(),
    {
        self.lingering.as_slice()
    }

    /// Sets the battle flags.
    pub fn flags_set(&mut self, flags: BattleFlagsType)
        ensures
            final(self).flags_spec() == flags,
            final(self).parties_spec() == old(self).parties_spec(),
            final(self).lingering_spec() == old(self).lingering_spec(),
    {
        self.flags = flags;
    }

    /// Adds a lingering effect at the end.
    pub fn lingering_add(&mut self, lingering: LingeringType)
        ensures
            final(self).lingering_spec() == old(self).lingering_spec().push(lingering),
            final(self).parties_spec() == old(self).parties_spec(),
            final(self).flags_spec() == old(self).flags_spec(),
    {
        self.lingering.push(lingering);
    }

    /// Removes the lingering effect at `index`.
    pub fn lingering_remove(&mut self, index: usize)
        requires
            index < old(self).lingering_spec().len(),
        ensures
            final(self).lingering_spec() == old(self).lingering_spec().remove(index as int),
            final(self).parties_spec() == old(self).parties_spec(),
            final(self).flags_spec() == old(self).flags_spec(),
    {
        self.lingering.remove(index);
    }
}

/// The effects waiting to be applied, first to last.
#[derive(Debug)]
pub struct BattleEffects {
    effects: Vec<Effect>,
}

impl View for BattleEffects {
    type V = Seq<Effect>;

    closed spec fn view(&self) -> Seq<Effect> {
        self.effects@
    }
}

impl BattleEffects {
    /// No effects.
    pub fn new() -> (r: Self)
        ensures
            r@ == Seq::<Effect>::empty(),
    {
        BattleEffects { effects: Vec::new() }
    }

    /// Adds an effect to apply after the others.
    pub fn effect_add(&mut self, effect: Effect)
        ensures
            final(self)@ == old(self)@.push(effect),
    {
        self.effects.push(effect);
    }

    /// Adds an effect to apply before the others.
    pub fn effect_add_front(&mut self, effect: Effect)
        ensures
            final(self)@ == seq![effect] + old(self)@,
    {
        self.effects.insert(0, effect);
        proof {
            assert(self.effects@ =~= seq![effect] + old(self)@);
        }
    }

    /// Takes the next effect to apply.
    pub fn effect_take(&mut self) -> (r: Effect)
        requires
            old(self)@.len() > 0,
        ensures
            r == old(self)@[0],
            final(self)@ == old(self)@.drop_first(),
    {
        let r = self.effects.remove(0);
        proof {
            assert(self.effects@ =~= old(self)@.drop_first());
        }
        r
    }

    /// Removes all effects.
    pub fn effects_clear(&mut self)
        ensures
            final(self)@ == Seq::<Effect>::empty(),
    {
        self.effects.clear();
    }

    /// Whether no effect is waiting.
    pub fn effects_empty(&self) -> (r: bool)
        ensures
            r == (self@.len() == 0),
    {
        self.effects.len() == 0
    }
}

/// The position of the first entry of `side` among the first `n` entries of `sides`.
pub open spec fn side_index(sides: Seq<(u8, usize)>, side: u8, n: nat) -> Option<nat>
    decreases n,
{
    if n == 0 {
        None
    } else {
        match side_index(sides, side, (n - 1) as nat) {
            Some(i) => Some(i),
            None => if sides[n - 1].0 == side {
                Some((n - 1) as nat)
            } else {
                None
            },
        }
    }
}

/// The count of parties on each side, with one more party on `side`.
pub open spec fn side_added(sides: Seq<(u8, usize)>, side: u8) -> Seq<(u8, usize)> {
    match side_index(sides, side, sides.len()) {
        Some(i) => sides.update(i as int, (side, (sides[i as int].1 + 1) as usize)),
        None => sides.push((side, 1)),
    }
}

/// The count of parties on each side, in the order in which the sides first appear.
pub open spec fn side_counts(parties: Seq<Party>) -> Seq<(u8, usize)>
    decreases parties.len(),
{
    if parties.len() == 0 {
        Seq::empty()
    } else {
        side_added(side_counts(parties.drop_last()), parties.last().side_spec())
    }
}

/// The count of parties on each side, after a party of `side` has been knocked out: a side
/// whose last party it was is no longer counted.
pub open spec fn side_lost(sides: Seq<(u8, usize)>, side: u8) -> Seq<(u8, usize)> {
    match side_index(sides, side, sides.len()) {
        Some(i) => if sides[i as int].1 <= 1 {
            sides.remove(i as int)
        } else {
            sides.update(i as int, (side, (sides[i as int].1 - 1) as usize))
        },
        None => sides,
    }
}

/// Each side is counted at most once.
pub open spec fn sides_distinct(sides: Seq<(u8, usize)>) -> bool {
    forall|i: int, j: int| 0 <= i < j < sides.len() ==> sides[i].0 != sides[j].0
}

/// When a party of a side that still has other parties standing is knocked out, the side stays
/// counted, in its place, with one party fewer, and every other side keeps its count.
pub proof fn lemma_side_lost_keeps_standing_side(sides: Seq<(u8, usize)>, k: int)
    requires
        sides_distinct(sides),
        0 <= k < sides.len(),
        sides[k].1 > 1,
    ensures
        side_lost(sides, sides[k].0).len() == sides.len(),
        side_lost(sides, sides[k].0)[k] == (sides[k].0, (sides[k].1 - 1) as usize),
        forall|j: int| 0 <= j < sides.len() && j != k ==> side_lost(sides, sides[k].0)[j] == sides[j],
{
    lemma_side_index_of(sides, k);
}

/// When the last party of a side is knocked out, the side is no longer counted, and the other
/// sides keep their counts in their order.
pub proof fn lemma_side_lost_drops_fallen_side(sides: Seq<(u8, usize)>, k: int)
    requires
        sides_distinct(sides),
        0 <= k < sides.len(),
        sides[k].1 == 1,
    ensures
        side_lost(sides, sides[k].0) == sides.remove(k),
        side_lost(sides, sides[k].0).len() == sides.len() - 1,
        forall|j: int|
            0 <= j < side_lost(sides, sides[k].0).len() ==> side_lost(sides, sides[k].0)[j].0
                != sides[k].0,
{
    lemma_side_index_of(sides, k);
}

/// The counts that a battle starts from hold each side once, and knocking out a party keeps it so.
pub proof fn lemma_sides_stay_distinct(parties: Seq<Party>, sides: Seq<(u8, usize)>, side: u8)
    requires
        sides_distinct(sides),
    ensures
        sides_distinct(side_counts(parties)),
        sides_distinct(side_lost(sides, side)),
    decreases parties.len(),
{
    if parties.len() > 0 {
        let rest = side_counts(parties.drop_last());
        lemma_sides_stay_distinct(parties.drop_last(), sides, side);
        let s = parties.last().side_spec();
        lemma_side_index(rest, s, rest.len());
    }
    lemma_side_index(sides, side, sides.len());
}

/// The entry found for the side at `k` is `k` itself, where each side is counted once.
proof fn lemma_side_index_of(sides: Seq<(u8, usize)>, k: int)
    requires
        sides_distinct(sides),
        0 <= k < sides.len(),
    ensures
        side_index(sides, sides[k].0, sides.len()) == Some(k as nat),
{
    lemma_side_index(sides, sides[k].0, sides.len());
    match side_index(sides, sides[k].0, sides.len()) {
        Some(i) => {
            if i != k {
                assert(sides[i as int].0 == sides[k].0);
            }
        },
        None => {},
    }
}

proof fn lemma_side_index(sides: Seq<(u8, usize)>, side: u8, n: nat)
    requires
        n <= sides.len(),
    ensures
        match side_index(sides, side, n) {
            Some(i) => i < n && sides[i as int].0 == side && forall|j: int|
                0 <= j < i ==> sides[j].0 != side,
            None => forall|j: int| 0 <= j < n ==> sides[j].0 != side,
        },
    decreases n,
{
    if n > 0 {
        lemma_side_index(sides, side, (n - 1) as nat);
    }
}

/// The position of the first entry of `side`.
fn find_side(sides: &Vec<(u8, usize)>, side: u8) -> (r: Option<usize>)
    ensures
        match r {
            Some(k) => side_index(sides@, side, sides@.len()) == Some(k as nat),
            None => side_index(sides@, side, sides@.len()) is None,
        },
{
    let mut i: usize = 0;
    while i < sides.len()
        invariant
            0 <= i <= sides@.len(),
            side_index(sides@, side, i as nat) is None,
        decreases sides@.len() - i,
    {
        proof {
            lemma_side_index(sides@, side, i as nat);
        }
        if sides[i].0 == side {
            proof {
                assert(side_index(sides@, side, (i + 1) as nat) == Some(i as nat));
                lemma_side_index_stays(sides@, side, (i + 1) as nat, sides@.len());
            }
            return Some(i);
        }
        i += 1;
    }
    None
}

proof fn lemma_side_index_stays(sides: Seq<(u8, usize)>, side: u8, n: nat, m: nat)
    requires
        n <= m,
        side_index(sides, side, n) is Some,
    ensures
        side_index(sides, side, m) == side_index(sides, side, n),
    decreases m - n,
{
    if n < m {
        lemma_side_index_stays(sides, side, n, (m - 1) as nat);
    }
}

/// Runs a battle: it starts the recorded commands one after another and applies the effects that
/// each command produces, one per step.
#[derive(Debug)]
pub struct BattleRunner {
    state: BattleState,
    effects: BattleEffects,
    replay: BattleReplay,
    command: usize,
    sub_command: usize,
    turn: usize,
    sides_alive: Vec<(u8, usize)>,
    party_switch_waiting: usize,
    effect_current: Effect,
    retreat: bool,
    attack_pending: bool,
}

impl BattleRunner {
    /// The attack command started last hit its target, and its effects are still to be given.
    pub closed spec fn attack_pending_spec(&self) -> bool {
        self.attack_pending
    }

    pub closed spec fn state_spec(&self) -> BattleState {
        self.state
    }

    /// The effects of the running command that are still to be applied.
    pub closed spec fn effects_spec(&self) -> Seq<Effect> {
        self.effects@
    }

    pub closed spec fn replay_spec(&self) -> BattleReplay {
        self.replay
    }

    /// The number of commands started so far.
    pub closed spec fn command_spec(&self) -> usize {
        self.command
    }

    /// The number of retreats of the running command applied so far.
    pub closed spec fn sub_command_spec(&self) -> usize {
        self.sub_command
    }

    /// The number of turns ended so far.
    pub closed spec fn turn_spec(&self) -> usize {
        self.turn
    }

    /// Each side that still has a party standing, with its number of such parties.
    pub closed spec fn sides_spec(&self) -> Seq<(u8, usize)> {
        self.sides_alive@
    }

    /// The number of knocked out members whose party can switch another one in.
    pub closed spec fn switch_waiting_spec(&self) -> usize {
        self.party_switch_waiting
    }

    /// The effect applied last.
    pub closed spec fn current_spec(&self) -> Effect {
        self.effect_current
    }

    /// A retreat is waiting for the member to switch in.
    pub closed spec fn retreat_spec(&self) -> bool {
        self.retreat
    }

    /// The counters agree: no more commands started than recorded, no more turns than commands,
    /// and a waiting retreat belongs to a started command.
    pub open spec fn wf(&self) -> bool {
        &&& self.command_spec() <= self.replay_spec().commands_spec().len()
        &&& self.turn_spec() <= self.command_spec()
        &&& self.retreat_spec() ==> {
            &&& self.command_spec() >= 1
            &&& self.sub_command_spec() >= 1
            &&& self.current_spec() is Retreat
        }
    }

    /// A runner for a battle between `parties`, whose replay has the seed `seed`.
    pub fn new(parties: Vec<Party>, seed: usize) -> (r: Self)
        ensures
            r.wf(),
            r.state_spec().parties_spec() == parties@,
            r.state_spec().flags_spec() == 0,
            r.state_spec().lingering_spec() == Seq::<LingeringType>::empty(),
            r.effects_spec() == Seq::<Effect>::empty(),
            r.replay_spec().seed_spec() == seed,
            r.replay_spec().commands_spec().len() == 0,
            r.command_spec() == 0,
            r.sub_command_spec() == 0,
            r.turn_spec() == 0,
            r.sides_spec() == side_counts(parties@),
            r.switch_waiting_spec() == 0,
            r.current_spec() == Effect::NoChange(NoneReason::Nothing),
            !r.retreat_spec(),
            !r.attack_pending_spec(),
    {
        let mut sides: Vec<(u8, usize)> = Vec::new();
        let mut i: usize = 0;
        while i < parties.len()
            invariant
                0 <= i <= parties@.len(),
                sides@ == side_counts(parties@.take(i as int)),
                forall|j: int| 0 <= j < sides@.len() ==> (#[trigger] sides@[j]).1 <= i,
            decreases parties@.len() - i,
        {
            proof {
                assert(parties@.take(i + 1).drop_last() =~= parties@.take(i as int));
            }
            let side = parties[i].side();
            let ghost before = sides@;
            proof {
                lemma_side_index(sides@, side, sides@.len());
                assert(parties@.take(i + 1).last() == parties@[i as int]);
                assert(side_counts(parties@.take(i + 1)) == side_added(before, side));
            }
            match find_side(&sides, side) {
                Some(k) => {
                    let count = sides[k].1;
                    sides.set(k, (side, count + 1));
                },
                None => {
                    sides.push((side, 1));
                },
            }
            proof {
                assert(sides@ =~= side_added(before, side));
            }
            i += 1;
        }
        proof {
            assert(parties@.take(parties@.len() as int) =~= parties@);
        }
        BattleRunner {
            state: BattleState::new(parties),
            effects: BattleEffects::new(),
            replay: BattleReplay::with_seed(seed),
            command: 0,
            sub_command: 0,
            turn: 0,
            sides_alive: sides,
            party_switch_waiting: 0,
            effect_current: Effect::NoChange(NoneReason::Nothing),
            retreat: false,
            attack_pending: false,
        }
    }

    pub fn state(&self) -> (r: &BattleState)
        ensures
            *r == self.state_spec(),
    {
        &self.state
    }

    /// The command started last.
    pub fn current_command(&self) -> (r: &CommandType)
        requires
            self.wf(),
            self.command_spec() >= 1,
        ensures
            *r == self.replay_spec().commands_spec()[self.command_spec() - 1].0,
    {
        self.replay.command(self.command - 1)
    }

    /// Whether the attack started last hit and waits for the effects that it produces.
    pub fn attack_pending(&self) -> (r: bool)
        ensures
            r == self.attack_pending_spec(),
    {
        self.attack_pending
    }

    /// The number of commands started so far.
    pub fn commands_started(&self) -> (r: usize)
        ensures
            r == self.command_spec(),
    {
        self.command
    }

    /// The effect applied last.
    pub fn current_effect(&self) -> (r: &Effect)
        ensures
            *r == self.current_spec(),
    {
        &self.effect_current
    }

    /// The command that the next step starts, where all the effects of the running one are
    /// applied and a recorded command is left to start.
    pub fn next_command(&self) -> (r: Option<&CommandType>)
        requires
            self.wf(),
        ensures
            match r {
                Some(c) => self.command_spec() < self.replay_spec().commands_spec().len() && *c
                    == self.replay_spec().commands_spec()[self.command_spec() as int].0,
                None => self.command_spec() == self.replay_spec().commands_spec().len(),
            },
    {
        if self.command < self.replay.command_count() {
            Some(self.replay.command(self.command))
        } else {
            None
        }
    }

    /// Records a command to run after the recorded ones.
    pub fn command_add(&mut self, command: CommandType)
        requires
            old(self).wf(),
        ensures
            final(self).wf(),
            final(self).attack_pending_spec() == old(self).attack_pending_spec(),
            final(self).replay_spec().commands_spec() == old(self).replay_spec().commands_spec().push(
                (command, Seq::<Option<CommandRetreat>>::empty()),
            ),
            final(self).replay_spec().seed_spec() == old(self).replay_spec().seed_spec(),
            final(self).state_spec() == old(self).state_spec(),
            final(self).effects_spec() == old(self).effects_spec(),
            final(self).command_spec() == old(self).command_spec(),
            final(self).sub_command_spec() == old(self).sub_command_spec(),
            final(self).turn_spec() == old(self).turn_spec(),
            final(self).sides_spec() == old(self).sides_spec(),
            final(self).switch_waiting_spec() == old(self).switch_waiting_spec(),
            final(self).current_spec() == old(self).current_spec(),
            final(self).retreat_spec() == old(self).retreat_spec(),
    {
        self.replay.command_add(command);
    }

    /// Records the member chosen to replace a retreating one, for the command started last.
    pub fn sub_command_add(&mut self, sub_command: Option<CommandRetreat>)
        requires
            old(self).wf(),
            old(self).command_spec() >= 1,
        ensures
            final(self).wf(),
            final(self).attack_pending_spec() == old(self).attack_pending_spec(),
            final(self).replay_spec().commands_spec() == old(self).replay_spec().commands_spec().update(
                old(self).command_spec() - 1,
                (
                    old(self).replay_spec().commands_spec()[old(self).command_spec() - 1].0,
                    old(self).replay_spec().commands_spec()[old(self).command_spec() - 1].1.push(
                        sub_command,
                    ),
                ),
            ),
            final(self).replay_spec().seed_spec() == old(self).replay_spec().seed_spec(),
            final(self).state_spec() == old(self).state_spec(),
            final(self).effects_spec() == old(self).effects_spec(),
            final(self).command_spec() == old(self).command_spec(),
            final(self).sub_command_spec() == old(self).sub_command_spec(),
            final(self).turn_spec() == old(self).turn_spec(),
            final(self).sides_spec() == old(self).sides_spec(),
            final(self).switch_waiting_spec() == old(self).switch_waiting_spec(),
            final(self).current_spec() == old(self).current_spec(),
            final(self).retreat_spec() == old(self).retreat_spec(),
    {
        self.replay.sub_command_add(self.command - 1, sub_command);
    }
}

/// `n` is the party `o` after the member at `member` lost `amount` health, stopping at 0; a
/// member left with no health counts as waiting to be switched.
pub open spec fn health_lost(o: Party, n: Party, member: int, amount: StatType) -> bool {
    let om = o.members_spec()[member];
    let nm = n.members_spec()[member];
    &&& n.members_spec().len() == o.members_spec().len()
    &&& forall|i: int|
        0 <= i < o.members_spec().len() && i != member ==> n.members_spec()[i] == o.members_spec()[i]
    &&& nm.health_spec() == if om.health_spec() >= amount {
        om.health_spec() - amount
    } else {
        0
    }
    &&& nm.values_spec() == om.values_spec()
    &&& nm.nick_spec() == om.nick_spec()
    &&& nm.attacks_spec() == om.attacks_spec()
    &&& nm.recruited_spec() == om.recruited_spec()
    &&& n.switch_waiting_spec() == o.switch_waiting_spec() + if nm.health_spec() == 0 {
        1int
    } else {
        0
    }
    &&& n.active_spec() == o.active_spec()
    &&& n.active_modifiers_spec() == o.active_modifiers_spec()
    &&& n.alive_spec() == o.alive_spec()
    &&& n.side_spec() == o.side_spec()
}

/// `n` is the party `o` after the member in the active slot `member` traded places with the
/// member at `target`.
pub open spec fn party_switched(o: Party, n: Party, member: int, target: int) -> bool {
    &&& n.members_spec() == members_switched(o.members_spec(), o.active_spec()[member]->0 as int, target)
    &&& n.active_spec() == o.active_spec()
    &&& n.active_modifiers_spec() == o.active_modifiers_spec()
    &&& n.alive_spec() == o.alive_spec()
    &&& n.switch_waiting_spec() == o.switch_waiting_spec()
    &&& n.side_spec() == o.side_spec()
}

/// `n` is the party `o` after the stages `m` were applied to the active slot `index`.
pub open spec fn party_modified(o: Party, n: Party, index: int, m: crate::statmod::StatStages) -> bool {
    &&& n.active_spec() == o.active_spec()
    &&& n.members_spec() == o.members_spec()
    &&& forall|i: int|
        0 <= i < o.active_spec().len() && i != index ==> n.active_modifiers_spec()[i]
            == o.active_modifiers_spec()[i]
    &&& n.active_modifiers_spec()[index] is Some
    &&& apply_spec(o.active_modifiers_spec()[index]->0, m, n.active_modifiers_spec()[index]->0)
    &&& n.alive_spec() == o.alive_spec()
    &&& n.switch_waiting_spec() == o.switch_waiting_spec()
    &&& n.side_spec() == o.side_spec()
}

/// A party member can be switched: the party and its active slot exist, the slot holds a
/// member, and the member to switch in exists.
pub open spec fn switch_applies(parties: Seq<Party>, party: int, member: int, target: int) -> bool {
    &&& 0 <= party < parties.len()
    &&& 0 <= member < parties[party].active_spec().len()
    &&& parties[party].active_spec()[member] is Some
    &&& 0 <= target < parties[party].members_spec().len()
}

/// The damage can be applied: its party and the member that it hits exist, and the counts of
/// knocked out members have room for one more. As in the battle's damage rule, the member hit is
/// the one whose index is the damage's `active` number.
pub open spec fn damage_applies(parties: Seq<Party>, d: Damage, waiting: usize) -> bool {
    &&& d.party < parties.len()
    &&& d.active < parties[d.party as int].members_spec().len()
    &&& parties[d.party as int].switch_waiting_spec() < usize::MAX
    &&& waiting < usize::MAX
}

/// The first active slot among the first `n` that holds the member at `member`.
pub open spec fn first_slot(active: Seq<Option<usize>>, member: usize, n: nat) -> Option<nat>
    decreases n,
{
    if n == 0 {
        None
    } else {
        match first_slot(active, member, (n - 1) as nat) {
            Some(a) => Some(a),
            None => if active[n - 1] == Some(member) {
                Some((n - 1) as nat)
            } else {
                None
            },
        }
    }
}

proof fn lemma_first_slot(active: Seq<Option<usize>>, member: usize, n: nat)
    requires
        n <= active.len(),
    ensures
        match first_slot(active, member, n) {
            Some(a) => a < n && active[a as int] == Some(member) && forall|j: int|
                0 <= j < a ==> active[j] != Some(member),
            None => forall|j: int| 0 <= j < n ==> active[j] != Some(member),
        },
    decreases n,
{
    if n > 0 {
        lemma_first_slot(active, member, (n - 1) as nat);
    }
}

/// The damage that knocks out the affected member `pm` (party and member index), where it is
/// in an active slot: all the health it has left, aimed at the member's index as the damage rule
/// reads it.
pub open spec fn knock_out(parties: Seq<Party>, pm: (usize, usize)) -> Seq<Effect> {
    if pm.0 < parties.len() && pm.1 < parties[pm.0 as int].members_spec().len() {
        let party = parties[pm.0 as int];
        match first_slot(party.active_spec(), pm.1, party.active_spec().len()) {
            Some(_) => seq![
                Effect::Damage(
                    Damage {
                        party: pm.0,
                        active: pm.1,
                        member: pm.1,
                        meta: DamageMeta {
                            amount: party.members_spec()[pm.1 as int].health_spec(),
                            type_bonus: Ratio { num: 1, den: 1 },
                            critical: false,
                        },
                    },
                ),
            ],
            None => Seq::empty(),
        }
    } else {
        Seq::empty()
    }
}

/// The damage that knocks out each of the affected members, in order.
pub open spec fn knock_outs(parties: Seq<Party>, affected: Seq<(usize, usize)>) -> Seq<Effect>
    decreases affected.len(),
{
    if affected.len() == 0 {
        Seq::empty()
    } else {
        knock_outs(parties, affected.drop_last()) + knock_out(parties, affected.last())
    }
}

/// Everything but the battle state, the effects, the sides and the counts of retreats and
/// waiting switches is the same in `o` and `n`.
pub open spec fn runner_frame(o: BattleRunner, n: BattleRunner) -> bool {
    &&& n.replay_spec() == o.replay_spec()
    &&& n.command_spec() == o.command_spec()
    &&& n.turn_spec() == o.turn_spec()
    &&& n.current_spec() == o.current_spec()
}

/// What applying the effect `e` does to the runner `o`, giving `n` and the result `r`. An effect
/// that names a party, slot or member that does not exist changes nothing.
#[verifier::opaque]
pub open spec fn effect_applied(
    o: BattleRunner,
    n: BattleRunner,
    effects: Seq<Effect>,
    e: Effect,
    r: BattleExecution,
) -> bool {
    let ps = o.state_spec().parties_spec();
    let nps = n.state_spec().parties_spec();
    &&& n.replay_spec() == o.replay_spec()
    &&& n.command_spec() == o.command_spec()
    &&& n.turn_spec() == o.turn_spec()
    &&& n.state_spec().flags_spec() == (match e {
        Effect::FlagsChange(f) => f.flags,
        _ => o.state_spec().flags_spec(),
    })
    &&& match e {
        Effect::Damage(d) => if damage_applies(ps, d, o.switch_waiting_spec()) {
            let p = d.party as int;
            let dead = nps[p].members_spec()[d.active as int].health_spec() == 0;
            &&& nps == ps.update(p, nps[p])
            &&& health_lost(ps[p], nps[p], d.active as int, d.meta.amount)
            &&& n.state_spec().lingering_spec() == o.state_spec().lingering_spec()
            &&& n.effects_spec() == effects
            &&& n.sub_command_spec() == o.sub_command_spec()
            &&& n.retreat_spec() == o.retreat_spec()
            &&& if !dead {
                &&& r == BattleExecution::Effect
                &&& n.sides_spec() == o.sides_spec()
                &&& n.switch_waiting_spec() == o.switch_waiting_spec()
            } else {
                &&& r == BattleExecution::Death(BattlePartyMember { party: d.party, member: d.active })
                &&& if nps[p].alive_spec() == 0 {
                    &&& n.switch_waiting_spec() == o.switch_waiting_spec()
                    &&& n.sides_spec() == if exists|i: int|
                        0 <= i < nps[p].active_spec().len() && !#[trigger] nps[p].slot_waiting(i) {
                        o.sides_spec()
                    } else {
                        side_lost(o.sides_spec(), nps[p].side_spec())
                    }
                } else {
                    &&& n.switch_waiting_spec() == o.switch_waiting_spec() + 1
                    &&& n.sides_spec() == o.sides_spec()
                }
            }
        } else {
            &&& r == BattleExecution::Effect
            &&& n.state_spec() == o.state_spec()
            &&& n.effects_spec() == effects
            &&& n.sides_spec() == o.sides_spec()
            &&& n.switch_waiting_spec() == o.switch_waiting_spec()
            &&& n.sub_command_spec() == o.sub_command_spec()
            &&& n.retreat_spec() == o.retreat_spec()
        },
        Effect::Retreat(t) => {
            let c = o.command_spec() - 1;
            let subs = o.replay_spec().commands_spec()[c].1;
            let sub = if o.sub_command_spec() < usize::MAX {
                o.sub_command_spec() + 1
            } else {
                o.sub_command_spec() as int
            };
            &&& n.sub_command_spec() == sub
            &&& retreat_applied(o, n, effects, t.party as int, t.active as int, sub, r)
        },
        _ => {
            &&& r == BattleExecution::Effect
            &&& n.sides_spec() == o.sides_spec()
            &&& n.switch_waiting_spec() == o.switch_waiting_spec()
            &&& n.sub_command_spec() == o.sub_command_spec()
            &&& n.retreat_spec() == o.retreat_spec()
            &&& match e {
                Effect::Switch(sw) => {
                    &&& n.effects_spec() == effects
                    &&& n.state_spec().lingering_spec() == o.state_spec().lingering_spec()
                    &&& if switch_applies(ps, sw.party as int, sw.member as int, sw.target as int) {
                        &&& nps == ps.update(sw.party as int, nps[sw.party as int])
                        &&& party_switched(ps[sw.party as int], nps[sw.party as int], sw.member as int, sw.target as int)
                    } else {
                        nps == ps
                    }
                },
                Effect::Modifier(m) => {
                    let p = m.party_spec() as int;
                    &&& n.effects_spec() == effects
                    &&& n.state_spec().lingering_spec() == o.state_spec().lingering_spec()
                    &&& if p < ps.len() && m.active_spec() < ps[p].active_spec().len()
                        && ps[p].active_spec()[m.active_spec() as int] is Some {
                        &&& nps == ps.update(p, nps[p])
                        &&& party_modified(ps[p], nps[p], m.active_spec() as int, m.modifiers_spec())
                    } else {
                        nps == ps
                    }
                },
                Effect::LingeringAdd(l) => {
                    &&& n.effects_spec() == effects
                    &&& nps == ps
                    &&& n.state_spec().lingering_spec().len() == o.state_spec().lingering_spec().len() + 1
                    &&& n.state_spec().lingering_spec().drop_last() == o.state_spec().lingering_spec()
                    &&& match (l.lingering, n.state_spec().lingering_spec().last()) {
                        (LingeringType::DeathAllTurns(a), LingeringType::DeathAllTurns(b)) => {
                            &&& b.turns_spec() == a.turns_spec()
                            &&& b.affected_spec() == a.affected_spec()
                        },
                    }
                },
                Effect::LingeringChange(c) => {
                    let l = o.state_spec().lingering_spec();
                    &&& nps == ps
                    &&& if c.index < l.len() {
                        &&& n.state_spec().lingering_spec() == l.remove(c.index as int)
                        &&& n.effects_spec() == effects + match l[c.index as int] {
                            LingeringType::DeathAllTurns(d) => knock_outs(ps, d.affected_spec()),
                        }
                    } else {
                        &&& n.state_spec().lingering_spec() == l
                        &&& n.effects_spec() == effects
                    }
                },
                _ => {
                    &&& n.effects_spec() == effects
                    &&& n.state_spec().parties_spec() == ps
                    &&& n.state_spec().lingering_spec() == o.state_spec().lingering_spec()
                },
            }
        },
    }
}

/// What applying the `sub`-th retreat of the running command, of the active slot `active` of
/// `party`, does: where the member to switch in is recorded, the two switch (if they can) and
/// the retreat is done; otherwise the runner waits for it to be recorded.
pub open spec fn retreat_applied(
    o: BattleRunner,
    n: BattleRunner,
    effects: Seq<Effect>,
    party: int,
    active: int,
    sub: int,
    r: BattleExecution,
) -> bool {
    let subs = o.replay_spec().commands_spec()[o.command_spec() - 1].1;
    let ps = o.state_spec().parties_spec();
    let nps = n.state_spec().parties_spec();
    &&& n.replay_spec() == o.replay_spec()
    &&& n.command_spec() == o.command_spec()
    &&& n.turn_spec() == o.turn_spec()
    &&& n.effects_spec() == effects
    &&& n.sides_spec() == o.sides_spec()
    &&& n.switch_waiting_spec() == o.switch_waiting_spec()
    &&& n.state_spec().flags_spec() == o.state_spec().flags_spec()
    &&& n.state_spec().lingering_spec() == o.state_spec().lingering_spec()
    &&& if 1 <= sub && sub - 1 < subs.len() {
        &&& !n.retreat_spec()
        &&& r == BattleExecution::Effect
        &&& match subs[sub - 1] {
            Some(t) => if switch_applies(ps, party, active, t.target as int) {
                &&& nps == ps.update(party, nps[party])
                &&& party_switched(ps[party], nps[party], active, t.target as int)
            } else {
                nps == ps
            },
            None => nps == ps,
        }
    } else {
        &&& n.retreat_spec()
        &&& r == BattleExecution::RetreatWaiting(BattlePartyMember { party: party as usize, member: active as usize })
        &&& nps == ps
    }
}

impl BattleRunner {
    /// Switches the member in the active slot `member` of `party` with the member at `target`,
    /// where both exist.
    fn switch_members(&mut self, party: usize, member: usize, target: usize)
        ensures
            runner_frame(*old(self), *final(self)),
            final(self).effects_spec() == old(self).effects_spec(),
            final(self).sides_spec() == old(self).sides_spec(),
            final(self).switch_waiting_spec() == old(self).switch_waiting_spec(),
            final(self).sub_command_spec() == old(self).sub_command_spec(),
            final(self).retreat_spec() == old(self).retreat_spec(),
            final(self).state_spec().flags_spec() == old(self).state_spec().flags_spec(),
            final(self).state_spec().lingering_spec() == old(self).state_spec().lingering_spec(),
            ({
                let ps = old(self).state_spec().parties_spec();
                let nps = final(self).state_spec().parties_spec();
                if switch_applies(ps, party as int, member as int, target as int) {
                    &&& nps == ps.update(party as int, nps[party as int])
                    &&& party_switched(ps[party as int], nps[party as int], member as int, target as int)
                } else {
                    nps == ps
                }
            }),
    {
        if party < self.state.parties.len() && member < self.state.parties[party].active_count()
            && target < self.state.parties[party].member_count() {
            if self.state.parties[party].active_member_index(member).is_some() {
                let mut p = Party::new(Vec::new(), 0, 0);
                self.state.parties.set_and_swap(party, &mut p);
                p.switch_active(member, target);
                self.state.parties.set_and_swap(party, &mut p);
            }
        }
    }

    /// Applies the `sub`-th retreat of the running command, of the active slot `active` of
    /// `party`.
    fn apply_effect_retreat(&mut self, party: usize, active: usize) -> (r: BattleExecution)
        requires
            old(self).wf() || old(self).retreat_spec(),
            old(self).command_spec() >= 1,
            old(self).command_spec() <= old(self).replay_spec().commands_spec().len(),
        ensures
            final(self).sub_command_spec() == old(self).sub_command_spec(),
            retreat_applied(*old(self), *final(self), old(self).effects_spec(), party as int, active as int, old(self).sub_command_spec() as int, r),
            final(self).current_spec() == old(self).current_spec(),
    {
        let count = self.replay.sub_command_count(self.command - 1);
        if self.sub_command >= 1 && self.sub_command - 1 < count {
            self.retreat = false;
            let target = match self.replay.sub_command(self.command - 1, self.sub_command - 1) {
                Some(t) => Some(t.target),
                None => None,
            };
            if let Some(t) = target {
                self.switch_members(party, active, t);
            }
            BattleExecution::Effect
        } else {
            self.retreat = true;
            BattleExecution::RetreatWaiting(BattlePartyMember { party, member: active })
        }
    }

    /// Adds the damage that knocks out each of the affected members.
    fn knock_out_all(&mut self, affected: &[(usize, usize)])
        ensures
            runner_frame(*old(self), *final(self)),
            final(self).state_spec() == old(self).state_spec(),
            final(self).sides_spec() == old(self).sides_spec(),
            final(self).switch_waiting_spec() == old(self).switch_waiting_spec(),
            final(self).sub_command_spec() == old(self).sub_command_spec(),
            final(self).retreat_spec() == old(self).retreat_spec(),
            final(self).effects_spec() == old(self).effects_spec() + knock_outs(
                old(self).state_spec().parties_spec(),
                affected@,
            ),
    {
        let ghost ps = self.state.parties@;
        let mut k: usize = 0;
        while k < affected.len()
            invariant
                0 <= k <= affected@.len(),
                runner_frame(*old(self), *self),
                self.state == old(self).state,
                self.sides_alive@ == old(self).sides_alive@,
                self.party_switch_waiting == old(self).party_switch_waiting,
                self.sub_command == old(self).sub_command,
                self.retreat == old(self).retreat,
                ps == self.state.parties@,
                self.effects@ == old(self).effects@ + knock_outs(ps, affected@.take(k as int)),
            decreases affected@.len() - k,
        {
            let (party, member) = affected[k];
            proof {
                assert(affected@.take(k + 1).drop_last() =~= affected@.take(k as int));
                assert(affected@.take(k + 1).last() == (party, member));
            }
            if party < self.state.parties.len() && member < self.state.parties[party].member_count() {
                let slot = self.state.parties[party].active_slot_of(member);
                proof {
                    let act = ps[party as int].active_spec();
                    lemma_first_slot(act, member, act.len());
                    match first_slot(act, member, act.len()) {
                        Some(b) => {
                            if slot is Some {
                                assert(b == slot->0);
                            } else {
                                assert(act[b as int] == Some(member));
                            }
                        },
                        None => {
                            if slot is Some {
                                assert(act[slot->0 as int] == Some(member));
                            }
                        },
                    }
                }
                if slot.is_some() {
                    let health = self.state.parties[party].member(member).health();
                    self.effects.effect_add(
                        Effect::Damage(
                            Damage {
                                party,
                                active: member,
                                member,
                                meta: DamageMeta {
                                    amount: health,
                                    type_bonus: Ratio { num: 1, den: 1 },
                                    critical: false,
                                },
                            },
                        ),
                    );
                }
            }
            proof {
                assert(self.effects@ =~= old(self).effects@ + knock_outs(ps, affected@.take(k + 1)));
            }
            k += 1;
        }
        proof {
            assert(affected@.take(affected@.len() as int) =~= affected@);
        }
    }
}

impl BattleRunner {
    /// The side of `party` lost a party where none of its active members has health left and
    /// no member waits to switch in.
    fn side_lose(&mut self, side: u8)
        ensures
            final(self).sides_spec() == side_lost(old(self).sides_spec(), side),
            runner_frame(*old(self), *final(self)),
            final(self).state_spec() == old(self).state_spec(),
            final(self).effects_spec() == old(self).effects_spec(),
            final(self).switch_waiting_spec() == old(self).switch_waiting_spec(),
            final(self).sub_command_spec() == old(self).sub_command_spec(),
            final(self).retreat_spec() == old(self).retreat_spec(),
    {
        proof {
            lemma_side_index(self.sides_alive@, side, self.sides_alive@.len());
        }
        let ghost before = self.sides_alive@;
        if let Some(i) = find_side(&self.sides_alive, side) {
            let left = self.sides_alive[i].1;
            if left <= 1 {
                self.sides_alive.remove(i);
                proof {
                    assert(side_index(before, side, before.len()) == Some(i as nat));
                    assert(before[i as int].1 == left);
                    assert(side_lost(before, side) == before.remove(i as int));
                    assert(self.sides_alive@ =~= side_lost(before, side));
                }
            } else {
                self.sides_alive.set(i, (side, left - 1));
                proof {
                    assert(side_index(before, side, before.len()) == Some(i as nat));
                    assert(before[i as int].1 == left);
                    assert(side_lost(before, side) == before.update(i as int, (side, (left - 1) as usize)));
                    assert(self.sides_alive@ =~= side_lost(before, side));
                }
            }
        }
    }

    /// Applies a damage effect.
    fn apply_effect_damage(&mut self, d: &Damage) -> (r: BattleExecution)
        ensures
            effect_applied(*old(self), *final(self), old(self).effects_spec(), Effect::Damage(*d), r),
            final(self).current_spec() == old(self).current_spec(),
    {
        proof {
            reveal(effect_applied);
        }
        if !(d.party < self.state.parties.len() && d.active < self.state.parties[d.party].member_count()
            && self.state.parties[d.party].switch_waiting_count() < usize::MAX
            && self.party_switch_waiting < usize::MAX) {
            return BattleExecution::Effect;
        }
        let ghost ps = self.state.parties@;
        let mut p = Party::new(Vec::new(), 0, 0);
        self.state.parties.set_and_swap(d.party, &mut p);
        let ghost o = p;
        let dead = p.active_member_lose_health(d.active, d.meta.amount);
        let ghost n = p;
        self.state.parties.set_and_swap(d.party, &mut p);
        proof {
            assert(o == ps[d.party as int]);
            assert(self.state.parties@ =~= ps.update(d.party as int, n));
            assert(health_lost(o, n, d.active as int, d.meta.amount));
        }
        if !dead {
            return BattleExecution::Effect;
        }
        if self.state.parties[d.party].member_waiting_count() == 0 {
            if !self.state.parties[d.party].active_are_alive() {
                let side = self.state.parties[d.party].side();
                self.side_lose(side);
            }
        } else {
            self.party_switch_waiting = self.party_switch_waiting + 1;
        }
        BattleExecution::Death(BattlePartyMember { party: d.party, member: d.active })
    }

    /// Applies the effect `effect` to the battle.
    #[verifier::rlimit(60)]
    #[verifier::spinoff_prover]
    fn apply_effect(&mut self, effect: &Effect) -> (r: BattleExecution)
        requires
            old(self).wf(),
            old(self).command_spec() >= 1,
        ensures
            effect_applied(*old(self), *final(self), old(self).effects_spec(), *effect, r),
            final(self).current_spec() == old(self).current_spec(),
    {
        if let Effect::Damage(d) = effect {
            let r = self.apply_effect_damage(d);
            proof {
                assert(*effect == Effect::Damage(*d));
                assert(effect_applied(*old(self), *self, old(self).effects_spec(), Effect::Damage(*d), r));
                assert(effect_applied(*old(self), *self, old(self).effects_spec(), *effect, r));
            }
            return r;
        }
        proof {
            reveal(effect_applied);
            assert(!(*effect is Damage));
        }
        match effect {
            Effect::Damage(_) => {
                proof {
                    assert(false);
                }
                BattleExecution::Effect
            },
            Effect::Switch(sw) => {
                self.switch_members(sw.party, sw.member, sw.target);
                BattleExecution::Effect
            },
            Effect::Retreat(t) => {
                if self.sub_command < usize::MAX {
                    self.sub_command = self.sub_command + 1;
                }
                let ghost mid = *self;
                let r = self.apply_effect_retreat(t.party, t.active);
                proof {
                    assert(retreat_applied(mid, *self, mid.effects_spec(), t.party as int, t.active as int, mid.sub_command_spec() as int, r));
                    assert(retreat_applied(*old(self), *self, old(self).effects_spec(), t.party as int, t.active as int, mid.sub_command_spec() as int, r));
                }
                r
            },
            Effect::Modifier(m) => {
                let party = m.party();
                let active = m.active();
                if party < self.state.parties.len() && active < self.state.parties[party].active_count() {
                    if self.state.parties[party].active_member_index(active).is_some() {
                        let ghost ps = self.state.parties@;
                        let mut p = Party::new(Vec::new(), 0, 0);
                        self.state.parties.set_and_swap(party, &mut p);
                        let ghost o = p;
                        p.active_member_modifiers_add(active, m.modifiers());
                        let ghost n = p;
                        self.state.parties.set_and_swap(party, &mut p);
                        proof {
                            assert(o == ps[party as int]);
                            assert(self.state.parties@ =~= ps.update(party as int, n));
                            assert(party_modified(o, n, active as int, m.modifiers_spec()));
                        }
                    }
                }
                BattleExecution::Effect
            },
            Effect::FlagsChange(f) => {
                self.state.flags_set(f.flags);
                BattleExecution::Effect
            },
            Effect::LingeringAdd(l) => {
                self.state.lingering_add(l.lingering.duplicate());
                proof {
                    assert(self.state.lingering@.drop_last() =~= old(self).state.lingering@);
                }
                BattleExecution::Effect
            },
            Effect::LingeringChange(c) => {
                if c.index < self.state.lingering.len() {
                    match &self.state.lingering[c.index] {
                        LingeringType::DeathAllTurns(d) => {
                            let affected = d.affected();
                            let ghost parties = self.state.parties@;
                            let mut copy: Vec<(usize, usize)> = Vec::new();
                            let mut k: usize = 0;
                            while k < affected.len()
                                invariant
                                    0 <= k <= affected@.len(),
                                    copy@ == affected@.take(k as int),
                                decreases affected@.len() - k,
                            {
                                copy.push(affected[k]);
                                proof {
                                    assert(copy@ =~= affected@.take(k + 1));
                                }
                                k += 1;
                            }
                            proof {
                                assert(copy@ =~= affected@);
                            }
                            self.knock_out_all(copy.as_slice());
                        },
                    }
                    self.state.lingering_remove(c.index);
                }
                BattleExecution::Effect
            },
            Effect::ExperienceGain(_) => BattleExecution::Effect,
            Effect::NoChange(_) => BattleExecution::Effect,
        }
    }
}

/// `n` holds the lingering effects of `o` after a turn: each counts down one turn, if it has one
/// left.
pub open spec fn lingering_counted(o: Seq<LingeringType>, n: Seq<LingeringType>) -> bool {
    &&& n.len() == o.len()
    &&& forall|i: int|
        0 <= i < o.len() ==> match (#[trigger] o[i], n[i]) {
            (LingeringType::DeathAllTurns(a), LingeringType::DeathAllTurns(b)) => {
                &&& b.turns_spec() == if a.turns_spec() > 0 {
                    a.turns_spec() - 1
                } else {
                    a.turns_spec() as int
                }
                &&& b.affected_spec() == a.affected_spec()
            },
        }
}

/// The changes of the lingering effects among the first `k` of `l` that run out at the end of a
/// turn: those with one turn left.
pub open spec fn turn_changes(l: Seq<LingeringType>, k: nat) -> Seq<Effect>
    decreases k,
{
    if k == 0 {
        Seq::empty()
    } else {
        turn_changes(l, (k - 1) as nat) + match l[k - 1] {
            LingeringType::DeathAllTurns(a) => if a.turns_spec() == 1 {
                seq![Effect::LingeringChange(LingeringChange { index: (k - 1) as usize })]
            } else {
                Seq::empty()
            },
        }
    }
}

/// The target of the attack is an active member with health left.
pub open spec fn target_alive(parties: Seq<Party>, a: crate::command::CommandAttack) -> bool {
    &&& a.target_party < parties.len()
    &&& a.target_member < parties[a.target_party as int].active_spec().len()
    &&& !parties[a.target_party as int].slot_waiting(a.target_member as int)
}

/// `n` is the party `o` after the member at `member` used up one use of its attack `attack`.
pub open spec fn limit_taken(o: Party, n: Party, member: int, attack: int) -> bool {
    let om = o.members_spec()[member];
    let nm = n.members_spec()[member];
    &&& n.members_spec().len() == o.members_spec().len()
    &&& forall|i: int|
        0 <= i < o.members_spec().len() && i != member ==> n.members_spec()[i] == o.members_spec()[i]
    &&& nm.health_spec() == om.health_spec()
    &&& nm.values_spec() == om.values_spec()
    &&& nm.attacks_spec().len() == om.attacks_spec().len()
    &&& forall|i: int|
        0 <= i < om.attacks_spec().len() && i != attack ==> nm.attacks_spec()[i] == om.attacks_spec()[i]
    &&& nm.attacks_spec()[attack].limit_left_spec() == if om.attacks_spec()[attack].limit_left_spec() >= 1 {
        om.attacks_spec()[attack].limit_left_spec() - 1
    } else {
        0
    }
    &&& nm.attacks_spec()[attack].meta_spec() == om.attacks_spec()[attack].meta_spec()
    &&& n.active_spec() == o.active_spec()
    &&& n.active_modifiers_spec() == o.active_modifiers_spec()
    &&& n.alive_spec() == o.alive_spec()
    &&& n.switch_waiting_spec() == o.switch_waiting_spec()
    &&& n.side_spec() == o.side_spec()
}

/// What starting the next recorded command does. A `Turn` counts down the lingering effects and
/// gives the changes of those that run out; an attack uses up one use of its attack, and where
/// its target is an active member with health left waits for the effects that the attack
/// produces (`effects_give`), or gives a miss otherwise; a switch gives the switch and an escape
/// gives an escape. An attack command that names no usable attack of an active member is a miss.
pub open spec fn command_started(o: BattleRunner, n: BattleRunner, r: BattleExecution) -> bool {
    let c = o.replay_spec().commands_spec()[o.command_spec() as int].0;
    let ps = o.state_spec().parties_spec();
    let nps = n.state_spec().parties_spec();
    let l = o.state_spec().lingering_spec();
    &&& r == BattleExecution::Command
    &&& n.command_spec() == o.command_spec() + 1
    &&& n.sub_command_spec() == 0
    &&& n.replay_spec() == o.replay_spec()
    &&& n.sides_spec() == o.sides_spec()
    &&& n.switch_waiting_spec() == o.switch_waiting_spec()
    &&& n.current_spec() == o.current_spec()
    &&& n.retreat_spec() == o.retreat_spec()
    &&& n.state_spec().flags_spec() == o.state_spec().flags_spec()
    &&& match c {
        CommandType::Turn => {
            &&& n.turn_spec() == o.turn_spec() + 1
            &&& !n.attack_pending_spec()
            &&& nps == ps
            &&& lingering_counted(l, n.state_spec().lingering_spec())
            &&& n.effects_spec() == seq![Effect::NoChange(NoneReason::Turn)] + turn_changes(l, l.len())
        },
        CommandType::Attack(a) => {
            &&& n.turn_spec() == o.turn_spec()
            &&& n.state_spec().lingering_spec() == l
            &&& if attack_valid(ps, a) {
                let p = a.party as int;
                &&& nps == ps.update(p, nps[p])
                &&& limit_taken(ps[p], nps[p], ps[p].active_spec()[a.member as int]->0 as int, a.attack_index as int)
                &&& n.attack_pending_spec() == target_alive(ps, a)
                &&& n.effects_spec() == if target_alive(ps, a) {
                    Seq::<Effect>::empty()
                } else {
                    seq![Effect::NoChange(NoneReason::Miss)]
                }
            } else {
                &&& nps == ps
                &&& !n.attack_pending_spec()
                &&& n.effects_spec() == seq![Effect::NoChange(NoneReason::Miss)]
            }
        },
        CommandType::Switch(sw) => {
            &&& n.turn_spec() == o.turn_spec()
            &&& !n.attack_pending_spec()
            &&& nps == ps
            &&& n.state_spec().lingering_spec() == l
            &&& n.effects_spec() == seq![
                Effect::Switch(Switch { party: sw.party, member: sw.member, target: sw.target }),
            ]
        },
        CommandType::Escape(_) => {
            &&& n.turn_spec() == o.turn_spec()
            &&& !n.attack_pending_spec()
            &&& nps == ps
            &&& n.state_spec().lingering_spec() == l
            &&& n.effects_spec() == seq![Effect::NoChange(NoneReason::Escape)]
        },
    }
}

/// What one step of the runner does: it applies the next effect of the running command (or the
/// waiting retreat), reports the winning side once at most one side stands, starts the next
/// recorded command, or reports that all recorded commands have run.
pub open spec fn run_spec(o: BattleRunner, n: BattleRunner, r: BattleExecution) -> bool {
    if o.retreat_spec() {
        let t = o.current_spec()->Retreat_0;
        &&& n.sub_command_spec() == o.sub_command_spec()
        &&& n.current_spec() == o.current_spec()
        &&& !n.attack_pending_spec()
        &&& retreat_applied(o, n, o.effects_spec(), t.party as int, t.active as int, o.sub_command_spec() as int, r)
    } else if o.command_spec() != 0 && o.effects_spec().len() > 0 {
        &&& n.current_spec() == o.effects_spec()[0]
        &&& !n.attack_pending_spec()
        &&& effect_applied(o, n, o.effects_spec().drop_first(), o.effects_spec()[0], r)
    } else if o.sides_spec().len() <= 1 {
        &&& n == o
        &&& r == BattleExecution::Finished(if o.sides_spec().len() == 1 {
            o.sides_spec()[0].0
        } else {
            0
        })
    } else if o.command_spec() < o.replay_spec().commands_spec().len() {
        command_started(o, n, r)
    } else {
        &&& n == o
        &&& r == BattleExecution::Ready
    }
}

impl BattleRunner {
    /// Counts down each lingering effect, giving the changes of those that run out.
    fn lingering_count_down(&mut self)
        ensures
            lingering_counted(old(self).state_spec().lingering_spec(), final(self).state_spec().lingering_spec()),
            final(self).effects_spec() == old(self).effects_spec() + turn_changes(
                old(self).state_spec().lingering_spec(),
                old(self).state_spec().lingering_spec().len(),
            ),
            final(self).state_spec().parties_spec() == old(self).state_spec().parties_spec(),
            final(self).state_spec().flags_spec() == old(self).state_spec().flags_spec(),
            final(self).replay_spec() == old(self).replay_spec(),
            final(self).command_spec() == old(self).command_spec(),
            final(self).sub_command_spec() == old(self).sub_command_spec(),
            final(self).turn_spec() == old(self).turn_spec(),
            final(self).sides_spec() == old(self).sides_spec(),
            final(self).switch_waiting_spec() == old(self).switch_waiting_spec(),
            final(self).current_spec() == old(self).current_spec(),
            final(self).retreat_spec() == old(self).retreat_spec(),
            final(self).attack_pending_spec() == old(self).attack_pending_spec(),
    {
        let ghost l = self.state.lingering@;
        let ghost e0 = self.effects@;
        let mut i: usize = 0;
        while i < self.state.lingering.len()
            invariant
                0 <= i <= l.len(),
                self.state.lingering@.len() == l.len(),
                forall|j: int| i <= j < l.len() ==> self.state.lingering@[j] == l[j],
                forall|j: int|
                    0 <= j < i ==> match (#[trigger] l[j], self.state.lingering@[j]) {
                        (LingeringType::DeathAllTurns(a), LingeringType::DeathAllTurns(b)) => {
                            &&& b.turns_spec() == if a.turns_spec() > 0 {
                                a.turns_spec() - 1
                            } else {
                                a.turns_spec() as int
                            }
                            &&& b.affected_spec() == a.affected_spec()
                        },
                    },
                self.effects@ == e0 + turn_changes(l, i as nat),
                self.state.parties@ == old(self).state.parties@,
                self.state.flags == old(self).state.flags,
                self.replay == old(self).replay,
                self.command == old(self).command,
                self.sub_command == old(self).sub_command,
                self.turn == old(self).turn,
                self.sides_alive@ == old(self).sides_alive@,
                self.party_switch_waiting == old(self).party_switch_waiting,
                self.effect_current == old(self).effect_current,
                self.retreat == old(self).retreat,
                self.attack_pending == old(self).attack_pending,
            decreases l.len() - i,
        {
            let turns = match &self.state.lingering[i] {
                LingeringType::DeathAllTurns(d) => d.turns(),
            };
            let ghost before = self.effects@;
            if self.state.lingering[i].after_turn() && turns > 0 {
                let mut item = LingeringType::DeathAllTurns(DeathAllTurns::new(0));
                self.state.lingering.set_and_swap(i, &mut item);
                let changed = item.state_change();
                self.state.lingering.set_and_swap(i, &mut item);
                if changed {
                    self.effects.effect_add(Effect::LingeringChange(LingeringChange { index: i }));
                }
            }
            proof {
                assert(self.effects@ =~= e0 + turn_changes(l, (i + 1) as nat));
            }
            i += 1;
        }
    }

    /// Starts the next recorded command.
    fn start_command(&mut self) -> (r: BattleExecution)
        requires
            old(self).wf(),
            !old(self).retreat_spec(),
            old(self).command_spec() < old(self).replay_spec().commands_spec().len(),
        ensures
            command_started(*old(self), *final(self), r),
    {
        let count = self.replay.command_count();
        self.effects.effects_clear();
        self.sub_command = 0;
        self.attack_pending = false;
        let command = *self.replay.command(self.command);
        match command {
            CommandType::Turn => {
                self.effects.effect_add(Effect::NoChange(NoneReason::Turn));
                self.lingering_count_down();
                self.turn = self.turn + 1;
            },
            CommandType::Attack(a) => {
                let valid = crate::command::attack_is_valid(self.state.parties.as_slice(), &a);
                if valid {
                    let hit = a.target_party < self.state.parties.len()
                        && a.target_member < self.state.parties[a.target_party].active_count()
                        && self.state.parties[a.target_party].active_member_alive(a.target_member).is_some();
                    let member = self.state.parties[a.party].active_member_index(a.member).unwrap();
                    let ghost ps = self.state.parties@;
                    let mut p = Party::new(Vec::new(), 0, 0);
                    self.state.parties.set_and_swap(a.party, &mut p);
                    let ghost op = p;
                    p.active_member_attack_limit_take(member, a.attack_index);
                    let ghost np = p;
                    self.state.parties.set_and_swap(a.party, &mut p);
                    proof {
                        assert(op == ps[a.party as int]);
                        assert(self.state.parties@ =~= ps.update(a.party as int, np));
                    }
                    if hit {
                        self.attack_pending = true;
                    } else {
                        self.effects.effect_add(Effect::NoChange(NoneReason::Miss));
                    }
                } else {
                    self.effects.effect_add(Effect::NoChange(NoneReason::Miss));
                }
            },
            CommandType::Switch(sw) => {
                self.effects.effect_add(
                    Effect::Switch(Switch { party: sw.party, member: sw.member, target: sw.target }),
                );
            },
            CommandType::Escape(_) => {
                self.effects.effect_add(Effect::NoChange(NoneReason::Escape));
            },
        }
        self.command = self.command + 1;
        BattleExecution::Command
    }
}

impl BattleRunner {
    /// Gives the effects that the attack of the command started last produces, where it hit its
    /// target and they are waiting. They depend on the game's attack data and damage arithmetic,
    /// which the caller computes; otherwise nothing changes.
    pub fn effects_give(&mut self, effects: Vec<Effect>)
        requires
            old(self).wf(),
        ensures
            final(self).wf(),
            !final(self).attack_pending_spec(),
            final(self).effects_spec() == if old(self).attack_pending_spec() {
                old(self).effects_spec() + effects@
            } else {
                old(self).effects_spec()
            },
            final(self).state_spec() == old(self).state_spec(),
            final(self).replay_spec() == old(self).replay_spec(),
            final(self).command_spec() == old(self).command_spec(),
            final(self).sub_command_spec() == old(self).sub_command_spec(),
            final(self).turn_spec() == old(self).turn_spec(),
            final(self).sides_spec() == old(self).sides_spec(),
            final(self).switch_waiting_spec() == old(self).switch_waiting_spec(),
            final(self).current_spec() == old(self).current_spec(),
            final(self).retreat_spec() == old(self).retreat_spec(),
    {
        if self.attack_pending {
            let mut effects = effects;
            self.effects.effects.append(&mut effects);
            self.attack_pending = false;
        }
    }

    /// Runs one step of the battle.
    pub fn run(&mut self) -> (r: BattleExecution)
        requires
            old(self).wf(),
        ensures
            final(self).wf(),
            run_spec(*old(self), *final(self), r),
    {
        if (self.command != 0 && !self.effects.effects_empty()) || self.retreat {
            if self.retreat {
                let (party, active) = match &self.effect_current {
                    Effect::Retreat(t) => (t.party, t.active),
                    _ => (0, 0),
                };
                let ghost mid = *self;
                let r = self.apply_effect_retreat(party, active);
                proof {
                    assert(retreat_applied(mid, *self, mid.effects_spec(), party as int, active as int, mid.sub_command_spec() as int, r));
                }
                self.attack_pending = false;
                r
            } else {
                let effect = self.effects.effect_take();
                let ghost mid = *self;
                let execution = self.apply_effect(&effect);
                proof {
                    assert(effect_applied(*old(self), *self, old(self).effects_spec().drop_first(), old(self).effects_spec()[0], execution)) by {
                        reveal(effect_applied);
                        assert(effect_applied(mid, *self, mid.effects_spec(), effect, execution));
                    }
                }
                self.effect_current = effect;
                self.attack_pending = false;
                proof {
                    reveal(effect_applied);
                    if self.retreat {
                        assert(self.effect_current is Retreat);
                    }
                }
                execution
            }
        } else if self.sides_alive.len() <= 1 {
            if self.sides_alive.len() == 1 {
                BattleExecution::Finished(self.sides_alive[0].0)
            } else {
                BattleExecution::Finished(0)
            }
        } else if self.command < self.replay.command_count() {
            self.start_command()
        } else {
            BattleExecution::Ready
        }
    }
}

/// The parties of `n` have the same active slots as those of `o`.
pub open spec fn same_slots(o: Seq<Party>, n: Seq<Party>) -> bool {
    &&& n.len() == o.len()
    &&& forall|p: int| 0 <= p < o.len() ==> (#[trigger] n[p]).active_spec() == o[p].active_spec()
}

/// A step of the runner keeps the number of parties and the members in their active slots.
pub proof fn lemma_run_keeps_slots(o: BattleRunner, n: BattleRunner, r: BattleExecution)
    requires
        run_spec(o, n, r),
    ensures
        same_slots(o.state_spec().parties_spec(), n.state_spec().parties_spec()),
        n.command_spec() >= o.command_spec(),
        o.wf() && r is RetreatWaiting ==> n.command_spec() >= 1,
{
    reveal(effect_applied);
    let ps = o.state_spec().parties_spec();
    let nps = n.state_spec().parties_spec();
    assert forall|p: int| 0 <= p < ps.len() implies (#[trigger] nps[p]).active_spec() == ps[p].active_spec() by {
        if nps.len() == ps.len() && 0 <= p < ps.len() {
        }
    }
}

} // verus!

//! Battle input: validating the commands that parties give before a turn.
use vstd::prelude::*;

use crate::attack::{check_target, target_allowed};
use crate::command::{CommandAttack, CommandEscape, CommandSwitch, CommandType};
use crate::party::Party;
use crate::queue::{BattleQueue, empty_slots, sum_lens};
use crate::replay::{BattleReplay, ReplayError};
use crate::runner::{
    BattleRunner,
    BattlePartyMember,
    BattleExecution,
    BattleState,
    lemma_run_keeps_slots,
    run_spec,
};
use crate::command::CommandRetreat;
use crate::command::runs_before;
use crate::effect::BattleFlagsType;

verus! {

/// Indicates an error adding a command to a battle.
#[derive(Debug, PartialEq, Eq, Structural, Clone, Copy)]
pub enum BattleError {
    /// There was no error.
    NoError,
    /// Occurs when the battle turn is in progress. New commands cannot be added.
    Rejected,
    /// Occurs when the chosen attack is unable to be used due to having reached the use limit.
    AttackLimit,
    /// Occurs when the chosen attack is unable to target the chosen party and respective member.
    AttackTarget,
    /// Occurs when a switch cannot occur because the target is the same as what is being switched.
    SwitchActive,
    /// Occurs when a switch cannot occur because the target has no health.
    SwitchHealth,
    /// Occurs when a switch cannot occur because the target has already been queued to switch.
    SwitchQueued,
}

/// Whether the battle takes new commands.
#[derive(Debug, PartialEq, Eq, Structural, Clone, Copy)]
pub enum BattleInputState {
    /// New commands may be added.
    Ready,
    /// The turn is being processed.
    Processing,
    /// Waiting for parties to switch in members for knocked out ones.
    Switching,
    /// Waiting for the member that replaces a retreating one.
    Retreat(BattlePartyMember),
}

/// The parties of a battle and the commands they have given for the next turn.
#[derive(Debug)]
pub struct Battle {
    runner: BattleRunner,
    queue: BattleQueue,
    processing: BattleInputState,
    post_switch: Vec<usize>,
}

/// The queue has one slot for each active member of each party.
pub open spec fn queue_fits(queue: &BattleQueue, parties: Seq<Party>) -> bool {
    &&& queue.slots().len() == parties.len()
    &&& forall|i: int|
        0 <= i < parties.len() ==> (#[trigger] queue.slots()[i]).len() == parties[i].active_spec().len()
}

/// The decision on an attack command, before it is queued.
pub open spec fn attack_decision(
    parties: Seq<Party>,
    processing: BattleInputState,
    party: int,
    active: int,
    attack: int,
    target_party: int,
    target_active: int,
) -> BattleError {
    let p = parties[party];
    let monster = p.members_spec()[p.active_spec()[active]->0 as int];
    let known = monster.attacks_spec()[attack];
    if processing != BattleInputState::Ready {
        BattleError::Rejected
    } else if known.limit_left_spec() == 0 {
        BattleError::AttackLimit
    } else if !target_allowed(known.meta_spec().target, party == target_party, active, target_active) {
        BattleError::AttackTarget
    } else {
        BattleError::NoError
    }
}

/// An attack command that targets its own user, with an attack whose target flags lack
/// `TARGET_SELF`, is refused with `AttackTarget` (when the battle takes commands and the attack
/// has uses left); with enemy targets, one aimed at the user's own party is refused the same way
/// where the attack does not hit allies.
pub proof fn lemma_attack_refused_without_target_flag(
    parties: Seq<Party>,
    party: int,
    active: int,
    attack: int,
    target_party: int,
    target_active: int,
)
    requires
        party == target_party,
        ({
            let p = parties[party];
            let known = p.members_spec()[p.active_spec()[active]->0 as int].attacks_spec()[attack];
            &&& known.limit_left_spec() > 0
            &&& (active == target_active && !crate::attack::has_flag(
                known.meta_spec().target,
                crate::attack::Target::TARGET_SELF,
            ) || !crate::attack::has_flag(known.meta_spec().target, crate::attack::Target::SIDE_ALLY))
        }),
    ensures
        attack_decision(
            parties,
            BattleInputState::Ready,
            party,
            active,
            attack,
            target_party,
            target_active,
        ) == BattleError::AttackTarget,
{
}

/// A switch command given for active slot `active` to the member `target` is already queued
/// for another active slot of the party.
pub open spec fn switch_queued(queue: &BattleQueue, party: int, active: int, target: int) -> bool {
    exists|a: int|
        0 <= a < queue.slots()[party].len() && switch_to_from_other(
            #[trigger] queue.slots()[party][a],
            active,
            target,
        )
}

/// The slot holds a switch to `target` given for an active slot other than `active`.
pub open spec fn switch_to_from_other(slot: Option<CommandType>, active: int, target: int) -> bool {
    match slot {
        Some(CommandType::Switch(s)) => s.target == target && s.member != active,
        _ => false,
    }
}

/// The decision on a switch command, before it is queued.
pub open spec fn switch_decision(
    parties: Seq<Party>,
    queue: &BattleQueue,
    processing: BattleInputState,
    party: int,
    active: int,
    target: int,
) -> BattleError {
    let p = parties[party];
    if processing != BattleInputState::Ready {
        BattleError::Rejected
    } else if p.members_spec()[target].health_spec() == 0 {
        BattleError::SwitchHealth
    } else if p.active_spec()[active] == Some(target as usize) {
        BattleError::SwitchActive
    } else if switch_queued(queue, party, active, target) {
        BattleError::SwitchQueued
    } else {
        BattleError::NoError
    }
}

impl Battle {
    pub closed spec fn parties_spec(&self) -> Seq<Party> {
        self.runner.state_spec().parties_spec()
    }

    pub closed spec fn runner_spec(&self) -> BattleRunner {
        self.runner
    }

    /// For each party, the number of its knocked out active members that it still has to
    /// replace.
    pub closed spec fn post_switch_spec(&self) -> Seq<usize> {
        self.post_switch@
    }

    pub closed spec fn queue_spec(&self) -> &BattleQueue {
        &self.queue
    }

    pub closed spec fn processing_spec(&self) -> BattleInputState {
        self.processing
    }

    /// The queue agrees with the parties, and takes commands while the battle does.
    pub open spec fn wf(&self) -> bool {
        &&& self.queue_spec().wf()
        &&& queue_fits(self.queue_spec(), self.parties_spec())
        &&& self.runner_spec().wf()
        &&& self.post_switch_spec().len() == self.parties_spec().len()
        &&& self.queue_spec().waiting_spec() != 0 ==> self.queue_spec().accepting()
        &&& self.processing_spec() is Retreat ==> self.runner_spec().command_spec() >= 1
        &&& self.processing_spec() == BattleInputState::Switching ==> self.queue_spec().waiting_spec() != 0
        &&& self.processing_spec() == BattleInputState::Ready ==> self.queue_spec().accepting()
    }

    /// A battle between `parties` that waits for commands, whose replay has the seed `seed`.
    pub fn with_seed(parties: Vec<Party>, seed: usize) -> (r: Self)
        requires
            sum_lens(parties@.map_values(|p: Party| empty_slots(p.active_spec().len())))
                <= usize::MAX,
        ensures
            r.wf(),
            r.parties_spec() == parties@,
            r.processing_spec() == BattleInputState::Ready,
            r.queue_spec().slots() == parties@.map_values(
                |p: Party| empty_slots(p.active_spec().len()),
            ),
            r.post_switch_spec() == Seq::new(parties@.len(), |i: int| 0usize),
            r.runner_spec().replay_spec().seed_spec() == seed,
            r.runner_spec().replay_spec().commands_spec().len() == 0,
            r.runner_spec().command_spec() == 0,
            r.runner_spec().effects_spec() == Seq::<crate::effect::Effect>::empty(),
            !r.runner_spec().retreat_spec(),
    {
        let queue = BattleQueue::new(parties.as_slice());
        let mut post_switch: Vec<usize> = Vec::new();
        let mut i: usize = 0;
        while i < parties.len()
            invariant
                0 <= i <= parties@.len(),
                post_switch@ == Seq::new(i as nat, |k: int| 0usize),
            decreases parties@.len() - i,
        {
            post_switch.push(0);
            proof {
                assert(post_switch@ =~= Seq::new((i + 1) as nat, |k: int| 0usize));
            }
            i += 1;
        }
        let ghost ps = parties@;
        let runner = BattleRunner::new(parties, seed);
        let r = Battle { runner, queue, processing: BattleInputState::Ready, post_switch };
        proof {
            assert forall|i: int| 0 <= i < ps.len() implies (#[trigger] r.queue.slots()[i]).len()
                == ps[i].active_spec().len() by {
                assert(r.queue.slots()[i] == empty_slots(ps[i].active_spec().len()));
            }
        }
        r
    }

    /// A battle between `parties` that waits for commands, with a seed from the operating
    /// system's random source; fails where that source fails.
    pub fn new(parties: Vec<Party>) -> (r: Result<Self, ReplayError>)
        requires
            sum_lens(parties@.map_values(|p: Party| empty_slots(p.active_spec().len())))
                <= usize::MAX,
        ensures
            r is Ok ==> {
                let b = r->Ok_0;
                &&& b.wf()
                &&& b.parties_spec() == parties@
                &&& b.processing_spec() == BattleInputState::Ready
                &&& b.queue_spec().slots() == parties@.map_values(
                    |p: Party| empty_slots(p.active_spec().len()),
                )
                &&& b.post_switch_spec() == Seq::new(parties@.len(), |i: int| 0usize)
                &&& b.runner_spec().replay_spec().commands_spec().len() == 0
                &&& b.runner_spec().command_spec() == 0
                &&& b.runner_spec().effects_spec() == Seq::<crate::effect::Effect>::empty()
                &&& !b.runner_spec().retreat_spec()
            },
            r is Err ==> r->Err_0 == ReplayError::RandomSource,
    {
        match BattleReplay::new() {
            Ok(replay) => Ok(Battle::with_seed(parties, replay.seed())),
            Err(e) => Err(e),
        }
    }

    /// The parties of the battle.
    pub fn parties(&self) -> (r: &[Party])
        ensures
            r@ == self.parties_spec(),
    {
        self.runner.state().parties()
    }

    /// The state of the battle.
    pub fn state(&self) -> (r: &BattleState)
        ensures
            *r == self.runner_spec().state_spec(),
    {
        self.runner.state()
    }

    /// The queue of commands for the next turn.
    pub fn queue(&self) -> (r: &BattleQueue)
        ensures
            r == self.queue_spec(),
    {
        &self.queue
    }

    /// Adds a command for attacking another party's member.
    pub fn command_add_attack(
        &mut self,
        party: usize,
        active: usize,
        attack: usize,
        target_party: usize,
        target_active: usize,
    ) -> (r: BattleError)
        requires
            old(self).wf(),
            party < old(self).parties_spec().len(),
            active < old(self).parties_spec()[party as int].active_spec().len(),
            old(self).parties_spec()[party as int].active_spec()[active as int] is Some,
            attack < old(self).parties_spec()[party as int].members_spec()[old(
                self).parties_spec()[party as int].active_spec()[active as int]->0 as int].attacks_spec().len(),
            target_party < old(self).parties_spec().len(),
            target_active < old(self).parties_spec()[target_party as int].active_spec().len(),
        ensures
            final(self).wf(),
            r == attack_decision(
                old(self).parties_spec(),
                old(self).processing_spec(),
                party as int,
                active as int,
                attack as int,
                target_party as int,
                target_active as int,
            ),
            final(self).parties_spec() == old(self).parties_spec(),
            final(self).processing_spec() == old(self).processing_spec(),
            final(self).runner_spec() == old(self).runner_spec(),
            final(self).post_switch_spec() == old(self).post_switch_spec(),
            r == BattleError::NoError ==> final(self).queue_spec().party_flags() == old(self).queue_spec().party_flags().update(party as int, false),
            r == BattleError::NoError ==> final(self).queue_spec().slots() == old(
                self).queue_spec().slots().update(
                party as int,
                if old(self).queue_spec().party_flags()[party as int] {
                    empty_slots(old(self).queue_spec().slots()[party as int].len())
                } else {
                    old(self).queue_spec().slots()[party as int]
                }.update(
                    active as int,
                    Some(
                        CommandType::Attack(
                            CommandAttack {
                                party: party,
                                member: active,
                                attack_index: attack,
                                target_party: target_party,
                                target_member: target_active,
                            },
                        ),
                    ),
                ),
            ),
            r != BattleError::NoError ==> final(self).queue_spec() == old(self).queue_spec(),
            r != BattleError::NoError ==> *final(self) == *old(self),
    {
        if self.processing != BattleInputState::Ready {
            return BattleError::Rejected;
        }
        let user = &self.runner.state().parties()[party];
        let member = user.member(user.active_member_index(active).unwrap());
        let active_attack = &member.attacks()[attack];
        if active_attack.limit_left() == 0 {
            return BattleError::AttackLimit;
        }
        if !check_target(active_attack.attack().target, party == target_party, active, target_active) {
            return BattleError::AttackTarget;
        }
        let command_attack = CommandAttack {
            party: party,
            member: active,
            target_party: target_party,
            target_member: target_active,
            attack_index: attack,
        };
        self.queue.command_add(CommandType::Attack(command_attack), party, active);
        proof {
            self.lemma_fits_after_add(party as int, old(self).queue.slots());
        }
        BattleError::NoError
    }

    /// The queue still fits the parties after one party's slots were replaced by as many.
    proof fn lemma_fits_after_add(&self, party: int, before: Seq<Seq<Option<CommandType>>>)
        requires
            0 <= party < before.len(),
            before.len() == self.parties_spec().len(),
            forall|i: int|
                0 <= i < self.parties_spec().len() ==> (#[trigger] before[i]).len()
                    == self.parties_spec()[i].active_spec().len(),
            self.queue.slots().len() == before.len(),
            self.queue.slots()[party].len() == before[party].len(),
            forall|i: int|
                0 <= i < before.len() && i != party ==> self.queue.slots()[i] == before[i],
        ensures
            queue_fits(&self.queue, self.parties_spec()),
    {
        assert forall|i: int| 0 <= i < self.parties_spec().len() implies (
        #[trigger] self.queue.slots()[i]).len() == self.parties_spec()[i].active_spec().len() by {
            if i != party {
                assert(self.queue.slots()[i] == before[i]);
            }
        }
    }

    /// Adds a command for switching an active party member with another party member.
    ///
    /// The requested `target` party member must be referenced by member index, even if it is an
    /// active member.
    pub fn command_add_switch(&mut self, party: usize, active: usize, target: usize) -> (r:
        BattleError)
        requires
            old(self).wf(),
            party < old(self).parties_spec().len(),
            active < old(self).parties_spec()[party as int].active_spec().len(),
            target < old(self).parties_spec()[party as int].members_spec().len(),
        ensures
            final(self).wf(),
            r == switch_decision(
                old(self).parties_spec(),
                old(self).queue_spec(),
                old(self).processing_spec(),
                party as int,
                active as int,
                target as int,
            ),
            final(self).parties_spec() == old(self).parties_spec(),
            final(self).processing_spec() == old(self).processing_spec(),
            final(self).runner_spec() == old(self).runner_spec(),
            final(self).post_switch_spec() == old(self).post_switch_spec(),
            r == BattleError::NoError ==> final(self).queue_spec().party_flags() == old(self).queue_spec().party_flags().update(party as int, false),
            r == BattleError::NoError ==> final(self).queue_spec().slots() == old(
                self).queue_spec().slots().update(
                party as int,
                if old(self).queue_spec().party_flags()[party as int] {
                    empty_slots(old(self).queue_spec().slots()[party as int].len())
                } else {
                    old(self).queue_spec().slots()[party as int]
                }.update(
                    active as int,
                    Some(
                        CommandType::Switch(
                            CommandSwitch { party: party, member: active, target: target },
                        ),
                    ),
                ),
            ),
            r != BattleError::NoError ==> final(self).queue_spec() == old(self).queue_spec(),
            r != BattleError::NoError ==> *final(self) == *old(self),
    {
        if self.processing != BattleInputState::Ready {
            return BattleError::Rejected;
        }
        if self.runner.state().parties()[party].member(target).health() == 0 {
            return BattleError::SwitchHealth;
        }
        if let Some(current) = self.runner.state().parties()[party].active_member_index(active) {
            if current == target {
                return BattleError::SwitchActive;
            }
        }
        let count = self.runner.state().parties()[party].active_count();
        let mut active_index: usize = 0;
        while active_index < count
            invariant
                self.wf(),
                self.processing == BattleInputState::Ready,
                self.queue == old(self).queue,
                self.runner == old(self).runner,
                party < self.parties_spec().len(),
                target < self.parties_spec()[party as int].members_spec().len(),
                self.parties_spec()[party as int].members_spec()[target as int].health_spec() != 0,
                self.parties_spec()[party as int].active_spec()[active as int] != Some(target),
                count == self.parties_spec()[party as int].active_spec().len(),
                0 <= active_index <= count,
                forall|a: int|
                    0 <= a < active_index ==> !switch_to_from_other(
                        #[trigger] self.queue.slots()[party as int][a],
                        active as int,
                        target as int,
                    ),
            decreases count - active_index,
        {
            if let Some(command) = self.queue.command_get(party, active_index) {
                if let CommandType::Switch(switch) = command {
                    if switch.target == target && switch.member != active {
                        assert(switch_to_from_other(
                            self.queue.slots()[party as int][active_index as int],
                            active as int,
                            target as int,
                        ));
                        assert(switch_queued(old(self).queue_spec(), party as int, active as int, target as int));
                        return BattleError::SwitchQueued;
                    }
                }
            }
            active_index += 1;
        }
        let command_switch = CommandSwitch { party: party, member: active, target: target };
        self.queue.command_add(CommandType::Switch(command_switch), party, active);
        proof {
            self.lemma_fits_after_add(party as int, old(self).queue.slots());
        }
        BattleError::NoError
    }

    /// Adds a party central command for escaping which prematurely ends the battle.
    ///
    /// This command will remove any commands attached to individual party members.
    pub fn command_add_escape(&mut self, party: usize) -> (r: BattleError)
        requires
            old(self).wf(),
            party < old(self).parties_spec().len(),
            old(self).parties_spec()[party as int].active_spec().len() > 0,
        ensures
            final(self).wf(),
            r == if old(self).processing_spec() != BattleInputState::Ready {
                BattleError::Rejected
            } else {
                BattleError::NoError
            },
            final(self).parties_spec() == old(self).parties_spec(),
            final(self).processing_spec() == old(self).processing_spec(),
            final(self).runner_spec() == old(self).runner_spec(),
            final(self).post_switch_spec() == old(self).post_switch_spec(),
            r == BattleError::NoError ==> final(self).queue_spec().party_flags() == old(self).queue_spec().party_flags().update(party as int, true),
            r == BattleError::NoError ==> final(self).queue_spec().slots() == old(
                self).queue_spec().slots().update(
                party as int,
                empty_slots(old(self).queue_spec().slots()[party as int].len()).update(
                    0,
                    Some(CommandType::Escape(CommandEscape { party: party })),
                ),
            ),
            r != BattleError::NoError ==> final(self).queue_spec() == old(self).queue_spec(),
            r != BattleError::NoError ==> *final(self) == *old(self),
    {
        if self.processing != BattleInputState::Ready {
            return BattleError::Rejected;
        }
        self.queue.command_add_party(CommandType::Escape(CommandEscape { party: party }), party);
        proof {
            self.lemma_fits_after_add(party as int, old(self).queue.slots());
        }
        BattleError::NoError
    }
}

/// The runner of `n` is that of `o` with the command `c` recorded after the others.
pub open spec fn command_recorded(o: BattleRunner, n: BattleRunner, c: CommandType) -> bool {
    &&& n.replay_spec().commands_spec() == o.replay_spec().commands_spec().push(
        (c, Seq::<Option<CommandRetreat>>::empty()),
    )
    &&& n.replay_spec().seed_spec() == o.replay_spec().seed_spec()
    &&& n.state_spec() == o.state_spec()
    &&& n.effects_spec() == o.effects_spec()
    &&& n.command_spec() == o.command_spec()
    &&& n.sub_command_spec() == o.sub_command_spec()
    &&& n.turn_spec() == o.turn_spec()
    &&& n.sides_spec() == o.sides_spec()
    &&& n.switch_waiting_spec() == o.switch_waiting_spec()
    &&& n.current_spec() == o.current_spec()
    &&& n.retreat_spec() == o.retreat_spec()
    &&& n.attack_pending_spec() == o.attack_pending_spec()
}

/// `n` is the queue `o` after `c`, a command that no queued one runs before, was taken out of
/// its slot; once no command is left, the queue takes commands again.
pub open spec fn queue_taken(o: &BattleQueue, n: &BattleQueue, c: CommandType, parties: Seq<Party>, flags: BattleFlagsType) -> bool {
    &&& n.wf()
    &&& n.total_spec() == o.total_spec()
    &&& exists|p: int, j: int|
        0 <= p < o.slots().len() && 0 <= j < o.slots()[p].len() && o.slots()[p][j] == Some(c)
            && n.slots() == o.slots().update(p, o.slots()[p].update(j, None))
    &&& o.no_turn() ==> forall|p: int, j: int|
        0 <= p < o.slots().len() && 0 <= j < o.slots()[p].len() && (#[trigger] o.slots()[p][j]) is Some
            ==> !runs_before(o.slots()[p][j]->0, c, parties, flags)
    &&& if n.has_command() {
        &&& n.waiting_spec() == 0
        &&& n.party_flags() == o.party_flags()
        &&& n.readies() == o.readies()
    } else {
        &&& n.waiting_spec() == n.total_spec()
        &&& n.accepting()
        &&& forall|i: int| 0 <= i < n.slots().len() ==> !(#[trigger] n.party_flags()[i])
    }
}

/// One step of the runner within the battle: the runner steps as `run_spec` says. A member
/// knocked out in a party that has members left to switch in adds one to the switches that the
/// party owes, and a retreat that waits for its replacement makes the battle wait for it.
pub open spec fn runner_stepped(o: Battle, n: Battle, r: BattleExecution) -> bool {
    &&& run_spec(o.runner_spec(), n.runner_spec(), r)
    &&& n.queue_spec() == o.queue_spec()
    &&& n.post_switch_spec() == match r {
        BattleExecution::Death(pm) => if pm.party < n.parties_spec().len()
            && n.parties_spec()[pm.party as int].alive_spec() > 0 && o.post_switch_spec()[pm.party as int]
            < usize::MAX {
            o.post_switch_spec().update(pm.party as int, (o.post_switch_spec()[pm.party as int] + 1) as usize)
        } else {
            o.post_switch_spec()
        },
        _ => o.post_switch_spec(),
    }
    &&& n.processing_spec() == match r {
        BattleExecution::RetreatWaiting(pm) => BattleInputState::Retreat(pm),
        _ => o.processing_spec(),
    }
}

/// `n` is `o` but for its processing state `processing`.
pub open spec fn with_processing(o: Battle, n: Battle, processing: BattleInputState) -> bool {
    &&& n.runner_spec() == o.runner_spec()
    &&& n.queue_spec() == o.queue_spec()
    &&& n.post_switch_spec() == o.post_switch_spec()
    &&& n.processing_spec() == processing
}

/// Taking the first command out of the ready queue and running it: where every queued command
/// is valid and there is one, the command that runs first is recorded and the runner starts it;
/// otherwise nothing changes and the battle waits.
pub open spec fn command_executed(o: Battle, n: Battle, r: BattleExecution) -> bool {
    if o.queue_spec().total_spec() > 0 && o.queue_spec().commands_valid(o.parties_spec()) {
        exists|mid: Battle, c: CommandType|
            #[trigger] queue_taken(o.queue_spec(), mid.queue_spec(), c, o.parties_spec(), o.runner_spec().state_spec().flags_spec())
                && command_recorded(o.runner_spec(), mid.runner_spec(), c)
                && mid.post_switch_spec() == o.post_switch_spec()
                && mid.processing_spec() == o.processing_spec()
                && runner_stepped(mid, n, r)
    } else {
        &&& n == o
        &&& r == BattleExecution::Waiting
    }
}

/// Running on once the parties have switched: where the runner has nothing left to do, the
/// battle waits for the parties that owe switches, or for new commands.
pub open spec fn switch_executed(o: Battle, n: Battle, r: BattleExecution) -> bool {
    exists|mid: Battle, ex: BattleExecution|
        #[trigger] runner_stepped(o, mid, ex) && if ex == BattleExecution::Ready {
            if exists|p: int| 0 <= p < mid.post_switch_spec().len() && #[trigger] mid.post_switch_spec()[p] > 0 {
                &&& with_processing(mid, n, BattleInputState::Switching)
                &&& r == BattleExecution::SwitchWaiting
            } else {
                &&& with_processing(mid, n, BattleInputState::Ready)
                &&& r == BattleExecution::Waiting
            }
        } else {
            &&& n == mid
            &&& r == ex
        }
}

/// What one call of `execute` does.
pub open spec fn execute_spec(o: Battle, n: Battle, r: BattleExecution) -> bool {
    match o.processing_spec() {
        BattleInputState::Retreat(pm) => {
            &&& n == o
            &&& r == BattleExecution::RetreatWaiting(pm)
        },
        BattleInputState::Switching => switch_executed(o, n, r),
        BattleInputState::Ready => if o.queue_spec().waiting_spec() != 0 {
            &&& n == o
            &&& r == BattleExecution::Waiting
        } else if o.queue_spec().total_spec() > 0 && o.queue_spec().commands_valid(o.parties_spec()) {
            exists|mid: Battle|
                #[trigger] with_processing(o, mid, BattleInputState::Processing) && command_executed(mid, n, r)
        } else {
            &&& n == o
            &&& r == BattleExecution::Waiting
        },
        BattleInputState::Processing => exists|mid: Battle, ex: BattleExecution|
            #[trigger] runner_stepped(o, mid, ex) && if ex != BattleExecution::Ready {
                &&& n == mid
                &&& r == ex
            } else if mid.queue_spec().waiting_spec() == 0 {
                command_executed(mid, n, r)
            } else if mid.runner_spec().command_spec() >= 1
                && mid.runner_spec().replay_spec().commands_spec()[mid.runner_spec().command_spec() - 1].0
                is Turn {
                switch_executed(mid, n, r)
            } else {
                exists|mid2: Battle|
                    #[trigger] command_recorded(mid.runner_spec(), mid2.runner_spec(), CommandType::Turn)
                        && mid2.queue_spec() == mid.queue_spec()
                        && mid2.post_switch_spec() == mid.post_switch_spec()
                        && mid2.processing_spec() == mid.processing_spec()
                        && runner_stepped(mid2, n, r)
            },
    }
}

impl Battle {
    /// Runs one step of the runner.
    fn execute_runner(&mut self) -> (r: BattleExecution)
        requires
            old(self).wf(),
        ensures
            final(self).wf(),
            runner_stepped(*old(self), *final(self), r),
    {
        let r = self.runner.run();
        proof {
            lemma_run_keeps_slots(old(self).runner, self.runner, r);
        }
        if let BattleExecution::Death(pm) = r {
            if pm.party < self.runner.state().parties().len()
                && self.runner.state().parties()[pm.party].member_waiting_count() > 0
                && self.post_switch[pm.party] < usize::MAX {
                let count = self.post_switch[pm.party];
                self.post_switch.set(pm.party, count + 1);
            }
        }
        if let BattleExecution::RetreatWaiting(pm) = r {
            self.processing = BattleInputState::Retreat(pm);
        }
        proof {
            assert forall|i: int| 0 <= i < self.parties_spec().len() implies (#[trigger] self.queue.slots()[i]).len()
                == self.parties_spec()[i].active_spec().len() by {
                assert(self.parties_spec()[i].active_spec() == old(self).parties_spec()[i].active_spec());
            }
        }
        r
    }

    /// Takes the command that runs first out of the ready queue, records it and starts it.
    fn execute_command(&mut self) -> (r: BattleExecution)
        requires
            old(self).wf(),
            old(self).queue_spec().waiting_spec() == 0,
            old(self).processing_spec() == BattleInputState::Processing,
        ensures
            final(self).wf(),
            command_executed(*old(self), *final(self), r),
    {
        if !(self.queue.total() > 0 && self.queue.commands_checked(self.runner.state().parties())) {
            return BattleExecution::Waiting;
        }
        let flags = self.runner.state().flags();
        let command = self.queue.command_consume(self.runner.state().parties(), flags);
        self.runner.command_add(command);
        let ghost mid = *self;
        proof {
            assert(queue_taken(&old(self).queue, &mid.queue, command, old(self).parties_spec(), flags));
            assert forall|i: int| 0 <= i < self.parties_spec().len() implies (#[trigger] self.queue.slots()[i]).len()
                == self.parties_spec()[i].active_spec().len() by {
                let (p, j) = choose|p: int, j: int|
                    0 <= p < old(self).queue.slots().len() && 0 <= j < old(self).queue.slots()[p].len()
                        && old(self).queue.slots()[p][j] == Some(command) && self.queue.slots()
                        == old(self).queue.slots().update(p, old(self).queue.slots()[p].update(j, None));
                assert(self.queue.slots()[i].len() == old(self).queue.slots()[i].len());
            }
        }
        let r = self.execute_runner();
        proof {
            assert(command_recorded(old(self).runner, mid.runner, command));
            assert(runner_stepped(mid, *self, r));
        }
        r
    }

    /// Runs on once the parties have switched.
    fn execute_switch(&mut self) -> (r: BattleExecution)
        requires
            old(self).wf(),
            old(self).queue_spec().waiting_spec() != 0,
        ensures
            final(self).wf(),
            switch_executed(*old(self), *final(self), r),
    {
        let ex = self.execute_runner();
        let ghost mid = *self;
        if ex == BattleExecution::Ready {
            let mut waiting = false;
            let mut p: usize = 0;
            while p < self.post_switch.len()
                invariant
                    0 <= p <= self.post_switch@.len(),
                    *self == mid,
                    waiting == exists|q: int| 0 <= q < p && #[trigger] self.post_switch@[q] > 0,
                decreases self.post_switch@.len() - p,
            {
                if self.post_switch[p] > 0 {
                    waiting = true;
                }
                p += 1;
            }
            if waiting {
                self.processing = BattleInputState::Switching;
                proof {
                    assert(runner_stepped(*old(self), mid, ex));
                }
                BattleExecution::SwitchWaiting
            } else {
                self.processing = BattleInputState::Ready;
                proof {
                    assert(runner_stepped(*old(self), mid, ex));
                }
                BattleExecution::Waiting
            }
        } else {
            proof {
                assert(runner_stepped(*old(self), mid, ex));
            }
            ex
        }
    }

    /// Executes the next step of the battle and returns what happened.
    ///
    /// Execution goes as follows:
    /// - Confirm that the queue is still ready to be consumed.
    /// - Check if waiting for the user to switch party members.
    /// - Run the battle runner.
    /// - Allow the queue to be mutated.
    pub fn execute(&mut self) -> (r: BattleExecution)
        requires
            old(self).wf(),
        ensures
            final(self).wf(),
            execute_spec(*old(self), *final(self), r),
    {
        match self.processing {
            BattleInputState::Ready => {
                if self.queue.ready() {
                    if !(self.queue.total() > 0 && self.queue.commands_checked(self.runner.state().parties())) {
                        return BattleExecution::Waiting;
                    }
                    self.processing = BattleInputState::Processing;
                    let ghost mid = *self;
                    proof {
                        assert(with_processing(*old(self), mid, BattleInputState::Processing));
                    }
                    self.execute_command()
                } else {
                    BattleExecution::Waiting
                }
            },
            BattleInputState::Processing => {
                let ex = self.execute_runner();
                let ghost mid = *self;
                proof {
                    assert(runner_stepped(*old(self), mid, ex));
                }
                if ex == BattleExecution::Ready {
                    if self.queue.ready() {
                        self.execute_command()
                    } else if self.runner.commands_started() >= 1 && matches!(*self.runner.current_command(), CommandType::Turn) {
                        self.execute_switch()
                    } else {
                        self.runner.command_add(CommandType::Turn);
                        let ghost mid2 = *self;
                        proof {
                            assert forall|i: int| 0 <= i < self.parties_spec().len() implies (#[trigger] self.queue.slots()[i]).len()
                                == self.parties_spec()[i].active_spec().len() by {
                                assert(self.parties_spec()[i] == mid.parties_spec()[i]);
                            }
                        }
                        let r = self.execute_runner();
                        proof {
                            assert(command_recorded(mid.runner, mid2.runner, CommandType::Turn));
                        }
                        r
                    }
                } else {
                    ex
                }
            },
            BattleInputState::Switching => self.execute_switch(),
            BattleInputState::Retreat(pm) => BattleExecution::RetreatWaiting(pm),
        }
    }
}

impl Battle {
    /// Adds a command for switching in a member for the knocked out member of the active slot
    /// `active` of `party`, while the battle waits for such switches.
    ///
    /// Where the slot's member has no health left and the member at `target` has health left
    /// and is not active, the party owes one switch fewer.
    pub fn command_add_post_switch(&mut self, party: usize, active: usize, target: usize) -> (r:
        BattleError)
        requires
            old(self).wf(),
            party < old(self).parties_spec().len(),
            active < old(self).parties_spec()[party as int].active_spec().len(),
            old(self).parties_spec()[party as int].active_spec()[active as int] is Some,
            target < old(self).parties_spec()[party as int].members_spec().len(),
        ensures
            final(self).wf(),
            ({
                let p = old(self).parties_spec()[party as int];
                let counted = p.members_spec()[p.active_spec()[active as int]->0 as int].health_spec() == 0
                    && p.members_spec()[target as int].health_spec() != 0
                    && !p.active_spec().contains(Some(target))
                    && old(self).post_switch_spec()[party as int] > 0;
                if old(self).processing_spec() != BattleInputState::Switching {
                    &&& r == BattleError::Rejected
                    &&& *final(self) == *old(self)
                } else if p.active_spec()[active as int] == Some(target) {
                    &&& r == BattleError::SwitchActive
                    &&& *final(self) == *old(self)
                } else {
                    &&& r == BattleError::NoError
                    &&& command_recorded(
                        old(self).runner_spec(),
                        final(self).runner_spec(),
                        CommandType::Switch(CommandSwitch { party, member: active, target }),
                    )
                    &&& final(self).queue_spec() == old(self).queue_spec()
                    &&& final(self).processing_spec() == old(self).processing_spec()
                    &&& final(self).post_switch_spec() == if counted {
                        old(self).post_switch_spec().update(
                            party as int,
                            (old(self).post_switch_spec()[party as int] - 1) as usize,
                        )
                    } else {
                        old(self).post_switch_spec()
                    }
                }
            }),
    {
        if self.processing != BattleInputState::Switching {
            return BattleError::Rejected;
        }
        let parties = self.runner.state().parties();
        if parties[party].active_member_index(active) == Some(target) {
            return BattleError::SwitchActive;
        }
        let current = parties[party].active_member_index(active).unwrap();
        let counted = parties[party].member(current).health() == 0
            && parties[party].member(target).health() != 0
            && !parties[party].member_is_active(target)
            && self.post_switch[party] > 0;
        if counted {
            let count = self.post_switch[party];
            self.post_switch.set(party, count - 1);
        }
        self.runner.command_add(CommandType::Switch(CommandSwitch { party, member: active, target }));
        BattleError::NoError
    }

    /// Gives the member that replaces the retreating one that the battle waits for.
    pub fn command_add_retreat(&mut self, target: usize) -> (r: BattleError)
        requires
            old(self).wf(),
        ensures
            final(self).wf(),
            match old(self).processing_spec() {
                BattleInputState::Retreat(pm) => {
                    let ps = old(self).parties_spec();
                    if pm.party < ps.len() && pm.member < ps[pm.party as int].active_spec().len()
                        && ps[pm.party as int].active_spec()[pm.member as int] == Some(target) {
                        &&& r == BattleError::SwitchActive
                        &&& *final(self) == *old(self)
                    } else {
                        &&& r == BattleError::NoError
                        &&& final(self).runner_spec().replay_spec().commands_spec() == old(
                            self,
                        ).runner_spec().replay_spec().commands_spec().update(
                            old(self).runner_spec().command_spec() - 1,
                            (
                                old(self).runner_spec().replay_spec().commands_spec()[old(self).runner_spec().command_spec() - 1].0,
                                old(self).runner_spec().replay_spec().commands_spec()[old(self).runner_spec().command_spec() - 1].1.push(
                                    Some(CommandRetreat { target }),
                                ),
                            ),
                        )
                        &&& final(self).runner_spec().state_spec() == old(self).runner_spec().state_spec()
                        &&& final(self).runner_spec().effects_spec() == old(self).runner_spec().effects_spec()
                        &&& final(self).runner_spec().command_spec() == old(self).runner_spec().command_spec()
                        &&& final(self).runner_spec().sub_command_spec() == old(self).runner_spec().sub_command_spec()
                        &&& final(self).runner_spec().retreat_spec() == old(self).runner_spec().retreat_spec()
                        &&& final(self).queue_spec() == old(self).queue_spec()
                        &&& final(self).post_switch_spec() == old(self).post_switch_spec()
                        &&& final(self).processing_spec() == BattleInputState::Processing
                    }
                },
                _ => {
                    &&& r == BattleError::Rejected
                    &&& *final(self) == *old(self)
                },
            },
    {
        if let BattleInputState::Retreat(pm) = self.processing {
            let parties = self.runner.state().parties();
            if pm.party < parties.len() && pm.member < parties[pm.party].active_count()
                && parties[pm.party].active_member_index(pm.member) == Some(target) {
                return BattleError::SwitchActive;
            }
            self.runner.sub_command_add(Some(CommandRetreat { target }));
            self.processing = BattleInputState::Processing;
            BattleError::NoError
        } else {
            BattleError::Rejected
        }
    }
}

impl Battle {
    /// The command started last.
    pub fn current_command(&self) -> (r: &CommandType)
        requires
            self.wf(),
            self.runner_spec().command_spec() >= 1,
        ensures
            *r == self.runner_spec().replay_spec().commands_spec()[self.runner_spec().command_spec() - 1].0,
    {
        self.runner.current_command()
    }

    /// The effect applied last.
    pub fn current_effect(&self) -> (r: &crate::effect::Effect)
        ensures
            *r == self.runner_spec().current_spec(),
    {
        self.runner.current_effect()
    }

    /// Whether the attack started last hit and waits for the effects that it produces.
    pub fn attack_pending(&self) -> (r: bool)
        ensures
            r == self.runner_spec().attack_pending_spec(),
    {
        self.runner.attack_pending()
    }

    /// Gives the effects that the attack started last produces (see `BattleRunner::effects_give`).
    pub fn effects_give(&mut self, effects: Vec<crate::effect::Effect>)
        requires
            old(self).wf(),
        ensures
            final(self).wf(),
            !final(self).runner_spec().attack_pending_spec(),
            final(self).runner_spec().effects_spec() == if old(self).runner_spec().attack_pending_spec() {
                old(self).runner_spec().effects_spec() + effects@
            } else {
                old(self).runner_spec().effects_spec()
            },
            final(self).runner_spec().state_spec() == old(self).runner_spec().state_spec(),
            final(self).runner_spec().replay_spec() == old(self).runner_spec().replay_spec(),
            final(self).runner_spec().command_spec() == old(self).runner_spec().command_spec(),
            final(self).runner_spec().sub_command_spec() == old(self).runner_spec().sub_command_spec(),
            final(self).runner_spec().turn_spec() == old(self).runner_spec().turn_spec(),
            final(self).runner_spec().sides_spec() == old(self).runner_spec().sides_spec(),
            final(self).runner_spec().switch_waiting_spec() == old(self).runner_spec().switch_waiting_spec(),
            final(self).runner_spec().current_spec() == old(self).runner_spec().current_spec(),
            final(self).runner_spec().retreat_spec() == old(self).runner_spec().retreat_spec(),
            final(self).queue_spec() == old(self).queue_spec(),
            final(self).post_switch_spec() == old(self).post_switch_spec(),
            final(self).processing_spec() == old(self).processing_spec(),
    {
        self.runner.effects_give(effects);
    }
}

} // verus!

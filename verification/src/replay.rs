//! The record that replays a battle deterministically.
use vstd::prelude::*;

use rand::Error as RandError;
use rand::RngCore;

use crate::command::{CommandRetreat, CommandType};

verus! {

#[verifier::external_type_specification]
#[verifier::external_body]
pub struct ExRandError(RandError);

/// Fills 8 bytes from the operating system's random source (`rand::rngs::OsRng`, through
/// `RngCore::try_fill_bytes`) and reads them as a little-endian number. The result is random:
/// nothing is claimed of it, and the call may fail with the source's error.
#[verifier::external_body]
fn os_random_seed() -> (r: Result<u64, RandError>) {
    let mut bytes = [0u8; 8];
    rand::rngs::OsRng.try_fill_bytes(&mut bytes).map(|()| u64::from_le_bytes(bytes))
}

/// Why a replay could not be created.
#[derive(Debug, PartialEq, Eq, Structural, Clone, Copy)]
pub enum ReplayError {
    /// The operating system's random source failed.
    RandomSource,
}

/// A recorded command and the sub-commands given while it ran.
#[derive(Debug)]
struct BattleCommandInstance {
    command: CommandType,
    sub_command: Vec<Option<CommandRetreat>>,
}

/// Stores meta-data required to deterministically replay a battle sequence.
#[derive(Debug)]
pub struct BattleReplay {
    effects: Vec<BattleCommandInstance>,
    seed: usize,
}

impl BattleReplay {
    /// The recorded commands, each with its sub-commands.
    pub closed spec fn commands_spec(&self) -> Seq<(CommandType, Seq<Option<CommandRetreat>>)> {
        self.effects@.map_values(|e: BattleCommandInstance| (e.command, e.sub_command@))
    }

    pub closed spec fn seed_spec(&self) -> usize {
        self.seed
    }

    /// An empty replay with a seed from the operating system's random source.
    pub fn new() -> (r: Result<Self, ReplayError>)
        ensures
            r is Ok ==> r->Ok_0.commands_spec() == Seq::<
                (CommandType, Seq<Option<CommandRetreat>>),
            >::empty(),
    {
        match os_random_seed() {
            Ok(seed) => Ok(BattleReplay::with_seed(seed as usize)),
            Err(_) => Err(ReplayError::RandomSource),
        }
    }

    /// An empty replay with the given seed.
    pub fn with_seed(seed: usize) -> (r: Self)
        ensures
            r.seed_spec() == seed,
            r.commands_spec() == Seq::<(CommandType, Seq<Option<CommandRetreat>>)>::empty(),
    {
        let r = BattleReplay { seed: seed, effects: Vec::new() };
        proof {
            assert(r.commands_spec() =~= Seq::<(CommandType, Seq<Option<CommandRetreat>>)>::empty());
        }
        r
    }

    pub fn seed(&self) -> (r: usize)
        ensures
            r == self.seed_spec(),
    {
        self.seed
    }

    /// The recorded command at `command`.
    pub fn command(&self, command: usize) -> (r: &CommandType)
        requires
            command < self.commands_spec().len(),
        ensures
            *r == self.commands_spec()[command as int].0,
    {
        &self.effects[command].command
    }

    pub fn command_count(&self) -> (r: usize)
        ensures
            r == self.commands_spec().len(),
    {
        self.effects.len()
    }

    /// The sub-command at `sub_command` of the recorded command at `command`.
    pub fn sub_command(&self, command: usize, sub_command: usize) -> (r: &Option<CommandRetreat>)
        requires
            command < self.commands_spec().len(),
            sub_command < self.commands_spec()[command as int].1.len(),
        ensures
            *r == self.commands_spec()[command as int].1[sub_command as int],
    {
        &self.effects[command].sub_command[sub_command]
    }

    pub fn sub_command_count(&self, command: usize) -> (r: usize)
        requires
            command < self.commands_spec().len(),
        ensures
            r == self.commands_spec()[command as int].1.len(),
    {
        self.effects[command].sub_command.len()
    }

    /// Records a command, with no sub-commands yet.
    pub fn command_add(&mut self, command: CommandType)
        ensures
            final(self).commands_spec() == old(self).commands_spec().push(
                (command, Seq::<Option<CommandRetreat>>::empty()),
            ),
            final(self).seed_spec() == old(self).seed_spec(),
    {
        self.effects.push(BattleCommandInstance { command: command, sub_command: Vec::new() });
        proof {
            assert(self.commands_spec() =~= old(self).commands_spec().push(
                (command, Seq::<Option<CommandRetreat>>::empty()),
            ));
        }
    }

    /// Records a sub-command for the recorded command at `command`.
    pub fn sub_command_add(&mut self, command: usize, sub_command: Option<CommandRetreat>)
        requires
            command < old(self).commands_spec().len(),
        ensures
            final(self).commands_spec() == old(self).commands_spec().update(
                command as int,
                (
                    old(self).commands_spec()[command as int].0,
                    old(self).commands_spec()[command as int].1.push(sub_command),
                ),
            ),
            final(self).seed_spec() == old(self).seed_spec(),
    {
        let mut entry = BattleCommandInstance { command: CommandType::Turn, sub_command: Vec::new() };
        self.effects.set_and_swap(command, &mut entry);
        entry.sub_command.push(sub_command);
        self.effects.set_and_swap(command, &mut entry);
        proof {
            assert(self.commands_spec() =~= old(self).commands_spec().update(
                command as int,
                (
                    old(self).commands_spec()[command as int].0,
                    old(self).commands_spec()[command as int].1.push(sub_command),
                ),
            ));
        }
    }
}

/// A recorded command reads back at the next index, with no sub-commands, and the commands
/// recorded before it are unchanged.
pub proof fn lemma_replay_reads_back_command(before: BattleReplay, after: BattleReplay, command: CommandType)
    requires
        after.commands_spec() == before.commands_spec().push(
            (command, Seq::<Option<CommandRetreat>>::empty()),
        ),
    ensures
        after.commands_spec().len() == before.commands_spec().len() + 1,
        after.commands_spec()[before.commands_spec().len() as int].0 == command,
        after.commands_spec()[before.commands_spec().len() as int].1.len() == 0,
        forall|i: int|
            0 <= i < before.commands_spec().len() ==> #[trigger] after.commands_spec()[i]
                == before.commands_spec()[i],
{
}

/// A recorded sub-command reads back as the last sub-command of its command; every other
/// recorded value is unchanged.
pub proof fn lemma_replay_reads_back_sub_command(
    before: BattleReplay,
    after: BattleReplay,
    command: int,
    sub_command: Option<CommandRetreat>,
)
    requires
        0 <= command < before.commands_spec().len(),
        after.commands_spec() == before.commands_spec().update(
            command,
            (
                before.commands_spec()[command].0,
                before.commands_spec()[command].1.push(sub_command),
            ),
        ),
    ensures
        after.commands_spec().len() == before.commands_spec().len(),
        after.commands_spec()[command].0 == before.commands_spec()[command].0,
        after.commands_spec()[command].1.len() == before.commands_spec()[command].1.len() + 1,
        after.commands_spec()[command].1.last() == sub_command,
        forall|k: int|
            0 <= k < before.commands_spec()[command].1.len() ==> #[trigger] after.commands_spec()[command].1[k]
                == before.commands_spec()[command].1[k],
        forall|i: int|
            0 <= i < before.commands_spec().len() && i != command ==> #[trigger] after.commands_spec()[i]
                == before.commands_spec()[i],
{
}

} // verus!

//! The queue of upcoming battle commands.
use vstd::prelude::*;

use crate::command::{CommandType, attack_is_valid, command_runs_before, command_valid, runs_before};
use crate::effect::BattleFlagsType;
use crate::party::Party;

verus! {

/// The number of members in `s` that have a command.
pub open spec fn count_some(s: Seq<Option<CommandType>>) -> nat
    decreases s.len(),
{
    if s.len() == 0 {
        0
    } else {
        count_some(s.drop_last()) + if s.last() is Some {
            1nat
        } else {
            0nat
        }
    }
}

/// The sum of a sequence of counts.
pub open spec fn sum_counts(s: Seq<usize>) -> int
    decreases s.len(),
{
    if s.len() == 0 {
        0
    } else {
        sum_counts(s.drop_last()) + s.last()
    }
}

/// The total number of member slots over all parties.
pub open spec fn sum_lens(s: Seq<Seq<Option<CommandType>>>) -> int
    decreases s.len(),
{
    if s.len() == 0 {
        0
    } else {
        sum_lens(s.drop_last()) + s.last().len()
    }
}

/// `n` slots without a command.
pub open spec fn empty_slots(n: nat) -> Seq<Option<CommandType>> {
    Seq::new(n, |i: int| None::<CommandType>)
}

proof fn lemma_count_some_update(s: Seq<Option<CommandType>>, i: int, v: Option<CommandType>)
    requires
        0 <= i < s.len(),
    ensures
        count_some(s.update(i, v)) == count_some(s) - (if s[i] is Some {
            1int
        } else {
            0
        }) + (if v is Some {
            1int
        } else {
            0
        }),
    decreases s.len(),
{
    if i == s.len() - 1 {
        assert(s.update(i, v).drop_last() =~= s.drop_last());
    } else {
        lemma_count_some_update(s.drop_last(), i, v);
        assert(s.update(i, v).drop_last() =~= s.drop_last().update(i, v));
    }
}

proof fn lemma_count_some_le(s: Seq<Option<CommandType>>)
    ensures
        count_some(s) <= s.len(),
        (exists|j: int| 0 <= j < s.len() && s[j] is None) ==> count_some(s) < s.len(),
        (forall|j: int| 0 <= j < s.len() ==> s[j] is None) ==> count_some(s) == 0,
        (forall|j: int| 0 <= j < s.len() ==> s[j] is Some) ==> count_some(s) == s.len(),
        count_some(s) > 0 ==> exists|j: int| 0 <= j < s.len() && s[j] is Some,
    decreases s.len(),
{
    if s.len() > 0 {
        lemma_count_some_le(s.drop_last());
        if exists|j: int| 0 <= j < s.len() && s[j] is None {
            let j = choose|j: int| 0 <= j < s.len() && s[j] is None;
            if j < s.len() - 1 {
                assert(s.drop_last()[j] is None);
            }
        }
        if forall|j: int| 0 <= j < s.len() ==> s[j] is None {
            assert forall|j: int| 0 <= j < s.drop_last().len() implies s.drop_last()[j] is None by {
                assert(s[j] is None);
            }
        }
        if forall|j: int| 0 <= j < s.len() ==> s[j] is Some {
            assert forall|j: int| 0 <= j < s.drop_last().len() implies s.drop_last()[j] is Some by {
                assert(s[j] is Some);
            }
            assert(s[s.len() - 1] is Some);
        }
        if count_some(s) > 0 {
            if s.last() is Some {
                assert(s[s.len() - 1] is Some);
            } else {
                let j = choose|j: int| 0 <= j < s.drop_last().len() && s.drop_last()[j] is Some;
                assert(s[j] is Some);
            }
        }
    }
}

proof fn lemma_sum_counts_update(s: Seq<usize>, i: int, v: usize)
    requires
        0 <= i < s.len(),
    ensures
        sum_counts(s.update(i, v)) == sum_counts(s) - s[i] + v,
    decreases s.len(),
{
    if i == s.len() - 1 {
        assert(s.update(i, v).drop_last() =~= s.drop_last());
    } else {
        lemma_sum_counts_update(s.drop_last(), i, v);
        assert(s.update(i, v).drop_last() =~= s.drop_last().update(i, v));
    }
}

proof fn lemma_sum_lens_update(
    s: Seq<Seq<Option<CommandType>>>,
    i: int,
    v: Seq<Option<CommandType>>,
)
    requires
        0 <= i < s.len(),
        v.len() == s[i].len(),
    ensures
        sum_lens(s.update(i, v)) == sum_lens(s),
    decreases s.len(),
{
    if i == s.len() - 1 {
        assert(s.update(i, v).drop_last() =~= s.drop_last());
    } else {
        lemma_sum_lens_update(s.drop_last(), i, v);
        assert(s.update(i, v).drop_last() =~= s.drop_last().update(i, v));
    }
}

/// Counts that are each at most their slot counts sum to at most the total, and to less where
/// one of them is less.
proof fn lemma_sum_le(r: Seq<usize>, s: Seq<Seq<Option<CommandType>>>)
    requires
        r.len() == s.len(),
        forall|i: int| 0 <= i < r.len() ==> r[i] <= s[i].len(),
    ensures
        sum_counts(r) <= sum_lens(s),
        forall|i: int| 0 <= i < r.len() ==> sum_lens(s) - sum_counts(r) >= s[i].len() - r[i],
        (exists|i: int| 0 <= i < r.len() && r[i] < s[i].len()) ==> sum_counts(r) < sum_lens(s),
        sum_counts(r) == sum_lens(s) ==> forall|i: int| 0 <= i < r.len() ==> r[i] == s[i].len(),
    decreases r.len(),
{
    if r.len() > 0 {
        lemma_sum_le(r.drop_last(), s.drop_last());
        assert forall|i: int| 0 <= i < r.len() implies sum_lens(s) - sum_counts(r) >= s[i].len()
            - r[i] by {
            if i < r.len() - 1 {
                assert(r.drop_last()[i] == r[i]);
                assert(s.drop_last()[i] == s[i]);
            }
        }
        if exists|i: int| 0 <= i < r.len() && r[i] < s[i].len() {
            let i = choose|i: int| 0 <= i < r.len() && r[i] < s[i].len();
            if i < r.len() - 1 {
                assert(r.drop_last()[i] == r[i]);
                assert(s.drop_last()[i] == s[i]);
            }
        }
        if sum_counts(r) == sum_lens(s) {
            assert forall|i: int| 0 <= i < r.len() implies r[i] == s[i].len() by {
                if i < r.len() - 1 {
                    assert(r.drop_last()[i] == r[i]);
                    assert(s.drop_last()[i] == s[i]);
                }
            }
        }
    }
}

proof fn lemma_sum_counts_nonneg(r: Seq<usize>)
    ensures
        sum_counts(r) >= 0,
    decreases r.len(),
{
    if r.len() > 0 {
        lemma_sum_counts_nonneg(r.drop_last());
    }
}

proof fn lemma_sum_counts_zero(r: Seq<usize>)
    requires
        forall|i: int| 0 <= i < r.len() ==> r[i] == 0,
    ensures
        sum_counts(r) == 0,
    decreases r.len(),
{
    if r.len() > 0 {
        lemma_sum_counts_zero(r.drop_last());
    }
}

/// The commands given for one party.
#[derive(Debug)]
struct PartyCommand {
    /// One command was given for the whole party, and stands in the first slot.
    party: bool,
    commands: Vec<Option<CommandType>>,
    /// The number of members that are ready.
    ready: usize,
}

/// Manages a list of upcoming battle commands.
///
/// By default, the queue is considered not ready. At this state, new commands can be added. Once
/// all parties have a command for each of their members, the queue is considered ready. At that
/// point, commands are sorted and consumed. Once all commands are consumed, the queue goes back to
/// its default state where it is not ready and no commands have been associated with any parties.
#[derive(Debug)]
pub struct BattleQueue {
    waiting: usize,
    total: usize,
    queue: Vec<PartyCommand>,
}

impl BattleQueue {
    /// The command slots of each party.
    pub closed spec fn slots(&self) -> Seq<Seq<Option<CommandType>>> {
        self.queue@.map_values(|p: PartyCommand| p.commands@)
    }

    /// Whether each party was given a command for the whole party.
    pub closed spec fn party_flags(&self) -> Seq<bool> {
        self.queue@.map_values(|p: PartyCommand| p.party)
    }

    /// The number of ready members of each party.
    pub closed spec fn readies(&self) -> Seq<usize> {
        self.queue@.map_values(|p: PartyCommand| p.ready)
    }

    /// The number of members still waiting for a command.
    pub closed spec fn waiting_spec(&self) -> usize {
        self.waiting
    }

    /// The number of active members over all parties.
    pub closed spec fn total_spec(&self) -> usize {
        self.total
    }

    /// Some member slot holds a command.
    pub open spec fn has_command(&self) -> bool {
        exists|p: int, j: int|
            0 <= p < self.slots().len() && 0 <= j < self.slots()[p].len() && (
            #[trigger] self.slots()[p][j]) is Some
    }

    /// The queue's counts agree with its slots.
    pub open spec fn wf(&self) -> bool {
        let slots = self.slots();
        let flags = self.party_flags();
        let readies = self.readies();
        &&& flags.len() == slots.len()
        &&& readies.len() == slots.len()
        &&& self.total_spec() == sum_lens(slots)
        &&& forall|i: int| 0 <= i < slots.len() ==> #[trigger] readies[i] <= slots[i].len()
        &&& forall|i: int|
            0 <= i < slots.len() && #[trigger] flags[i] ==> readies[i] == slots[i].len()
                && slots[i].len() > 0 && forall|j: int| 1 <= j < slots[i].len() ==> slots[i][j] is None
        &&& self.waiting_spec() == self.total_spec() - sum_counts(readies)
        &&& (self.waiting_spec() == 0 && self.total_spec() > 0) ==> self.has_command()
    }

    /// No command was taken since the queue last became ready: each party's count of ready
    /// members is its number of commands, or all of its members for a command of the whole
    /// party.
    pub open spec fn accepting(&self) -> bool {
        forall|i: int|
            0 <= i < self.slots().len() ==> if #[trigger] self.party_flags()[i] {
                self.slots()[i][0] is Some
            } else {
                self.readies()[i] == count_some(self.slots()[i])
            }
    }

    /// Every member of the party at `i` has a command, or the party has one for all of them.
    pub open spec fn party_complete(&self, i: int) -> bool {
        self.party_flags()[i] || forall|j: int|
            0 <= j < self.slots()[i].len() ==> (#[trigger] self.slots()[i][j]) is Some
    }

    /// Initializes a new empty queue that is not ready (unless no party has an active member).
    pub fn new(parties: &[Party]) -> (r: Self)
        requires
            sum_lens(
                parties@.map_values(|p: Party| empty_slots(p.active_spec().len())),
            ) <= usize::MAX,
        ensures
            r.wf(),
            r.accepting(),
            r.slots() == parties@.map_values(|p: Party| empty_slots(p.active_spec().len())),
            forall|i: int| 0 <= i < r.slots().len() ==> !(#[trigger] r.party_flags()[i]),
            r.waiting_spec() == r.total_spec(),
    {
        let ghost target = parties@.map_values(|p: Party| empty_slots(p.active_spec().len()));
        let mut queue: Vec<PartyCommand> = Vec::new();
        let mut total: usize = 0;
        let mut index: usize = 0;
        while index < parties.len()
            invariant
                0 <= index <= parties@.len(),
                target == parties@.map_values(|p: Party| empty_slots(p.active_spec().len())),
                sum_lens(target) <= usize::MAX,
                queue@.len() == index,
                forall|i: int|
                    0 <= i < index ==> (#[trigger] queue@[i]).commands@ == target[i] && !queue@[i].party
                        && queue@[i].ready == 0,
                total == sum_lens(target.take(index as int)),
            decreases parties@.len() - index,
        {
            let count = parties[index].active_count();
            let mut commands: Vec<Option<CommandType>> = Vec::new();
            let mut j: usize = 0;
            while j < count
                invariant
                    0 <= j <= count,
                    commands@ == empty_slots(j as nat),
                decreases count - j,
            {
                commands.push(None);
                proof {
                    assert(commands@ =~= empty_slots((j + 1) as nat));
                }
                j += 1;
            }
            proof {
                assert(target.take(index + 1).drop_last() =~= target.take(index as int));
                assert(target[index as int] == empty_slots(count as nat));
                lemma_sum_lens_prefix(target, index as int + 1);
                lemma_sum_lens_take_le(target, index as int + 1);
            }
            total = total + count;
            queue.push(PartyCommand { party: false, commands, ready: 0 });
            index += 1;
        }
        let r = BattleQueue { waiting: total, total, queue };
        proof {
            assert(target.take(parties@.len() as int) =~= target);
            assert(r.slots() =~= target);
            lemma_sum_counts_zero(r.readies());
            assert forall|i: int| 0 <= i < r.slots().len() implies (r.readies()[i] == count_some(
                r.slots()[i],
            )) by {
                lemma_count_some_le(r.slots()[i]);
            }
        }
        r
    }

    /// Returns true if the queue was populated or is in the process of being consumed.
    pub fn ready(&self) -> (r: bool)
        ensures
            r == (self.waiting_spec() == 0),
    {
        self.waiting == 0
    }

    /// The number of active members over all parties.
    pub fn total(&self) -> (r: usize)
        ensures
            r == self.total_spec(),
    {
        self.total
    }

    /// Whether every command in the queue is valid for `parties`.
    pub fn commands_checked(&self, parties: &[Party]) -> (r: bool)
        ensures
            r == self.commands_valid(parties@),
    {
        let mut p: usize = 0;
        while p < self.queue.len()
            invariant
                0 <= p <= self.slots().len(),
                forall|q: int, j: int|
                    0 <= q < p && 0 <= j < self.slots()[q].len() && (#[trigger] self.slots()[q][j]) is Some
                        ==> command_valid(self.slots()[q][j]->0, parties@),
            decreases self.slots().len() - p,
        {
            let mut j: usize = 0;
            while j < self.queue[p].commands.len()
                invariant
                    0 <= p < self.slots().len(),
                    0 <= j <= self.slots()[p as int].len(),
                    forall|q: int, k: int|
                        0 <= q < p && 0 <= k < self.slots()[q].len() && (#[trigger] self.slots()[q][k]) is Some
                            ==> command_valid(self.slots()[q][k]->0, parties@),
                    forall|k: int|
                        0 <= k < j && (#[trigger] self.slots()[p as int][k]) is Some ==> command_valid(
                            self.slots()[p as int][k]->0,
                            parties@,
                        ),
                decreases self.slots()[p as int].len() - j,
            {
                let ok = match &self.queue[p].commands[j] {
                    Some(CommandType::Attack(a)) => attack_is_valid(parties, a),
                    _ => true,
                };
                if !ok {
                    proof {
                        assert(self.slots()[p as int][j as int] is Some);
                    }
                    return false;
                }
                j += 1;
            }
            p += 1;
        }
        true
    }

    /// The command given for member `member` of `party`, if any.
    pub fn command_get(&self, party: usize, member: usize) -> (r: Option<&CommandType>)
        requires
            party < self.slots().len(),
            member < self.slots()[party as int].len(),
        ensures
            match self.slots()[party as int][member as int] {
                Some(c) => r is Some && *r->0 == c,
                None => r is None,
            },
    {
        self.queue[party].commands[member].as_ref()
    }

    /// Adds the given command to the queue for the indicated member of the given party.
    ///
    /// This will override any command already given to this party member. If the given party
    /// already has a command for the whole party, then all members of that party will be
    /// invalidated.
    pub fn command_add(&mut self, command: CommandType, party: usize, member: usize)
        requires
            old(self).wf(),
            old(self).accepting(),
            party < old(self).slots().len(),
            member < old(self).slots()[party as int].len(),
        ensures
            final(self).wf(),
            final(self).accepting(),
            final(self).total_spec() == old(self).total_spec(),
            final(self).slots() == old(self).slots().update(
                party as int,
                if old(self).party_flags()[party as int] {
                    empty_slots(old(self).slots()[party as int].len())
                } else {
                    old(self).slots()[party as int]
                }.update(member as int, Some(command)),
            ),
            final(self).party_flags() == old(self).party_flags().update(party as int, false),
    {
        let ghost old_slots = self.slots();
        let ghost old_readies = self.readies();
        let mut entry = PartyCommand { party: false, commands: Vec::new(), ready: 0 };
        self.queue.set_and_swap(party, &mut entry);
        let len = entry.commands.len();
        proof {
            assert(old_slots[party as int] == entry.commands@);
            assert(old_readies[party as int] == entry.ready);
            assert(old(self).party_flags()[party as int] == entry.party);
            lemma_sum_le(old_readies, old_slots);
            lemma_count_some_le(entry.commands@);
            lemma_sum_counts_update(old_readies, party as int, 0);
            lemma_sum_counts_nonneg(old_readies.update(party as int, 0));
        }
        if entry.party {
            let mut commands: Vec<Option<CommandType>> = Vec::new();
            let mut j: usize = 0;
            while j < len
                invariant
                    0 <= j <= len,
                    commands@ == empty_slots(j as nat),
                decreases len - j,
            {
                commands.push(None);
                proof {
                    assert(commands@ =~= empty_slots((j + 1) as nat));
                }
                j += 1;
            }
            commands.set(member, Some(command));
            proof {
                lemma_count_some_update(empty_slots(len as nat), member as int, Some(command));
                lemma_count_some_le(empty_slots(len as nat));
            }
            entry.commands = commands;
            entry.party = false;
            entry.ready = 1;
            self.waiting = self.waiting + (len - 1);
        } else {
            if entry.commands[member].is_none() {
                assert(old_slots[party as int][member as int] is None);
                entry.ready = entry.ready + 1;
                self.waiting = self.waiting - 1;
            }
            proof {
                lemma_count_some_update(entry.commands@, member as int, Some(command));
            }
            entry.commands.set(member, Some(command));
        }
        self.queue.set_and_swap(party, &mut entry);
        proof {
            lemma_sum_counts_update(old_readies, party as int, self.queue@[party as int].ready);
            lemma_sum_lens_update(old_slots, party as int, self.queue@[party as int].commands@);
            assert(self.slots() =~= old_slots.update(party as int, self.queue@[party as int].commands@));
            assert(self.readies() =~= old_readies.update(party as int, self.queue@[party as int].ready));
            assert(self.party_flags() =~= old(self).party_flags().update(party as int, false));
            assert(self.slots()[party as int][member as int] is Some);
        }
    }

    /// Adds the given command to the queue for all members of the given party, overriding any
    /// commands for the given party.
    pub fn command_add_party(&mut self, command: CommandType, party: usize)
        requires
            old(self).wf(),
            old(self).accepting(),
            party < old(self).slots().len(),
            old(self).slots()[party as int].len() > 0,
        ensures
            final(self).wf(),
            final(self).accepting(),
            final(self).total_spec() == old(self).total_spec(),
            final(self).slots() == old(self).slots().update(
                party as int,
                empty_slots(old(self).slots()[party as int].len()).update(0, Some(command)),
            ),
            final(self).party_flags() == old(self).party_flags().update(party as int, true),
    {
        let ghost old_slots = self.slots();
        let ghost old_readies = self.readies();
        let mut entry = PartyCommand { party: false, commands: Vec::new(), ready: 0 };
        self.queue.set_and_swap(party, &mut entry);
        let len = entry.commands.len();
        proof {
            assert(old_slots[party as int] == entry.commands@);
            assert(old_readies[party as int] == entry.ready);
            lemma_sum_le(old_readies, old_slots);
        }
        let change = len - entry.ready;
        let mut commands: Vec<Option<CommandType>> = Vec::new();
        let mut j: usize = 0;
        while j < len
            invariant
                0 <= j <= len,
                commands@ == empty_slots(j as nat),
            decreases len - j,
        {
            commands.push(None);
            proof {
                assert(commands@ =~= empty_slots((j + 1) as nat));
            }
            j += 1;
        }
        commands.set(0, Some(command));
        entry.commands = commands;
        entry.ready = len;
        entry.party = true;
        self.waiting = self.waiting - change;
        self.queue.set_and_swap(party, &mut entry);
        proof {
            lemma_sum_counts_update(old_readies, party as int, len);
            lemma_sum_lens_update(old_slots, party as int, self.queue@[party as int].commands@);
            assert(self.slots() =~= old_slots.update(party as int, self.queue@[party as int].commands@));
            assert(self.readies() =~= old_readies.update(party as int, len));
            assert(self.party_flags() =~= old(self).party_flags().update(party as int, true));
            assert(self.slots()[party as int][0] is Some);
        }
    }
}

/// `(p2, j2)` comes before `(p, j)` in the order in which the queue scans its slots.
pub open spec fn scanned_before(p2: int, j2: int, p: int, j: int) -> bool {
    p2 < p || (p2 == p && j2 < j)
}

impl BattleQueue {
    /// No slot holds a `Turn` command.
    pub open spec fn no_turn(&self) -> bool {
        forall|p: int, j: int|
            0 <= p < self.slots().len() && 0 <= j < self.slots()[p].len() && (
            #[trigger] self.slots()[p][j]) is Some ==> !(self.slots()[p][j]->0 is Turn)
    }

    /// Every command in the queue is valid for `parties`.
    pub open spec fn commands_valid(&self, parties: Seq<Party>) -> bool {
        forall|p: int, j: int|
            0 <= p < self.slots().len() && 0 <= j < self.slots()[p].len() && (
            #[trigger] self.slots()[p][j]) is Some ==> command_valid(
                self.slots()[p][j]->0,
                parties,
            )
    }

    /// Returns true if some member slot holds a command.
    fn any_command(&self) -> (r: bool)
        ensures
            r == self.has_command(),
    {
        let mut p: usize = 0;
        while p < self.queue.len()
            invariant
                0 <= p <= self.slots().len(),
                forall|p2: int, j2: int|
                    0 <= p2 < p && 0 <= j2 < self.slots()[p2].len() ==> (
                    #[trigger] self.slots()[p2][j2]) is None,
            decreases self.slots().len() - p,
        {
            let mut j: usize = 0;
            while j < self.queue[p].commands.len()
                invariant
                    0 <= p < self.slots().len(),
                    0 <= j <= self.slots()[p as int].len(),
                    forall|p2: int, j2: int|
                        0 <= p2 < p && 0 <= j2 < self.slots()[p2].len() ==> (
                        #[trigger] self.slots()[p2][j2]) is None,
                    forall|j2: int| 0 <= j2 < j ==> (#[trigger] self.slots()[p as int][j2]) is None,
                decreases self.slots()[p as int].len() - j,
            {
                assert(self.slots()[p as int] == self.queue@[p as int].commands@);
                if self.queue[p].commands[j].is_some() {
                    assert(self.slots()[p as int][j as int] is Some);
                    return true;
                }
                j += 1;
            }
            p += 1;
        }
        false
    }

    /// Finds the command that runs first and takes it out of the queue. Once no command is left, the queue goes back to its default state:
    /// not ready, with no command associated with any party.
    ///
    /// The queue must be ready before calling this method.
    pub fn command_consume(&mut self, parties: &[Party], flags: BattleFlagsType) -> (r:
        CommandType)
        requires
            old(self).wf(),
            old(self).waiting_spec() == 0,
            old(self).total_spec() > 0,
            old(self).commands_valid(parties@),
        ensures
            final(self).wf(),
            final(self).total_spec() == old(self).total_spec(),
            exists|p: int, j: int|
                0 <= p < old(self).slots().len() && 0 <= j < old(self).slots()[p].len()
                    && old(self).slots()[p][j] == Some(r) && final(self).slots() == old(
                    self).slots().update(p, old(self).slots()[p].update(j, None)),
            old(self).no_turn() ==> forall|p: int, j: int|
                0 <= p < old(self).slots().len() && 0 <= j < old(self).slots()[p].len() && (
                #[trigger] old(self).slots()[p][j]) is Some ==> !runs_before(old(self).slots()[p][j]->0, r, parties@, flags),
            if final(self).has_command() {
                &&& final(self).waiting_spec() == 0
                &&& final(self).party_flags() == old(self).party_flags()
                &&& final(self).readies() == old(self).readies()
            } else {
                &&& final(self).waiting_spec() == final(self).total_spec()
                &&& final(self).accepting()
                &&& forall|i: int|
                    0 <= i < final(self).slots().len() ==> !(#[trigger] final(
                        self).party_flags()[i])
            },
    {
        let ghost old_slots = self.slots();
        let mut found = false;
        let mut best_p: usize = 0;
        let mut best_j: usize = 0;
        let mut p: usize = 0;
        while p < self.queue.len()
            invariant
                self.slots() == old_slots,
                self.wf(),
                self.commands_valid(parties@),
                0 <= p <= old_slots.len(),
                found ==> best_p < old_slots.len() && best_j < old_slots[best_p as int].len()
                    && old_slots[best_p as int][best_j as int] is Some && scanned_before(
                    best_p as int,
                    best_j as int,
                    p as int,
                    0,
                ),
                !found ==> forall|p2: int, j2: int|
                    0 <= p2 < p && 0 <= j2 < old_slots[p2].len() ==> (
                    #[trigger] old_slots[p2][j2]) is None,
                found && self.no_turn() ==> forall|p2: int, j2: int|
                    0 <= p2 < p && 0 <= j2 < old_slots[p2].len() && (
                    #[trigger] old_slots[p2][j2]) is Some ==> !runs_before(old_slots[p2][j2]->0, old_slots[best_p as int][best_j as int]->0, parties@, flags),
            decreases old_slots.len() - p,
        {
            let mut j: usize = 0;
            while j < self.queue[p].commands.len()
                invariant
                    self.slots() == old_slots,
                    self.wf(),
                    self.commands_valid(parties@),
                    0 <= p < old_slots.len(),
                    0 <= j <= old_slots[p as int].len(),
                    found ==> best_p < old_slots.len() && best_j < old_slots[best_p as int].len()
                        && old_slots[best_p as int][best_j as int] is Some && scanned_before(
                        best_p as int,
                        best_j as int,
                        p as int,
                        j as int,
                    ),
                    !found ==> forall|p2: int, j2: int|
                        0 <= p2 < old_slots.len() && 0 <= j2 < old_slots[p2].len()
                            && scanned_before(p2, j2, p as int, j as int) ==> (
                        #[trigger] old_slots[p2][j2]) is None,
                    found && self.no_turn() ==> forall|p2: int, j2: int|
                        0 <= p2 < old_slots.len() && 0 <= j2 < old_slots[p2].len()
                            && scanned_before(p2, j2, p as int, j as int) && (
                        #[trigger] old_slots[p2][j2]) is Some ==> !runs_before(old_slots[p2][j2]->0, old_slots[best_p as int][best_j as int]->0, parties@, flags),
                decreases old_slots[p as int].len() - j,
            {
                assert(old_slots[p as int] == self.queue@[p as int].commands@);
                if let Some(command) = &self.queue[p].commands[j] {
                    assert(old_slots[p as int][j as int] == Some(*command));
                    if !found {
                        found = true;
                        best_p = p;
                        best_j = j;
                    } else {
                        assert(old_slots[best_p as int] == self.queue@[best_p as int].commands@);
                        let best = self.queue[best_p].commands[best_j].as_ref().unwrap();
                        if command_runs_before(command, best, parties, flags) {
                            proof {
                                if self.no_turn() {
                                    let b = old_slots[best_p as int][best_j as int]->0;
                                    assert forall|p2: int, j2: int|
                                        0 <= p2 < old_slots.len() && 0 <= j2 < old_slots[p2].len()
                                            && scanned_before(p2, j2, p as int, j as int + 1) && (
                                        #[trigger] old_slots[p2][j2]) is Some implies !runs_before(old_slots[p2][j2]->0, *command, parties@, flags) by {
                                        let d = old_slots[p2][j2]->0;
                                        if p2 == p && j2 == j {
                                        } else if runs_before(d, *command, parties@, flags) {
                                            crate::command::lemma_runs_before_transitive(
                                                d,
                                                *command,
                                                b,
                                                parties@,
                                                flags,
                                            );
                                        }
                                    }
                                }
                            }
                            best_p = p;
                            best_j = j;
                        }
                    }
                }
                j += 1;
            }
            p += 1;
        }
        proof {
            if !found {
                assert(false);
            }
        }
        let mut entry = PartyCommand { party: false, commands: Vec::new(), ready: 0 };
        self.queue.set_and_swap(best_p, &mut entry);
        let command = entry.commands[best_j].unwrap();
        entry.commands.set(best_j, None);
        self.queue.set_and_swap(best_p, &mut entry);
        let ghost taken_slots = self.slots();
        proof {
            assert(taken_slots =~= old_slots.update(
                best_p as int,
                old_slots[best_p as int].update(best_j as int, None),
            ));
            lemma_sum_lens_update(
                old_slots,
                best_p as int,
                old_slots[best_p as int].update(best_j as int, None),
            );
            assert(self.readies() =~= old(self).readies());
            assert(self.party_flags() =~= old(self).party_flags());
        }
        if !self.any_command() {
            let mut i: usize = 0;
            while i < self.queue.len()
                invariant
                    self.slots() == taken_slots,
                    !self.has_command(),
                    self.total == old(self).total,
                    0 <= i <= taken_slots.len(),
                    self.party_flags().len() == taken_slots.len(),
                    self.readies().len() == taken_slots.len(),
                    forall|k: int| 0 <= k < i ==> !(#[trigger] self.party_flags()[k]),
                    forall|k: int| 0 <= k < i ==> #[trigger] self.readies()[k] == 0,
                decreases taken_slots.len() - i,
            {
                let ghost flags_before = self.party_flags();
                let ghost readies_before = self.readies();
                let mut entry = PartyCommand { party: false, commands: Vec::new(), ready: 0 };
                self.queue.set_and_swap(i, &mut entry);
                entry.party = false;
                entry.ready = 0;
                self.queue.set_and_swap(i, &mut entry);
                proof {
                    assert(self.slots() =~= taken_slots);
                    assert(self.party_flags() =~= flags_before.update(i as int, false));
                    assert(self.readies() =~= readies_before.update(i as int, 0));
                }
                i += 1;
            }
            self.waiting = self.total;
            proof {
                lemma_sum_counts_zero(self.readies());
                assert forall|k: int| 0 <= k < self.slots().len() implies (self.readies()[k]
                    == count_some(self.slots()[k])) by {
                    assert forall|j: int| 0 <= j < self.slots()[k].len() implies self.slots()[k][j] is None by {
                        assert(!(self.slots()[k][j] is Some));
                    }
                    lemma_count_some_le(self.slots()[k]);
                }
            }
        }
        command
    }
}

/// While commands are being added, the queue is ready exactly when every party has a command
/// for each of its members, or one for the whole party.
pub proof fn lemma_ready_iff_complete(q: &BattleQueue)
    requires
        q.wf(),
        q.accepting(),
    ensures
        (q.waiting_spec() == 0) <==> forall|i: int|
            0 <= i < q.slots().len() ==> #[trigger] q.party_complete(i),
{
    let r = q.readies();
    let s = q.slots();
    lemma_sum_le(r, s);
    assert forall|i: int| 0 <= i < s.len() implies (r[i] == s[i].len()) == #[trigger] q.party_complete(i) by {
        lemma_count_some_le(s[i]);
        if q.party_flags()[i] {
            assert(r[i] == s[i].len());
        } else {
            assert(r[i] == count_some(s[i]));
            if count_some(s[i]) == s[i].len() {
                assert forall|j: int| 0 <= j < s[i].len() implies (#[trigger] s[i][j]) is Some by {
                    if s[i][j] is None {
                        assert(exists|j: int| 0 <= j < s[i].len() && s[i][j] is None);
                    }
                }
            }
        }
    }
    if q.waiting_spec() != 0 {
        if forall|i: int| 0 <= i < s.len() ==> #[trigger] q.party_complete(i) {
            assert forall|i: int| 0 <= i < r.len() implies !(r[i] < s[i].len()) by {
                assert(q.party_complete(i));
            }
            lemma_sum_eq(r, s);
        }
    }
}

/// Counts that each equal their slot counts sum to the total.
proof fn lemma_sum_eq(r: Seq<usize>, s: Seq<Seq<Option<CommandType>>>)
    requires
        r.len() == s.len(),
        forall|i: int| 0 <= i < r.len() ==> r[i] <= s[i].len(),
        forall|i: int| 0 <= i < r.len() ==> !(r[i] < s[i].len()),
    ensures
        sum_counts(r) == sum_lens(s),
    decreases r.len(),
{
    if r.len() > 0 {
        lemma_sum_eq(r.drop_last(), s.drop_last());
        assert(r[r.len() - 1] == s[s.len() - 1].len());
    }
}

proof fn lemma_sum_lens_take_le(s: Seq<Seq<Option<CommandType>>>, n: int)
    requires
        0 <= n <= s.len(),
    ensures
        sum_lens(s.take(n)) <= sum_lens(s),
    decreases s.len(),
{
    if n < s.len() {
        lemma_sum_lens_take_le(s.drop_last(), n);
        assert(s.drop_last().take(n) =~= s.take(n));
    } else {
        assert(s.take(n) =~= s);
    }
}

proof fn lemma_sum_lens_prefix(s: Seq<Seq<Option<CommandType>>>, n: int)
    requires
        0 < n <= s.len(),
    ensures
        sum_lens(s.take(n)) == sum_lens(s.take(n - 1)) + s[n - 1].len(),
{
    assert(s.take(n).drop_last() =~= s.take(n - 1));
}

/// The number of commands that the slots hold.
pub open spec fn commands_held(slots: Seq<Seq<Option<CommandType>>>) -> nat
    decreases slots.len(),
{
    if slots.len() == 0 {
        0
    } else {
        commands_held(slots.drop_last()) + count_some(slots.last())
    }
}

/// Taking the command out of a slot leaves one command fewer, so a ready queue that holds `n`
/// commands goes back to its default state after exactly `n` calls of `command_consume`.
pub proof fn lemma_consume_takes_one(slots: Seq<Seq<Option<CommandType>>>, p: int, j: int)
    requires
        0 <= p < slots.len(),
        0 <= j < slots[p].len(),
        slots[p][j] is Some,
    ensures
        commands_held(slots.update(p, slots[p].update(j, None))) + 1 == commands_held(slots),
    decreases slots.len(),
{
    let after = slots.update(p, slots[p].update(j, None));
    if p == slots.len() - 1 {
        assert(after.drop_last() =~= slots.drop_last());
        lemma_count_some_update(slots[p], j, None);
    } else {
        lemma_consume_takes_one(slots.drop_last(), p, j);
        assert(after.drop_last() =~= slots.drop_last().update(p, slots[p].update(j, None)));
    }
}

/// Slots hold some command exactly when their count of commands is positive.
pub proof fn lemma_held_iff_some(slots: Seq<Seq<Option<CommandType>>>)
    ensures
        (commands_held(slots) > 0) <==> exists|p: int, j: int|
            0 <= p < slots.len() && 0 <= j < slots[p].len() && (#[trigger] slots[p][j]) is Some,
    decreases slots.len(),
{
    if slots.len() > 0 {
        let last = slots.last();
        lemma_held_iff_some(slots.drop_last());
        lemma_count_some_le(last);
        if exists|p: int, j: int|
            0 <= p < slots.len() && 0 <= j < slots[p].len() && (#[trigger] slots[p][j]) is Some {
            let (p, j) = choose|p: int, j: int|
                0 <= p < slots.len() && 0 <= j < slots[p].len() && (#[trigger] slots[p][j]) is Some;
            if p == slots.len() - 1 {
                lemma_count_some_update(last, j, None);
            } else {
                assert(slots.drop_last()[p][j] is Some);
            }
        }
        if count_some(last) > 0 {
            let j = choose|j: int| 0 <= j < last.len() && last[j] is Some;
            assert(slots[slots.len() - 1][j] is Some);
        }
        if commands_held(slots.drop_last()) > 0 {
            let (p, j) = choose|p: int, j: int|
                0 <= p < slots.len() - 1 && 0 <= j < slots.drop_last()[p].len() && (#[trigger] slots.drop_last()[p][j]) is Some;
            assert(slots[p][j] is Some);
        }
    }
}

} // verus!

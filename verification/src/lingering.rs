//! Effects that last over several battle turns.
use vstd::prelude::*;

verus! {

/// Knocks out every active party member after a number of turns.
#[derive(PartialEq, Eq, Debug, Clone)]
pub struct DeathAllTurns {
    turn: u8,
    affected: Vec<(usize, usize)>,
}

impl DeathAllTurns {
    /// The number of turns left.
    pub closed spec fn turns_spec(&self) -> u8 {
        self.turn
    }

    /// The party and member indices of the affected party members.
    pub closed spec fn affected_spec(&self) -> Seq<(usize, usize)> {
        self.affected@
    }

    /// A new effect that lasts `turns` turns and affects no one yet.
    pub fn new(turns: u8) -> (r: Self)
        ensures
            r.turns_spec() == turns,
            r.affected_spec() == Seq::<(usize, usize)>::empty(),
    {
        DeathAllTurns { turn: turns, affected: Vec::new() }
    }

    /// The number of turns left.
    pub fn turns(&self) -> (r: u8)
        ensures
            r == self.turns_spec(),
    {
        self.turn
    }

    /// The party and member indices of the affected party members.
    pub fn affected(&self) -> (r: &[(usize, usize)])
        ensures
            r@ == self.affected_spec(),
    {
        self.affected.as_slice()
    }

    /// A copy of the effect.
    pub fn duplicate(&self) -> (r: Self)
        ensures
            r.turns_spec() == self.turns_spec(),
            r.affected_spec() == self.affected_spec(),
    {
        let mut affected: Vec<(usize, usize)> = Vec::new();
        let mut i: usize = 0;
        while i < self.affected.len()
            invariant
                0 <= i <= self.affected@.len(),
                affected@ == self.affected@.take(i as int),
            decreases self.affected@.len() - i,
        {
            affected.push(self.affected[i]);
            proof {
                assert(affected@ =~= self.affected@.take(i + 1));
            }
            i += 1;
        }
        proof {
            assert(affected@ =~= self.affected@);
        }
        DeathAllTurns { turn: self.turn, affected }
    }

    /// Counts down one turn. Returns `true` once no turns are left.
    pub fn state_change(&mut self) -> (r: bool)
        requires
            old(self).turns_spec() > 0,
        ensures
            final(self).turns_spec() == old(self).turns_spec() - 1,
            final(self).affected_spec() == old(self).affected_spec(),
            r == (final(self).turns_spec() == 0),
    {
        self.turn = self.turn - 1;
        self.turn == 0
    }

    /// Records every active member of every party as affected. `active_members[p][a]` is the
    /// member index of active slot `a` of party `p`.
    pub fn after_create(&mut self, active_members: &Vec<Vec<usize>>)
        ensures
            final(self).turns_spec() == old(self).turns_spec(),
            final(self).affected_spec() == old(self).affected_spec() + affected_all(
                active_members@.map_values(|v: Vec<usize>| v@),
            ),
    {
        let ghost parties = active_members@.map_values(|v: Vec<usize>| v@);
        let ghost start = self.affected@;
        let mut party_index: usize = 0;
        while party_index < active_members.len()
            invariant
                parties == active_members@.map_values(|v: Vec<usize>| v@),
                0 <= party_index <= active_members.len(),
                self.affected@ == start + affected_all(parties.take(party_index as int)),
                self.turn == old(self).turn,
            decreases active_members.len() - party_index,
        {
            let party = &active_members[party_index];
            let ghost before = self.affected@;
            let mut active_index: usize = 0;
            while active_index < party.len()
                invariant
                    0 <= active_index <= party.len(),
                    self.affected@ == before + affected_party(
                        party_index,
                        party@.take(active_index as int),
                    ),
                    self.turn == old(self).turn,
                decreases party.len() - active_index,
            {
                self.affected.push((party_index, party[active_index]));
                proof {
                    assert(party@.take(active_index + 1).drop_last() =~= party@.take(
                        active_index as int,
                    ));
                }
                active_index += 1;
            }
            proof {
                assert(party@.take(party.len() as int) =~= party@);
                assert(parties.take(party_index + 1).drop_last() =~= parties.take(
                    party_index as int,
                ));
                assert(parties[party_index as int] == party@);
                assert(self.affected@ =~= start + affected_all(
                    parties.take(party_index + 1),
                ));
            }
            party_index += 1;
        }
        proof {
            assert(parties.take(active_members.len() as int) =~= parties);
        }
    }

    /// Ends after a turn: always `true`.
    pub fn after_turn(&self) -> (r: bool)
        ensures
            r,
    {
        true
    }
}

/// The pairs `(party, member)` for every member of one party, in order.
pub open spec fn affected_party(party: usize, members: Seq<usize>) -> Seq<(usize, usize)>
    decreases members.len(),
{
    if members.len() == 0 {
        Seq::empty()
    } else {
        affected_party(party, members.drop_last()).push((party, members.last()))
    }
}

/// The pairs `(party, member)` for every active member of every party, party by party.
pub open spec fn affected_all(parties: Seq<Seq<usize>>) -> Seq<(usize, usize)>
    decreases parties.len(),
{
    if parties.len() == 0 {
        Seq::empty()
    } else {
        affected_all(parties.drop_last()) + affected_party(
            (parties.len() - 1) as usize,
            parties.last(),
        )
    }
}

/// A lingering effect.
#[derive(PartialEq, Eq, Debug, Clone)]
pub enum LingeringType {
    DeathAllTurns(DeathAllTurns),
}

impl LingeringType {
    /// Counts down one turn of the effect. Returns `true` once it has run its course.
    pub fn state_change(&mut self) -> (r: bool)
        requires
            match *old(self) {
                LingeringType::DeathAllTurns(d) => d.turns_spec() > 0,
            },
        ensures
            match (*old(self), *final(self)) {
                (LingeringType::DeathAllTurns(a), LingeringType::DeathAllTurns(b)) => {
                    &&& b.turns_spec() == a.turns_spec() - 1
                    &&& b.affected_spec() == a.affected_spec()
                    &&& r == (b.turns_spec() == 0)
                },
            },
    {
        match self {
            LingeringType::DeathAllTurns(d) => d.state_change(),
        }
    }

    /// Records the members that the effect affects when it is created. `active_members[p][a]` is
    /// the member index of active slot `a` of party `p`.
    pub fn after_create(&mut self, active_members: &Vec<Vec<usize>>)
        ensures
            match (*old(self), *final(self)) {
                (LingeringType::DeathAllTurns(a), LingeringType::DeathAllTurns(b)) => {
                    &&& b.turns_spec() == a.turns_spec()
                    &&& b.affected_spec() == a.affected_spec() + affected_all(
                        active_members@.map_values(|v: Vec<usize>| v@),
                    )
                },
            },
    {
        match self {
            LingeringType::DeathAllTurns(d) => d.after_create(active_members),
        }
    }

    /// A copy of the effect.
    pub fn duplicate(&self) -> (r: Self)
        ensures
            match (*self, r) {
                (LingeringType::DeathAllTurns(a), LingeringType::DeathAllTurns(b)) => {
                    &&& b.turns_spec() == a.turns_spec()
                    &&& b.affected_spec() == a.affected_spec()
                },
            },
    {
        match self {
            LingeringType::DeathAllTurns(d) => LingeringType::DeathAllTurns(d.duplicate()),
        }
    }

    /// Whether the effect counts down after each turn.
    pub fn after_turn(&self) -> (r: bool)
        ensures
            r,
    {
        match self {
            LingeringType::DeathAllTurns(d) => d.after_turn(),
        }
    }
}

} // verus!

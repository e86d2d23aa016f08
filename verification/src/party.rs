//! Parties of monsters and their active members in battle.
use vstd::prelude::*;

use crate::monster::Monster;
use crate::statmod::{StatModifiers, StatStages, apply_spec, base_ratio_spec, stages_zero};
use crate::types::{LimitType, StatType};

verus! {

/// A statistic scaled by the multiplier `ratio`, rounded down and capped at the largest
/// statistic.
pub open spec fn scaled_stat(stat: int, ratio: (int, int)) -> int {
    if stat * ratio.0 / ratio.1 > StatType::MAX {
        StatType::MAX as int
    } else {
        stat * ratio.0 / ratio.1
    }
}

/// An active party member: the monster and its statistic stages.
pub struct PartyMember<'a> {
    pub member: &'a Monster,
    pub modifiers: &'a StatModifiers,
}

impl<'a> PartyMember<'a> {
    /// `stat` scaled by the multiplier `num / den`.
    fn stat(stat: StatType, ratio: (u8, u8)) -> (r: StatType)
        requires
            ratio.1 > 0,
        ensures
            r == scaled_stat(stat as int, (ratio.0 as int, ratio.1 as int)),
    {
        assert(stat as u32 * ratio.0 as u32 <= 65535 * 255) by (nonlinear_arith)
            requires
                stat <= 65535,
                ratio.0 <= 255,
        ;
        let scaled: u32 = stat as u32 * ratio.0 as u32 / ratio.1 as u32;
        if scaled > StatType::MAX as u32 {
            StatType::MAX
        } else {
            scaled as StatType
        }
    }

    /// The attack statistic scaled by the attack stage.
    pub fn attack(&self) -> (r: StatType)
        ensures
            r == scaled_stat(
                self.member.values_spec().stats.attack as int,
                base_ratio_spec(self.modifiers@.attack as int),
            ),
    {
        PartyMember::stat(self.member.stat_attack(), self.modifiers.attack_ratio())
    }

    /// The defense statistic scaled by the defense stage.
    pub fn defense(&self) -> (r: StatType)
        ensures
            r == scaled_stat(
                self.member.values_spec().stats.defense as int,
                base_ratio_spec(self.modifiers@.defense as int),
            ),
    {
        PartyMember::stat(self.member.stat_defense(), self.modifiers.defense_ratio())
    }

    /// The special attack statistic scaled by the attack stage.
    pub fn sp_attack(&self) -> (r: StatType)
        ensures
            r == scaled_stat(
                self.member.values_spec().stats.sp_attack as int,
                base_ratio_spec(self.modifiers@.attack as int),
            ),
    {
        PartyMember::stat(self.member.stat_spattack(), self.modifiers.sp_attack_ratio())
    }

    /// The special defense statistic scaled by the defense stage.
    pub fn sp_defense(&self) -> (r: StatType)
        ensures
            r == scaled_stat(
                self.member.values_spec().stats.sp_defense as int,
                base_ratio_spec(self.modifiers@.defense as int),
            ),
    {
        PartyMember::stat(self.member.stat_spdefense(), self.modifiers.sp_defense_ratio())
    }

    /// The speed statistic scaled by the speed stage.
    pub fn speed(&self) -> (r: StatType)
        ensures
            r == scaled_stat(
                self.member.values_spec().stats.speed as int,
                base_ratio_spec(self.modifiers@.speed as int),
            ),
    {
        PartyMember::stat(self.member.stat_speed(), self.modifiers.speed_ratio())
    }

    pub fn modifiers(&self) -> (r: &'a StatModifiers)
        ensures
            r == self.modifiers,
    {
        self.modifiers
    }
}

/// An active slot that holds a party member.
#[derive(Debug, Clone, Copy)]
struct PartyMemberMeta {
    member: usize,
    modifiers: StatModifiers,
}

/// The indices of the members with health left, in order.
pub open spec fn alive_indices(members: Seq<Monster>) -> Seq<usize>
    decreases members.len(),
{
    if members.len() == 0 {
        Seq::empty()
    } else if members.last().health_spec() != 0 {
        alive_indices(members.drop_last()).push((members.len() - 1) as usize)
    } else {
        alive_indices(members.drop_last())
    }
}

/// There are no more alive indices than members.
proof fn lemma_alive_indices_len(members: Seq<Monster>)
    ensures
        alive_indices(members).len() <= members.len(),
    decreases members.len(),
{
    if members.len() > 0 {
        lemma_alive_indices_len(members.drop_last());
    }
}

/// The smaller of two numbers.
pub open spec fn min_nat(a: nat, b: nat) -> nat {
    if a < b {
        a
    } else {
        b
    }
}

/// A group of monsters on one side of a battle, some of which are active.
#[derive(Debug)]
pub struct Party {
    members: Vec<Monster>,
    active: Vec<Option<PartyMemberMeta>>,
    side: u8,
    gain_experience: bool,
    /// The number of members still alive, excluding the active ones.
    alive: usize,
    /// The number of members knocked out while active.
    switch_waiting: usize,
}

impl Party {
    #[verifier::type_invariant]
    spec fn inv(self) -> bool {
        forall|i: int|
            0 <= i < self.active@.len() && (#[trigger] self.active@[i]) is Some ==> self.active@[
                i
            ]->0.member < self.members@.len()
    }

    pub closed spec fn members_spec(&self) -> Seq<Monster> {
        self.members@
    }

    /// The member index held by each active slot.
    pub closed spec fn active_spec(&self) -> Seq<Option<usize>> {
        self.active@.map_values(
            |a: Option<PartyMemberMeta>|
                match a {
                    Some(m) => Some(m.member),
                    None => None,
                },
        )
    }

    /// The statistic stages of each active slot.
    pub closed spec fn active_modifiers_spec(&self) -> Seq<Option<StatStages>> {
        self.active@.map_values(
            |a: Option<PartyMemberMeta>|
                match a {
                    Some(m) => Some(m.modifiers@),
                    None => None,
                },
        )
    }

    pub closed spec fn side_spec(&self) -> u8 {
        self.side
    }

    pub closed spec fn gain_experience_spec(&self) -> bool {
        self.gain_experience
    }

    pub closed spec fn alive_spec(&self) -> usize {
        self.alive
    }

    pub closed spec fn switch_waiting_spec(&self) -> usize {
        self.switch_waiting
    }

    /// Creates a party whose first `out` members with health left become active, in order;
    /// the other members with health left wait.
    pub fn new(members: Vec<Monster>, side: u8, out: usize) -> (r: Self)
        ensures
            r.members_spec() == members@,
            r.side_spec() == side,
            r.gain_experience_spec(),
            r.switch_waiting_spec() == 0,
            r.active_spec().len() == min_nat(out as nat, alive_indices(members@).len()),
            forall|i: int|
                0 <= i < r.active_spec().len() ==> r.active_spec()[i] == Some(
                    alive_indices(members@)[i],
                ),
            forall|i: int|
                0 <= i < r.active_spec().len() ==> r.active_modifiers_spec()[i] == Some(
                    stages_zero(),
                ),
            r.alive_spec() == alive_indices(members@).len() - r.active_spec().len(),
    {
        let mut active: Vec<Option<PartyMemberMeta>> = Vec::new();
        let mut alive: usize = 0;
        let mut member_index: usize = 0;
        while member_index < members.len()
            invariant
                0 <= member_index <= members.len(),
                active@.len() == min_nat(
                    out as nat,
                    alive_indices(members@.take(member_index as int)).len(),
                ),
                forall|i: int|
                    #![trigger active@[i]]
                    0 <= i < active@.len() ==> active@[i] is Some && active@[i]->0.member
                        == alive_indices(members@.take(member_index as int))[i]
                        && active@[i]->0.modifiers@ == stages_zero(),
                alive == alive_indices(members@.take(member_index as int)).len()
                    - active@.len(),
                forall|i: int|
                    0 <= i < alive_indices(members@.take(member_index as int)).len()
                        ==> #[trigger] alive_indices(members@.take(member_index as int))[i]
                        < member_index,
            decreases members.len() - member_index,
        {
            proof {
                lemma_alive_indices_len(members@.take(member_index as int));
                let prefix = members@.take(member_index as int + 1);
                assert(prefix.drop_last() =~= members@.take(member_index as int));
                assert(prefix.last() == members@[member_index as int]);
            }
            if members[member_index].health() != 0 {
                if active.len() != out {
                    active.push(
                        Some(PartyMemberMeta { member: member_index, modifiers: StatModifiers::new() }),
                    );
                } else {
                    alive = alive + 1;
                }
            }
            member_index += 1;
        }
        proof {
            assert(members@.take(members@.len() as int) =~= members@);
        }
        let party = Party {
            members,
            active,
            side,
            gain_experience: true,
            alive,
            switch_waiting: 0,
        };
        party
    }

    pub fn side(&self) -> (r: u8)
        ensures
            r == self.side_spec(),
    {
        self.side
    }

    pub fn gain_experience(&self) -> (r: bool)
        ensures
            r == self.gain_experience_spec(),
    {
        self.gain_experience
    }

    pub fn member(&self, index: usize) -> (r: &Monster)
        requires
            index < self.members_spec().len(),
        ensures
            *r == self.members_spec()[index as int],
    {
        &self.members[index]
    }

    pub fn member_count(&self) -> (r: usize)
        ensures
            r == self.members_spec().len(),
    {
        self.members.len()
    }

    /// Removes the active slot at `index`.
    pub fn active_remove(&mut self, index: usize)
        requires
            index < old(self).active_spec().len(),
        ensures
            final(self).active_spec() == old(self).active_spec().remove(index as int),
            final(self).active_modifiers_spec() == old(self).active_modifiers_spec().remove(
                index as int,
            ),
            final(self).members_spec() == old(self).members_spec(),
            final(self).alive_spec() == old(self).alive_spec(),
            final(self).switch_waiting_spec() == old(self).switch_waiting_spec(),
            final(self).side_spec() == old(self).side_spec(),
    {
        proof {
            use_type_invariant(&*self);
        }
        let mut active = Vec::new();
        std::mem::swap(&mut active, &mut self.active);
        active.remove(index);
        self.active = active;
        proof {
            assert(self.active_spec() =~= old(self).active_spec().remove(index as int));
            assert(self.active_modifiers_spec() =~= old(self).active_modifiers_spec().remove(
                index as int,
            ));
        }
    }

    /// Returns true if some active slot holds the member at `index`.
    pub fn member_is_active(&self, index: usize) -> (r: bool)
        ensures
            r == self.active_spec().contains(Some(index)),
    {
        let mut i: usize = 0;
        while i < self.active.len()
            invariant
                0 <= i <= self.active@.len(),
                forall|j: int| 0 <= j < i ==> self.active_spec()[j] != Some(index),
            decreases self.active@.len() - i,
        {
            if let Some(meta) = &self.active[i] {
                if meta.member == index {
                    assert(self.active_spec()[i as int] == Some(index));
                    return true;
                }
            }
            i += 1;
        }
        false
    }

    /// Switches the member in the active slot `member` with the member at `target`.
    pub fn switch_active(&mut self, member: usize, target: usize)
        requires
            member < old(self).active_spec().len(),
            old(self).active_spec()[member as int] is Some,
            target < old(self).members_spec().len(),
        ensures
            final(self).members_spec() == members_switched(
                old(self).members_spec(),
                old(self).active_spec()[member as int]->0 as int,
                target as int,
            ),
            final(self).active_spec() == old(self).active_spec(),
            final(self).active_modifiers_spec() == old(self).active_modifiers_spec(),
            final(self).alive_spec() == old(self).alive_spec(),
            final(self).switch_waiting_spec() == old(self).switch_waiting_spec(),
            final(self).side_spec() == old(self).side_spec(),
    {
        proof {
            use_type_invariant(&*self);
        }
        let from = match &self.active[member] {
            Some(meta) => meta.member,
            None => {
                return ;
            },
        };
        if from != target {
            let (low, high) = if from < target {
                (from, target)
            } else {
                (target, from)
            };
            let ghost before = self.members@;
            let mut active = Vec::new();
            std::mem::swap(&mut active, &mut self.active);
            let mut members = Vec::new();
            std::mem::swap(&mut members, &mut self.members);
            let high_member = members.remove(high);
            let low_member = members.remove(low);
            members.insert(low, high_member);
            members.insert(high, low_member);
            self.members = members;
            self.active = active;
            proof {
                assert(self.members@ =~= before.update(from as int, before[target as int]).update(
                    target as int,
                    before[from as int],
                ));
            }
        } else {
            proof {
                assert(self.members@ =~= self.members@.update(from as int, self.members@[target as int]).update(
                    target as int,
                    self.members@[from as int],
                ));
            }
        }
    }

    /// The first active slot that is empty or whose member has no health left.
    pub fn switch_waiting(&self) -> (r: Option<usize>)
        ensures
            match r {
                Some(i) => i < self.active_spec().len() && self.slot_waiting(i as int) && forall|
                    j: int,
                | 0 <= j < i ==> !self.slot_waiting(j),
                None => forall|j: int| 0 <= j < self.active_spec().len() ==> !self.slot_waiting(j),
            },
    {
        proof {
            use_type_invariant(self);
        }
        let mut i: usize = 0;
        while i < self.active.len()
            invariant
                0 <= i <= self.active@.len(),
                forall|j: int| 0 <= j < i ==> !self.slot_waiting(j),
                self.inv(),
            decreases self.active@.len() - i,
        {
            let waiting = match &self.active[i] {
                Some(meta) => self.members[meta.member].health() == 0,
                None => true,
            };
            if waiting {
                return Some(i);
            }
            i += 1;
        }
        None
    }

    /// The active slot `index` is empty, or its member has no health left.
    pub open spec fn slot_waiting(&self, index: int) -> bool {
        match self.active_spec()[index] {
            Some(m) => self.members_spec()[m as int].health_spec() == 0,
            None => true,
        }
    }

    /// The member in the active slot `index`, with its stages, if the slot holds one.
    pub fn active_member(&self, index: usize) -> (r: Option<PartyMember<'_>>)
        requires
            index < self.active_spec().len(),
        ensures
            match self.active_spec()[index as int] {
                Some(m) => r is Some && *r->0.member == self.members_spec()[m as int] && Some(
                    r->0.modifiers@,
                ) == self.active_modifiers_spec()[index as int],
                None => r is None,
            },
    {
        proof {
            use_type_invariant(self);
        }
        match &self.active[index] {
            Some(meta) => Some(PartyMember { member: &self.members[meta.member], modifiers: &meta.modifiers }),
            None => None,
        }
    }

    /// The member in the active slot `index` if the slot holds one with health left.
    pub fn active_member_alive(&self, index: usize) -> (r: Option<PartyMember<'_>>)
        requires
            index < self.active_spec().len(),
        ensures
            match self.active_spec()[index as int] {
                Some(m) => if self.members_spec()[m as int].health_spec() != 0 {
                    r is Some && *r->0.member == self.members_spec()[m as int] && Some(
                        r->0.modifiers@,
                    ) == self.active_modifiers_spec()[index as int]
                } else {
                    r is None
                },
                None => r is None,
            },
    {
        match self.active_member(index) {
            Some(member) => {
                if member.member.health() != 0 {
                    Some(member)
                } else {
                    None
                }
            },
            None => None,
        }
    }

    /// The member index held by the active slot `index`.
    pub fn active_member_index(&self, index: usize) -> (r: Option<usize>)
        requires
            index < self.active_spec().len(),
        ensures
            r == self.active_spec()[index as int],
            r is Some ==> r->0 < self.members_spec().len(),
    {
        proof {
            use_type_invariant(self);
        }
        match &self.active[index] {
            Some(meta) => Some(meta.member),
            None => None,
        }
    }

    pub fn active_count(&self) -> (r: usize)
        ensures
            r == self.active_spec().len(),
    {
        self.active.len()
    }

    /// Puts the member at `target` into the active slot `active`, with its stages at 0.
    pub fn active_set(&mut self, active: usize, target: usize)
        requires
            active < old(self).active_spec().len(),
            target < old(self).members_spec().len(),
        ensures
            final(self).active_spec() == old(self).active_spec().update(active as int, Some(target)),
            final(self).active_modifiers_spec() == old(self).active_modifiers_spec().update(
                active as int,
                Some(stages_zero()),
            ),
            final(self).members_spec() == old(self).members_spec(),
            final(self).alive_spec() == old(self).alive_spec(),
            final(self).switch_waiting_spec() == old(self).switch_waiting_spec(),
            final(self).side_spec() == old(self).side_spec(),
    {
        proof {
            use_type_invariant(&*self);
        }
        let mut slots = Vec::new();
        std::mem::swap(&mut slots, &mut self.active);
        slots.set(active, Some(PartyMemberMeta { member: target, modifiers: StatModifiers::new() }));
        self.active = slots;
        proof {
            assert(self.active_spec() =~= old(self).active_spec().update(
                active as int,
                Some(target),
            ));
            assert(self.active_modifiers_spec() =~= old(self).active_modifiers_spec().update(
                active as int,
                Some(stages_zero()),
            ));
        }
    }

    /// Empties the active slot `active`.
    pub fn active_reset(&mut self, active: usize)
        requires
            active < old(self).active_spec().len(),
        ensures
            final(self).active_spec() == old(self).active_spec().update(active as int, None),
            final(self).active_modifiers_spec() == old(self).active_modifiers_spec().update(
                active as int,
                None,
            ),
            final(self).members_spec() == old(self).members_spec(),
            final(self).alive_spec() == old(self).alive_spec(),
            final(self).switch_waiting_spec() == old(self).switch_waiting_spec(),
            final(self).side_spec() == old(self).side_spec(),
    {
        proof {
            use_type_invariant(&*self);
        }
        let mut slots = Vec::new();
        std::mem::swap(&mut slots, &mut self.active);
        slots.set(active, None);
        self.active = slots;
        proof {
            assert(self.active_spec() =~= old(self).active_spec().update(active as int, None));
            assert(self.active_modifiers_spec() =~= old(self).active_modifiers_spec().update(
                active as int,
                None,
            ));
        }
    }

    /// The members of the party.
    pub fn members(&self) -> (r: &[Monster])
        ensures
            r@ == self.members_spec(),
    {
        self.members.as_slice()
    }

    /// The statistic stages of the active slot `index`.
    pub fn active_member_modifiers(&self, index: usize) -> (r: &StatModifiers)
        requires
            index < self.active_spec().len(),
            self.active_spec()[index as int] is Some,
        ensures
            Some(r@) == self.active_modifiers_spec()[index as int],
    {
        let meta = self.active[index].as_ref().unwrap();
        &meta.modifiers
    }

    /// Applies `modifiers` to the stages of the active slot `index`.
    pub fn active_member_modifiers_add(&mut self, index: usize, modifiers: &StatModifiers)
        requires
            index < old(self).active_spec().len(),
            old(self).active_spec()[index as int] is Some,
        ensures
            final(self).active_spec() == old(self).active_spec(),
            final(self).members_spec() == old(self).members_spec(),
            forall|i: int|
                0 <= i < old(self).active_spec().len() && i != index ==> final(self).active_modifiers_spec()[i] == old(self).active_modifiers_spec()[i],
            ({
                final(self).active_modifiers_spec()[index as int] is Some && apply_spec(
                    old(self).active_modifiers_spec()[index as int]->0,
                    modifiers@,
                    final(self).active_modifiers_spec()[index as int]->0,
                )
            }),
            final(self).alive_spec() == old(self).alive_spec(),
            final(self).switch_waiting_spec() == old(self).switch_waiting_spec(),
            final(self).side_spec() == old(self).side_spec(),
    {
        proof {
            use_type_invariant(&*self);
        }
        match self.active[index] {
            Some(meta) => {
                let mut changed = meta;
                changed.modifiers.apply(modifiers);
                let mut slots = Vec::new();
                std::mem::swap(&mut slots, &mut self.active);
                slots.set(index, Some(changed));
                self.active = slots;
                proof {
                    assert(self.active_spec() =~= old(self).active_spec());
                }
            },
            None => {},
        }
    }

    /// The member at `member` loses `amount` health. Returns true if it has no health left,
    /// and then counts it as waiting to be switched.
    pub fn active_member_lose_health(&mut self, member: usize, amount: StatType) -> (r: bool)
        requires
            member < old(self).members_spec().len(),
            old(self).switch_waiting_spec() < usize::MAX,
        ensures
            final(self).members_spec().len() == old(self).members_spec().len(),
            forall|i: int|
                0 <= i < old(self).members_spec().len() && i != member ==> final(self).members_spec()[i] == old(self).members_spec()[i],
            ({
                let o = old(self).members_spec()[member as int];
                let n = final(self).members_spec()[member as int];
                &&& n.health_spec() == if o.health_spec() >= amount {
                    o.health_spec() - amount
                } else {
                    0
                }
                &&& n.values_spec() == o.values_spec()
                &&& n.nick_spec() == o.nick_spec()
                &&& n.attacks_spec() == o.attacks_spec()
                &&& n.recruited_spec() == o.recruited_spec()
            }),
            r == (final(self).members_spec()[member as int].health_spec() == 0),
            final(self).switch_waiting_spec() == old(self).switch_waiting_spec() + if r {
                1int
            } else {
                0
            },
            final(self).active_spec() == old(self).active_spec(),
            final(self).active_modifiers_spec() == old(self).active_modifiers_spec(),
            final(self).alive_spec() == old(self).alive_spec(),
            final(self).side_spec() == old(self).side_spec(),
    {
        proof {
            use_type_invariant(&*self);
        }
        let mut active = Vec::new();
        std::mem::swap(&mut active, &mut self.active);
        let mut members = Vec::new();
        std::mem::swap(&mut members, &mut self.members);
        let mut target = members.remove(member);
        target.health_lose(amount);
        let dead = target.health() == 0;
        members.insert(member, target);
        self.members = members;
        self.active = active;
        if dead {
            self.switch_waiting = self.switch_waiting + 1;
        }
        dead
    }

    /// Uses up one use of the attack `attack` of the member at `member`.
    pub fn active_member_attack_limit_take(&mut self, member: usize, attack: usize)
        requires
            member < old(self).members_spec().len(),
            attack < old(self).members_spec()[member as int].attacks_spec().len(),
        ensures
            final(self).members_spec().len() == old(self).members_spec().len(),
            forall|i: int|
                0 <= i < old(self).members_spec().len() && i != member ==> final(self).members_spec()[i] == old(self).members_spec()[i],
            ({
                let o = old(self).members_spec()[member as int];
                let n = final(self).members_spec()[member as int];
                &&& n.health_spec() == o.health_spec()
                &&& n.values_spec() == o.values_spec()
                &&& n.attacks_spec().len() == o.attacks_spec().len()
                &&& forall|i: int|
                    0 <= i < o.attacks_spec().len() && i != attack ==> n.attacks_spec()[i]
                        == o.attacks_spec()[i]
                &&& n.attacks_spec()[attack as int].limit_left_spec() == if o.attacks_spec()[attack as int].limit_left_spec()
                    >= 1 {
                    o.attacks_spec()[attack as int].limit_left_spec() - 1
                } else {
                    0
                }
                &&& n.attacks_spec()[attack as int].meta_spec() == o.attacks_spec()[attack as int].meta_spec()
            }),
            final(self).active_spec() == old(self).active_spec(),
            final(self).active_modifiers_spec() == old(self).active_modifiers_spec(),
            final(self).alive_spec() == old(self).alive_spec(),
            final(self).switch_waiting_spec() == old(self).switch_waiting_spec(),
            final(self).side_spec() == old(self).side_spec(),
    {
        proof {
            use_type_invariant(&*self);
        }
        let mut active = Vec::new();
        std::mem::swap(&mut active, &mut self.active);
        let mut members = Vec::new();
        std::mem::swap(&mut members, &mut self.members);
        let mut target = members.remove(member);
        target.attack_limit_take(attack, 1 as LimitType);
        members.insert(member, target);
        self.members = members;
        self.active = active;
    }

    /// Gives the members back, ending the party.
    pub fn into_members(self) -> (r: Vec<Monster>)
        ensures
            r@ == self.members_spec(),
    {
        self.members
    }

    /// Whether some active slot holds a member with health left.
    pub fn active_are_alive(&self) -> (r: bool)
        ensures
            r == exists|i: int| 0 <= i < self.active_spec().len() && !#[trigger] self.slot_waiting(i),
    {
        match self.switch_waiting_all() {
            true => false,
            false => true,
        }
    }

    /// Whether every active slot is empty or holds a member with no health left.
    fn switch_waiting_all(&self) -> (r: bool)
        ensures
            r == forall|i: int| 0 <= i < self.active_spec().len() ==> #[trigger] self.slot_waiting(i),
    {
        proof {
            use_type_invariant(self);
        }
        let mut i: usize = 0;
        while i < self.active.len()
            invariant
                0 <= i <= self.active@.len(),
                forall|j: int| 0 <= j < i ==> #[trigger] self.slot_waiting(j),
                self.inv(),
            decreases self.active@.len() - i,
        {
            let waiting = match &self.active[i] {
                Some(meta) => self.members[meta.member].health() == 0,
                None => true,
            };
            if !waiting {
                proof {
                    assert(!self.slot_waiting(i as int));
                }
                return false;
            }
            i += 1;
        }
        true
    }

    /// The first active slot that holds the member at `member`.
    pub fn active_slot_of(&self, member: usize) -> (r: Option<usize>)
        ensures
            match r {
                Some(a) => a < self.active_spec().len() && self.active_spec()[a as int] == Some(member)
                    && forall|j: int| 0 <= j < a ==> self.active_spec()[j] != Some(member),
                None => forall|j: int|
                    0 <= j < self.active_spec().len() ==> self.active_spec()[j] != Some(member),
            },
    {
        let mut i: usize = 0;
        while i < self.active.len()
            invariant
                0 <= i <= self.active@.len(),
                forall|j: int| 0 <= j < i ==> self.active_spec()[j] != Some(member),
            decreases self.active@.len() - i,
        {
            let found = match &self.active[i] {
                Some(meta) => meta.member == member,
                None => false,
            };
            if found {
                return Some(i);
            }
            i += 1;
        }
        None
    }

    /// The number of members knocked out while active.
    pub fn switch_waiting_count(&self) -> (r: usize)
        ensures
            r == self.switch_waiting_spec(),
    {
        self.switch_waiting
    }

    /// The number of members with health left that are not active.
    pub fn member_waiting_count(&self) -> (r: usize)
        ensures
            r == self.alive_spec(),
    {
        self.alive
    }
}

/// The members after the members at `from` and `target` trade places.
pub open spec fn members_switched(members: Seq<Monster>, from: int, target: int) -> Seq<Monster> {
    members.update(from, members[target]).update(target, members[from])
}

/// A switch only reorders the members, and switching the same slot with the same member again
/// restores them.
pub proof fn lemma_switch_reorders(members: Seq<Monster>, from: int, target: int)
    requires
        0 <= from < members.len(),
        0 <= target < members.len(),
    ensures
        members_switched(members, from, target).to_multiset() == members.to_multiset(),
        members_switched(members_switched(members, from, target), from, target) == members,
{
    broadcast use vstd::seq_lib::to_multiset_update;
    broadcast use vstd::multiset::group_multiset_properties;

    let once = members.update(from, members[target]);
    assert(once.to_multiset() == members.to_multiset().insert(members[target]).remove(members[from]));
    assert(once.update(target, members[from]).to_multiset() == once.to_multiset().insert(
        members[from],
    ).remove(once[target]));
    if from == target {
        assert(members_switched(members, from, target) =~= members);
    } else {
        broadcast use vstd::seq_lib::to_multiset_contains;
        broadcast use vstd::multiset::group_multiset_axioms;

        assert(once[target] == members[target]);
        assert(members.contains(members[from]));
        assert(members.to_multiset().count(members[from]) > 0);
    }
    assert(members_switched(members, from, target).to_multiset() =~= members.to_multiset());
    assert(members_switched(members_switched(members, from, target), from, target) =~= members);
}

} // verus!

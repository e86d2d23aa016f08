//! An instance of a species.
use vstd::prelude::*;

use crate::attack::AttackMeta;
use crate::types::{
    AttackId,
    ExperienceType,
    FormId,
    GenderId,
    LevelType,
    LimitType,
    NatureId,
    PersonalityType,
    RecruitMethodId,
    SpeciesId,
    StatIndividualType,
    StatType,
    StatYieldType,
};

verus! {

/// The limit on the number of attacks a Monster can have.
pub const ATTACK_LIMIT: usize = 4;

pub type LimitUpgradeType = u8;

/// The highest level a monster can reach.
pub const LEVEL_MAX: LevelType = 100;

/// The most uses of an attack: its base limit plus a fifth of its upgrades, at most 255.
pub open spec fn limit_max_spec(limit: int, upgraded: int) -> int {
    if limit + upgraded / 5 > 255 {
        255
    } else {
        limit + upgraded / 5
    }
}

/// An attack known by a monster, with how many uses it has left.
#[derive(Debug, Clone, Copy, PartialEq, Eq, Structural)]
pub struct MonsterAttack {
    attack_type: AttackId,
    meta: AttackMeta,
    limit_left: LimitType,
    limit_upgraded: LimitUpgradeType,
}

impl MonsterAttack {
    pub closed spec fn attack_type_spec(&self) -> AttackId {
        self.attack_type
    }

    pub closed spec fn meta_spec(&self) -> AttackMeta {
        self.meta
    }

    pub closed spec fn limit_left_spec(&self) -> LimitType {
        self.limit_left
    }

    pub closed spec fn limit_upgraded_spec(&self) -> LimitUpgradeType {
        self.limit_upgraded
    }

    /// An attack with all of its uses left and no upgrades.
    pub fn new(attack_type: AttackId, meta: AttackMeta) -> (r: Self)
        ensures
            r.attack_type_spec() == attack_type,
            r.meta_spec() == meta,
            r.limit_left_spec() == meta.limit,
            r.limit_upgraded_spec() == 0,
    {
        MonsterAttack { attack_type, meta, limit_left: meta.limit, limit_upgraded: 0 }
    }

    /// The meta-data of the attack.
    pub fn attack(&self) -> (r: &AttackMeta)
        ensures
            *r == self.meta_spec(),
    {
        &self.meta
    }

    /// The identifier of the attack.
    pub fn attack_type(&self) -> (r: AttackId)
        ensures
            r == self.attack_type_spec(),
    {
        self.attack_type
    }

    /// Uses up `amount` uses, stopping at 0.
    pub fn limit_left_take(&mut self, amount: LimitType)
        ensures
            final(self).limit_left_spec() == if old(self).limit_left_spec() >= amount {
                old(self).limit_left_spec() - amount
            } else {
                0
            },
            final(self).attack_type_spec() == old(self).attack_type_spec(),
            final(self).meta_spec() == old(self).meta_spec(),
            final(self).limit_upgraded_spec() == old(self).limit_upgraded_spec(),
    {
        self.limit_left = self.limit_left.saturating_sub(amount);
    }

    /// The number of uses left.
    pub fn limit_left(&self) -> (r: LimitType)
        ensures
            r == self.limit_left_spec(),
    {
        self.limit_left
    }

    /// The most uses the attack can have: the base limit plus 0.2 per upgrade, rounded down.
    pub fn limit_max(&self) -> (r: LimitType)
        ensures
            r == limit_max_spec(self.meta_spec().limit as int, self.limit_upgraded_spec() as int),
    {
        let total: u16 = self.meta.limit as u16 + (self.limit_upgraded / 5) as u16;
        if total > 255 {
            255
        } else {
            total as u8
        }
    }
}

/// The values that make up a monster, as handed to `Monster::from_values`.
#[derive(Debug, Clone, Copy, PartialEq, Eq, Structural)]
pub struct MonsterValues {
    pub species: SpeciesId,
    pub form: FormId,
    pub level: LevelType,
    pub personality: PersonalityType,
    pub gender: GenderId,
    pub nature: NatureId,
    pub experience: ExperienceType,
    pub stats: Stats,
    pub yields: StatBytes,
    pub individuals: StatBytes,
}

/// The six statistics of a monster.
#[derive(Debug, Clone, Copy, PartialEq, Eq, Structural)]
pub struct Stats {
    pub health: StatType,
    pub attack: StatType,
    pub defense: StatType,
    pub sp_attack: StatType,
    pub sp_defense: StatType,
    pub speed: StatType,
}

/// A small value for each of the six statistics of a monster.
#[derive(Debug, Clone, Copy, PartialEq, Eq, Structural)]
pub struct StatBytes {
    pub health: u8,
    pub attack: u8,
    pub defense: u8,
    pub sp_attack: u8,
    pub sp_defense: u8,
    pub speed: u8,
}

/// An instance of a species.
#[derive(Debug)]
pub struct Monster {
    nick: String,
    values: MonsterValues,
    health: StatType,
    attacks: Vec<MonsterAttack>,
    recruited: Option<RecruitMethodId>,
}

impl Monster {
    /// The fixed values of the monster.
    pub closed spec fn values_spec(&self) -> MonsterValues {
        self.values
    }

    pub closed spec fn nick_spec(&self) -> Seq<char> {
        self.nick@
    }

    pub closed spec fn health_spec(&self) -> StatType {
        self.health
    }

    pub closed spec fn attacks_spec(&self) -> Seq<MonsterAttack> {
        self.attacks@
    }

    pub closed spec fn recruited_spec(&self) -> Option<RecruitMethodId> {
        self.recruited
    }

    /// The health statistic: the most health the monster can have.
    pub open spec fn stat_health_spec(&self) -> StatType {
        self.values_spec().stats.health
    }

    /// A monster with the given values and attacks, at full health and not recruited.
    pub fn from_values(nick: String, values: MonsterValues, attacks: Vec<MonsterAttack>) -> (r:
        Self)
        ensures
            r.nick_spec() == nick@,
            r.values_spec() == values,
            r.health_spec() == values.stats.health,
            r.attacks_spec() == attacks@,
            r.recruited_spec() == None::<RecruitMethodId>,
    {
        let health = values.stats.health;
        Monster { nick, values, health, attacks, recruited: None }
    }

    pub fn species(&self) -> (r: SpeciesId)
        ensures
            r == self.values_spec().species,
    {
        self.values.species
    }

    pub fn form(&self) -> (r: FormId)
        ensures
            r == self.values_spec().form,
    {
        self.values.form
    }

    /// Sets the form. `form_count` is the number of forms of the species.
    pub fn form_set(&mut self, form: FormId, form_count: usize)
        requires
            (form as int) < form_count,
        ensures
            final(self).values_spec() == (MonsterValues { form, ..old(self).values_spec() }),
            final(self).nick_spec() == old(self).nick_spec(),
            final(self).health_spec() == old(self).health_spec(),
            final(self).attacks_spec() == old(self).attacks_spec(),
            final(self).recruited_spec() == old(self).recruited_spec(),
    {
        self.values.form = form;
    }

    pub fn nick(&self) -> (r: &str)
        ensures
            r@ == self.nick_spec(),
    {
        self.nick.as_str()
    }

    pub fn nick_set(&mut self, nick: String)
        ensures
            final(self).nick_spec() == nick@,
            final(self).values_spec() == old(self).values_spec(),
            final(self).health_spec() == old(self).health_spec(),
            final(self).attacks_spec() == old(self).attacks_spec(),
            final(self).recruited_spec() == old(self).recruited_spec(),
    {
        self.nick = nick;
    }

    pub fn level(&self) -> (r: LevelType)
        ensures
            r == self.values_spec().level,
    {
        self.values.level
    }

    pub fn personality(&self) -> (r: PersonalityType)
        ensures
            r == self.values_spec().personality,
    {
        self.values.personality
    }

    pub fn gender(&self) -> (r: GenderId)
        ensures
            r == self.values_spec().gender,
    {
        self.values.gender
    }

    pub fn nature(&self) -> (r: NatureId)
        ensures
            r == self.values_spec().nature,
    {
        self.values.nature
    }

    pub fn experience_total(&self) -> (r: ExperienceType)
        ensures
            r == self.values_spec().experience,
    {
        self.values.experience
    }

    pub fn stat_health(&self) -> (r: StatType)
        ensures
            r == self.values_spec().stats.health,
    {
        self.values.stats.health
    }

    pub fn stat_attack(&self) -> (r: StatType)
        ensures
            r == self.values_spec().stats.attack,
    {
        self.values.stats.attack
    }

    pub fn stat_defense(&self) -> (r: StatType)
        ensures
            r == self.values_spec().stats.defense,
    {
        self.values.stats.defense
    }

    pub fn stat_spattack(&self) -> (r: StatType)
        ensures
            r == self.values_spec().stats.sp_attack,
    {
        self.values.stats.sp_attack
    }

    pub fn stat_spdefense(&self) -> (r: StatType)
        ensures
            r == self.values_spec().stats.sp_defense,
    {
        self.values.stats.sp_defense
    }

    pub fn stat_speed(&self) -> (r: StatType)
        ensures
            r == self.values_spec().stats.speed,
    {
        self.values.stats.speed
    }

    pub fn yield_health(&self) -> (r: StatYieldType)
        ensures
            r == self.values_spec().yields.health,
    {
        self.values.yields.health
    }

    pub fn yield_attack(&self) -> (r: StatYieldType)
        ensures
            r == self.values_spec().yields.attack,
    {
        self.values.yields.attack
    }

    pub fn yield_defense(&self) -> (r: StatYieldType)
        ensures
            r == self.values_spec().yields.defense,
    {
        self.values.yields.defense
    }

    pub fn yield_spattack(&self) -> (r: StatYieldType)
        ensures
            r == self.values_spec().yields.sp_attack,
    {
        self.values.yields.sp_attack
    }

    pub fn yield_spdefense(&self) -> (r: StatYieldType)
        ensures
            r == self.values_spec().yields.sp_defense,
    {
        self.values.yields.sp_defense
    }

    pub fn yield_speed(&self) -> (r: StatYieldType)
        ensures
            r == self.values_spec().yields.speed,
    {
        self.values.yields.speed
    }

    pub fn individual_health(&self) -> (r: StatIndividualType)
        ensures
            r == self.values_spec().individuals.health,
    {
        self.values.individuals.health
    }

    pub fn individual_attack(&self) -> (r: StatIndividualType)
        ensures
            r == self.values_spec().individuals.attack,
    {
        self.values.individuals.attack
    }

    pub fn individual_defense(&self) -> (r: StatIndividualType)
        ensures
            r == self.values_spec().individuals.defense,
    {
        self.values.individuals.defense
    }

    pub fn individual_spattack(&self) -> (r: StatIndividualType)
        ensures
            r == self.values_spec().individuals.sp_attack,
    {
        self.values.individuals.sp_attack
    }

    pub fn individual_spdefense(&self) -> (r: StatIndividualType)
        ensures
            r == self.values_spec().individuals.sp_defense,
    {
        self.values.individuals.sp_defense
    }

    pub fn individual_speed(&self) -> (r: StatIndividualType)
        ensures
            r == self.values_spec().individuals.speed,
    {
        self.values.individuals.speed
    }

    pub fn health(&self) -> (r: StatType)
        ensures
            r == self.health_spec(),
    {
        self.health
    }

    /// Loses `damage` health, stopping at 0.
    pub fn health_lose(&mut self, damage: StatType)
        ensures
            final(self).health_spec() == if old(self).health_spec() >= damage {
                old(self).health_spec() - damage
            } else {
                0
            },
            final(self).values_spec() == old(self).values_spec(),
            final(self).nick_spec() == old(self).nick_spec(),
            final(self).attacks_spec() == old(self).attacks_spec(),
            final(self).recruited_spec() == old(self).recruited_spec(),
    {
        self.health = self.health.saturating_sub(damage);
    }

    /// Gains `gain` health, stopping at the health statistic.
    pub fn health_gain(&mut self, gain: StatType)
        requires
            old(self).health_spec() + gain <= StatType::MAX,
        ensures
            final(self).health_spec() == if old(self).health_spec() + gain > old(self).stat_health_spec() {
                old(self).stat_health_spec() as int
            } else {
                old(self).health_spec() + gain
            },
            final(self).values_spec() == old(self).values_spec(),
            final(self).nick_spec() == old(self).nick_spec(),
            final(self).attacks_spec() == old(self).attacks_spec(),
            final(self).recruited_spec() == old(self).recruited_spec(),
    {
        self.health = self.health + gain;
        if self.health > self.values.stats.health {
            self.health = self.values.stats.health;
        }
    }

    /// Restores health to the health statistic.
    pub fn health_restore(&mut self)
        ensures
            final(self).health_spec() == old(self).stat_health_spec(),
            final(self).values_spec() == old(self).values_spec(),
            final(self).nick_spec() == old(self).nick_spec(),
            final(self).attacks_spec() == old(self).attacks_spec(),
            final(self).recruited_spec() == old(self).recruited_spec(),
    {
        self.health = self.values.stats.health;
    }

    /// Adds `amount` experience and raises the level while the experience reaches the next
    /// level, up to level 100, where the experience is set to that of level 100.
    /// `growth[l]` is the experience needed for level `l`.
    pub fn experience_add(&mut self, amount: ExperienceType, growth: &Vec<ExperienceType>)
        requires
            growth.len() > LEVEL_MAX,
            old(self).values_spec().level <= LEVEL_MAX,
            old(self).values_spec().level < LEVEL_MAX ==> old(self).values_spec().experience
                + amount <= ExperienceType::MAX,
        ensures
            ({
                let o = old(self).values_spec();
                let n = final(self).values_spec();
                &&& n == (MonsterValues { level: n.level, experience: n.experience, ..o })
                &&& if o.level == LEVEL_MAX {
                    n == o
                } else {
                    &&& n.level == level_reached(growth@, o.experience + amount, o.level as int)
                    &&& n.experience == if n.level == LEVEL_MAX {
                        growth@[LEVEL_MAX as int] as int
                    } else {
                        o.experience + amount
                    }
                }
            }),
            final(self).nick_spec() == old(self).nick_spec(),
            final(self).health_spec() == old(self).health_spec(),
            final(self).attacks_spec() == old(self).attacks_spec(),
            final(self).recruited_spec() == old(self).recruited_spec(),
    {
        if self.values.level != LEVEL_MAX {
            self.values.experience = self.values.experience + amount;
            let total = self.values.experience;
            let ghost start = self.values.level;
            while self.values.level != LEVEL_MAX && self.values.experience >= growth[(
            self.values.level + 1) as usize]
                invariant
                    growth.len() > LEVEL_MAX,
                    start <= self.values.level <= LEVEL_MAX,
                    level_reached(growth@, total as int, start as int) == level_reached(
                        growth@,
                        total as int,
                        self.values.level as int,
                    ),
                    self.values == (MonsterValues {
                        level: self.values.level,
                        experience: self.values.experience,
                        ..old(self).values
                    }),
                    old(self).values.level == start,
                    self.values.experience == if self.values.level == LEVEL_MAX {
                        growth@[LEVEL_MAX as int]
                    } else {
                        total
                    },
                    self.nick == old(self).nick,
                    self.health == old(self).health,
                    self.attacks == old(self).attacks,
                    self.recruited == old(self).recruited,
                decreases LEVEL_MAX - self.values.level,
            {
                self.values.level = self.values.level + 1;
                if self.values.level == LEVEL_MAX {
                    self.values.experience = growth[LEVEL_MAX as usize];
                }
            }
        }
    }

    pub fn attacks(&self) -> (r: &[MonsterAttack])
        ensures
            r@ == self.attacks_spec(),
    {
        self.attacks.as_slice()
    }

    /// Uses up `amount` uses of the attack at `index`.
    pub fn attack_limit_take(&mut self, index: usize, amount: LimitType)
        requires
            index < old(self).attacks_spec().len(),
        ensures
            final(self).attacks_spec().len() == old(self).attacks_spec().len(),
            forall|i: int|
                0 <= i < old(self).attacks_spec().len() && i != index ==> final(self).attacks_spec()[i] == old(self).attacks_spec()[i],
            final(self).attacks_spec()[index as int].limit_left_spec() == if old(self).attacks_spec()[index as int].limit_left_spec() >= amount {
                old(self).attacks_spec()[index as int].limit_left_spec() - amount
            } else {
                0
            },
            final(self).attacks_spec()[index as int].attack_type_spec() == old(self).attacks_spec()[index as int].attack_type_spec(),
            final(self).attacks_spec()[index as int].meta_spec() == old(self).attacks_spec()[index as int].meta_spec(),
            final(self).attacks_spec()[index as int].limit_upgraded_spec() == old(self).attacks_spec()[index as int].limit_upgraded_spec(),
            final(self).values_spec() == old(self).values_spec(),
            final(self).nick_spec() == old(self).nick_spec(),
            final(self).health_spec() == old(self).health_spec(),
            final(self).recruited_spec() == old(self).recruited_spec(),
    {
        let mut attack = self.attacks[index];
        attack.limit_left_take(amount);
        self.attacks.set(index, attack);
    }

    /// Removes the attack at `index`.
    pub fn attack_remove(&mut self, index: usize)
        requires
            index < old(self).attacks_spec().len(),
        ensures
            final(self).attacks_spec() == old(self).attacks_spec().remove(index as int),
            final(self).values_spec() == old(self).values_spec(),
            final(self).nick_spec() == old(self).nick_spec(),
            final(self).health_spec() == old(self).health_spec(),
            final(self).recruited_spec() == old(self).recruited_spec(),
    {
        self.attacks.remove(index);
    }

    pub fn recruited(&self) -> (r: bool)
        ensures
            r == self.recruited_spec() is Some,
    {
        self.recruited.is_some()
    }

    pub fn recruit_method(&self) -> (r: RecruitMethodId)
        requires
            self.recruited_spec() is Some,
        ensures
            r == self.recruited_spec().unwrap(),
    {
        self.recruited.unwrap()
    }
}

/// The level that a monster at `level` with `experience` reaches: one level up for as long as
/// the experience reaches the next level, up to level 100.
pub open spec fn level_reached(growth: Seq<ExperienceType>, experience: int, level: int) -> int
    decreases LEVEL_MAX - level,
{
    if level >= LEVEL_MAX || level < 0 {
        level
    } else if experience >= growth[level + 1] {
        level_reached(growth, experience, level + 1)
    } else {
        level
    }
}

/// Gaining experience never lowers the level, and never raises it past level 100.
pub proof fn lemma_level_reached_bounds(growth: Seq<ExperienceType>, experience: int, level: int)
    requires
        0 <= level <= LEVEL_MAX,
    ensures
        level <= level_reached(growth, experience, level) <= LEVEL_MAX,
    decreases LEVEL_MAX - level,
{
    if level < LEVEL_MAX && experience >= growth[level + 1] {
        lemma_level_reached_bounds(growth, experience, level + 1);
    }
}

/// The attacks learnable at one level: a list for each form.
pub type LearnableLevel = (LevelType, Vec<Vec<AttackId>>);

/// The position of the last entry whose level is at most `level`, among the first `n`.
pub open spec fn last_at_most(l: Seq<LearnableLevel>, level: LevelType, n: nat) -> Option<nat>
    decreases n,
{
    if n == 0 {
        None
    } else if l[n - 1].0 <= level {
        Some((n - 1) as nat)
    } else {
        last_at_most(l, level, (n - 1) as nat)
    }
}

/// `acc` with the attacks of `list` put in front one by one, until it holds `ATTACK_LIMIT`.
pub open spec fn prepend_upto(acc: Seq<AttackId>, list: Seq<AttackId>) -> Seq<AttackId>
    decreases list.len(),
{
    if list.len() == 0 || acc.len() >= ATTACK_LIMIT {
        acc
    } else {
        prepend_upto(seq![list[0]] + acc, list.drop_first())
    }
}

/// The attacks of form `form` from the entry `i` down to the first, the later ones in front,
/// until there are `ATTACK_LIMIT` of them.
pub open spec fn collect_attacks(l: Seq<LearnableLevel>, form: FormId, i: nat, acc: Seq<AttackId>) -> Seq<
    AttackId,
>
    decreases i,
{
    let acc2 = prepend_upto(acc, l[i as int].1@[form as int]@);
    if acc2.len() >= ATTACK_LIMIT || i == 0 {
        acc2
    } else {
        collect_attacks(l, form, (i - 1) as nat, acc2)
    }
}

/// Each entry that the collection visits has a list for form `form`.
pub open spec fn collect_fits(l: Seq<LearnableLevel>, form: FormId, i: nat, acc: Seq<AttackId>) -> bool
    decreases i,
{
    &&& form < l[i as int].1@.len()
    &&& {
        let acc2 = prepend_upto(acc, l[i as int].1@[form as int]@);
        acc2.len() >= ATTACK_LIMIT || i == 0 || collect_fits(l, form, (i - 1) as nat, acc2)
    }
}

/// The attacks that a new monster of level `level` and form `form` knows: starting from the last
/// entry whose level is at most its level and going down, the attacks of its form, the later
/// ones first, up to `ATTACK_LIMIT`. For a list sorted by level, as a species' list of learnable
/// attacks is, the starting entry is the one that a binary search by level finds.
pub open spec fn learned_spec(l: Seq<LearnableLevel>, level: LevelType, form: FormId) -> Seq<AttackId> {
    collect_attacks(l, form, last_at_most(l, level, l.len())->0, Seq::empty())
}

proof fn lemma_last_at_most(l: Seq<LearnableLevel>, level: LevelType, n: nat)
    requires
        n <= l.len(),
    ensures
        last_at_most(l, level, n) matches Some(i) ==> i < n && l[i as int].0 <= level,
    decreases n,
{
    if n > 0 {
        lemma_last_at_most(l, level, (n - 1) as nat);
    }
}

/// Puts the attacks of `list` in front of `acc` one by one, until it holds `ATTACK_LIMIT`.
fn prepend_attacks(acc: &mut Vec<AttackId>, list: &Vec<AttackId>)
    requires
        old(acc)@.len() <= ATTACK_LIMIT,
    ensures
        final(acc)@ == prepend_upto(old(acc)@, list@),
        final(acc)@.len() <= ATTACK_LIMIT,
{
    let mut k: usize = 0;
    proof {
        assert(list@.skip(0) =~= list@);
    }
    while k < list.len() && acc.len() < ATTACK_LIMIT
        invariant
            0 <= k <= list@.len(),
            acc@.len() <= ATTACK_LIMIT,
            prepend_upto(acc@, list@.skip(k as int)) == prepend_upto(old(acc)@, list@),
        decreases list@.len() - k,
    {
        proof {
            assert(list@.skip(k as int).drop_first() =~= list@.skip(k + 1));
            assert(list@.skip(k as int)[0] == list@[k as int]);
        }
        let ghost prev = acc@;
        acc.insert(0, list[k]);
        proof {
            assert(acc@ =~= seq![list@[k as int]] + prev);
        }
        k += 1;
    }
    proof {
        if k == list@.len() {
            assert(list@.skip(k as int).len() == 0);
        }
    }
}

/// The attacks that a new monster of level `level` and form `form` knows, from the learnable
/// attacks of its species.
pub fn learned_attacks(learnable: &[LearnableLevel], level: LevelType, form: FormId) -> (r: Vec<
    AttackId,
>)
    requires
        last_at_most(learnable@, level, learnable@.len()) is Some,
        collect_fits(
            learnable@,
            form,
            last_at_most(learnable@, level, learnable@.len())->0,
            Seq::empty(),
        ),
    ensures
        r@ == learned_spec(learnable@, level, form),
        r@.len() <= ATTACK_LIMIT,
{
    let mut i = learnable.len();
    while i > 0 && learnable[i - 1].0 > level
        invariant
            i <= learnable@.len(),
            last_at_most(learnable@, level, i as nat) == last_at_most(
                learnable@,
                level,
                learnable@.len(),
            ),
        decreases i,
    {
        i -= 1;
    }
    proof {
        lemma_last_at_most(learnable@, level, learnable@.len());
    }
    let mut index = i - 1;
    let mut acc: Vec<AttackId> = Vec::new();
    loop
        invariant
            index < learnable@.len(),
            acc@.len() < ATTACK_LIMIT,
            collect_fits(learnable@, form, index as nat, acc@),
            collect_attacks(learnable@, form, index as nat, acc@) == learned_spec(
                learnable@,
                level,
                form,
            ),
        decreases index,
    {
        prepend_attacks(&mut acc, &learnable[index].1[form as usize]);
        if acc.len() >= ATTACK_LIMIT || index == 0 {
            return acc;
        }
        index -= 1;
    }
}


impl Monster {
    /// A new monster from values already drawn for it: at full health, not recruited, knowing
    /// the attacks that a monster of its level and form learns from `learnable` (each with all
    /// of its uses left), where `metas` holds the meta-data of every attack by identifier.
    pub fn from_draws(
        nick: String,
        values: MonsterValues,
        learnable: &[LearnableLevel],
        metas: &[AttackMeta],
    ) -> (r: Self)
        requires
            last_at_most(learnable@, values.level, learnable@.len()) is Some,
            collect_fits(
                learnable@,
                values.form,
                last_at_most(learnable@, values.level, learnable@.len())->0,
                Seq::empty(),
            ),
            forall|k: int|
                0 <= k < learned_spec(learnable@, values.level, values.form).len() ==> (
                #[trigger] learned_spec(learnable@, values.level, values.form)[k] as int)
                    < metas@.len(),
        ensures
            r.nick_spec() == nick@,
            r.values_spec() == values,
            r.health_spec() == values.stats.health,
            r.recruited_spec() == None::<RecruitMethodId>,
            r.attacks_spec().len() == learned_spec(learnable@, values.level, values.form).len(),
            forall|k: int|
                0 <= k < r.attacks_spec().len() ==> {
                    let id = learned_spec(learnable@, values.level, values.form)[k];
                    &&& (#[trigger] r.attacks_spec()[k]).attack_type_spec() == id
                    &&& r.attacks_spec()[k].meta_spec() == metas@[id as int]
                    &&& r.attacks_spec()[k].limit_left_spec() == metas@[id as int].limit
                    &&& r.attacks_spec()[k].limit_upgraded_spec() == 0
                },
    {
        let ids = learned_attacks(learnable, values.level, values.form);
        let mut attacks: Vec<MonsterAttack> = Vec::new();
        let mut k: usize = 0;
        while k < ids.len()
            invariant
                k <= ids@.len(),
                ids@ == learned_spec(learnable@, values.level, values.form),
                forall|j: int| 0 <= j < ids@.len() ==> (#[trigger] ids@[j] as int) < metas@.len(),
                attacks@.len() == k,
                forall|j: int|
                    0 <= j < k ==> {
                        &&& (#[trigger] attacks@[j]).attack_type_spec() == ids@[j]
                        &&& attacks@[j].meta_spec() == metas@[ids@[j] as int]
                        &&& attacks@[j].limit_left_spec() == metas@[ids@[j] as int].limit
                        &&& attacks@[j].limit_upgraded_spec() == 0
                    },
            decreases ids@.len() - k,
        {
            let id = ids[k];
            proof {
                assert(ids@[k as int] == id);
            }
            attacks.push(MonsterAttack::new(id, metas[id as usize]));
            k += 1;
        }
        Monster::from_values(nick, values, attacks)
    }
}

} // verus!

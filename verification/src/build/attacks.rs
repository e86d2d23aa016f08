//! Generates the `AttackType` enum, the effect of each attack and the list of attack meta-data.
use vstd::prelude::*;

use crate::build::compiler::ADDITIONAL_ARGS;
use crate::build::text::{
    chars_of,
    decimal,
    push_char,
    push_decimal,
    push_signed,
    same_text,
    signed_decimal,
    to_upper,
    upper_case,
};
use crate::build::util::{
    IdNamePair,
    IdResource,
    Identifiable,
    constants_text,
    covers,
    disclaimer_text,
    enum_text,
    escaped_literal,
    find_id,
    first_with_id,
    gen_constants,
    gen_rust_enum,
    has_id,
    ident,
    lemma_find_is_first,
    result_text,
    sequential,
    sequential_spec,
    write_disclaimer,
    write_utf8_escaped,
};
use crate::build::{BuildResult, CodeGenerate, CodeGenerateGroup, Error};
use crate::types::{AttackId, LimitType, PowerType, PriorityType};

verus! {

/// The side that an attack targets by default.
pub fn default_side() -> (r: String)
    ensures
        r@ == "Enemy"@,
{
    String::from_str("Enemy")
}

/// The range that an attack targets by default.
pub fn default_range() -> (r: String)
    ensures
        r@ == "Adjacent"@,
{
    String::from_str("Adjacent")
}

/// Whom an attack may target: a side (`Enemy`, `Ally` or `All`), a range (`Adjacent`, `Opposite`
/// or `All`), whether it may target its user, and whether it hits several members.
#[derive(Debug, Clone, PartialEq, Eq)]
pub struct Target {
    side: String,
    range: String,
    includes_self: bool,
    multi: bool,
}

impl Target {
    pub closed spec fn side_spec(&self) -> Seq<char> {
        self.side@
    }

    pub closed spec fn range_spec(&self) -> Seq<char> {
        self.range@
    }

    pub closed spec fn includes_self_spec(&self) -> bool {
        self.includes_self
    }

    pub closed spec fn multi_spec(&self) -> bool {
        self.multi
    }

    pub fn new(side: String, range: String, includes_self: bool, multi: bool) -> (r: Self)
        ensures
            r.side_spec() == side@,
            r.range_spec() == range@,
            r.includes_self_spec() == includes_self,
            r.multi_spec() == multi,
    {
        Target { side, range, includes_self, multi }
    }
}

impl Default for Target {
    /// Targets an adjacent enemy.
    fn default() -> (r: Target)
        ensures
            r.side_spec() == "Enemy"@,
            r.range_spec() == "Adjacent"@,
            !r.includes_self_spec(),
            !r.multi_spec(),
    {
        Target { side: default_side(), range: default_range(), includes_self: false, multi: false }
    }
}

/// An attack as its resource file defines it. The accuracy is kept as the text that the generated
/// code writes for it.
#[derive(Debug, Clone, PartialEq, Eq)]
pub struct Attack {
    name: String,
    internal: Option<String>,
    id: AttackId,
    description: String,
    element: String,
    category: String,
    power: PowerType,
    accuracy: String,
    limit: LimitType,
    priority: PriorityType,
    target: Target,
    effect: Option<String>,
}

impl Identifiable for Attack {
    closed spec fn name_spec(&self) -> Seq<char> {
        self.name@
    }

    closed spec fn internal_spec(&self) -> Option<Seq<char>> {
        match self.internal {
            Some(s) => Some(s@),
            None => None,
        }
    }

    fn name(&self) -> (r: &String) {
        &self.name
    }

    fn internal(&self) -> (r: Option<&String>) {
        self.internal.as_ref()
    }
}

impl IdResource for Attack {
    closed spec fn id_spec(&self) -> u64 {
        self.id as u64
    }

    fn id(&self) -> (r: u64) {
        self.id as u64
    }
}

/// The resource file of one attack.
#[derive(Debug, Clone, PartialEq, Eq)]
pub struct AttackFile {
    pub attack: Attack,
}

/// The effect of an attack that names none: damage unless it misses.
pub open spec fn default_effect() -> Seq<char> {
    "miss_or(data, |data| { damage(data) })"@
}

impl Attack {
    pub closed spec fn description_spec(&self) -> Seq<char> {
        self.description@
    }

    pub closed spec fn element_spec(&self) -> Seq<char> {
        self.element@
    }

    pub closed spec fn category_spec(&self) -> Seq<char> {
        self.category@
    }

    pub closed spec fn power_spec(&self) -> PowerType {
        self.power
    }

    pub closed spec fn accuracy_spec(&self) -> Seq<char> {
        self.accuracy@
    }

    pub closed spec fn limit_spec(&self) -> LimitType {
        self.limit
    }

    pub closed spec fn priority_spec(&self) -> PriorityType {
        self.priority
    }

    pub closed spec fn target_spec(&self) -> Target {
        self.target
    }

    /// The effect expression of the attack.
    pub closed spec fn effect_spec(&self) -> Seq<char> {
        match self.effect {
            Some(e) => e@,
            None => default_effect(),
        }
    }

    pub fn new(
        id: AttackId,
        name: String,
        internal: Option<String>,
        description: String,
        element: String,
        category: String,
        power: PowerType,
        accuracy: String,
        limit: LimitType,
        priority: PriorityType,
        target: Target,
        effect: Option<String>,
    ) -> (r: Self)
        ensures
            r.id_spec() == id,
            r.name_spec() == name@,
            r.internal_spec() == match internal {
                Some(s) => Some(s@),
                None => None,
            },
            r.description_spec() == description@,
            r.element_spec() == element@,
            r.category_spec() == category@,
            r.power_spec() == power,
            r.accuracy_spec() == accuracy@,
            r.limit_spec() == limit,
            r.priority_spec() == priority,
            r.target_spec() == target,
            r.effect_spec() == match effect {
                Some(e) => e@,
                None => default_effect(),
            },
    {
        Attack {
            name,
            internal,
            id,
            description,
            element,
            category,
            power,
            accuracy,
            limit,
            priority,
            target,
            effect,
        }
    }
}

/// `s` with every occurrence of `pat`, read from left to right, replaced by `rep`.
pub open spec fn replace_all(s: Seq<char>, pat: Seq<char>, rep: Seq<char>) -> Seq<char>
    decreases s.len(),
{
    if s.len() == 0 {
        Seq::empty()
    } else if pat.len() > 0 && s.len() >= pat.len() && s.take(pat.len() as int) == pat {
        rep + replace_all(s.skip(pat.len() as int), pat, rep)
    } else {
        seq![s[0]] + replace_all(s.skip(1), pat, rep)
    }
}

/// Appends `s` with every occurrence of `pat` replaced by `rep` (`str::replace`).
pub fn push_replace(out: &mut String, s: &str, pat: &str, rep: &str)
    requires
        pat@.len() > 0,
    ensures
        final(out)@ == old(out)@ + replace_all(s@, pat@, rep@),
{
    let c = chars_of(s);
    let p = chars_of(pat);
    let n = c.len();
    let k = p.len();
    let mut i: usize = 0;
    proof {
        assert(s@.skip(0) =~= s@);
    }
    while i < n
        invariant
            c@ == s@,
            p@ == pat@,
            n == c@.len(),
            k == p@.len(),
            k > 0,
            0 <= i <= n,
            old(out)@ + replace_all(s@, pat@, rep@) == out@ + replace_all(s@.skip(i as int), pat@, rep@),
        decreases n - i,
    {
        let ghost rest = s@.skip(i as int);
        let mut matched = k <= n - i;
        let mut j: usize = 0;
        while matched && j < k
            invariant
                c@ == s@,
                p@ == pat@,
                n == c@.len(),
                k == p@.len(),
                0 <= i < n,
                0 <= j <= k,
                rest == s@.skip(i as int),
                matched ==> i + k <= n,
                matched ==> forall|x: int| 0 <= x < j ==> c@[i + x] == p@[x],
                !matched ==> !(rest.len() >= k && rest.take(k as int) == pat@),
            decreases k - j + if matched {
                1int
            } else {
                0int
            },
        {
            if c[i + j] != p[j] {
                matched = false;
                proof {
                    if rest.len() >= k && rest.take(k as int) == pat@ {
                        assert(rest.take(k as int)[j as int] == c@[i + j]);
                    }
                }
            } else {
                j += 1;
            }
        }
        if matched {
            proof {
                assert(rest.take(k as int) =~= pat@);
                assert(rest.skip(k as int) =~= s@.skip(i + k));
            }
            out.append(rep);
            i += k;
        } else {
            proof {
                assert(rest.skip(1) =~= s@.skip(i + 1));
                assert(rest[0] == c@[i as int]);
            }
            push_char(out, c[i]);
            i += 1;
        }
        proof {
            assert(old(out)@ + replace_all(s@, pat@, rep@) =~= out@ + replace_all(
                s@.skip(i as int),
                pat@,
                rep@,
            ));
        }
    }
    proof {
        assert(s@.skip(n as int) =~= Seq::<char>::empty());
        assert(old(out)@ + replace_all(s@, pat@, rep@) =~= out@);
    }
}

/// A valid side of a target.
pub open spec fn side_valid(s: Seq<char>) -> bool {
    s == "Enemy"@ || s == "Ally"@ || s == "All"@
}

/// A valid range of a target.
pub open spec fn range_valid(s: Seq<char>) -> bool {
    s == "Adjacent"@ || s == "Opposite"@ || s == "All"@
}

/// The error for an invalid attribute of an attack.
pub open spec fn attribute_message(attribute: Seq<char>, name: Seq<char>) -> Seq<char> {
    "Invalid attribute '"@ + attribute + "' for attack '"@ + name + "'"@
}

/// The error of the first attack of `group` whose target has an invalid side or range.
pub open spec fn target_error(group: Seq<Attack>) -> Option<Seq<char>>
    decreases group.len(),
{
    if group.len() == 0 {
        None
    } else {
        match target_error(group.drop_last()) {
            Some(e) => Some(e),
            None => {
                let a = group.last();
                if !side_valid(a.target_spec().side_spec()) {
                    Some(attribute_message("side"@, a.name_spec()))
                } else if !range_valid(a.target_spec().range_spec()) {
                    Some(attribute_message("range"@, a.name_spec()))
                } else {
                    None
                }
            },
        }
    }
}

/// The code of the effect of attack `a`: its expression with the battle arguments in place of
/// `data`.
pub open spec fn effect_code(a: Attack) -> Seq<char> {
    replace_all(a.effect_spec(), "data"@, ADDITIONAL_ARGS@)
}

/// The match arms of the effects of the attacks numbered `0` to `count - 1`.
pub open spec fn effect_arms_text(g: Seq<Attack>, count: nat) -> Seq<char>
    decreases count,
{
    if count == 0 {
        Seq::empty()
    } else {
        let a = g[first_with_id(g, (count - 1) as u64)];
        effect_arms_text(g, (count - 1) as nat) + "\t\t\tAttackType::"@ + ident(a) + " => "@
            + effect_code(a) + ",\n"@
    }
}

/// The flags of a target.
pub open spec fn target_text(t: Target) -> Seq<char> {
    "\t\ttarget: Target::SIDE_"@ + upper_case(t.side_spec()) + " | Target::RANGE_"@ + upper_case(
        t.range_spec(),
    ) + (if t.includes_self_spec() {
        "| Target::TARGET_SELF"@
    } else {
        Seq::empty()
    }) + (if t.multi_spec() {
        "| Target::MULTI"@
    } else {
        Seq::empty()
    }) + ",\n"@
}

/// The target flags of a multi-target attack end with the `MULTI` flag, and they are those of
/// the same target hitting one member with that flag added before the closing comma.
pub proof fn lemma_target_text_multi(t: Target, u: Target)
    requires
        t.side_spec() == u.side_spec(),
        t.range_spec() == u.range_spec(),
        t.includes_self_spec() == u.includes_self_spec(),
        t.multi_spec(),
        !u.multi_spec(),
    ensures
        target_text(t).len() >= 17,
        target_text(t).subrange(target_text(t).len() - 17, target_text(t).len() as int)
            == "| Target::MULTI,\n"@,
        target_text(u).len() >= 2,
        target_text(t) == target_text(u).subrange(0, target_text(u).len() - 2)
            + "| Target::MULTI,\n"@,
        target_text(t) != target_text(u),
{
    reveal_strlit("| Target::MULTI");
    reveal_strlit(",\n");
    reveal_strlit("| Target::MULTI,\n");
    let head = "\t\ttarget: Target::SIDE_"@ + upper_case(t.side_spec()) + " | Target::RANGE_"@
        + upper_case(t.range_spec()) + (if t.includes_self_spec() {
        "| Target::TARGET_SELF"@
    } else {
        Seq::empty()
    });
    assert(target_text(t) == head + "| Target::MULTI"@ + ",\n"@);
    assert(target_text(u) == head + Seq::<char>::empty() + ",\n"@);
    assert(target_text(u).subrange(0, target_text(u).len() - 2) =~= head);
    assert(target_text(t) =~= head + "| Target::MULTI,\n"@);
    assert(target_text(t).subrange(target_text(t).len() - 17, target_text(t).len() as int)
        =~= "| Target::MULTI,\n"@);
    assert(target_text(t).len() != target_text(u).len());
}

/// The target flags of an attack that may target its user hold the `TARGET_SELF` flag: they are
/// those of the same target without it, with the flag added after the range.
pub proof fn lemma_target_text_self(t: Target, u: Target)
    requires
        t.side_spec() == u.side_spec(),
        t.range_spec() == u.range_spec(),
        t.multi_spec() == u.multi_spec(),
        t.includes_self_spec(),
        !u.includes_self_spec(),
    ensures
        ({
            let tail = (if t.multi_spec() {
                "| Target::MULTI"@
            } else {
                Seq::empty()
            }) + ",\n"@;
            &&& target_text(u).len() >= tail.len()
            &&& target_text(t) == target_text(u).subrange(0, target_text(u).len() - tail.len())
                + "| Target::TARGET_SELF"@ + tail
        }),
        target_text(t) != target_text(u),
{
    reveal_strlit("| Target::TARGET_SELF");
    let tail = (if t.multi_spec() {
        "| Target::MULTI"@
    } else {
        Seq::empty()
    }) + ",\n"@;
    let head = "\t\ttarget: Target::SIDE_"@ + upper_case(t.side_spec()) + " | Target::RANGE_"@
        + upper_case(t.range_spec());
    assert(target_text(t) =~= head + "| Target::TARGET_SELF"@ + tail);
    assert(target_text(u) =~= head + tail);
    assert(target_text(u).subrange(0, target_text(u).len() - tail.len()) =~= head);
    assert(target_text(t).len() != target_text(u).len());
}

/// The names of an attack's meta-data.
pub open spec fn meta_names_text(a: Attack) -> Seq<char> {
    "\tAttackMeta\n\t{\n"@ + "\t\tname: "@ + escaped_literal(a.name_spec()) + ",\n"@
        + "\t\tdescription: "@ + escaped_literal(a.description_spec()) + ",\n"@
        + "\t\telement: Element::"@ + a.element_spec() + ",\n"@ + "\t\tcategory: Category::"@
        + a.category_spec() + ",\n"@
}

/// The numbers of an attack's meta-data.
pub open spec fn meta_numbers_text(a: Attack) -> Seq<char> {
    "\t\tpower: "@ + decimal(a.power_spec() as nat) + ",\n"@ + "\t\taccuracy: "@
        + a.accuracy_spec() + " as AccuracyType,\n"@ + "\t\tlimit: "@ + decimal(
        a.limit_spec() as nat,
    ) + ",\n"@ + "\t\tpriority: "@ + signed_decimal(a.priority_spec() as int) + ",\n"@
}

/// The meta-data of attack `a`.
pub open spec fn meta_text(a: Attack) -> Seq<char> {
    meta_names_text(a) + meta_numbers_text(a) + target_text(a.target_spec()) + "\t},\n"@
}

/// The meta-data of the attacks numbered `0` to `count - 1`.
pub open spec fn metas_text(g: Seq<Attack>, count: nat) -> Seq<char>
    decreases count,
{
    if count == 0 {
        Seq::empty()
    } else {
        metas_text(g, (count - 1) as nat) + meta_text(g[first_with_id(g, (count - 1) as u64)])
    }
}

/// The generated code for a group of attacks.
pub open spec fn attacks_text(g: Seq<Attack>) -> Seq<char> {
    disclaimer_text("`AttackMeta`"@)
        + "use rand::Rng;\n\nuse base::attack::{AttackMeta, Target};\nuse base::command::CommandAttack;\nuse base::runner::{BattleFlags, BattleState, BattleEffects};\nuse calculate::common::*;\nuse calculate::effects::*;\nuse calculate::lingering;\nuse calculate::lingering::LingeringType;\nuse calculate::modifier;\nuse gen::attack::Category;\nuse gen::element::Element;\nuse types::attack::AccuracyType;\n\n/// An individual action that can be done in `Battle` owned by `Monster`.\n"@
        + enum_text("AttackType"@, "u16"@, g, 0)
        + "impl AttackType\n{\n\t/// The meta-data for the given attack.\n\tpub fn attack(&self) -> &'static AttackMeta\n\t{\n\t\t&ATTACK_LIST[*self as usize]\n\t}\n\n\t/// The effect the attack has on the parties in battle.\n\t///\n\t/// This function must always append its list of actions in `effects`.\n\t///\n\t/// Attacks have endless possibilities in what parties and members they can affect. The given\n\t/// `command` stores who is using the attack and which target they explicity chose (even if the\n\t/// attack can target multiple members). The attacking party index is stored as `party` and can\n\t/// be obtained via `parties`.\n\t///\n\t/// Any move that is based on chance must used `rng` in order to be deterministic, as is\n\t/// necessary in order to replay moves given a seed and a list of party and commands.\n\t///\n\tpub fn effects<R: Rng>(&self, effects: &mut BattleEffects, command: &CommandAttack,\n\t\tparty: usize, state: &BattleState, rng: &mut R)\n\t{\n\t\tmatch *self\n\t\t{\n"@
        + effect_arms_text(g, g.len())
        + "\t\t}\n\t}\n}\n\nconst ATTACK_LIST: &'static [AttackMeta] = &[\n"@
        + metas_text(g, g.len()) + "];\n"@
}

/// Once the first `i` attacks give a target error, all of them give that error.
proof fn lemma_target_error_extends(group: Seq<Attack>, i: int)
    requires
        0 <= i <= group.len(),
        target_error(group.take(i)) is Some,
    ensures
        target_error(group) == target_error(group.take(i)),
    decreases group.len() - i,
{
    if i == group.len() {
        assert(group.take(i) =~= group);
    } else {
        assert(group.take(i + 1).drop_last() =~= group.take(i));
        lemma_target_error_extends(group, i + 1);
    }
}

fn attribute_error(attribute: &str, name: &String) -> (r: Error)
    ensures
        r is SyntaxError,
        result_text(Err(r)) == Err::<(), Seq<char>>(attribute_message(attribute@, name@)),
{
    let mut message = String::new();
    message.append("Invalid attribute '");
    message.append(attribute);
    message.append("' for attack '");
    message.append(name.as_str());
    message.append("'");
    proof {
        assert(message@ =~= attribute_message(attribute@, name@));
    }
    Error::SyntaxError(message)
}

fn write_meta_names(out: &mut String, a: &Attack)
    ensures
        final(out)@ == old(out)@ + meta_names_text(*a),
{
    out.append("\tAttackMeta\n\t{\n");
    out.append("\t\tname: ");
    write_utf8_escaped(out, a.name.as_str());
    out.append(",\n");
    out.append("\t\tdescription: ");
    write_utf8_escaped(out, a.description.as_str());
    out.append(",\n");
    out.append("\t\telement: Element::");
    out.append(a.element.as_str());
    out.append(",\n");
    out.append("\t\tcategory: Category::");
    out.append(a.category.as_str());
    out.append(",\n");
    proof {
        assert(final(out)@ =~= old(out)@ + meta_names_text(*a));
    }
}

fn write_meta_numbers(out: &mut String, a: &Attack)
    ensures
        final(out)@ == old(out)@ + meta_numbers_text(*a),
{
    out.append("\t\tpower: ");
    push_decimal(out, a.power as u64);
    out.append(",\n");
    out.append("\t\taccuracy: ");
    out.append(a.accuracy.as_str());
    out.append(" as AccuracyType,\n");
    out.append("\t\tlimit: ");
    push_decimal(out, a.limit as u64);
    out.append(",\n");
    out.append("\t\tpriority: ");
    push_signed(out, a.priority as i64);
    out.append(",\n");
    proof {
        assert(final(out)@ =~= old(out)@ + meta_numbers_text(*a));
    }
}

fn write_target(out: &mut String, t: &Target)
    ensures
        final(out)@ == old(out)@ + target_text(*t),
{
    out.append("\t\ttarget: Target::SIDE_");
    out.append(to_upper(t.side.as_str()).as_str());
    out.append(" | Target::RANGE_");
    out.append(to_upper(t.range.as_str()).as_str());
    if t.includes_self {
        out.append("| Target::TARGET_SELF");
    }
    if t.multi {
        out.append("| Target::MULTI");
    }
    out.append(",\n");
    proof {
        assert(final(out)@ =~= old(out)@ + target_text(*t));
    }
}

fn write_meta(out: &mut String, a: &Attack)
    ensures
        final(out)@ == old(out)@ + meta_text(*a),
{
    write_meta_names(out, a);
    write_meta_numbers(out, a);
    write_target(out, &a.target);
    out.append("\t},\n");
    proof {
        assert(final(out)@ =~= old(out)@ + meta_text(*a));
    }
}

fn attack_with_id(group: &[Attack], id: usize) -> (r: &Attack)
    requires
        id < group@.len(),
        covers(group@, group@.len()),
    ensures
        *r == group@[first_with_id(group@, id as u64)],
{
    assert(has_id(group@, id as int));
    let j = find_id(group, id as u64).unwrap();
    proof {
        lemma_find_is_first(group@, id as u64, j as int);
    }
    &group[j]
}

impl CodeGenerateGroup for Attack {
    open spec fn group_validity(group: Seq<Attack>) -> Result<(), Seq<char>> {
        match target_error(group) {
            Some(e) => Err(e),
            None => sequential_spec(group, 65535),
        }
    }

    /// The attacks are numbered sequentially, and there are fewer than 65536 of them.
    open spec fn group_generable(group: Seq<Attack>) -> bool {
        group.len() <= 65535 && covers(group, group.len())
    }

    open spec fn group_code(group: Seq<Attack>) -> Result<Seq<char>, Seq<char>> {
        Ok(attacks_text(group))
    }

    open spec fn group_constants(group: Seq<Attack>) -> Seq<char> {
        constants_text("ATTACK"@, group)
    }

    /// Every target has a valid side and range, and the identifier numbers are sequential.
    fn is_valid(group: &[Attack]) -> (r: BuildResult)
        ensures
            result_text(r) == match target_error(group@) {
                Some(e) => Err(e),
                None => sequential_spec(group@, 65535),
            },
            r is Err ==> r->Err_0 is SyntaxError,
    {
        let mut i: usize = 0;
        while i < group.len()
            invariant
                0 <= i <= group@.len(),
                target_error(group@.take(i as int)) is None,
            decreases group@.len() - i,
        {
            let a = &group[i];
            proof {
                assert(group@.take(i + 1).drop_last() =~= group@.take(i as int));
                assert(group@.take(i + 1).last() == group@[i as int]);
            }
            let side = a.target.side.as_str();
            if !(same_text(side, "Enemy") || same_text(side, "Ally") || same_text(side, "All")) {
                proof {
                    lemma_target_error_extends(group@, i + 1);
                }
                return Err(attribute_error("side", &a.name));
            }
            let range = a.target.range.as_str();
            if !(same_text(range, "Adjacent") || same_text(range, "Opposite") || same_text(
                range,
                "All",
            )) {
                proof {
                    lemma_target_error_extends(group@, i + 1);
                }
                return Err(attribute_error("range", &a.name));
            }
            i += 1;
        }
        proof {
            assert(group@.take(i as int) =~= group@);
        }
        sequential(group, 65535)
    }

    /// Prints the `AttackType` enum, the effect of each attack, and the meta-data of each attack,
    /// in identifier number order.
    #[verifier::rlimit(40)]
    fn gen_rust_group(group: &[Attack], out: &mut String) -> (r: BuildResult)
        ensures
            r is Ok,
            final(out)@ == old(out)@ + attacks_text(group@),
    {
        let n = group.len();
        proof {
            reveal_strlit("data");
        }
        write_disclaimer(out, "`AttackMeta`");
        out.append("use rand::Rng;\n\nuse base::attack::{AttackMeta, Target};\nuse base::command::CommandAttack;\nuse base::runner::{BattleFlags, BattleState, BattleEffects};\nuse calculate::common::*;\nuse calculate::effects::*;\nuse calculate::lingering;\nuse calculate::lingering::LingeringType;\nuse calculate::modifier;\nuse gen::attack::Category;\nuse gen::element::Element;\nuse types::attack::AccuracyType;\n\n/// An individual action that can be done in `Battle` owned by `Monster`.\n");
        let _ = gen_rust_enum(out, "AttackType", "u16", group);
        out.append("impl AttackType\n{\n\t/// The meta-data for the given attack.\n\tpub fn attack(&self) -> &'static AttackMeta\n\t{\n\t\t&ATTACK_LIST[*self as usize]\n\t}\n\n\t/// The effect the attack has on the parties in battle.\n\t///\n\t/// This function must always append its list of actions in `effects`.\n\t///\n\t/// Attacks have endless possibilities in what parties and members they can affect. The given\n\t/// `command` stores who is using the attack and which target they explicity chose (even if the\n\t/// attack can target multiple members). The attacking party index is stored as `party` and can\n\t/// be obtained via `parties`.\n\t///\n\t/// Any move that is based on chance must used `rng` in order to be deterministic, as is\n\t/// necessary in order to replay moves given a seed and a list of party and commands.\n\t///\n\tpub fn effects<R: Rng>(&self, effects: &mut BattleEffects, command: &CommandAttack,\n\t\tparty: usize, state: &BattleState, rng: &mut R)\n\t{\n\t\tmatch *self\n\t\t{\n");
        let ghost arms_start = out@;
        let mut id: usize = 0;
        while id < n
            invariant
                n == group@.len(),
                covers(group@, group@.len()),
                0 <= id <= n,
                "data"@.len() > 0,
                out@ == arms_start + effect_arms_text(group@, id as nat),
            decreases n - id,
        {
            let a = attack_with_id(group, id);
            out.append("\t\t\tAttackType::");
            out.append(a.identifier().as_str());
            out.append(" => ");
            let effect: &str = match &a.effect {
                Some(e) => e.as_str(),
                None => "miss_or(data, |data| { damage(data) })",
            };
            push_replace(out, effect, "data", ADDITIONAL_ARGS);
            out.append(",\n");
            proof {
                assert(out@ =~= arms_start + effect_arms_text(group@, (id + 1) as nat));
            }
            id += 1;
        }
        out.append("\t\t}\n\t}\n}\n\nconst ATTACK_LIST: &'static [AttackMeta] = &[\n");
        let ghost metas_start = out@;
        let mut id: usize = 0;
        while id < n
            invariant
                n == group@.len(),
                covers(group@, group@.len()),
                0 <= id <= n,
                out@ == metas_start + metas_text(group@, id as nat),
            decreases n - id,
        {
            let a = attack_with_id(group, id);
            write_meta(out, a);
            proof {
                assert(out@ =~= metas_start + metas_text(group@, (id + 1) as nat));
            }
            id += 1;
        }
        out.append("];\n");
        proof {
            assert(final(out)@ =~= old(out)@ + attacks_text(group@));
        }
        Ok(())
    }

    /// Prints the constants of the attacks.
    fn gen_constants_group(group: &[Attack], out: &mut String) -> (r: BuildResult)
        ensures
            r is Ok,
            final(out)@ == old(out)@ + constants_text("ATTACK"@, group@),
    {
        gen_constants(out, "ATTACK", group)
    }
}

/// The attack categories.
#[derive(Debug, Clone, PartialEq, Eq)]
pub struct AttackClassifiers {
    pub categories: Vec<IdNamePair>,
}

impl CodeGenerate for AttackClassifiers {
    open spec fn validity(&self) -> Result<(), Seq<char>> {
        sequential_spec(self.categories@, 255)
    }

    open spec fn generable(&self) -> bool {
        true
    }

    open spec fn rust_code(&self) -> Result<Seq<char>, Seq<char>> {
        Ok(disclaimer_text("attack classifiers"@) + enum_text("Category"@, "u8"@, self.categories@, 0))
    }

    open spec fn constants(&self) -> Seq<char> {
        constants_text("ATTACK_CATEGORY"@, self.categories@)
    }

    /// The categories are numbered sequentially.
    fn is_valid(&self) -> (r: BuildResult)
        ensures
            result_text(r) == sequential_spec(self.categories@, 255),
            r is Err ==> r->Err_0 is SyntaxError,
    {
        sequential(self.categories.as_slice(), 255)
    }

    /// Prints the `Category` enum.
    fn gen_rust(&self, out: &mut String) -> (r: BuildResult)
        ensures
            r is Ok,
            final(out)@ == old(out)@ + disclaimer_text("attack classifiers"@) + enum_text(
                "Category"@,
                "u8"@,
                self.categories@,
                0,
            ),
    {
        write_disclaimer(out, "attack classifiers");
        gen_rust_enum(out, "Category", "u8", self.categories.as_slice())
    }

    /// Prints the constants of the categories.
    fn gen_constants(&self, out: &mut String) -> (r: BuildResult)
        ensures
            r is Ok,
            final(out)@ == old(out)@ + constants_text("ATTACK_CATEGORY"@, self.categories@),
    {
        gen_constants(out, "ATTACK_CATEGORY", self.categories.as_slice())
    }
}

} // verus!

//! Texts that describe battle events to a player.
use vstd::prelude::*;

use crate::types::StatModifierType;

verus! {

/// How a statistic stage changed by `amount`, from the stage `current` within `[min, max]`.
pub open spec fn stage_change_text(amount: int, current: int, min: int, max: int) -> Seq<char> {
    if current == min && amount < 0 {
        "won't go any lower"@
    } else if current == max && amount > 0 {
        "won't go any higher"@
    } else if amount == -3 {
        "severely fell"@
    } else if amount == -2 {
        "harshly fell"@
    } else if amount == -1 {
        "fell"@
    } else if amount == 1 {
        "rose"@
    } else if amount == 2 {
        "rose sharply"@
    } else {
        "rose drastically"@
    }
}

/// A change that the message describes: the stage is at its limit, or it moves by 1 to 3 stages.
pub open spec fn stage_change_known(amount: int, current: int, min: int, max: int) -> bool {
    ||| current == min && amount < 0
    ||| current == max && amount > 0
    ||| -3 <= amount <= 3 && amount != 0
}

/// A change of one stage, away from the limit it moves towards, reads plainly: "rose" or "fell".
pub proof fn lemma_one_stage_text(current: int, min: int, max: int)
    ensures
        current != max ==> stage_change_text(1, current, min, max) == "rose"@,
        current != min ==> stage_change_text(-1, current, min, max) == "fell"@,
{
}

/// A stage at its limit does not move further that way, whatever the amount asked for.
pub proof fn lemma_stage_at_limit_text(amount: int, current: int, min: int, max: int)
    ensures
        current == max && amount > 0 ==> stage_change_text(amount, current, min, max)
            == "won't go any higher"@,
        current == min && amount < 0 ==> stage_change_text(amount, current, min, max)
            == "won't go any lower"@,
{
}

/// Away from the limits, each number of stages from 1 to 3, up or down, has its own wording:
/// rises start with "rose" and falls end with "fell".
pub proof fn lemma_stage_texts_distinct(a: int, b: int, current: int, min: int, max: int)
    requires
        min < current < max,
        -3 <= a <= 3,
        a != 0,
        -3 <= b <= 3,
        b != 0,
    ensures
        a != b ==> stage_change_text(a, current, min, max) != stage_change_text(b, current, min, max),
        a > 0 ==> stage_change_text(a, current, min, max).subrange(0, 4) == "rose"@,
        a < 0 ==> stage_change_text(a, current, min, max).subrange(
            stage_change_text(a, current, min, max).len() - 4,
            stage_change_text(a, current, min, max).len() as int,
        ) == "fell"@,
{
    reveal_strlit("rose");
    reveal_strlit("rose sharply");
    reveal_strlit("rose drastically");
    reveal_strlit("fell");
    reveal_strlit("harshly fell");
    reveal_strlit("severely fell");
    let ta = stage_change_text(a, current, min, max);
    let tb = stage_change_text(b, current, min, max);
    if a != b && ta.len() == tb.len() {
        assert(ta[0] != tb[0]);
    }
    if a > 0 {
        assert(ta.subrange(0, 4) =~= "rose"@);
    } else {
        assert(ta.subrange(ta.len() - 4, ta.len() as int) =~= "fell"@);
    }
}

/// The message that the statistic `stat` of `who` changed by `amount` stages, such as
/// "Mew's attack rose sharply!".
pub fn battle_modifier_message(
    who: &str,
    stat: &str,
    amount: StatModifierType,
    current: StatModifierType,
    min: StatModifierType,
    max: StatModifierType,
) -> (r: String)
    requires
        stage_change_known(amount as int, current as int, min as int, max as int),
    ensures
        r@ == who@ + "'s "@ + stat@ + " "@ + stage_change_text(
            amount as int,
            current as int,
            min as int,
            max as int,
        ) + "!"@,
{
    let difference = if current == min && amount < 0 {
        "won't go any lower"
    } else if current == max && amount > 0 {
        "won't go any higher"
    } else if amount == -3 {
        "severely fell"
    } else if amount == -2 {
        "harshly fell"
    } else if amount == -1 {
        "fell"
    } else if amount == 1 {
        "rose"
    } else if amount == 2 {
        "rose sharply"
    } else {
        "rose drastically"
    };
    let mut r = String::new();
    r.append(who);
    r.append("'s ");
    r.append(stat);
    r.append(" ");
    r.append(difference);
    r.append("!");
    proof {
        assert(r@ =~= who@ + "'s "@ + stat@ + " "@ + stage_change_text(
            amount as int,
            current as int,
            min as int,
            max as int,
        ) + "!"@);
    }
    r
}

} // verus!

//! Generates the `Element` enum and the table of how effective each element is against another.
use vstd::prelude::*;

use crate::build::text::{decimal, push_decimal, same_text};
use crate::build::util::{
    IdResource,
    Identifiable,
    constants_text,
    covers,
    has_id,
    disclaimer_text,
    enum_bare_text,
    enum_text,
    find_id,
    first_with_id,
    gen_constants,
    gen_rust_enum,
    gen_rust_enum_bare,
    gen_rust_utf_literal,
    lemma_find_is_first,
    lemma_first_exists,
    lemma_sequential_ids_distinct,
    result_text,
    sequential,
    sequential_spec,
    utf_literal_text,
    write_disclaimer,
};
use crate::build::{BuildResult, CodeGenerate, Error};
use crate::types::ElementId;

verus! {

/// The texts of a list of strings.
pub open spec fn texts(v: Seq<String>) -> Seq<Seq<char>> {
    v.map_values(|s: String| s@)
}

/// An element, with the names of the elements that it is weak to, resists and is immune to.
#[derive(Debug, Clone, PartialEq, Eq)]
pub struct Element {
    name: String,
    id: ElementId,
    internal: Option<String>,
    weaknesses: Vec<String>,
    resistances: Vec<String>,
    immunities: Vec<String>,
}

impl Identifiable for Element {
    closed spec fn name_spec(&self) -> Seq<char> {
        self.name@
    }

    closed spec fn internal_spec(&self) -> Option<Seq<char>> {
        match self.internal {
            Some(s) => Some(s@),
            None => None,
        }
    }

    fn name(&self) -> (r: &String) {
        &self.name
    }

    fn internal(&self) -> (r: Option<&String>) {
        self.internal.as_ref()
    }
}

impl IdResource for Element {
    closed spec fn id_spec(&self) -> u64 {
        self.id as u64
    }

    fn id(&self) -> (r: u64) {
        self.id as u64
    }
}

impl Element {
    /// The names of the elements that this element is weak to.
    pub closed spec fn weaknesses_spec(&self) -> Seq<Seq<char>> {
        texts(self.weaknesses@)
    }

    /// The names of the elements that this element resists.
    pub closed spec fn resistances_spec(&self) -> Seq<Seq<char>> {
        texts(self.resistances@)
    }

    /// The names of the elements that this element is immune to.
    pub closed spec fn immunities_spec(&self) -> Seq<Seq<char>> {
        texts(self.immunities@)
    }

    pub fn new(
        id: ElementId,
        name: String,
        internal: Option<String>,
        weaknesses: Vec<String>,
        resistances: Vec<String>,
        immunities: Vec<String>,
    ) -> (r: Self)
        ensures
            r.id_spec() == id,
            r.name_spec() == name@,
            r.internal_spec() == match internal {
                Some(s) => Some(s@),
                None => None,
            },
            r.weaknesses_spec() == texts(weaknesses@),
            r.resistances_spec() == texts(resistances@),
            r.immunities_spec() == texts(immunities@),
    {
        Element { name, id, internal, weaknesses, resistances, immunities }
    }
}

/// How effective an attacking element is against a defending one.
#[derive(Debug, Clone, Copy, PartialEq, Eq, Structural)]
pub enum Effectiveness {
    /// Normal damage, a factor of 1.
    Neutral,
    /// Double damage: the defender is weak to the attacker.
    Double,
    /// Half damage: the defender resists the attacker.
    Half,
    /// No damage: the defender is immune to the attacker.
    Zero,
}

/// The damage factor as the generated code writes it.
pub open spec fn effect_text(e: Effectiveness) -> Seq<char> {
    match e {
        Effectiveness::Neutral => "1"@,
        Effectiveness::Double => "2"@,
        Effectiveness::Half => "0.5"@,
        Effectiveness::Zero => "0"@,
    }
}

impl Effectiveness {
    /// The damage factor as the generated code writes it.
    pub fn text(&self) -> (r: &'static str)
        ensures
            r@ == effect_text(*self),
    {
        match self {
            Effectiveness::Neutral => "1",
            Effectiveness::Double => "2",
            Effectiveness::Half => "0.5",
            Effectiveness::Zero => "0",
        }
    }
}

/// The identifier number of the element named `name`; where several are, the last one.
pub open spec fn symbol(els: Seq<Element>, name: Seq<char>) -> Option<u64>
    decreases els.len(),
{
    if els.len() == 0 {
        None
    } else if els.last().name_spec() == name {
        Some(els.last().id_spec())
    } else {
        symbol(els.drop_last(), name)
    }
}

/// One of `names` names the element numbered `a`.
pub open spec fn names_hit(els: Seq<Element>, names: Seq<Seq<char>>, a: u64) -> bool {
    exists|k: int| 0 <= k < names.len() && symbol(els, #[trigger] names[k]) == Some(a)
}

/// How effective the element numbered `a` is against `el`: immunities come before resistances,
/// which come before weaknesses.
pub open spec fn element_effect(els: Seq<Element>, el: Element, a: u64) -> Effectiveness {
    if names_hit(els, el.immunities_spec(), a) {
        Effectiveness::Zero
    } else if names_hit(els, el.resistances_spec(), a) {
        Effectiveness::Half
    } else if names_hit(els, el.weaknesses_spec(), a) {
        Effectiveness::Double
    } else {
        Effectiveness::Neutral
    }
}

/// The position of the first of `names` that names no element.
pub open spec fn unknown_index(els: Seq<Element>, names: Seq<Seq<char>>) -> Option<int>
    decreases names.len(),
{
    if names.len() == 0 {
        None
    } else {
        match unknown_index(els, names.drop_last()) {
            Some(k) => Some(k),
            None => if symbol(els, names.last()) is None {
                Some(names.len() - 1)
            } else {
                None
            },
        }
    }
}

/// The error message for the name `name` of kind `kind` in the lists of `el`.
pub open spec fn unknown_message(kind: Seq<char>, name: Seq<char>, el: Element) -> Seq<char> {
    "Unable to find element "@ + kind + " '"@ + name + "' from '"@ + el.name_spec() + "'"@
}

/// The error for the first name of `el` that names no element: weaknesses first, then
/// resistances, then immunities.
pub open spec fn element_error(els: Seq<Element>, el: Element) -> Option<Seq<char>> {
    match unknown_index(els, el.weaknesses_spec()) {
        Some(k) => Some(unknown_message("weakness"@, el.weaknesses_spec()[k], el)),
        None => match unknown_index(els, el.resistances_spec()) {
            Some(k) => Some(unknown_message("resistance"@, el.resistances_spec()[k], el)),
            None => match unknown_index(els, el.immunities_spec()) {
                Some(k) => Some(unknown_message("immunity"@, el.immunities_spec()[k], el)),
                None => None,
            },
        },
    }
}

/// The first error among the first `i` elements.
pub open spec fn elements_error(els: Seq<Element>, i: nat) -> Option<Seq<char>>
    decreases i,
{
    if i == 0 {
        None
    } else {
        match elements_error(els, (i - 1) as nat) {
            Some(e) => Some(e),
            None => element_error(els, els[i - 1]),
        }
    }
}

/// The name of the element numbered `k`.
pub open spec fn id_name(els: Seq<Element>, k: nat) -> Seq<char> {
    els[first_with_id(els, k as u64)].name_spec()
}

/// How effective the element numbered `a` is against the element numbered `d`.
pub open spec fn cell(els: Seq<Element>, a: nat, d: nat) -> Effectiveness {
    element_effect(els, els[first_with_id(els, d as u64)], a as u64)
}

/// The table lines of attacker `a` against the defenders numbered `0` to `d - 1`.
pub open spec fn cells_text(els: Seq<Element>, a: nat, d: nat) -> Seq<char>
    decreases d,
{
    if d == 0 {
        Seq::empty()
    } else {
        cells_text(els, a, (d - 1) as nat) + "\t\t\t"@ + effect_text(cell(els, a, (d - 1) as nat))
            + " as EffectType, // "@ + id_name(els, (d - 1) as nat) + "\n"@
    }
}

/// The table lines of the attackers numbered `0` to `a - 1`, each headed by its name.
pub open spec fn rows_text(els: Seq<Element>, a: nat) -> Seq<char>
    decreases a,
{
    if a == 0 {
        Seq::empty()
    } else {
        rows_text(els, (a - 1) as nat) + "\t\t\t// "@ + id_name(els, (a - 1) as nat) + "\n"@
            + cells_text(els, (a - 1) as nat, els.len())
    }
}

/// The head of the generated code for the elements: the enum and its variants.
pub open spec fn elements_head_text(els: Seq<Element>) -> Seq<char> {
    disclaimer_text("`Element`"@) + "pub use base::types::element::{Id, EffectType};\n\n"@
        + enum_text("Element"@, "u8"@, els, 0)
        + "IterVariants!\n{\n\t(ElementVariants) pub enum Element\n\t{\n"@ + enum_bare_text(els, 2)
}

/// The count and the names of the elements, up to the start of the table.
pub open spec fn elements_names_text(els: Seq<Element>) -> Seq<char> {
    let n = els.len();
    "\t}\n}\n\nimpl Element\n{\n\tpub const fn count() -> Id\n\t{\n\t\t"@ + decimal(n)
        + "\n\t}\n\tpub fn name(&self) -> &'static [u8]\n\t{\n\t\tconst NAMES: [&'static [u8]; "@
        + decimal(n) + "] = [\n"@ + utf_literal_text(els, n, 3)
        + "\t\t];\n\t\tNAMES[*self as usize]\n\t}\n\tpub fn effectiveness(&self, against: Element) -> EffectType\n\t{\n\t\tconst EFFECTS: [EffectType; "@
        + decimal(n * n) + "] = [\n"@
}

/// The table of effects and the end of the generated code.
pub open spec fn elements_table_text(els: Seq<Element>) -> Seq<char> {
    rows_text(els, els.len())
        + "\t\t];\n\t\tEFFECTS[((*self as usize) * Element::count() as usize + (against as usize))]\n\t}\n}\n"@
}

/// The generated code for the elements.
pub open spec fn elements_text(els: Seq<Element>) -> Seq<char> {
    elements_head_text(els) + elements_names_text(els) + elements_table_text(els)
}

/// The elements of a game.
#[derive(Debug, Clone, PartialEq, Eq)]
pub struct ElementFile {
    pub element: Vec<Element>,
}

proof fn lemma_cell_index(a: int, d: int, a2: int, d2: int, n: int)
    by (nonlinear_arith)
    requires
        0 <= a < n,
        0 <= d < n,
        0 <= a2 < n,
        0 <= d2 < n,
    ensures
        0 <= a * n + d < n * n,
        (a * n + d == a2 * n + d2) <==> (a == a2 && d == d2),
{
}

fn find_symbol(els: &[Element], name: &String) -> (r: Option<u64>)
    ensures
        r == symbol(els@, name@),
{
    let mut j = els.len();
    proof {
        assert(els@.take(j as int) =~= els@);
    }
    while j > 0
        invariant
            j <= els@.len(),
            symbol(els@.take(j as int), name@) == symbol(els@, name@),
        decreases j,
    {
        proof {
            assert(els@.take(j as int).drop_last() =~= els@.take(j - 1));
        }
        if same_text(els[j - 1].name.as_str(), name.as_str()) {
            return Some(els[j - 1].id as u64);
        }
        j -= 1;
    }
    None
}

proof fn lemma_unknown_index(els: Seq<Element>, names: Seq<Seq<char>>)
    ensures
        unknown_index(els, names) is Some ==> 0 <= unknown_index(els, names)->0 < names.len()
            && symbol(els, names[unknown_index(els, names)->0]) is None,
    decreases names.len(),
{
    if names.len() > 0 {
        lemma_unknown_index(els, names.drop_last());
    }
}

/// Once a prefix of `names` holds a name that names no element, the first such name stays the
/// first in all of `names`.
proof fn lemma_unknown_extends(els: Seq<Element>, names: Seq<Seq<char>>, n: int)
    requires
        0 <= n <= names.len(),
        unknown_index(els, names.take(n)) is Some,
    ensures
        unknown_index(els, names) == unknown_index(els, names.take(n)),
    decreases names.len() - n,
{
    if n == names.len() {
        assert(names.take(n) =~= names);
    } else {
        assert(names.take(n + 1).drop_last() =~= names.take(n));
        lemma_unknown_extends(els, names, n + 1);
    }
}

/// Sets, in column `d`, the cell of each element that `names` names to `v`, or gives the position
/// of the first name that names no element.
fn apply_names(
    m: &mut Vec<Effectiveness>,
    els: &[Element],
    names: &Vec<String>,
    d: usize,
    v: Effectiveness,
) -> (r: Result<(), usize>)
    requires
        old(m)@.len() == els@.len() * els@.len(),
        d < els@.len(),
        forall|i: int| 0 <= i < els@.len() ==> (#[trigger] els@[i]).id_spec() < els@.len(),
    ensures
        final(m)@.len() == old(m)@.len(),
        match unknown_index(els@, texts(names@)) {
            Some(k) => r is Err && r->Err_0 == k,
            None => r is Ok && forall|a: int, d2: int|
                0 <= a < els@.len() && 0 <= d2 < els@.len() ==> #[trigger] final(m)@[a
                    * els@.len() + d2] == if d2 == d && names_hit(els@, texts(names@), a as u64) {
                    v
                } else {
                    old(m)@[a * els@.len() + d2]
                },
        },
{
    let n = els.len();
    let ghost t = texts(names@);
    let mut k: usize = 0;
    while k < names.len()
        invariant
            n == els@.len(),
            t == texts(names@),
            m@.len() == n * n,
            old(m)@.len() == n * n,
            d < n,
            forall|i: int| 0 <= i < els@.len() ==> (#[trigger] els@[i]).id_spec() < els@.len(),
            0 <= k <= names@.len(),
            unknown_index(els@, t.take(k as int)) is None,
            forall|a: int, d2: int|
                0 <= a < n && 0 <= d2 < n ==> #[trigger] m@[a * n + d2] == if d2 == d && names_hit(
                    els@,
                    t.take(k as int),
                    a as u64,
                ) {
                    v
                } else {
                    old(m)@[a * n + d2]
                },
        decreases names@.len() - k,
    {
        proof {
            assert(t.take(k + 1).drop_last() =~= t.take(k as int));
            assert(t[k as int] == names@[k as int]@);
        }
        match find_symbol(els, &names[k]) {
            None => {
                proof {
                    lemma_unknown_extends(els@, t, k + 1);
                }
                return Err(k);
            },
            Some(a) => {
                proof {
                    lemma_symbol_found(els@, names@[k as int]@);
                    let j = choose|j: int|
                        0 <= j < els@.len() && (#[trigger] els@[j]).id_spec() == a;
                    assert(els@[j].id_spec() < n);
                    lemma_cell_index(a as int, d as int, 0, 0, n as int);
                }
                let total = m.len();
                let row = a as usize;
                assert(row * n + d < total);
                let ghost before = m@;
                m.set(row * n + d, v);
                proof {
                    let tk = t.take(k as int);
                    let tk1 = t.take(k + 1);
                    assert(tk1[k as int] == t[k as int]);
                    assert(symbol(els@, tk1[k as int]) == Some(a));
                    assert forall|a2: int, d2: int| 0 <= a2 < n && 0 <= d2 < n implies #[trigger] m@[a2
                        * n + d2] == if d2 == d && names_hit(els@, tk1, a2 as u64) {
                        v
                    } else {
                        old(m)@[a2 * n + d2]
                    } by {
                        lemma_cell_index(a as int, d as int, a2, d2, n as int);
                        lemma_cell_index(a2, d2, a as int, d as int, n as int);
                        assert(before[a2 * n + d2] == if d2 == d && names_hit(els@, tk, a2 as u64) {
                            v
                        } else {
                            old(m)@[a2 * n + d2]
                        });
                        if names_hit(els@, tk, a2 as u64) {
                            let w = choose|w: int|
                                0 <= w < tk.len() && symbol(els@, #[trigger] tk[w]) == Some(
                                    a2 as u64,
                                );
                            assert(tk1[w] == tk[w]);
                            assert(names_hit(els@, tk1, a2 as u64));
                        }
                        if names_hit(els@, tk1, a2 as u64) && a2 != a {
                            let w = choose|w: int|
                                0 <= w < tk1.len() && symbol(els@, #[trigger] tk1[w]) == Some(
                                    a2 as u64,
                                );
                            assert(w != k);
                            assert(tk1[w] == tk[w]);
                            assert(names_hit(els@, tk, a2 as u64));
                        }
                        if a2 == a {
                            assert(names_hit(els@, tk1, a2 as u64));
                        }
                    }
                }
            },
        }
        k += 1;
    }
    proof {
        assert(t.take(k as int) =~= t);
    }
    Ok(())
}

/// A name that names an element gives that element's number.
proof fn lemma_symbol_found(els: Seq<Element>, name: Seq<char>)
    ensures
        symbol(els, name) is Some ==> exists|j: int|
            0 <= j < els.len() && (#[trigger] els[j]).id_spec() == symbol(els, name)->0,
    decreases els.len(),
{
    if els.len() > 0 && els.last().name_spec() != name {
        lemma_symbol_found(els.drop_last(), name);
        if symbol(els, name) is Some {
            let j = choose|j: int|
                0 <= j < els.drop_last().len() && (#[trigger] els.drop_last()[j]).id_spec()
                    == symbol(els, name)->0;
            assert(els[j] == els.drop_last()[j]);
        }
    } else if els.len() > 0 {
        assert(els[els.len() - 1] == els.last());
    }
}

/// The effect of the element numbered `a` on the element numbered `d` once the first `i`
/// elements have been read.
spec fn column_value(els: Seq<Element>, i: nat, a: nat, d: nat) -> Effectiveness {
    if exists|j: int| 0 <= j < i && (#[trigger] els[j]).id_spec() == d {
        element_effect(
            els,
            els[choose|j: int| 0 <= j < i && (#[trigger] els[j]).id_spec() == d],
            a as u64,
        )
    } else {
        Effectiveness::Neutral
    }
}

/// Once the first `i` elements give an error, all of them give that error.
proof fn lemma_error_extends(els: Seq<Element>, i: nat)
    requires
        i <= els.len(),
        elements_error(els, i) is Some,
    ensures
        elements_error(els, els.len()) == elements_error(els, i),
    decreases els.len() - i,
{
    if i < els.len() {
        lemma_error_extends(els, i + 1);
    }
}

fn unknown_error(kind: &str, name: &String, el: &Element) -> (r: String)
    ensures
        r@ == unknown_message(kind@, name@, *el),
{
    let mut message = String::new();
    message.append("Unable to find element ");
    message.append(kind);
    message.append(" '");
    message.append(name.as_str());
    message.append("' from '");
    message.append(el.name.as_str());
    message.append("'");
    proof {
        assert(message@ =~= unknown_message(kind@, name@, *el));
    }
    message
}

/// The effect of each element on each other, attacker by attacker, or the error for the first
/// name that names no element.
fn effect_table(els: &[Element]) -> (r: Result<Vec<Effectiveness>, String>)
    requires
        els@.len() <= 255,
        covers(els@, els@.len()),
    ensures
        match elements_error(els@, els@.len()) {
            Some(e) => r is Err && r->Err_0@ == e,
            None => r is Ok && r->Ok_0@.len() == els@.len() * els@.len() && forall|a: int, d: int|
                0 <= a < els@.len() && 0 <= d < els@.len() ==> #[trigger] r->Ok_0@[a * els@.len()
                    + d] == cell(els@, a as nat, d as nat),
        },
{
    let n = els.len();
    proof {
        lemma_sequential_ids_distinct(els@);
    }
    assert(n * n <= 255 * 255) by (nonlinear_arith)
        requires
            n <= 255,
    ;
    let total = n * n;
    let mut m: Vec<Effectiveness> = Vec::new();
    let mut k: usize = 0;
    while k < total
        invariant
            total == n * n,
            0 <= k <= total,
            m@.len() == k,
            forall|x: int| 0 <= x < k ==> m@[x] == Effectiveness::Neutral,
        decreases total - k,
    {
        m.push(Effectiveness::Neutral);
        k += 1;
    }
    proof {
        assert forall|a: int, d: int| 0 <= a < n && 0 <= d < n implies #[trigger] m@[a * n + d]
            == column_value(els@, 0, a as nat, d as nat) by {
            lemma_cell_index(a, d, 0, 0, n as int);
        }
    }
    let mut i: usize = 0;
    while i < n
        invariant
            n == els@.len(),
            n <= 255,
            m@.len() == n * n,
            0 <= i <= n,
            covers(els@, els@.len()),
            forall|x: int| 0 <= x < els@.len() ==> (#[trigger] els@[x]).id_spec() < els@.len(),
            forall|x: int, y: int|
                0 <= x < els@.len() && 0 <= y < els@.len() && x != y ==> (#[trigger] els@[x]).id_spec()
                    != (#[trigger] els@[y]).id_spec(),
            elements_error(els@, i as nat) is None,
            forall|a: int, d: int|
                0 <= a < n && 0 <= d < n ==> #[trigger] m@[a * n + d] == column_value(
                    els@,
                    i as nat,
                    a as nat,
                    d as nat,
                ),
        decreases n - i,
    {
        let el = &els[i];
        let d = el.id as usize;
        let ghost m0 = m@;
        if let Err(k) = apply_names(&mut m, els, &el.weaknesses, d, Effectiveness::Double) {
            proof {
                lemma_unknown_index(els@, texts(el.weaknesses@));
                lemma_error_extends(els@, (i + 1) as nat);
            }
            return Err(unknown_error("weakness", &el.weaknesses[k], el));
        }
        let ghost m1 = m@;
        if let Err(k) = apply_names(&mut m, els, &el.resistances, d, Effectiveness::Half) {
            proof {
                lemma_unknown_index(els@, texts(el.resistances@));
                lemma_error_extends(els@, (i + 1) as nat);
            }
            return Err(unknown_error("resistance", &el.resistances[k], el));
        }
        let ghost m2 = m@;
        if let Err(k) = apply_names(&mut m, els, &el.immunities, d, Effectiveness::Zero) {
            proof {
                lemma_unknown_index(els@, texts(el.immunities@));
                lemma_error_extends(els@, (i + 1) as nat);
            }
            return Err(unknown_error("immunity", &el.immunities[k], el));
        }
        proof {
            assert(elements_error(els@, (i + 1) as nat) is None);
            assert forall|a: int, d2: int| 0 <= a < n && 0 <= d2 < n implies #[trigger] m@[a * n
                + d2] == column_value(els@, (i + 1) as nat, a as nat, d2 as nat) by {
                lemma_cell_index(a, d2, 0, 0, n as int);
                assert(m0[a * n + d2] == column_value(els@, i as nat, a as nat, d2 as nat));
                assert(m1[a * n + d2] == m1[a * n + d2]);
                assert(m2[a * n + d2] == m2[a * n + d2]);
                if d2 == d {
                    assert(els@[i as int].id_spec() == d2);
                    if exists|j: int| 0 <= j < i && (#[trigger] els@[j]).id_spec() == d2 {
                        let j = choose|j: int| 0 <= j < i && (#[trigger] els@[j]).id_spec() == d2;
                        assert(els@[j].id_spec() != els@[i as int].id_spec());
                    }
                    let j1 = choose|j: int|
                        0 <= j < i + 1 && (#[trigger] els@[j]).id_spec() == d2;
                    assert(0 <= j1 < i + 1 && els@[j1].id_spec() == d2);
                    if j1 != i {
                        assert(els@[j1].id_spec() != els@[i as int].id_spec());
                    }
                } else {
                    if exists|j: int| 0 <= j < i + 1 && (#[trigger] els@[j]).id_spec() == d2 {
                        let j1 = choose|j: int|
                            0 <= j < i + 1 && (#[trigger] els@[j]).id_spec() == d2;
                        assert(j1 != i);
                        assert(exists|j: int| 0 <= j < i && (#[trigger] els@[j]).id_spec() == d2);
                        let j0 = choose|j: int| 0 <= j < i && (#[trigger] els@[j]).id_spec() == d2;
                        if j0 != j1 {
                            assert(els@[j0].id_spec() != els@[j1].id_spec());
                        }
                    }
                }
            }
        }
        i += 1;
    }
    proof {
        assert forall|a: int, d: int| 0 <= a < n && 0 <= d < n implies #[trigger] m@[a * n + d]
            == cell(els@, a as nat, d as nat) by {
            assert(has_id(els@, d));
            let j = choose|j: int| 0 <= j < els@.len() && (#[trigger] els@[j]).id_spec() == d;
            lemma_first_exists(els@, d as u64, j);
            lemma_cell_index(a, d, 0, 0, n as int);
            let f = first_with_id(els@, d as u64);
            assert(exists|j: int| 0 <= j < n && (#[trigger] els@[j]).id_spec() == d);
            let j1 = choose|j: int| 0 <= j < n && (#[trigger] els@[j]).id_spec() == d;
            if j1 != f {
                assert(els@[j1].id_spec() != els@[f].id_spec());
            }
        }
    }
    Ok(m)
}

fn id_name_exec(els: &[Element], k: usize) -> (r: &String)
    requires
        k < els@.len(),
        covers(els@, els@.len()),
    ensures
        r@ == id_name(els@, k as nat),
{
    assert(has_id(els@, k as int));
    let j = find_id(els, k as u64).unwrap();
    proof {
        lemma_find_is_first(els@, k as u64, j as int);
    }
    &els[j].name
}

fn write_rows(out: &mut String, els: &[Element], m: &Vec<Effectiveness>)
    requires
        els@.len() <= 255,
        covers(els@, els@.len()),
        m@.len() == els@.len() * els@.len(),
        forall|a: int, d: int|
            0 <= a < els@.len() && 0 <= d < els@.len() ==> #[trigger] m@[a * els@.len() + d] == cell(
                els@,
                a as nat,
                d as nat,
            ),
    ensures
        final(out)@ == old(out)@ + rows_text(els@, els@.len()),
{
    let n = els.len();
    assert(n * n <= 255 * 255) by (nonlinear_arith)
        requires
            n <= 255,
    ;
    let mut a: usize = 0;
    while a < n
        invariant
            n == els@.len(),
            n <= 255,
            n * n <= 255 * 255,
            covers(els@, els@.len()),
            m@.len() == n * n,
            forall|a: int, d: int|
                0 <= a < n && 0 <= d < n ==> #[trigger] m@[a * n + d] == cell(
                    els@,
                    a as nat,
                    d as nat,
                ),
            0 <= a <= n,
            out@ == old(out)@ + rows_text(els@, a as nat),
        decreases n - a,
    {
        let ghost row_start = out@;
        out.append("\t\t\t// ");
        out.append(id_name_exec(els, a).as_str());
        out.append("\n");
        let ghost cells_start = out@;
        let mut d: usize = 0;
        while d < n
            invariant
                n == els@.len(),
                n <= 255,
                n * n <= 255 * 255,
                covers(els@, els@.len()),
                m@.len() == n * n,
                forall|a: int, d: int|
                    0 <= a < n && 0 <= d < n ==> #[trigger] m@[a * n + d] == cell(
                        els@,
                        a as nat,
                        d as nat,
                    ),
                0 <= a < n,
                0 <= d <= n,
                out@ == cells_start + cells_text(els@, a as nat, d as nat),
            decreases n - d,
        {
            proof {
                lemma_cell_index(a as int, d as int, 0, 0, n as int);
            }
            let e = m[a * n + d];
            out.append("\t\t\t");
            out.append(e.text());
            out.append(" as EffectType, // ");
            out.append(id_name_exec(els, d).as_str());
            out.append("\n");
            proof {
                assert(out@ =~= cells_start + cells_text(els@, a as nat, (d + 1) as nat));
            }
            d += 1;
        }
        proof {
            assert(out@ =~= old(out)@ + rows_text(els@, (a + 1) as nat));
        }
        a += 1;
    }
}

fn write_elements_head(out: &mut String, els: &[Element])
    ensures
        final(out)@ == old(out)@ + elements_head_text(els@),
{
    write_disclaimer(out, "`Element`");
    out.append("pub use base::types::element::{Id, EffectType};\n\n");
    let _ = gen_rust_enum(out, "Element", "u8", els);
    out.append("IterVariants!\n{\n\t(ElementVariants) pub enum Element\n\t{\n");
    gen_rust_enum_bare(out, els, 2);
    proof {
        assert(final(out)@ =~= old(out)@ + elements_head_text(els@));
    }
}

fn write_elements_names(out: &mut String, els: &[Element])
    requires
        els@.len() <= 255,
        covers(els@, els@.len()),
    ensures
        final(out)@ == old(out)@ + elements_names_text(els@),
{
    let n = els.len();
    assert(n * n <= 255 * 255) by (nonlinear_arith)
        requires
            n <= 255,
    ;
    proof {
        assert forall|k: int| 0 <= k < els@.len() implies has_id(els@, k) by {
            assert(has_id(els@, k));
        }
    }
    out.append("\t}\n}\n\nimpl Element\n{\n\tpub const fn count() -> Id\n\t{\n\t\t");
    push_decimal(out, n as u64);
    out.append(
        "\n\t}\n\tpub fn name(&self) -> &'static [u8]\n\t{\n\t\tconst NAMES: [&'static [u8]; ",
    );
    push_decimal(out, n as u64);
    out.append("] = [\n");
    gen_rust_utf_literal(out, els, 3);
    out.append(
        "\t\t];\n\t\tNAMES[*self as usize]\n\t}\n\tpub fn effectiveness(&self, against: Element) -> EffectType\n\t{\n\t\tconst EFFECTS: [EffectType; ",
    );
    push_decimal(out, (n * n) as u64);
    out.append("] = [\n");
    proof {
        assert(final(out)@ =~= old(out)@ + elements_names_text(els@));
    }
}

impl CodeGenerate for ElementFile {
    open spec fn validity(&self) -> Result<(), Seq<char>> {
        sequential_spec(self.element@, 255)
    }

    /// The elements are numbered sequentially, and there are fewer than 256 of them.
    open spec fn generable(&self) -> bool {
        self.element@.len() <= 255 && covers(self.element@, self.element@.len())
    }

    open spec fn rust_code(&self) -> Result<Seq<char>, Seq<char>> {
        match elements_error(self.element@, self.element@.len()) {
            Some(e) => Err(e),
            None => Ok(elements_text(self.element@)),
        }
    }

    open spec fn constants(&self) -> Seq<char> {
        constants_text("ELEMENT"@, self.element@)
    }

    /// The identifier numbers of the elements are sequential.
    fn is_valid(&self) -> (r: BuildResult)
        ensures
            result_text(r) == sequential_spec(self.element@, 255),
            r is Err ==> r->Err_0 is SyntaxError,
    {
        sequential(self.element.as_slice(), 255)
    }

    /// Prints the `Element` enum with its names and the table of how effective each element is
    /// against each other one; or gives the error for the first name of a weakness, resistance or
    /// immunity that names no element, printing nothing.
    #[verifier::rlimit(40)]
    fn gen_rust(&self, out: &mut String) -> (r: BuildResult)
        ensures
            match elements_error(self.element@, self.element@.len()) {
                Some(e) => r is Err && r->Err_0 is SyntaxError && result_text(r) == Err::<
                    (),
                    Seq<char>,
                >(e) && final(out)@ == old(out)@,
                None => r is Ok && final(out)@ == old(out)@ + elements_text(self.element@),
            },
    {
        let els = self.element.as_slice();
        let n = els.len();
        let m = match effect_table(els) {
            Ok(m) => m,
            Err(e) => {
                return Err(Error::SyntaxError(e));
            },
        };
        write_elements_head(out, els);
        write_elements_names(out, els);
        write_rows(out, els, &m);
        out.append(
            "\t\t];\n\t\tEFFECTS[((*self as usize) * Element::count() as usize + (against as usize))]\n\t}\n}\n",
        );
        proof {
            assert(final(out)@ =~= old(out)@ + elements_text(els@));
        }
        Ok(())
    }

    /// Prints the constants of the elements.
    fn gen_constants(&self, out: &mut String) -> (r: BuildResult)
        ensures
            r is Ok,
            final(out)@ == old(out)@ + constants_text("ELEMENT"@, self.element@),
    {
        gen_constants(out, "ELEMENT", self.element.as_slice())
    }
}

} // verus!

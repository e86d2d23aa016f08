//! Generates the static data of each species, and the species classifiers.
use vstd::prelude::*;

use crate::build::elements::texts;
use crate::build::gender::repeat_text;
use crate::build::text::{decimal, push_decimal, to_upper, upper_case};
use crate::build::util::{
    disclaimer_text,
    enum_text,
    escaped_literal,
    gen_rust_enum_indent,
    gen_rust_enum,
    sequential,
    sequential_spec,
    write_disclaimer,
    constants_text,
    gen_constants,
    write_utf8_escaped,
    IdNamePair,
    IdResource,
    Identifiable,
    covers,
    find_id,
    first_with_id,
    has_id,
    ident,
    lemma_find_is_first,
    lemma_first_exists,
    result_text,
};
use crate::build::{BuildResult, CodeGenerate, CodeGenerateGroup, Error};
use crate::types::{
    ExperienceYieldType,
    FriendshipType,
    HatchType,
    LevelType,
    RarenessType,
    SpeciesId,
    StatBaseType,
    StatYieldType,
};

verus! {

/// A value that the generated species data writes, between a prefix and a postfix.
pub trait CustomDisplay {
    /// The text written for the value.
    spec fn display_text(&self, prefix: Seq<char>, postfix: Seq<char>) -> Seq<char>;

    /// Writes the value.
    fn write_value(&self, out: &mut String, prefix: &str, postfix: &str) -> (r: BuildResult)
        ensures
            r is Ok,
            final(out)@ == old(out)@ + self.display_text(prefix@, postfix@),
    ;
}

impl CustomDisplay for String {
    open spec fn display_text(&self, prefix: Seq<char>, postfix: Seq<char>) -> Seq<char> {
        prefix + self@ + postfix + ", "@
    }

    fn write_value(&self, out: &mut String, prefix: &str, postfix: &str) -> (r: BuildResult) {
        out.append(prefix);
        out.append(self.as_str());
        out.append(postfix);
        out.append(", ");
        Ok(())
    }
}

impl CustomDisplay for u8 {
    open spec fn display_text(&self, prefix: Seq<char>, postfix: Seq<char>) -> Seq<char> {
        prefix + decimal(*self as nat) + postfix + ", "@
    }

    fn write_value(&self, out: &mut String, prefix: &str, postfix: &str) -> (r: BuildResult) {
        out.append(prefix);
        push_decimal(out, *self as u64);
        out.append(postfix);
        out.append(", ");
        Ok(())
    }
}

impl<T: CustomDisplay> CustomDisplay for Option<T> {
    open spec fn display_text(&self, prefix: Seq<char>, postfix: Seq<char>) -> Seq<char> {
        match self {
            Some(v) => v.display_text(prefix, postfix),
            None => prefix + "0"@ + postfix + ", "@,
        }
    }

    fn write_value(&self, out: &mut String, prefix: &str, postfix: &str) -> (r: BuildResult) {
        match self {
            Some(v) => v.write_value(out, prefix, postfix),
            None => {
                out.append(prefix);
                out.append("0");
                out.append(postfix);
                out.append(", ");
                Ok(())
            },
        }
    }
}

/// The texts of the values of `s`, one after another.
pub open spec fn items_text<T: CustomDisplay>(s: Seq<T>, prefix: Seq<char>, postfix: Seq<char>) -> Seq<
    char,
>
    decreases s.len(),
{
    if s.len() == 0 {
        Seq::empty()
    } else {
        items_text(s.drop_last(), prefix, postfix) + s.last().display_text(prefix, postfix)
    }
}

impl<T: CustomDisplay> CustomDisplay for Vec<T> {
    open spec fn display_text(&self, prefix: Seq<char>, postfix: Seq<char>) -> Seq<char> {
        "&["@ + items_text(self@, prefix, postfix) + "], "@
    }

    fn write_value(&self, out: &mut String, prefix: &str, postfix: &str) -> (r: BuildResult) {
        out.append("&[");
        let ghost start = out@;
        let mut i: usize = 0;
        while i < self.len()
            invariant
                0 <= i <= self@.len(),
                out@ == start + items_text(self@.take(i as int), prefix@, postfix@),
            decreases self@.len() - i,
        {
            let _ = self[i].write_value(out, prefix, postfix);
            proof {
                assert(self@.take(i + 1).drop_last() =~= self@.take(i as int));
                assert(out@ =~= start + items_text(self@.take(i + 1), prefix@, postfix@));
            }
            i += 1;
        }
        proof {
            assert(self@.take(i as int) =~= self@);
        }
        out.append("], ");
        proof {
            assert(final(out)@ =~= old(out)@ + self.display_text(prefix@, postfix@));
        }
        Ok(())
    }
}

/// A value with the form it is for.
pub trait HasForm {
    spec fn form_spec(&self) -> Seq<char>;

    fn form(&self) -> (r: &String)
        ensures
            r@ == self.form_spec(),
    ;
}

/// A value for one form of a species.
#[derive(Debug, Clone, PartialEq, Eq)]
pub struct SpeciesFormValue<T> {
    pub form: String,
    pub value: T,
}

impl<T> HasForm for SpeciesFormValue<T> {
    open spec fn form_spec(&self) -> Seq<char> {
        self.form@
    }

    fn form(&self) -> (r: &String) {
        &self.form
    }
}

impl<T: CustomDisplay> CustomDisplay for SpeciesFormValue<T> {
    open spec fn display_text(&self, prefix: Seq<char>, postfix: Seq<char>) -> Seq<char> {
        self.value.display_text(prefix, postfix)
    }

    fn write_value(&self, out: &mut String, prefix: &str, postfix: &str) -> (r: BuildResult) {
        self.value.write_value(out, prefix, postfix)
    }
}

/// The form numbered `i` of a species.
pub open spec fn form_with_id(forms: Seq<IdNamePair>, i: nat) -> IdNamePair {
    forms[first_with_id(forms, i as u64)]
}

/// The number of the form whose identifier is `name`, among the forms numbered `0` to `n - 1`;
/// where several are, the highest.
pub open spec fn form_index_upto(forms: Seq<IdNamePair>, name: Seq<char>, n: nat) -> Option<nat>
    decreases n,
{
    if n == 0 {
        None
    } else if ident(form_with_id(forms, (n - 1) as nat)) == name {
        Some((n - 1) as nat)
    } else {
        form_index_upto(forms, name, (n - 1) as nat)
    }
}

/// The number of the form whose identifier is `name`.
pub open spec fn form_index(forms: Seq<IdNamePair>, name: Seq<char>) -> Option<nat> {
    form_index_upto(forms, name, forms.len())
}

/// The number of distinct identifiers among the forms numbered `0` to `n - 1`.
pub open spec fn form_count_upto(forms: Seq<IdNamePair>, n: nat) -> nat
    decreases n,
{
    if n == 0 {
        0
    } else {
        form_count_upto(forms, (n - 1) as nat) + if form_index_upto(
            forms,
            ident(form_with_id(forms, (n - 1) as nat)),
            (n - 1) as nat,
        ) is None {
            1nat
        } else {
            0nat
        }
    }
}

/// The number of distinct form identifiers of a species.
pub open spec fn form_count(forms: Seq<IdNamePair>) -> nat {
    form_count_upto(forms, forms.len())
}

fn form_at(forms: &[IdNamePair], i: usize) -> (r: &IdNamePair)
    requires
        i < forms@.len(),
        covers(forms@, forms@.len()),
    ensures
        *r == form_with_id(forms@, i as nat),
{
    assert(has_id(forms@, i as int));
    let j = find_id(forms, i as u64).unwrap();
    proof {
        lemma_find_is_first(forms@, i as u64, j as int);
    }
    &forms[j]
}

/// The number of the form whose identifier is `name`.
fn form_lookup(forms: &[IdNamePair], name: &String) -> (r: Option<usize>)
    requires
        covers(forms@, forms@.len()),
    ensures
        match r {
            Some(i) => form_index(forms@, name@) == Some(i as nat),
            None => form_index(forms@, name@) is None,
        },
{
    let mut i = forms.len();
    while i > 0
        invariant
            i <= forms@.len(),
            covers(forms@, forms@.len()),
            form_index_upto(forms@, name@, i as nat) == form_index(forms@, name@),
        decreases i,
    {
        let f = form_at(forms, i - 1);
        if crate::build::text::same_text(f.identifier().as_str(), name.as_str()) {
            return Some(i - 1);
        }
        i -= 1;
    }
    None
}

/// The number of distinct form identifiers.
fn form_count_exec(forms: &[IdNamePair]) -> (r: usize)
    requires
        covers(forms@, forms@.len()),
    ensures
        r == form_count(forms@),
{
    let mut n: usize = 0;
    let mut i: usize = 0;
    while i < forms.len()
        invariant
            0 <= i <= forms@.len(),
            covers(forms@, forms@.len()),
            n == form_count_upto(forms@, i as nat),
            n <= i,
        decreases forms@.len() - i,
    {
        let f = form_at(forms, i);
        let mut seen = false;
        let mut k = i;
        while k > 0
            invariant
                k <= i < forms@.len(),
                covers(forms@, forms@.len()),
                *f == form_with_id(forms@, i as nat),
                !seen ==> form_index_upto(forms@, ident(*f), k as nat) == form_index_upto(
                    forms@,
                    ident(*f),
                    i as nat,
                ),
                seen ==> form_index_upto(forms@, ident(*f), i as nat) is Some,
            decreases k,
        {
            if !seen {
                let g = form_at(forms, k - 1);
                if crate::build::text::same_text(g.identifier().as_str(), f.identifier().as_str()) {
                    seen = true;
                    proof {
                        lemma_form_index_found(forms@, ident(*f), k as nat, i as nat);
                    }
                }
            }
            k -= 1;
        }
        if !seen {
            n += 1;
        }
        i += 1;
    }
    n
}

proof fn lemma_form_index_found(forms: Seq<IdNamePair>, name: Seq<char>, k: nat, n: nat)
    requires
        0 < k <= n,
        form_index_upto(forms, name, k) is Some,
    ensures
        form_index_upto(forms, name, n) is Some,
    decreases n - k,
{
    if k < n {
        lemma_form_index_found(forms, name, k, (n - 1) as nat);
    }
}

/// The value behind an optional reference.
pub open spec fn deref_opt<T>(o: Option<&T>) -> Option<T> {
    match o {
        Some(v) => Some(*v),
        None => None,
    }
}

/// The values behind a list of optional references.
pub open spec fn derefs<T>(s: Seq<Option<&T>>) -> Seq<Option<T>> {
    s.map_values(|o: Option<&T>| deref_opt(o))
}

/// The position of the first change whose form is unknown.
pub open spec fn unknown_form<C: HasForm>(changes: Seq<C>, forms: Seq<IdNamePair>) -> Option<int>
    decreases changes.len(),
{
    if changes.len() == 0 {
        None
    } else {
        match unknown_form(changes.drop_last(), forms) {
            Some(k) => Some(k),
            None => if form_index(forms, changes.last().form_spec()) is None {
                Some(changes.len() - 1)
            } else {
                None
            },
        }
    }
}

/// The last change for the form numbered `i`.
pub open spec fn slot<C: HasForm>(changes: Seq<C>, forms: Seq<IdNamePair>, i: nat) -> Option<C>
    decreases changes.len(),
{
    if changes.len() == 0 {
        None
    } else if form_index(forms, changes.last().form_spec()) == Some(i) {
        Some(changes.last())
    } else {
        slot(changes.drop_last(), forms, i)
    }
}

/// The changes put in form order: at position `i` the last change for form `i`, with as many
/// positions as there are changes.
pub open spec fn slots<C: HasForm>(changes: Seq<C>, forms: Seq<IdNamePair>) -> Seq<Option<C>> {
    Seq::new(changes.len(), |i: int| slot(changes, forms, i as nat))
}

/// Each change before the first one of an unknown form is for a form numbered below the number
/// of changes.
pub open spec fn order_fits<C: HasForm>(changes: Seq<C>, forms: Seq<IdNamePair>) -> bool {
    forall|k: int|
        0 <= k < changes.len() && (forall|j: int|
            0 <= j <= k ==> form_index(forms, (#[trigger] changes[j]).form_spec()) is Some) ==> form_index(
            forms,
            (#[trigger] changes[k]).form_spec(),
        )->0 < changes.len()
}

/// The error message for a change of an unknown form.
pub open spec fn unknown_form_message(form: Seq<char>, attribute: Seq<char>, who: Seq<char>) -> Seq<
    char,
> {
    "Unknown form `"@ + form + "` in attribute `"@ + attribute + "` for `"@ + who + "`."@
}

proof fn lemma_unknown_form<C: HasForm>(changes: Seq<C>, forms: Seq<IdNamePair>)
    ensures
        match unknown_form(changes, forms) {
            Some(k) => 0 <= k < changes.len() && form_index(forms, changes[k].form_spec()) is None
                && forall|j: int|
                0 <= j < k ==> form_index(forms, (#[trigger] changes[j]).form_spec()) is Some,
            None => forall|j: int|
                0 <= j < changes.len() ==> form_index(forms, (#[trigger] changes[j]).form_spec()) is Some,
        },
    decreases changes.len(),
{
    if changes.len() > 0 {
        lemma_unknown_form(changes.drop_last(), forms);
        assert forall|j: int| 0 <= j < changes.len() - 1 implies #[trigger] changes[j]
            == changes.drop_last()[j] by {}
    }
}

/// Puts the changes in form order, or gives the error for the first change of an unknown form.
fn form_map_order<'a, C: HasForm>(
    changes: &'a Vec<C>,
    who: &str,
    attribute: &str,
    forms: &[IdNamePair],
) -> (r: Result<Vec<Option<&'a C>>, String>)
    requires
        covers(forms@, forms@.len()),
        order_fits(changes@, forms@),
    ensures
        match unknown_form(changes@, forms@) {
            Some(k) => r is Err && r->Err_0@ == unknown_form_message(
                changes@[k].form_spec(),
                attribute@,
                who@,
            ),
            None => r is Ok && derefs(r->Ok_0@) == slots(changes@, forms@),
        },
{
    let n = changes.len();
    let mut values: Vec<Option<&'a C>> = Vec::new();
    let mut k: usize = 0;
    while k < n
        invariant
            n == changes@.len(),
            0 <= k <= n,
            values@.len() == k,
            forall|x: int| 0 <= x < k ==> values@[x] is None,
        decreases n - k,
    {
        values.push(None);
        k += 1;
    }
    proof {
        lemma_unknown_form(changes@, forms@);
    }
    let mut k: usize = 0;
    while k < n
        invariant
            n == changes@.len(),
            0 <= k <= n,
            values@.len() == n,
            covers(forms@, forms@.len()),
            order_fits(changes@, forms@),
            forall|j: int| 0 <= j < k ==> form_index(forms@, (#[trigger] changes@[j]).form_spec()) is Some,
            forall|x: int| 0 <= x < n ==> deref_opt(#[trigger] values@[x]) == slot(
                changes@.take(k as int),
                forms@,
                x as nat,
            ),
            match unknown_form(changes@, forms@) {
                Some(u) => 0 <= u < changes@.len() && form_index(forms@, changes@[u].form_spec())
                    is None && forall|j: int|
                    0 <= j < u ==> form_index(forms@, (#[trigger] changes@[j]).form_spec()) is Some,
                None => forall|j: int|
                    0 <= j < changes@.len() ==> form_index(forms@, (#[trigger] changes@[j]).form_spec())
                        is Some,
            },
        decreases n - k,
    {
        let c = &changes[k];
        proof {
            assert(changes@.take(k + 1).drop_last() =~= changes@.take(k as int));
            assert(changes@.take(k + 1).last() == changes@[k as int]);
        }
        match form_lookup(forms, c.form()) {
            None => {
                let mut message = String::new();
                message.append("Unknown form `");
                message.append(c.form().as_str());
                message.append("` in attribute `");
                message.append(attribute);
                message.append("` for `");
                message.append(who);
                message.append("`.");
                proof {
                    assert(message@ =~= unknown_form_message(c.form_spec(), attribute@, who@));
                }
                return Err(message);
            },
            Some(i) => {
                proof {
                    assert(forall|j: int| 0 <= j <= k ==> form_index(forms@, (#[trigger] changes@[j]).form_spec()) is Some);
                }
                let ghost before = values@;
                values.set(i, Some(c));
                proof {
                    assert forall|x: int| 0 <= x < n implies deref_opt(#[trigger] values@[x]) == slot(
                        changes@.take(k + 1),
                        forms@,
                        x as nat,
                    ) by {
                        assert(deref_opt(before[x]) == slot(changes@.take(k as int), forms@, x as nat));
                    }
                }
            },
        }
        k += 1;
    }
    proof {
        assert(changes@.take(n as int) =~= changes@);
        assert(derefs(values@) =~= slots(changes@, forms@));
    }
    Ok(values)
}

/// The position of the first form without a value.
pub open spec fn missing_index<V>(values: Seq<Option<V>>) -> Option<int>
    decreases values.len(),
{
    if values.len() == 0 {
        None
    } else {
        match missing_index(values.drop_last()) {
            Some(k) => Some(k),
            None => if values.last() is None {
                Some(values.len() - 1)
            } else {
                None
            },
        }
    }
}

/// The texts of the values that are there, one after another.
pub open spec fn values_text<V: CustomDisplay>(
    values: Seq<Option<V>>,
    prefix: Seq<char>,
    postfix: Seq<char>,
) -> Seq<char>
    decreases values.len(),
{
    if values.len() == 0 {
        Seq::empty()
    } else {
        values_text(values.drop_last(), prefix, postfix) + match values.last() {
            Some(v) => v.display_text(prefix, postfix),
            None => Seq::empty(),
        }
    }
}

/// The error message for a form without a value.
pub open spec fn missing_message(form: Seq<char>, attribute: Seq<char>, who: Seq<char>) -> Seq<
    char,
> {
    "Missing value for form `"@ + form + "` in attribute `"@ + attribute + "` for `"@ + who + "`."@
}

proof fn lemma_missing_index<V>(values: Seq<Option<V>>)
    ensures
        match missing_index(values) {
            Some(k) => 0 <= k < values.len() && values[k] is None && forall|j: int|
                0 <= j < k ==> (#[trigger] values[j]) is Some,
            None => forall|j: int| 0 <= j < values.len() ==> (#[trigger] values[j]) is Some,
        },
    decreases values.len(),
{
    if values.len() > 0 {
        lemma_missing_index(values.drop_last());
        assert forall|j: int| 0 <= j < values.len() - 1 implies #[trigger] values[j]
            == values.drop_last()[j] by {}
    }
}

/// Writes the value of each form in form order, or gives the error for the first form without
/// one.
pub fn write_list<V: CustomDisplay>(
    out: &mut String,
    who: &str,
    attribute: &str,
    prefix: &str,
    postfix: &str,
    forms: &[IdNamePair],
    values: &Vec<Option<&V>>,
) -> (r: BuildResult)
    requires
        covers(forms@, forms@.len()),
        match missing_index(derefs(values@)) {
            Some(k) => k < forms@.len(),
            None => true,
        },
    ensures
        match missing_index(derefs(values@)) {
            Some(k) => r is Err && r->Err_0 is SyntaxError && result_text(r) == Err::<
                (),
                Seq<char>,
            >(missing_message(form_with_id(forms@, k as nat).name_spec(), attribute@, who@))
                && final(out)@ == old(out)@ + values_text(
                derefs(values@).take(k as int),
                prefix@,
                postfix@,
            ),
            None => r is Ok && final(out)@ == old(out)@ + values_text(
                derefs(values@),
                prefix@,
                postfix@,
            ),
        },
{
    let ghost vs = derefs(values@);
    proof {
        lemma_missing_index(vs);
    }
    let mut i: usize = 0;
    while i < values.len()
        invariant
            vs == derefs(values@),
            0 <= i <= values@.len(),
            covers(forms@, forms@.len()),
            forall|j: int| 0 <= j < i ==> (#[trigger] vs[j]) is Some,
            match missing_index(vs) {
                Some(k) => 0 <= k < vs.len() && k < forms@.len() && vs[k] is None && forall|j: int|
                    0 <= j < k ==> (#[trigger] vs[j]) is Some,
                None => forall|j: int| 0 <= j < vs.len() ==> (#[trigger] vs[j]) is Some,
            },
            out@ == old(out)@ + values_text(vs.take(i as int), prefix@, postfix@),
        decreases values@.len() - i,
    {
        proof {
            assert(vs.take(i + 1).drop_last() =~= vs.take(i as int));
            assert(vs[i as int] == deref_opt(values@[i as int]));
        }
        match values[i] {
            Some(v) => {
                let _ = v.write_value(out, prefix, postfix);
                proof {
                    assert(out@ =~= old(out)@ + values_text(vs.take(i + 1), prefix@, postfix@));
                }
            },
            None => {
                let f = form_at(forms, i);
                let mut message = String::new();
                message.append("Missing value for form `");
                message.append(f.name().as_str());
                message.append("` in attribute `");
                message.append(attribute);
                message.append("` for `");
                message.append(who);
                message.append("`.");
                proof {
                    assert(message@ =~= missing_message(f.name_spec(), attribute@, who@));
                    assert(missing_index(vs) == Some(i as int));
                }
                return Err(Error::SyntaxError(message));
            },
        }
        i += 1;
    }
    proof {
        assert(vs.take(i as int) =~= vs);
    }
    Ok(())
}

/// A value that differs by form, or one value for every form.
#[derive(Debug, Clone, PartialEq, Eq)]
pub enum SpeciesFormChange<T> {
    Change(Vec<SpeciesFormValue<T>>),
    NoChange(T),
}

impl<T: CustomDisplay> SpeciesFormChange<T> {
    /// Where the values differ by form, each change before the first of an unknown form is for a
    /// form numbered below the number of changes, and the first form without a value exists.
    pub open spec fn ready(&self, forms: Seq<IdNamePair>) -> bool {
        match self {
            SpeciesFormChange::Change(changes) => order_fits(changes@, forms) && match unknown_form(
                changes@,
                forms,
            ) {
                Some(_) => true,
                None => match missing_index(slots(changes@, forms)) {
                    Some(k) => k < forms.len(),
                    None => true,
                },
            },
            SpeciesFormChange::NoChange(_) => true,
        }
    }

    /// What is written: the value of each form in form order (a single value is written once
    /// for each form, or once where there are no forms), or the error.
    pub open spec fn text(
        &self,
        forms: Seq<IdNamePair>,
        who: Seq<char>,
        attribute: Seq<char>,
        prefix: Seq<char>,
        postfix: Seq<char>,
    ) -> Result<Seq<char>, Seq<char>> {
        match self {
            SpeciesFormChange::Change(changes) => match unknown_form(changes@, forms) {
                Some(k) => Err(unknown_form_message(changes@[k].form_spec(), attribute, who)),
                None => match missing_index(slots(changes@, forms)) {
                    Some(k) => Err(
                        missing_message(form_with_id(forms, k as nat).name_spec(), attribute, who),
                    ),
                    None => Ok(values_text(slots(changes@, forms), prefix, postfix)),
                },
            },
            SpeciesFormChange::NoChange(v) => Ok(
                if forms.len() == 0 {
                    v.display_text(prefix, postfix)
                } else {
                    repeat_text(v.display_text(prefix, postfix), forms.len())
                },
            ),
        }
    }

    /// What is written before an error: nothing for a form that does not exist, and the values
    /// of the forms before the first one without a value otherwise.
    pub open spec fn text_before_error(&self, forms: Seq<IdNamePair>, prefix: Seq<char>, postfix: Seq<char>) -> Seq<char> {
        match self {
            SpeciesFormChange::Change(changes) => match unknown_form(changes@, forms) {
                Some(_) => Seq::empty(),
                None => match missing_index(slots(changes@, forms)) {
                    Some(k) => values_text(slots(changes@, forms).take(k as int), prefix, postfix),
                    None => Seq::empty(),
                },
            },
            SpeciesFormChange::NoChange(_) => Seq::empty(),
        }
    }

    /// Writes the value of each form.
    pub fn write(
        &self,
        out: &mut String,
        who: &str,
        attribute: &str,
        prefix: &str,
        postfix: &str,
        forms: &[IdNamePair],
    ) -> (r: BuildResult)
        requires
            covers(forms@, forms@.len()),
            self.ready(forms@),
        ensures
            match self.text(forms@, who@, attribute@, prefix@, postfix@) {
                Ok(t) => r is Ok && final(out)@ == old(out)@ + t,
                Err(e) => r is Err && r->Err_0 is SyntaxError && result_text(r) == Err::<
                    (),
                    Seq<char>,
                >(e) && final(out)@ == old(out)@ + self.text_before_error(forms@, prefix@, postfix@),
            },
    {
        match self {
            SpeciesFormChange::Change(changes) => {
                let values = match form_map_order(changes, who, attribute, forms) {
                    Ok(v) => v,
                    Err(e) => {
                        return Err(Error::SyntaxError(e));
                    },
                };
                write_list(out, who, attribute, prefix, postfix, forms, &values)
            },
            SpeciesFormChange::NoChange(value) => {
                if forms.len() == 0 {
                    value.write_value(out, prefix, postfix)
                } else {
                    let mut i: usize = 0;
                    while i < forms.len()
                        invariant
                            0 <= i <= forms@.len(),
                            out@ == old(out)@ + repeat_text(
                                value.display_text(prefix@, postfix@),
                                i as nat,
                            ),
                        decreases forms@.len() - i,
                    {
                        let _ = value.write_value(out, prefix, postfix);
                        proof {
                            assert(out@ =~= old(out)@ + repeat_text(
                                value.display_text(prefix@, postfix@),
                                (i + 1) as nat,
                            ));
                        }
                        i += 1;
                    }
                    Ok(())
                }
            },
        }
    }
}

/// A group of the six statistics for one form of a species.
#[derive(Debug, Clone, PartialEq, Eq)]
pub struct SpeciesStatisticsGroup<T> {
    pub form: String,
    pub health: T,
    pub attack: T,
    pub defense: T,
    pub sp_attack: T,
    pub sp_defense: T,
    pub speed: T,
}

impl<T> HasForm for SpeciesStatisticsGroup<T> {
    open spec fn form_spec(&self) -> Seq<char> {
        self.form@
    }

    fn form(&self) -> (r: &String) {
        &self.form
    }
}

/// One of the six statistics.
#[derive(Debug, Clone, Copy, PartialEq, Eq, Structural)]
pub enum Statistic {
    Health,
    Attack,
    Defense,
    SpAttack,
    SpDefense,
    Speed,
}

/// The statistic `stat` of a group.
pub open spec fn stat_of<T>(g: SpeciesStatisticsGroup<T>, stat: Statistic) -> T {
    match stat {
        Statistic::Health => g.health,
        Statistic::Attack => g.attack,
        Statistic::Defense => g.defense,
        Statistic::SpAttack => g.sp_attack,
        Statistic::SpDefense => g.sp_defense,
        Statistic::Speed => g.speed,
    }
}

impl<T> SpeciesStatisticsGroup<T> {
    /// The statistic `stat` of the group.
    pub fn stat(&self, stat: Statistic) -> (r: &T)
        ensures
            *r == stat_of(*self, stat),
    {
        match stat {
            Statistic::Health => &self.health,
            Statistic::Attack => &self.attack,
            Statistic::Defense => &self.defense,
            Statistic::SpAttack => &self.sp_attack,
            Statistic::SpDefense => &self.sp_defense,
            Statistic::Speed => &self.speed,
        }
    }
}

/// The statistic `stat` of each group in form order, where there is a group.
pub open spec fn stat_values<T>(
    groups: Seq<Option<SpeciesStatisticsGroup<T>>>,
    stat: Statistic,
) -> Seq<Option<T>> {
    groups.map_values(
        |o: Option<SpeciesStatisticsGroup<T>>|
            match o {
                Some(g) => Some(stat_of(g, stat)),
                None => None,
            },
    )
}

/// Statistics that differ by form, or one group for every form.
#[derive(Debug, Clone, PartialEq, Eq)]
pub enum SpeciesStatisticsValue<T> {
    FormChange(Vec<SpeciesStatisticsGroup<T>>),
    NoChange(SpeciesStatisticsGroup<T>),
}

impl<T: CustomDisplay> SpeciesStatisticsValue<T> {
    /// What is written for statistic `stat`: where the statistics differ by form, the statistic
    /// of each group of `value_list` in form order, or the error for the first form without one;
    /// otherwise the statistic of the single group, once.
    pub open spec fn text(
        &self,
        forms: Seq<IdNamePair>,
        who: Seq<char>,
        attribute: Seq<char>,
        prefix: Seq<char>,
        postfix: Seq<char>,
        value_list: Seq<Option<SpeciesStatisticsGroup<T>>>,
        stat: Statistic,
    ) -> Result<Seq<char>, Seq<char>> {
        match self {
            SpeciesStatisticsValue::FormChange(_) => match missing_index(
                stat_values(value_list, stat),
            ) {
                Some(k) => Err(
                    missing_message(form_with_id(forms, k as nat).name_spec(), attribute, who),
                ),
                None => Ok(values_text(stat_values(value_list, stat), prefix, postfix)),
            },
            SpeciesStatisticsValue::NoChange(g) => Ok(stat_of(*g, stat).display_text(prefix, postfix)),
        }
    }

    /// Writes statistic `stat` for each form.
    pub fn write(
        &self,
        out: &mut String,
        who: &str,
        attribute: &str,
        prefix: &str,
        postfix: &str,
        forms: &[IdNamePair],
        value_list: &Vec<Option<&SpeciesStatisticsGroup<T>>>,
        stat: Statistic,
    ) -> (r: BuildResult)
        requires
            covers(forms@, forms@.len()),
            self is FormChange ==> match missing_index(stat_values(derefs(value_list@), stat)) {
                Some(k) => k < forms@.len(),
                None => true,
            },
        ensures
            match self.text(forms@, who@, attribute@, prefix@, postfix@, derefs(value_list@), stat) {
                Ok(t) => r is Ok && final(out)@ == old(out)@ + t,
                Err(e) => r is Err && r->Err_0 is SyntaxError && result_text(r) == Err::<
                    (),
                    Seq<char>,
                >(e) && final(out)@ == old(out)@ + match missing_index(
                    stat_values(derefs(value_list@), stat),
                ) {
                    Some(k) => values_text(
                        stat_values(derefs(value_list@), stat).take(k as int),
                        prefix@,
                        postfix@,
                    ),
                    None => Seq::empty(),
                },
            },
    {
        match self {
            SpeciesStatisticsValue::FormChange(_) => {
                let mut values: Vec<Option<&T>> = Vec::new();
                let mut i: usize = 0;
                while i < value_list.len()
                    invariant
                        0 <= i <= value_list@.len(),
                        values@.len() == i,
                        forall|j: int|
                            0 <= j < i ==> deref_opt(#[trigger] values@[j]) == stat_values(
                                derefs(value_list@),
                                stat,
                            )[j],
                    decreases value_list@.len() - i,
                {
                    match value_list[i] {
                        Some(g) => values.push(Some(g.stat(stat))),
                        None => values.push(None),
                    }
                    i += 1;
                }
                proof {
                    assert(derefs(values@) =~= stat_values(derefs(value_list@), stat));
                }
                write_list(out, who, attribute, prefix, postfix, forms, &values)
            },
            SpeciesStatisticsValue::NoChange(g) => g.stat(stat).write_value(out, prefix, postfix),
        }
    }
}

/// The attacks of a species learnable by one of its forms, or by every form without a list of
/// its own where no form is named.
#[derive(Debug, Clone, PartialEq, Eq)]
pub struct SpeciesFormAttack {
    pub form: Option<String>,
    pub attacks: Vec<String>,
}

/// Attacks learnable by every form, or by form.
#[derive(Debug, Clone, PartialEq, Eq)]
pub enum SpeciesAttacks {
    Attacks(Vec<String>),
    FormAttacks(Vec<SpeciesFormAttack>),
}

/// The attacks learnable at a level.
#[derive(Debug, Clone, PartialEq, Eq)]
pub struct SpeciesLearnableAttack {
    pub level: LevelType,
    pub attacks: SpeciesAttacks,
}

/// The learnable and the inheritable attacks of a species.
#[derive(Debug, Clone, PartialEq, Eq)]
pub struct SpeciesAttacksList {
    pub learnable: Vec<SpeciesLearnableAttack>,
    pub inheritable: Vec<String>,
}

/// Whether a learnable attack is of level `l`.
pub open spec fn at_level(l: int) -> spec_fn(SpeciesLearnableAttack) -> bool {
    |x: SpeciesLearnableAttack| x.level == l
}

/// The learnable attacks of levels `0` to `l - 1`, level by level, keeping the order of those of
/// one level.
pub open spec fn levels_upto(s: Seq<SpeciesLearnableAttack>, l: nat) -> Seq<SpeciesLearnableAttack>
    decreases l,
{
    if l == 0 {
        Seq::empty()
    } else {
        levels_upto(s, (l - 1) as nat) + s.filter(at_level(l - 1))
    }
}

/// The learnable attacks ordered by level (a stable sort by level).
pub open spec fn by_level(s: Seq<SpeciesLearnableAttack>) -> Seq<SpeciesLearnableAttack> {
    levels_upto(s, 256)
}

/// The values behind a list of references.
pub open spec fn deref_all<T>(s: Seq<&T>) -> Seq<T> {
    s.map_values(|r: &T| *r)
}

/// Orders the learnable attacks by level, keeping the order of those of one level.
fn sort_by_level(s: &Vec<SpeciesLearnableAttack>) -> (r: Vec<&SpeciesLearnableAttack>)
    ensures
        deref_all(r@) == by_level(s@),
{
    let mut r: Vec<&SpeciesLearnableAttack> = Vec::new();
    let mut l: u16 = 0;
    proof {
        assert(deref_all(r@) =~= levels_upto(s@, 0));
    }
    while l < 256
        invariant
            0 <= l <= 256,
            deref_all(r@) == levels_upto(s@, l as nat),
        decreases 256 - l,
    {
        let ghost before = deref_all(r@);
        let mut i: usize = 0;
        while i < s.len()
            invariant
                0 <= l < 256,
                0 <= i <= s@.len(),
                deref_all(r@) == before + s@.take(i as int).filter(at_level(l as int)),
            decreases s@.len() - i,
        {
            let ghost r0 = r@;
            if s[i].level as u16 == l {
                r.push(&s[i]);
            }
            proof {
                reveal(Seq::filter);
                assert(s@.take(i + 1).drop_last() =~= s@.take(i as int));
                assert(s@.take(i + 1).last() == s@[i as int]);
                let f0 = s@.take(i as int).filter(at_level(l as int));
                let f1 = s@.take(i + 1).filter(at_level(l as int));
                if s@[i as int].level == l {
                    assert(f1 == f0.push(s@[i as int]));
                    assert(deref_all(r@) =~= deref_all(r0).push(s@[i as int]));
                } else {
                    assert(f1 == f0);
                    assert(deref_all(r@) == deref_all(r0));
                }
                assert(deref_all(r@) =~= before + s@.take(i + 1).filter(at_level(l as int)));
            }
            i += 1;
        }
        proof {
            assert(s@.take(i as int) =~= s@);
            assert(levels_upto(s@, (l + 1) as nat) == levels_upto(s@, l as nat) + s@.filter(at_level(l as int)));
        }
        l += 1;
    }
    r
}

/// The attacks of a list as the generated code names them.
pub open spec fn attack_names_text(attacks: Seq<Seq<char>>) -> Seq<char>
    decreases attacks.len(),
{
    if attacks.len() == 0 {
        Seq::empty()
    } else {
        attack_names_text(attacks.drop_last()) + "AttackType::"@ + attacks.last() + ", "@
    }
}

/// The attacks of the first list that names no form.
pub open spec fn default_list(fas: Seq<SpeciesFormAttack>) -> Option<Seq<Seq<char>>>
    decreases fas.len(),
{
    if fas.len() == 0 {
        None
    } else {
        match default_list(fas.drop_last()) {
            Some(l) => Some(l),
            None => if fas.last().form is None {
                Some(texts(fas.last().attacks@))
            } else {
                None
            },
        }
    }
}

/// The attacks of the last list for the form numbered `i`.
pub open spec fn form_list(fas: Seq<SpeciesFormAttack>, forms: Seq<IdNamePair>, i: nat) -> Option<
    Seq<Seq<char>>,
>
    decreases fas.len(),
{
    if fas.len() == 0 {
        None
    } else if fas.last().form matches Some(f) && form_index(forms, f@) == Some(i) {
        Some(texts(fas.last().attacks@))
    } else {
        form_list(fas.drop_last(), forms, i)
    }
}

/// The error message for a list of an unknown form.
pub open spec fn invalid_form_message(form: Seq<char>, level: LevelType, name: Seq<char>) -> Seq<
    char,
> {
    "Invalid form `"@ + form + "` at level "@ + decimal(level as nat) + " for `"@ + name + "`."@
}

/// The error message for a second list that names no form.
pub open spec fn default_twice_message(level: LevelType, name: Seq<char>) -> Seq<char> {
    "Only 1 default attack list is allowed at level "@ + decimal(level as nat) + " for `"@ + name
        + "`."@
}

/// The error of the first list of an unknown form, or the first second list that names no form.
pub open spec fn form_attacks_error(
    fas: Seq<SpeciesFormAttack>,
    forms: Seq<IdNamePair>,
    level: LevelType,
    name: Seq<char>,
) -> Option<Seq<char>>
    decreases fas.len(),
{
    if fas.len() == 0 {
        None
    } else {
        match form_attacks_error(fas.drop_last(), forms, level, name) {
            Some(e) => Some(e),
            None => match fas.last().form {
                Some(f) => if form_index(forms, f@) is None {
                    Some(invalid_form_message(f@, level, name))
                } else {
                    None
                },
                None => if default_list(fas.drop_last()) is Some {
                    Some(default_twice_message(level, name))
                } else {
                    None
                },
            },
        }
    }
}

/// The attacks that form `i` learns: its own list, or else the list that names no form.
pub open spec fn chosen_list(fas: Seq<SpeciesFormAttack>, forms: Seq<IdNamePair>, i: nat) -> Seq<
    Seq<char>,
> {
    match form_list(fas, forms, i) {
        Some(l) => l,
        None => match default_list(fas) {
            Some(l) => l,
            None => Seq::empty(),
        },
    }
}

/// The attack lists of the forms numbered `0` to `n - 1`.
pub open spec fn form_lists_text(fas: Seq<SpeciesFormAttack>, forms: Seq<IdNamePair>, n: nat) -> Seq<
    char,
>
    decreases n,
{
    if n == 0 {
        Seq::empty()
    } else {
        form_lists_text(fas, forms, (n - 1) as nat) + "&["@ + attack_names_text(
            chosen_list(fas, forms, (n - 1) as nat),
        ) + "], "@
    }
}

/// The attacks learnable at one level, or the error.
pub open spec fn learnable_part(la: SpeciesLearnableAttack, forms: Seq<IdNamePair>, name: Seq<char>) -> Result<
    Seq<char>,
    Seq<char>,
> {
    match la.attacks {
        SpeciesAttacks::Attacks(v) => Ok("&[&["@ + attack_names_text(texts(v@)) + "]]"@),
        SpeciesAttacks::FormAttacks(fas) => match form_attacks_error(fas@, forms, la.level, name) {
            Some(e) => Err(e),
            None => Ok("&["@ + form_lists_text(fas@, forms, form_count(forms)) + "], "@),
        },
    }
}

/// The learnable attacks of each level, or the first error.
pub open spec fn learnable_text(
    las: Seq<SpeciesLearnableAttack>,
    forms: Seq<IdNamePair>,
    name: Seq<char>,
) -> Result<Seq<char>, Seq<char>>
    decreases las.len(),
{
    if las.len() == 0 {
        Ok(Seq::empty())
    } else {
        match learnable_text(las.drop_last(), forms, name) {
            Err(e) => Err(e),
            Ok(t) => match learnable_part(las.last(), forms, name) {
                Err(e) => Err(e),
                Ok(p) => Ok(t + "("@ + decimal(las.last().level as nat) + ", "@ + p + "), "@),
            },
        }
    }
}

fn write_attack_names(out: &mut String, attacks: &Vec<String>)
    ensures
        final(out)@ == old(out)@ + attack_names_text(texts(attacks@)),
{
    let mut i: usize = 0;
    while i < attacks.len()
        invariant
            0 <= i <= attacks@.len(),
            out@ == old(out)@ + attack_names_text(texts(attacks@).take(i as int)),
        decreases attacks@.len() - i,
    {
        out.append("AttackType::");
        out.append(attacks[i].as_str());
        out.append(", ");
        proof {
            assert(texts(attacks@).take(i + 1).drop_last() =~= texts(attacks@).take(i as int));
            assert(out@ =~= old(out)@ + attack_names_text(texts(attacks@).take(i + 1)));
        }
        i += 1;
    }
    proof {
        assert(texts(attacks@).take(i as int) =~= texts(attacks@));
    }
}

/// The list behind an optional reference, as texts.
pub open spec fn list_view(o: Option<&Vec<String>>) -> Option<Seq<Seq<char>>> {
    match o {
        Some(v) => Some(texts(v@)),
        None => None,
    }
}

fn level_message(head: &str, level: LevelType, tail: &str, name: &String) -> (r: String)
    ensures
        r@ == head@ + decimal(level as nat) + tail@ + name@ + "`."@,
{
    let mut message = String::new();
    message.append(head);
    push_decimal(&mut message, level as u64);
    message.append(tail);
    message.append(name.as_str());
    message.append("`.");
    proof {
        assert(message@ =~= head@ + decimal(level as nat) + tail@ + name@ + "`."@);
    }
    message
}

proof fn lemma_default_list_some(fas: Seq<SpeciesFormAttack>, k: int)
    requires
        0 <= k < fas.len(),
        fas[k].form is None,
    ensures
        default_list(fas) is Some,
    decreases fas.len(),
{
    if k < fas.len() - 1 {
        lemma_default_list_some(fas.drop_last(), k);
    }
}

/// Once a prefix of the lists gives an error, all of them give that error.
proof fn lemma_form_attacks_error_extends(
    fas: Seq<SpeciesFormAttack>,
    forms: Seq<IdNamePair>,
    level: LevelType,
    name: Seq<char>,
    n: int,
)
    requires
        0 <= n <= fas.len(),
        form_attacks_error(fas.take(n), forms, level, name) is Some,
    ensures
        form_attacks_error(fas, forms, level, name) == form_attacks_error(
            fas.take(n),
            forms,
            level,
            name,
        ),
    decreases fas.len() - n,
{
    if n == fas.len() {
        assert(fas.take(n) =~= fas);
    } else {
        assert(fas.take(n + 1).drop_last() =~= fas.take(n));
        lemma_form_attacks_error_extends(fas, forms, level, name, n + 1);
    }
}

/// Writes the attack list of each form for one level, or gives the error.
#[verifier::rlimit(40)]
fn write_form_attacks(
    out: &mut String,
    fas: &Vec<SpeciesFormAttack>,
    forms: &[IdNamePair],
    level: LevelType,
    name: &String,
) -> (r: BuildResult)
    requires
        covers(forms@, forms@.len()),
    ensures
        match form_attacks_error(fas@, forms@, level, name@) {
            Some(e) => r is Err && r->Err_0 is SyntaxError && result_text(r) == Err::<
                (),
                Seq<char>,
            >(e),
            None => r is Ok && final(out)@ == old(out)@ + "&["@ + form_lists_text(
                fas@,
                forms@,
                form_count(forms@),
            ) + "], "@,
        },
{
    let n = forms.len();
    let mut table: Vec<Option<&Vec<String>>> = Vec::new();
    let mut i: usize = 0;
    while i < n
        invariant
            n == forms@.len(),
            0 <= i <= n,
            table@.len() == i,
            forall|x: int| 0 <= x < i ==> table@[x] is None,
        decreases n - i,
    {
        table.push(None);
        i += 1;
    }
    let mut default: Option<&Vec<String>> = None;
    let mut k: usize = 0;
    while k < fas.len()
        invariant
            n == forms@.len(),
            covers(forms@, forms@.len()),
            0 <= k <= fas@.len(),
            table@.len() == n,
            form_attacks_error(fas@.take(k as int), forms@, level, name@) is None,
            list_view(default) == default_list(fas@.take(k as int)),
            forall|x: int|
                0 <= x < n ==> list_view(#[trigger] table@[x]) == form_list(
                    fas@.take(k as int),
                    forms@,
                    x as nat,
                ),
        decreases fas@.len() - k,
    {
        let fa = &fas[k];
        proof {
            assert(fas@.take(k + 1).drop_last() =~= fas@.take(k as int));
            assert(fas@.take(k + 1).last() == fas@[k as int]);
        }
        match &fa.form {
            Some(f) => {
                match form_lookup(forms, f) {
                    None => {
                        let mut head = String::new();
                        head.append("Invalid form `");
                        head.append(f.as_str());
                        head.append("` at level ");
                        let message = level_message(head.as_str(), level, " for `", name);
                        proof {
                            assert(message@ =~= invalid_form_message(f@, level, name@));
                            lemma_form_attacks_error_extends(fas@, forms@, level, name@, k + 1);
                        }
                        return Err(Error::SyntaxError(message));
                    },
                    Some(i) => {
                        proof {
                            lemma_form_index_below(forms@, f@);
                        }
                        let ghost before = table@;
                        table.set(i, Some(&fa.attacks));
                        proof {
                            assert forall|x: int| 0 <= x < n implies list_view(#[trigger] table@[x])
                                == form_list(fas@.take(k + 1), forms@, x as nat) by {
                                assert(list_view(before[x]) == form_list(
                                    fas@.take(k as int),
                                    forms@,
                                    x as nat,
                                ));
                            }
                        }
                    },
                }
            },
            None => {
                if default.is_some() {
                    let message = level_message(
                        "Only 1 default attack list is allowed at level ",
                        level,
                        " for `",
                        name,
                    );
                    proof {
                        assert(message@ =~= default_twice_message(level, name@));
                        lemma_form_attacks_error_extends(fas@, forms@, level, name@, k + 1);
                    }
                    return Err(Error::SyntaxError(message));
                }
                default = Some(&fa.attacks);
            },
        }
        k += 1;
    }
    proof {
        assert(fas@.take(k as int) =~= fas@);
    }
    let count = form_count_exec(forms);
    proof {
        lemma_form_count_bound(forms@, forms@.len());
    }
    out.append("&[");
    let ghost lists_start = out@;
    let mut i: usize = 0;
    while i < count
        invariant
            n == forms@.len(),
            count == form_count(forms@),
            count <= n,
            table@.len() == n,
            0 <= i <= count,
            list_view(default) == default_list(fas@),
            forall|x: int| 0 <= x < n ==> list_view(#[trigger] table@[x]) == form_list(fas@, forms@, x as nat),
            out@ == lists_start + form_lists_text(fas@, forms@, i as nat),
        decreases count - i,
    {
        out.append("&[");
        assert(list_view(table@[i as int]) == form_list(fas@, forms@, i as nat));
        match table[i] {
            Some(list) => write_attack_names(out, list),
            None => match default {
                Some(list) => write_attack_names(out, list),
                None => {},
            },
        }
        out.append("], ");
        proof {
            assert(out@ =~= lists_start + form_lists_text(fas@, forms@, (i + 1) as nat));
        }
        i += 1;
    }
    out.append("], ");
    proof {
        assert(final(out)@ =~= old(out)@ + "&["@ + form_lists_text(fas@, forms@, form_count(forms@))
            + "], "@);
    }
    Ok(())
}

proof fn lemma_form_index_upto_below(forms: Seq<IdNamePair>, name: Seq<char>, n: nat)
    ensures
        form_index_upto(forms, name, n) matches Some(i) ==> i < n,
    decreases n,
{
    if n > 0 {
        lemma_form_index_upto_below(forms, name, (n - 1) as nat);
    }
}

proof fn lemma_form_index_below(forms: Seq<IdNamePair>, name: Seq<char>)
    ensures
        form_index(forms, name) matches Some(i) ==> i < forms.len(),
{
    lemma_form_index_upto_below(forms, name, forms.len());
}

proof fn lemma_form_count_bound(forms: Seq<IdNamePair>, n: nat)
    ensures
        form_count_upto(forms, n) <= n,
    decreases n,
{
    if n > 0 {
        lemma_form_count_bound(forms, (n - 1) as nat);
    }
}

/// Once a prefix of the learnable attacks gives an error, all of them give that error.
proof fn lemma_learnable_error_extends(
    las: Seq<SpeciesLearnableAttack>,
    forms: Seq<IdNamePair>,
    name: Seq<char>,
    n: int,
)
    requires
        0 <= n <= las.len(),
        learnable_text(las.take(n), forms, name) is Err,
    ensures
        learnable_text(las, forms, name) == learnable_text(las.take(n), forms, name),
    decreases las.len() - n,
{
    if n == las.len() {
        assert(las.take(n) =~= las);
    } else {
        assert(las.take(n + 1).drop_last() =~= las.take(n));
        lemma_learnable_error_extends(las, forms, name, n + 1);
    }
}

/// Writes the learnable attacks of each level, or gives the first error.
#[verifier::rlimit(60)]
fn write_learnable(
    out: &mut String,
    las: &Vec<&SpeciesLearnableAttack>,
    forms: &[IdNamePair],
    name: &String,
) -> (r: BuildResult)
    requires
        covers(forms@, forms@.len()),
    ensures
        match learnable_text(deref_all(las@), forms@, name@) {
            Ok(t) => r is Ok && final(out)@ == old(out)@ + t,
            Err(e) => r is Err && r->Err_0 is SyntaxError && result_text(r) == Err::<
                (),
                Seq<char>,
            >(e),
        },
{
    let ghost s = deref_all(las@);
    let mut i: usize = 0;
    while i < las.len()
        invariant
            s == deref_all(las@),
            covers(forms@, forms@.len()),
            0 <= i <= las@.len(),
            learnable_text(s.take(i as int), forms@, name@) is Ok,
            out@ == old(out)@ + learnable_text(s.take(i as int), forms@, name@)->Ok_0,
        decreases las@.len() - i,
    {
        let la = las[i];
        proof {
            assert(s.take(i + 1).drop_last() =~= s.take(i as int));
            assert(s.take(i + 1).last() == *la);
        }
        let ghost before = out@;
        out.append("(");
        push_decimal(out, la.level as u64);
        out.append(", ");
        let ghost part_start = out@;
        match &la.attacks {
            SpeciesAttacks::Attacks(list) => {
                out.append("&[&[");
                write_attack_names(out, list);
                out.append("]]");
                proof {
                    assert(out@ =~= part_start + ("&[&["@ + attack_names_text(texts(list@))
                        + "]]"@));
                }
            },
            SpeciesAttacks::FormAttacks(fas) => {
                let r = write_form_attacks(out, fas, forms, la.level, name);
                if r.is_err() {
                    proof {
                        lemma_learnable_error_extends(s, forms@, name@, i + 1);
                    }
                    return r;
                }
                proof {
                    assert(out@ =~= part_start + ("&["@ + form_lists_text(
                        fas@,
                        forms@,
                        form_count(forms@),
                    ) + "], "@));
                }
            },
        }
        out.append("), ");
        proof {
            assert(out@ =~= old(out)@ + learnable_text(s.take(i + 1), forms@, name@)->Ok_0);
        }
        i += 1;
    }
    proof {
        assert(s.take(i as int) =~= s);
    }
    Ok(())
}

/// A species that a species evolves into at a level.
#[derive(Debug, Clone, PartialEq, Eq)]
pub struct SpeciesEvolution {
    pub level: LevelType,
    pub species: Vec<String>,
}

/// The abilities of a species.
#[derive(Debug, Clone, PartialEq, Eq)]
pub struct SpeciesAbilities {
    pub default: Vec<String>,
    pub hidden: Vec<String>,
}

/// The base statistics of a species and the statistic bonuses that it yields.
#[derive(Debug, Clone, PartialEq, Eq)]
pub struct SpeciesStatistics {
    pub base: SpeciesStatisticsValue<StatBaseType>,
    pub ev_yield: SpeciesStatisticsValue<Option<StatYieldType>>,
}

/// A species as its resource file defines it. Heights and weights are kept as the text that the
/// generated code writes for them.
#[derive(Debug, Clone, PartialEq, Eq)]
pub struct Species {
    pub name: String,
    pub internal: Option<String>,
    pub id: SpeciesId,
    pub description: String,
    pub kind: String,
    pub forms: Vec<IdNamePair>,
    pub elements: SpeciesFormChange<Vec<String>>,
    pub experience: ExperienceYieldType,
    pub height: SpeciesFormChange<String>,
    pub weight: SpeciesFormChange<String>,
    pub rareness: RarenessType,
    pub friendship: FriendshipType,
    pub hatch: HatchType,
    pub groups: Vec<String>,
    pub gender: String,
    pub growth: String,
    pub color: String,
    pub habitat: String,
    pub evolutions: Vec<SpeciesEvolution>,
    pub abilities: SpeciesAbilities,
    pub statistics: SpeciesStatistics,
    pub attacks: SpeciesAttacksList,
}

impl Identifiable for Species {
    open spec fn name_spec(&self) -> Seq<char> {
        self.name@
    }

    open spec fn internal_spec(&self) -> Option<Seq<char>> {
        match self.internal {
            Some(s) => Some(s@),
            None => None,
        }
    }

    fn name(&self) -> (r: &String) {
        &self.name
    }

    fn internal(&self) -> (r: Option<&String>) {
        self.internal.as_ref()
    }
}

impl IdResource for Species {
    open spec fn id_spec(&self) -> u64 {
        self.id as u64
    }

    fn id(&self) -> (r: u64) {
        self.id as u64
    }
}

/// The resource file of one species.
#[derive(Debug, Clone, PartialEq, Eq)]
pub struct SpeciesFile {
    pub species: Species,
}

/// `a` followed by `b`, or the first error.
pub open spec fn then(a: Result<Seq<char>, Seq<char>>, b: Result<Seq<char>, Seq<char>>) -> Result<
    Seq<char>,
    Seq<char>,
> {
    match a {
        Err(e) => Err(e),
        Ok(x) => match b {
            Err(e) => Err(e),
            Ok(y) => Ok(x + y),
        },
    }
}

/// The groups of statistics in form order, or the error for the first group of an unknown form.
pub open spec fn stat_list<T>(v: SpeciesStatisticsValue<T>, forms: Seq<IdNamePair>, who: Seq<char>) -> Result<
    Seq<Option<SpeciesStatisticsGroup<T>>>,
    Seq<char>,
> {
    match v {
        SpeciesStatisticsValue::FormChange(b) => match unknown_form(b@, forms) {
            Some(k) => Err(unknown_form_message(b@[k].form_spec(), ""@, who)),
            None => Ok(slots(b@, forms)),
        },
        SpeciesStatisticsValue::NoChange(_) => Ok(Seq::empty()),
    }
}

/// Where the statistics differ by form, each group before the first of an unknown form is for a
/// form numbered below the number of groups, and the first form without a group exists.
pub open spec fn stats_ready<T>(v: SpeciesStatisticsValue<T>, forms: Seq<IdNamePair>) -> bool {
    match v {
        SpeciesStatisticsValue::FormChange(b) => order_fits(b@, forms) && match unknown_form(
            b@,
            forms,
        ) {
            Some(_) => true,
            None => match missing_index(slots(b@, forms)) {
                Some(k) => k < forms.len(),
                None => true,
            },
        },
        SpeciesStatisticsValue::NoChange(_) => true,
    }
}

/// The entry `label: &[...],` of statistic `stat`.
pub open spec fn stat_section<T: CustomDisplay>(
    v: SpeciesStatisticsValue<T>,
    forms: Seq<IdNamePair>,
    name: Seq<char>,
    label: Seq<char>,
    attribute: Seq<char>,
    list: Seq<Option<SpeciesStatisticsGroup<T>>>,
    stat: Statistic,
) -> Result<Seq<char>, Seq<char>> {
    then(
        then(Ok("\t\t"@ + label + ": &["@), v.text(forms, name, attribute, ""@, ""@, list, stat)),
        Ok("],\n"@),
    )
}

proof fn lemma_missing_stat_values<T>(x: Seq<Option<SpeciesStatisticsGroup<T>>>, stat: Statistic)
    ensures
        missing_index(stat_values(x, stat)) == missing_index(x),
    decreases x.len(),
{
    if x.len() > 0 {
        lemma_missing_stat_values(x.drop_last(), stat);
        assert(stat_values(x, stat).drop_last() =~= stat_values(x.drop_last(), stat));
    }
}

/// The statistic written in the `i`-th entry of a block of statistics.
pub open spec fn stat_at(i: int) -> Statistic {
    if i == 0 {
        Statistic::Health
    } else if i == 1 {
        Statistic::Attack
    } else if i == 2 {
        Statistic::Defense
    } else if i == 3 {
        Statistic::SpAttack
    } else if i == 4 {
        Statistic::SpDefense
    } else {
        Statistic::Speed
    }
}

fn stat_at_exec(i: usize) -> (r: Statistic)
    ensures
        r == stat_at(i as int),
{
    if i == 0 {
        Statistic::Health
    } else if i == 1 {
        Statistic::Attack
    } else if i == 2 {
        Statistic::Defense
    } else if i == 3 {
        Statistic::SpAttack
    } else if i == 4 {
        Statistic::SpDefense
    } else {
        Statistic::Speed
    }
}

/// The texts of a list of strings.
pub open spec fn strs(s: Seq<&str>) -> Seq<Seq<char>> {
    s.map_values(|x: &str| x@)
}

/// The first `n` statistic entries, with labels `labels` and attributes `attributes`.
pub open spec fn stat_sections<T: CustomDisplay>(
    v: SpeciesStatisticsValue<T>,
    forms: Seq<IdNamePair>,
    name: Seq<char>,
    labels: Seq<Seq<char>>,
    attributes: Seq<Seq<char>>,
    list: Seq<Option<SpeciesStatisticsGroup<T>>>,
    n: nat,
) -> Result<Seq<char>, Seq<char>>
    decreases n,
{
    if n == 0 {
        Ok(Seq::empty())
    } else {
        then(
            stat_sections(v, forms, name, labels, attributes, list, (n - 1) as nat),
            stat_section(
                v,
                forms,
                name,
                labels[n - 1],
                attributes[n - 1],
                list,
                stat_at(n - 1),
            ),
        )
    }
}

/// The block of the six statistics, or the first error.
#[verifier::opaque]
pub open spec fn stats_text<T: CustomDisplay>(
    v: SpeciesStatisticsValue<T>,
    forms: Seq<IdNamePair>,
    name: Seq<char>,
    who: Seq<char>,
    labels: Seq<Seq<char>>,
    attributes: Seq<Seq<char>>,
) -> Result<Seq<char>, Seq<char>> {
    match stat_list(v, forms, who) {
        Err(e) => Err(e),
        Ok(list) => stat_sections(v, forms, name, labels, attributes, list, 6),
    }
}

/// Writes the block of the six statistics, or gives the first error.
fn write_stats<T: CustomDisplay>(
    out: &mut String,
    v: &SpeciesStatisticsValue<T>,
    forms: &[IdNamePair],
    name: &String,
    who: &str,
    labels: &[&str],
    attributes: &[&str],
) -> (r: BuildResult)
    requires
        covers(forms@, forms@.len()),
        stats_ready(*v, forms@),
        labels@.len() == 6,
        attributes@.len() == 6,
    ensures
        match stats_text(*v, forms@, name@, who@, strs(labels@), strs(attributes@)) {
            Ok(t) => r is Ok && final(out)@ == old(out)@ + t,
            Err(e) => r is Err && r->Err_0 is SyntaxError && result_text(r) == Err::<
                (),
                Seq<char>,
            >(e),
        },
{
    proof {
        reveal(stats_text);
    }
    let list: Vec<Option<&SpeciesStatisticsGroup<T>>> = match v {
        SpeciesStatisticsValue::FormChange(b) => match form_map_order(b, who, "", forms) {
            Ok(l) => l,
            Err(e) => {
                return Err(Error::SyntaxError(e));
            },
        },
        SpeciesStatisticsValue::NoChange(_) => Vec::new(),
    };
    proof {
        assert(derefs(list@) =~= stat_list(*v, forms@, who@)->Ok_0);
    }
    let ghost ls = strs(labels@);
    let ghost at = strs(attributes@);
    let mut i: usize = 0;
    while i < 6
        invariant
            0 <= i <= 6,
            labels@.len() == 6,
            attributes@.len() == 6,
            ls == strs(labels@),
            at == strs(attributes@),
            covers(forms@, forms@.len()),
            stats_ready(*v, forms@),
            derefs(list@) == stat_list(*v, forms@, who@)->Ok_0,
            stat_list(*v, forms@, who@) is Ok,
            stat_sections(*v, forms@, name@, ls, at, derefs(list@), i as nat) is Ok,
            out@ == old(out)@ + stat_sections(*v, forms@, name@, ls, at, derefs(list@), i as nat)->Ok_0,
        decreases 6 - i,
    {
        let stat = stat_at_exec(i);
        proof {
            lemma_missing_stat_values(derefs(list@), stat);
        }
        let ghost before = out@;
        out.append("\t\t");
        out.append(labels[i]);
        out.append(": &[");
        let r = v.write(out, name, attributes[i], "", "", forms, &list, stat);
        if r.is_err() {
            proof {
                reveal(stats_text);
                lemma_stat_sections_error(*v, forms@, name@, ls, at, derefs(list@), (i + 1) as nat);
            }
            return r;
        }
        out.append("],\n");
        proof {
            assert(out@ =~= old(out)@ + stat_sections(
                *v,
                forms@,
                name@,
                ls,
                at,
                derefs(list@),
                (i + 1) as nat,
            )->Ok_0);
        }
        i += 1;
    }
    Ok(())
}

/// Once the first `n` entries give an error, all six do.
proof fn lemma_stat_sections_error<T: CustomDisplay>(
    v: SpeciesStatisticsValue<T>,
    forms: Seq<IdNamePair>,
    name: Seq<char>,
    labels: Seq<Seq<char>>,
    attributes: Seq<Seq<char>>,
    list: Seq<Option<SpeciesStatisticsGroup<T>>>,
    n: nat,
)
    requires
        n <= 6,
        stat_sections(v, forms, name, labels, attributes, list, n) is Err,
    ensures
        stat_sections(v, forms, name, labels, attributes, list, 6) == stat_sections(
            v,
            forms,
            name,
            labels,
            attributes,
            list,
            n,
        ),
    decreases 6 - n,
{
    if n < 6 {
        lemma_stat_sections_error(v, forms, name, labels, attributes, list, n + 1);
    }
}

/// The names of the forms numbered `0` to `n - 1` as byte string literals.
pub open spec fn form_names_text(forms: Seq<IdNamePair>, n: nat) -> Seq<char>
    decreases n,
{
    if n == 0 {
        Seq::empty()
    } else {
        form_names_text(forms, (n - 1) as nat) + escaped_literal(
            form_with_id(forms, (n - 1) as nat).name_spec(),
        ) + ", "@
    }
}

/// The groups of a species as the generated code names them.
pub open spec fn groups_text(groups: Seq<Seq<char>>) -> Seq<char>
    decreases groups.len(),
{
    if groups.len() == 0 {
        Seq::empty()
    } else {
        groups_text(groups.drop_last()) + "Group::"@ + groups.last() + ", "@
    }
}

/// The names and classifiers of a species.
pub open spec fn species_names_text(sp: Species) -> Seq<char> {
    "\tSpecies\n\t{\n"@ + "\t\tname: "@ + escaped_literal(sp.name@) + ",\n"@ + "\t\tdescription: "@
        + escaped_literal(sp.description@) + ",\n"@ + "\t\tkind: "@ + escaped_literal(sp.kind@)
        + ",\n"@ + "\t\tgender: GenderRatio::"@ + sp.gender@ + ",\n"@ + "\t\tgrowth: Growth::"@
        + sp.growth@ + ",\n"@ + "\t\tcolor: Color::"@ + sp.color@ + ",\n"@ + "\t\thabitat: Habitat::"@
        + sp.habitat@ + ",\n"@
}

/// The numbers of a species.
pub open spec fn species_numbers_text(sp: Species) -> Seq<char> {
    "\t\trareness: "@ + decimal(sp.rareness as nat) + ",\n"@ + "\t\tfriendship: "@ + decimal(
        sp.friendship as nat,
    ) + ",\n"@ + "\t\thatch: "@ + decimal(sp.hatch as nat) + ",\n"@ + "\t\texperience_yield: "@
        + decimal(sp.experience as nat) + ",\n"@
}

/// The forms of a species, or a single normal form where it has none.
pub open spec fn species_forms_text(sp: Species) -> Seq<char> {
    "\t\tforms: &["@ + form_names_text(sp.forms@, sp.forms@.len()) + (if form_count(sp.forms@)
        == 0 {
        "b\"Normal Forme\0\"\n"@
    } else {
        Seq::empty()
    }) + "],\n"@
}

/// The first entries of a species: its names, classifiers, numbers and forms.
#[verifier::opaque]
pub open spec fn species_head_text(sp: Species) -> Seq<char> {
    species_names_text(sp) + species_numbers_text(sp) + species_forms_text(sp)
}

/// The labels of the base statistics.
pub open spec fn base_labels() -> Seq<Seq<char>> {
    seq![
        "base_health"@,
        "base_attack"@,
        "base_defense"@,
        "base_spattack"@,
        "base_spdefense"@,
        "base_speed"@,
    ]
}

/// The attribute names of the base statistics.
pub open spec fn base_attributes() -> Seq<Seq<char>> {
    seq![
        "base_health"@,
        "base_attack"@,
        "base_defense"@,
        "base_sp_attack"@,
        "base_sp_defense"@,
        "base_speed"@,
    ]
}

/// The labels of the yielded statistics.
pub open spec fn yield_labels() -> Seq<Seq<char>> {
    seq![
        "yield_health"@,
        "yield_attack"@,
        "yield_defense"@,
        "yield_spattack"@,
        "yield_spdefense"@,
        "yield_speed"@,
    ]
}

/// The attribute names of the yielded statistics.
pub open spec fn yield_attributes() -> Seq<Seq<char>> {
    seq![
        "yield_health"@,
        "yield_attack"@,
        "yield_defense"@,
        "yield_sp_attack"@,
        "yield_sp_defense"@,
        "yield_speed"@,
    ]
}

/// The entry `label: &[...],` of a value that may differ by form.
#[verifier::opaque]
pub open spec fn change_section<T: CustomDisplay>(
    c: SpeciesFormChange<T>,
    forms: Seq<IdNamePair>,
    name: Seq<char>,
    label: Seq<char>,
    prefix: Seq<char>,
    postfix: Seq<char>,
) -> Result<Seq<char>, Seq<char>> {
    then(
        then(Ok("\t\t"@ + label + ": &["@), c.text(forms, name, label, prefix, postfix)),
        Ok("],\n"@),
    )
}

/// The first entries of a species up to its groups, or the first error.
#[verifier::opaque]
pub open spec fn species_front_a_text(sp: Species) -> Result<Seq<char>, Seq<char>> {
    then(
        then(
            Ok(species_head_text(sp)),
            change_section(sp.elements, sp.forms@, sp.name@, "elements"@, "Element::"@, ""@),
        ),
        Ok("\t\tgroups: &["@ + groups_text(texts(sp.groups@)) + "],\n"@),
    )
}

/// The first entries of a species up to its weights, or the first error.
#[verifier::opaque]
pub open spec fn species_front_text(sp: Species) -> Result<Seq<char>, Seq<char>> {
    then(
        then(
            species_front_a_text(sp),
            change_section(sp.height, sp.forms@, sp.name@, "height"@, ""@, " as MetricType"@),
        ),
        change_section(sp.weight, sp.forms@, sp.name@, "weight"@, ""@, " as MetricType"@),
    )
}

/// The base and yielded statistics of a species, or the first error.
#[verifier::opaque]
pub open spec fn species_stats_text(sp: Species) -> Result<Seq<char>, Seq<char>> {
    then(
        stats_text(
            sp.statistics.base,
            sp.forms@,
            sp.name@,
            "statistics.base"@,
            base_labels(),
            base_attributes(),
        ),
        stats_text(
            sp.statistics.ev_yield,
            sp.forms@,
            sp.name@,
            "statistics.yield"@,
            yield_labels(),
            yield_attributes(),
        ),
    )
}

/// The learnable attacks of a species, ordered by level, or the first error.
#[verifier::opaque]
pub open spec fn species_learnable_text(sp: Species) -> Result<Seq<char>, Seq<char>> {
    then(
        then(
            Ok("\t\tattacks_learnable: &["@),
            learnable_text(by_level(sp.attacks.learnable@), sp.forms@, sp.name@),
        ),
        Ok("],\n"@),
    )
}

/// The generated data of one species, or the first error.
pub open spec fn species_entry_text(sp: Species) -> Result<Seq<char>, Seq<char>> {
    then(
        then(then(species_front_text(sp), species_stats_text(sp)), species_learnable_text(sp)),
        Ok("\t},\n"@),
    )
}

/// A species can be written without failing: its forms are numbered sequentially from 0 and
/// are fewer than 256, and each value that differs by form names its forms as it must.
pub open spec fn species_ready(sp: Species) -> bool {
    &&& covers(sp.forms@, sp.forms@.len())
    &&& sp.forms@.len() <= 255
    &&& sp.elements.ready(sp.forms@)
    &&& sp.height.ready(sp.forms@)
    &&& sp.weight.ready(sp.forms@)
    &&& stats_ready(sp.statistics.base, sp.forms@)
    &&& stats_ready(sp.statistics.ev_yield, sp.forms@)
}

fn write_species_names(out: &mut String, sp: &Species)
    ensures
        final(out)@ == old(out)@ + species_names_text(*sp),
{
    let mut t = String::from_str("\tSpecies\n\t{\n");
    t.append("\t\tname: ");
    write_utf8_escaped(&mut t, sp.name.as_str());
    t.append(",\n");
    t.append("\t\tdescription: ");
    write_utf8_escaped(&mut t, sp.description.as_str());
    t.append(",\n");
    t.append("\t\tkind: ");
    write_utf8_escaped(&mut t, sp.kind.as_str());
    t.append(",\n");
    t.append("\t\tgender: GenderRatio::");
    t.append(sp.gender.as_str());
    t.append(",\n");
    t.append("\t\tgrowth: Growth::");
    t.append(sp.growth.as_str());
    t.append(",\n");
    t.append("\t\tcolor: Color::");
    t.append(sp.color.as_str());
    t.append(",\n");
    t.append("\t\thabitat: Habitat::");
    t.append(sp.habitat.as_str());
    t.append(",\n");
    out.append(t.as_str());
}

fn write_species_numbers(out: &mut String, sp: &Species)
    ensures
        final(out)@ == old(out)@ + species_numbers_text(*sp),
{
    let mut t = String::from_str("\t\trareness: ");
    push_decimal(&mut t, sp.rareness as u64);
    t.append(",\n");
    t.append("\t\tfriendship: ");
    push_decimal(&mut t, sp.friendship as u64);
    t.append(",\n");
    t.append("\t\thatch: ");
    push_decimal(&mut t, sp.hatch as u64);
    t.append(",\n");
    t.append("\t\texperience_yield: ");
    push_decimal(&mut t, sp.experience as u64);
    t.append(",\n");
    out.append(t.as_str());
}

fn write_species_forms(out: &mut String, sp: &Species)
    requires
        covers(sp.forms@, sp.forms@.len()),
    ensures
        final(out)@ == old(out)@ + species_forms_text(*sp),
{
    out.append("\t\tforms: &[");
    let ghost names_start = out@;
    let mut i: usize = 0;
    while i < sp.forms.len()
        invariant
            0 <= i <= sp.forms@.len(),
            covers(sp.forms@, sp.forms@.len()),
            out@ == names_start + form_names_text(sp.forms@, i as nat),
        decreases sp.forms@.len() - i,
    {
        let f = form_at(sp.forms.as_slice(), i);
        write_utf8_escaped(out, f.name().as_str());
        out.append(", ");
        proof {
            assert(out@ =~= names_start + form_names_text(sp.forms@, (i + 1) as nat));
        }
        i += 1;
    }
    if form_count_exec(sp.forms.as_slice()) == 0 {
        out.append("b\"Normal Forme\0\"\n");
    }
    out.append("],\n");
    proof {
        assert(final(out)@ =~= old(out)@ + species_forms_text(*sp));
    }
}

fn write_groups(out: &mut String, groups: &Vec<String>)
    ensures
        final(out)@ == old(out)@ + groups_text(texts(groups@)),
{
    let mut i: usize = 0;
    while i < groups.len()
        invariant
            0 <= i <= groups@.len(),
            out@ == old(out)@ + groups_text(texts(groups@).take(i as int)),
        decreases groups@.len() - i,
    {
        out.append("Group::");
        out.append(groups[i].as_str());
        out.append(", ");
        proof {
            assert(texts(groups@).take(i + 1).drop_last() =~= texts(groups@).take(i as int));
            assert(out@ =~= old(out)@ + groups_text(texts(groups@).take(i + 1)));
        }
        i += 1;
    }
    proof {
        assert(texts(groups@).take(i as int) =~= texts(groups@));
    }
}

fn write_change_section<T: CustomDisplay>(
    out: &mut String,
    c: &SpeciesFormChange<T>,
    forms: &[IdNamePair],
    name: &String,
    label: &str,
    prefix: &str,
    postfix: &str,
) -> (r: BuildResult)
    requires
        covers(forms@, forms@.len()),
        c.ready(forms@),
    ensures
        match change_section(*c, forms@, name@, label@, prefix@, postfix@) {
            Ok(t) => r is Ok && final(out)@ == old(out)@ + t,
            Err(e) => r is Err && r->Err_0 is SyntaxError && result_text(r) == Err::<
                (),
                Seq<char>,
            >(e),
        },
{
    proof {
        reveal(change_section);
    }
    out.append("\t\t");
    out.append(label);
    out.append(": &[");
    let r = c.write(out, name.as_str(), label, prefix, postfix, forms);
    if r.is_err() {
        return r;
    }
    out.append("],\n");
    proof {
        assert(final(out)@ =~= old(out)@ + change_section(
            *c,
            forms@,
            name@,
            label@,
            prefix@,
            postfix@,
        )->Ok_0);
    }
    Ok(())
}

#[verifier::spinoff_prover]
#[verifier::rlimit(80)]
fn write_species_front_a(out: &mut String, sp: &Species) -> (r: BuildResult)
    requires
        covers(sp.forms@, sp.forms@.len()),
        sp.elements.ready(sp.forms@),
    ensures
        match species_front_a_text(*sp) {
            Ok(t) => r is Ok && final(out)@ == old(out)@ + t,
            Err(e) => r is Err && r->Err_0 is SyntaxError && result_text(r) == Err::<
                (),
                Seq<char>,
            >(e),
        },
{
    proof {
        reveal(species_front_a_text);
    }
    write_species_names(out, sp);
    write_species_numbers(out, sp);
    write_species_forms(out, sp);
    let ghost acc0 = species_head_text(*sp);
    proof {
        reveal(species_head_text);
        assert(out@ =~= old(out)@ + acc0);
    }
    let r = write_change_section(
        out,
        &sp.elements,
        sp.forms.as_slice(),
        &sp.name,
        "elements",
        "Element::",
        "",
    );
    if r.is_err() {
        return r;
    }
    let ghost acc1 = acc0 + change_section(
        sp.elements,
        sp.forms@,
        sp.name@,
        "elements"@,
        "Element::"@,
        ""@,
    )->Ok_0;
    proof {
        assert(out@ =~= old(out)@ + acc1);
    }
    out.append("\t\tgroups: &[");
    write_groups(out, &sp.groups);
    out.append("],\n");
    proof {
        assert(final(out)@ =~= old(out)@ + species_front_a_text(*sp)->Ok_0);
    }
    Ok(())
}

#[verifier::spinoff_prover]
#[verifier::rlimit(80)]
fn write_species_front(out: &mut String, sp: &Species) -> (r: BuildResult)
    requires
        covers(sp.forms@, sp.forms@.len()),
        sp.elements.ready(sp.forms@),
        sp.height.ready(sp.forms@),
        sp.weight.ready(sp.forms@),
    ensures
        match species_front_text(*sp) {
            Ok(t) => r is Ok && final(out)@ == old(out)@ + t,
            Err(e) => r is Err && r->Err_0 is SyntaxError && result_text(r) == Err::<
                (),
                Seq<char>,
            >(e),
        },
{
    proof {
        reveal(species_front_text);
    }
    let r = write_species_front_a(out, sp);
    if r.is_err() {
        return r;
    }
    let ghost acc2 = species_front_a_text(*sp)->Ok_0;
    let forms = sp.forms.as_slice();
    let r = write_change_section(out, &sp.height, forms, &sp.name, "height", "", " as MetricType");
    if r.is_err() {
        return r;
    }
    let ghost acc3 = acc2 + change_section(
        sp.height,
        sp.forms@,
        sp.name@,
        "height"@,
        ""@,
        " as MetricType"@,
    )->Ok_0;
    proof {
        assert(out@ =~= old(out)@ + acc3);
    }
    let r = write_change_section(out, &sp.weight, forms, &sp.name, "weight", "", " as MetricType");
    if r.is_err() {
        return r;
    }
    proof {
        assert(final(out)@ =~= old(out)@ + species_front_text(*sp)->Ok_0);
    }
    Ok(())
}

#[verifier::rlimit(40)]
fn write_species_stats(out: &mut String, sp: &Species) -> (r: BuildResult)
    requires
        species_ready(*sp),
    ensures
        match species_stats_text(*sp) {
            Ok(t) => r is Ok && final(out)@ == old(out)@ + t,
            Err(e) => r is Err && r->Err_0 is SyntaxError && result_text(r) == Err::<
                (),
                Seq<char>,
            >(e),
        },
{
    proof {
        reveal(species_stats_text);
    }
    let forms = sp.forms.as_slice();
    let base_l: [&str; 6] = [
        "base_health",
        "base_attack",
        "base_defense",
        "base_spattack",
        "base_spdefense",
        "base_speed",
    ];
    let base_a: [&str; 6] = [
        "base_health",
        "base_attack",
        "base_defense",
        "base_sp_attack",
        "base_sp_defense",
        "base_speed",
    ];
    proof {
        assert(strs(base_l@) =~= base_labels());
        assert(strs(base_a@) =~= base_attributes());
    }
    let r = write_stats(out, &sp.statistics.base, forms, &sp.name, "statistics.base", &base_l, &base_a);
    if r.is_err() {
        return r;
    }
    let ghost mid = out@;
    let yield_l: [&str; 6] = [
        "yield_health",
        "yield_attack",
        "yield_defense",
        "yield_spattack",
        "yield_spdefense",
        "yield_speed",
    ];
    let yield_a: [&str; 6] = [
        "yield_health",
        "yield_attack",
        "yield_defense",
        "yield_sp_attack",
        "yield_sp_defense",
        "yield_speed",
    ];
    proof {
        assert(strs(yield_l@) =~= yield_labels());
        assert(strs(yield_a@) =~= yield_attributes());
    }
    let r = write_stats(
        out,
        &sp.statistics.ev_yield,
        forms,
        &sp.name,
        "statistics.yield",
        &yield_l,
        &yield_a,
    );
    if r.is_err() {
        return r;
    }
    proof {
        assert(final(out)@ =~= old(out)@ + species_stats_text(*sp)->Ok_0);
    }
    Ok(())
}

fn write_species_learnable(out: &mut String, sp: &Species) -> (r: BuildResult)
    requires
        species_ready(*sp),
    ensures
        match species_learnable_text(*sp) {
            Ok(t) => r is Ok && final(out)@ == old(out)@ + t,
            Err(e) => r is Err && r->Err_0 is SyntaxError && result_text(r) == Err::<
                (),
                Seq<char>,
            >(e),
        },
{
    proof {
        reveal(species_learnable_text);
    }
    out.append("\t\tattacks_learnable: &[");
    let sorted = sort_by_level(&sp.attacks.learnable);
    let r = write_learnable(out, &sorted, sp.forms.as_slice(), &sp.name);
    if r.is_err() {
        return r;
    }
    out.append("],\n");
    proof {
        assert(final(out)@ =~= old(out)@ + species_learnable_text(*sp)->Ok_0);
    }
    Ok(())
}

/// Writes the generated data of one species, or gives the first error.
fn write_species_entry(out: &mut String, sp: &Species) -> (r: BuildResult)
    requires
        species_ready(*sp),
    ensures
        match species_entry_text(*sp) {
            Ok(t) => r is Ok && final(out)@ == old(out)@ + t,
            Err(e) => r is Err && r->Err_0 is SyntaxError && result_text(r) == Err::<
                (),
                Seq<char>,
            >(e),
        },
{
    let r = write_species_front(out, sp);
    if r.is_err() {
        return r;
    }
    let r = write_species_stats(out, sp);
    if r.is_err() {
        return r;
    }
    let r = write_species_learnable(out, sp);
    if r.is_err() {
        return r;
    }
    out.append("\t},\n");
    proof {
        assert(final(out)@ =~= old(out)@ + species_entry_text(*sp)->Ok_0);
    }
    Ok(())
}

/// The first lines of the generated species data.
pub open spec fn species_header_text(g: Seq<Species>) -> Seq<char> {
    disclaimer_text("static species data"@) + "use base::species::Species;\nuse types::species::{SpeciesId, MetricType};\nuse gen::element::Element;\nuse gen::gender::GenderRatio;\nuse gen::species::{Growth, Color, Habitat, Group};\nuse gen::attack_list::AttackType;\n\n"@ + enum_text("SpeciesType"@, "u16"@, g, 0)
        + "impl SpeciesType\n{\n\tpub fn species(&self) -> &'static Species\n\t{\n\t\t&SPECIES_LIST[*self as usize]\n\t}\n\tpub fn from_id(id: SpeciesId) -> &'static Species\n\t{\n\t\t&SPECIES_LIST[id as usize]\n\t}\n\tpub fn count() -> SpeciesId\n\t{\n\t\tSPECIES_LIST.len() as SpeciesId\n\t}\n}\n\nconst SPECIES_LIST: &'static [Species] = &[\n"@
}

/// The species numbered `id` of a group.
pub open spec fn species_with_id(g: Seq<Species>, id: nat) -> Species {
    g[first_with_id(g, id as u64)]
}

/// The data of the species numbered `0` to `n - 1`, or the first error.
pub open spec fn species_entries_text(g: Seq<Species>, n: nat) -> Result<Seq<char>, Seq<char>>
    decreases n,
{
    if n == 0 {
        Ok(Seq::empty())
    } else {
        then(
            species_entries_text(g, (n - 1) as nat),
            species_entry_text(species_with_id(g, (n - 1) as nat)),
        )
    }
}

/// The form enums of the species that have forms, in the order of the group.
pub open spec fn form_enums_text(g: Seq<Species>) -> Seq<char>
    decreases g.len(),
{
    if g.len() == 0 {
        Seq::empty()
    } else {
        form_enums_text(g.drop_last()) + if g.last().forms@.len() != 0 {
            enum_text(ident(g.last()) + "Form"@, "u8"@, g.last().forms@, 1)
        } else {
            Seq::empty()
        }
    }
}

/// The generated code for a group of species, or the first error.
pub open spec fn species_group_text(g: Seq<Species>) -> Result<Seq<char>, Seq<char>> {
    then(
        then(Ok(species_header_text(g)), species_entries_text(g, g.len())),
        Ok("];\n\npub mod form\n{\n"@ + form_enums_text(g) + "}\n\n// Validate that every species has properties for each of their forms.\n#[test]\nfn validate_species_forms()\n{\n\tfor species in 0..SpeciesType::count()\n\t{\n\t\tlet forms = SpeciesType::from_id(species).forms.len();\n\t\tassert_eq!(forms > 0, true);\n\t\tassert_eq!(SpeciesType::from_id(species).elements.len(), forms);\n\t\tassert_eq!(SpeciesType::from_id(species).height.len(), forms);\n\t\tassert_eq!(SpeciesType::from_id(species).weight.len(), forms);\n\t\tassert_eq!(SpeciesType::from_id(species).base_health.len(), forms);\n\t\tassert_eq!(SpeciesType::from_id(species).base_attack.len(), forms);\n\t\tassert_eq!(SpeciesType::from_id(species).base_defense.len(), forms);\n\t\tassert_eq!(SpeciesType::from_id(species).base_spattack.len(), forms);\n\t\tassert_eq!(SpeciesType::from_id(species).base_spdefense.len(), forms);\n\t\tassert_eq!(SpeciesType::from_id(species).base_speed.len(), forms);\n\t\tassert_eq!(SpeciesType::from_id(species).yield_health.len(), forms);\n\t\tassert_eq!(SpeciesType::from_id(species).yield_attack.len(), forms);\n\t\tassert_eq!(SpeciesType::from_id(species).yield_defense.len(), forms);\n\t\tassert_eq!(SpeciesType::from_id(species).yield_spattack.len(), forms);\n\t\tassert_eq!(SpeciesType::from_id(species).yield_spdefense.len(), forms);\n\t\tassert_eq!(SpeciesType::from_id(species).yield_speed.len(), forms);\n\t}\n}\n"@),
    )
}

/// The learnable attacks of a species include one of level 1.
pub open spec fn learns_at_level_one(sp: Species) -> bool {
    exists|k: int|
        0 <= k < sp.attacks.learnable@.len() && (#[trigger] sp.attacks.learnable@[k]).level == 1
}

/// The error message for a species without an attack learnable at level 1.
pub open spec fn level_one_message(name: Seq<char>) -> Seq<char> {
    "Invalid learnable attacks for species `"@ + name
        + "`.\n\t\t\t\t\tMust have an attack learnable at level 1."@
}

/// The error of the first species without an attack learnable at level 1.
pub open spec fn level_one_error(g: Seq<Species>) -> Option<Seq<char>>
    decreases g.len(),
{
    if g.len() == 0 {
        None
    } else {
        match level_one_error(g.drop_last()) {
            Some(e) => Some(e),
            None => if !learns_at_level_one(g.last()) {
                Some(level_one_message(g.last().name@))
            } else {
                None
            },
        }
    }
}

/// The constants lines of a species and of each of its forms.
pub open spec fn species_constants_text(sp: Species) -> Seq<char> {
    "MON_SPECIES_"@ + upper_case(ident(sp)) + "="@ + decimal(sp.id as nat) + "\n"@
        + form_constants_text(upper_case(ident(sp)), sp.forms@)
}

/// The constants lines of the forms of a species.
pub open spec fn form_constants_text(species: Seq<char>, forms: Seq<IdNamePair>) -> Seq<char>
    decreases forms.len(),
{
    if forms.len() == 0 {
        Seq::empty()
    } else {
        form_constants_text(species, forms.drop_last()) + "MON_SPECIES_"@ + species + "_FORM_"@
            + upper_case(ident(forms.last())) + "="@ + decimal(forms.last().id_spec() as nat)
            + "\n"@
    }
}

/// The constants lines of a group of species.
pub open spec fn species_group_constants_text(g: Seq<Species>) -> Seq<char>
    decreases g.len(),
{
    if g.len() == 0 {
        Seq::empty()
    } else {
        species_group_constants_text(g.drop_last()) + species_constants_text(g.last())
    }
}

/// Once the first `n` species give an error, the whole group gives that error.
proof fn lemma_entries_error_extends(g: Seq<Species>, n: nat, m: nat)
    requires
        n <= m,
        species_entries_text(g, n) is Err,
    ensures
        species_entries_text(g, m) == species_entries_text(g, n),
    decreases m - n,
{
    if n < m {
        lemma_entries_error_extends(g, n, (m - 1) as nat);
    }
}

/// Once the first `n` species give a level error, the whole group gives that error.
proof fn lemma_level_one_error_extends(g: Seq<Species>, n: int)
    requires
        0 <= n <= g.len(),
        level_one_error(g.take(n)) is Some,
    ensures
        level_one_error(g) == level_one_error(g.take(n)),
    decreases g.len() - n,
{
    if n == g.len() {
        assert(g.take(n) =~= g);
    } else {
        assert(g.take(n + 1).drop_last() =~= g.take(n));
        lemma_level_one_error_extends(g, n + 1);
    }
}

fn species_at(group: &[Species], id: usize) -> (r: &Species)
    requires
        id < group@.len(),
        covers(group@, group@.len()),
    ensures
        *r == species_with_id(group@, id as nat),
{
    assert(has_id(group@, id as int));
    let j = find_id(group, id as u64).unwrap();
    proof {
        lemma_find_is_first(group@, id as u64, j as int);
    }
    &group[j]
}

impl CodeGenerateGroup for Species {
    open spec fn group_validity(group: Seq<Species>) -> Result<(), Seq<char>> {
        match level_one_error(group) {
            Some(e) => Err(e),
            None => sequential_spec(group, 65535),
        }
    }

    /// The species are numbered sequentially, there are fewer than 65536 of them, and each can
    /// be written without failing.
    open spec fn group_generable(group: Seq<Species>) -> bool {
        &&& group.len() <= 65535
        &&& covers(group, group.len())
        &&& forall|i: int| 0 <= i < group.len() ==> species_ready(#[trigger] group[i])
    }

    open spec fn group_code(group: Seq<Species>) -> Result<Seq<char>, Seq<char>> {
        species_group_text(group)
    }

    open spec fn group_constants(group: Seq<Species>) -> Seq<char> {
        species_group_constants_text(group)
    }

    /// Every species learns an attack at level 1, and the identifier numbers are sequential.
    fn is_valid(group: &[Species]) -> (r: BuildResult)
        ensures
            result_text(r) == match level_one_error(group@) {
                Some(e) => Err(e),
                None => sequential_spec(group@, 65535),
            },
            r is Err ==> r->Err_0 is SyntaxError,
    {
        let mut i: usize = 0;
        while i < group.len()
            invariant
                0 <= i <= group@.len(),
                level_one_error(group@.take(i as int)) is None,
            decreases group@.len() - i,
        {
            let sp = &group[i];
            proof {
                assert(group@.take(i + 1).drop_last() =~= group@.take(i as int));
                assert(group@.take(i + 1).last() == group@[i as int]);
            }
            let mut valid = false;
            let mut k: usize = 0;
            while k < sp.attacks.learnable.len()
                invariant
                    0 <= k <= sp.attacks.learnable@.len(),
                    valid == exists|j: int|
                        0 <= j < k && (#[trigger] sp.attacks.learnable@[j]).level == 1,
                decreases sp.attacks.learnable@.len() - k,
            {
                if sp.attacks.learnable[k].level == 1 {
                    valid = true;
                }
                k += 1;
            }
            if !valid {
                let mut message = String::new();
                message.append("Invalid learnable attacks for species `");
                message.append(sp.name.as_str());
                message.append("`.\n\t\t\t\t\tMust have an attack learnable at level 1.");
                proof {
                    assert(message@ =~= level_one_message(sp.name@));
                    lemma_level_one_error_extends(group@, i + 1);
                }
                return Err(Error::SyntaxError(message));
            }
            i += 1;
        }
        proof {
            assert(group@.take(i as int) =~= group@);
        }
        sequential(group, 65535)
    }

    /// Prints the `SpeciesType` enum, the data of each species in identifier number order, and
    /// the form enums of the species that have forms; or gives the first error.
    fn gen_rust_group(group: &[Species], out: &mut String) -> (r: BuildResult)
        ensures
            match species_group_text(group@) {
                Ok(t) => r is Ok && final(out)@ == old(out)@ + t,
                Err(e) => r is Err && r->Err_0 is SyntaxError && result_text(r) == Err::<
                    (),
                    Seq<char>,
                >(e),
            },
    {
        let n = group.len();
        write_disclaimer(out, "static species data");
        out.append("use base::species::Species;\nuse types::species::{SpeciesId, MetricType};\nuse gen::element::Element;\nuse gen::gender::GenderRatio;\nuse gen::species::{Growth, Color, Habitat, Group};\nuse gen::attack_list::AttackType;\n\n");
        let _ = gen_rust_enum(out, "SpeciesType", "u16", group);
        out.append("impl SpeciesType\n{\n\tpub fn species(&self) -> &'static Species\n\t{\n\t\t&SPECIES_LIST[*self as usize]\n\t}\n\tpub fn from_id(id: SpeciesId) -> &'static Species\n\t{\n\t\t&SPECIES_LIST[id as usize]\n\t}\n\tpub fn count() -> SpeciesId\n\t{\n\t\tSPECIES_LIST.len() as SpeciesId\n\t}\n}\n\nconst SPECIES_LIST: &'static [Species] = &[\n");
        let ghost head = out@;
        proof {
            assert(head =~= old(out)@ + species_header_text(group@));
        }
        let mut id: usize = 0;
        while id < n
            invariant
                n == group@.len(),
                covers(group@, group@.len()),
                forall|i: int| 0 <= i < group@.len() ==> species_ready(#[trigger] group@[i]),
                0 <= id <= n,
                species_entries_text(group@, id as nat) is Ok,
                out@ == head + species_entries_text(group@, id as nat)->Ok_0,
            decreases n - id,
        {
            let sp = species_at(group, id);
            proof {
                assert(has_id(group@, id as int));
                let w = choose|w: int| 0 <= w < group@.len() && (#[trigger] group@[w]).id_spec() == id;
                lemma_first_exists(group@, id as u64, w);
                let j = first_with_id(group@, id as u64);
                assert(species_ready(group@[j]));
            }
            let r = write_species_entry(out, sp);
            if r.is_err() {
                proof {
                    lemma_entries_error_extends(group@, (id + 1) as nat, n as nat);
                }
                return r;
            }
            proof {
                assert(out@ =~= head + species_entries_text(group@, (id + 1) as nat)->Ok_0);
            }
            id += 1;
        }
        out.append("];\n\npub mod form\n{\n");
        let ghost enums_start = out@;
        let mut i: usize = 0;
        while i < n
            invariant
                n == group@.len(),
                0 <= i <= n,
                out@ == enums_start + form_enums_text(group@.take(i as int)),
            decreases n - i,
        {
            let sp = &group[i];
            proof {
                assert(group@.take(i + 1).drop_last() =~= group@.take(i as int));
                assert(group@.take(i + 1).last() == group@[i as int]);
            }
            if sp.forms.len() != 0 {
                let mut name = String::new();
                name.append(sp.identifier().as_str());
                name.append("Form");
                let _ = gen_rust_enum_indent(out, name.as_str(), "u8", sp.forms.as_slice(), 1);
                proof {
                    assert(name@ =~= ident(*sp) + "Form"@);
                }
            }
            proof {
                assert(out@ =~= enums_start + form_enums_text(group@.take(i + 1)));
            }
            i += 1;
        }
        proof {
            assert(group@.take(i as int) =~= group@);
        }
        out.append("}\n\n// Validate that every species has properties for each of their forms.\n#[test]\nfn validate_species_forms()\n{\n\tfor species in 0..SpeciesType::count()\n\t{\n\t\tlet forms = SpeciesType::from_id(species).forms.len();\n\t\tassert_eq!(forms > 0, true);\n\t\tassert_eq!(SpeciesType::from_id(species).elements.len(), forms);\n\t\tassert_eq!(SpeciesType::from_id(species).height.len(), forms);\n\t\tassert_eq!(SpeciesType::from_id(species).weight.len(), forms);\n\t\tassert_eq!(SpeciesType::from_id(species).base_health.len(), forms);\n\t\tassert_eq!(SpeciesType::from_id(species).base_attack.len(), forms);\n\t\tassert_eq!(SpeciesType::from_id(species).base_defense.len(), forms);\n\t\tassert_eq!(SpeciesType::from_id(species).base_spattack.len(), forms);\n\t\tassert_eq!(SpeciesType::from_id(species).base_spdefense.len(), forms);\n\t\tassert_eq!(SpeciesType::from_id(species).base_speed.len(), forms);\n\t\tassert_eq!(SpeciesType::from_id(species).yield_health.len(), forms);\n\t\tassert_eq!(SpeciesType::from_id(species).yield_attack.len(), forms);\n\t\tassert_eq!(SpeciesType::from_id(species).yield_defense.len(), forms);\n\t\tassert_eq!(SpeciesType::from_id(species).yield_spattack.len(), forms);\n\t\tassert_eq!(SpeciesType::from_id(species).yield_spdefense.len(), forms);\n\t\tassert_eq!(SpeciesType::from_id(species).yield_speed.len(), forms);\n\t}\n}\n");
        proof {
            assert(final(out)@ =~= old(out)@ + species_group_text(group@)->Ok_0);
        }
        Ok(())
    }

    /// Prints the constants of each species and of its forms.
    fn gen_constants_group(group: &[Species], out: &mut String) -> (r: BuildResult)
        ensures
            r is Ok,
            final(out)@ == old(out)@ + species_group_constants_text(group@),
    {
        let mut i: usize = 0;
        while i < group.len()
            invariant
                0 <= i <= group@.len(),
                out@ == old(out)@ + species_group_constants_text(group@.take(i as int)),
            decreases group@.len() - i,
        {
            let sp = &group[i];
            let ghost before = out@;
            let ident_capital = to_upper(sp.identifier().as_str());
            out.append("MON_SPECIES_");
            out.append(ident_capital.as_str());
            out.append("=");
            push_decimal(out, sp.id as u64);
            out.append("\n");
            let ghost forms_start = out@;
            let mut k: usize = 0;
            while k < sp.forms.len()
                invariant
                    0 <= k <= sp.forms@.len(),
                    ident_capital@ == upper_case(ident(*sp)),
                    out@ == forms_start + form_constants_text(ident_capital@, sp.forms@.take(k as int)),
                decreases sp.forms@.len() - k,
            {
                let form = &sp.forms[k];
                out.append("MON_SPECIES_");
                out.append(ident_capital.as_str());
                out.append("_FORM_");
                out.append(to_upper(form.identifier().as_str()).as_str());
                out.append("=");
                push_decimal(out, form.id());
                out.append("\n");
                proof {
                    assert(sp.forms@.take(k + 1).drop_last() =~= sp.forms@.take(k as int));
                    assert(out@ =~= forms_start + form_constants_text(
                        ident_capital@,
                        sp.forms@.take(k + 1),
                    ));
                }
                k += 1;
            }
            proof {
                assert(sp.forms@.take(k as int) =~= sp.forms@);
                assert(group@.take(i + 1).drop_last() =~= group@.take(i as int));
                assert(group@.take(i + 1).last() == group@[i as int]);
                assert(out@ =~= old(out)@ + species_group_constants_text(group@.take(i + 1)));
            }
            i += 1;
        }
        proof {
            assert(group@.take(i as int) =~= group@);
        }
        Ok(())
    }
}

/// The species classifiers: growth rates, groups, colors and habitats.
#[derive(Debug, Clone, PartialEq, Eq)]
pub struct SpeciesClassifiers {
    pub growth: Vec<IdNamePair>,
    pub groups: Vec<IdNamePair>,
    pub colors: Vec<IdNamePair>,
    pub habitats: Vec<IdNamePair>,
}

impl CodeGenerate for SpeciesClassifiers {
    open spec fn validity(&self) -> Result<(), Seq<char>> {
        match sequential_spec(self.growth@, 255) {
            Err(e) => Err(e),
            Ok(()) => match sequential_spec(self.groups@, 255) {
                Err(e) => Err(e),
                Ok(()) => match sequential_spec(self.colors@, 255) {
                    Err(e) => Err(e),
                    Ok(()) => sequential_spec(self.habitats@, 255),
                },
            },
        }
    }

    open spec fn generable(&self) -> bool {
        true
    }

    open spec fn rust_code(&self) -> Result<Seq<char>, Seq<char>> {
        Ok(
            disclaimer_text("species classifiers"@) + enum_text("Growth"@, "u8"@, self.growth@, 0)
                + enum_text("Group"@, "u8"@, self.groups@, 0) + enum_text("Color"@, "u8"@, self.colors@, 0)
                + enum_text("Habitat"@, "u8"@, self.habitats@, 0),
        )
    }

    open spec fn constants(&self) -> Seq<char> {
        constants_text("GROWTH"@, self.growth@) + constants_text("GROUP"@, self.groups@) + constants_text(
            "COLOR"@,
            self.colors@,
        ) + constants_text("HABITAT"@, self.habitats@)
    }

    /// All four lists are numbered sequentially.
    fn is_valid(&self) -> (r: BuildResult)
        ensures
            result_text(r) == match sequential_spec(self.growth@, 255) {
                Err(e) => Err(e),
                Ok(()) => match sequential_spec(self.groups@, 255) {
                    Err(e) => Err(e),
                    Ok(()) => match sequential_spec(self.colors@, 255) {
                        Err(e) => Err(e),
                        Ok(()) => sequential_spec(self.habitats@, 255),
                    },
                },
            },
            r is Err ==> r->Err_0 is SyntaxError,
    {
        let r = sequential(self.growth.as_slice(), 255);
        if r.is_err() {
            return r;
        }
        let r = sequential(self.groups.as_slice(), 255);
        if r.is_err() {
            return r;
        }
        let r = sequential(self.colors.as_slice(), 255);
        if r.is_err() {
            return r;
        }
        sequential(self.habitats.as_slice(), 255)
    }

    /// Prints the `Growth`, `Group`, `Color` and `Habitat` enums.
    fn gen_rust(&self, out: &mut String) -> (r: BuildResult)
        ensures
            r is Ok,
            final(out)@ == old(out)@ + disclaimer_text("species classifiers"@) + enum_text(
                "Growth"@,
                "u8"@,
                self.growth@,
                0,
            ) + enum_text("Group"@, "u8"@, self.groups@, 0) + enum_text(
                "Color"@,
                "u8"@,
                self.colors@,
                0,
            ) + enum_text("Habitat"@, "u8"@, self.habitats@, 0),
    {
        write_disclaimer(out, "species classifiers");
        let _ = gen_rust_enum(out, "Growth", "u8", self.growth.as_slice());
        let _ = gen_rust_enum(out, "Group", "u8", self.groups.as_slice());
        let _ = gen_rust_enum(out, "Color", "u8", self.colors.as_slice());
        let r = gen_rust_enum(out, "Habitat", "u8", self.habitats.as_slice());
        proof {
            assert(final(out)@ =~= old(out)@ + disclaimer_text("species classifiers"@) + enum_text(
                "Growth"@,
                "u8"@,
                self.growth@,
                0,
            ) + enum_text("Group"@, "u8"@, self.groups@, 0) + enum_text(
                "Color"@,
                "u8"@,
                self.colors@,
                0,
            ) + enum_text("Habitat"@, "u8"@, self.habitats@, 0));
        }
        r
    }

    /// Prints the constants of the four lists.
    fn gen_constants(&self, out: &mut String) -> (r: BuildResult)
        ensures
            r is Ok,
            final(out)@ == old(out)@ + constants_text("GROWTH"@, self.growth@) + constants_text(
                "GROUP"@,
                self.groups@,
            ) + constants_text("COLOR"@, self.colors@) + constants_text(
                "HABITAT"@,
                self.habitats@,
            ),
    {
        let _ = gen_constants(out, "GROWTH", self.growth.as_slice());
        let _ = gen_constants(out, "GROUP", self.groups.as_slice());
        let _ = gen_constants(out, "COLOR", self.colors.as_slice());
        let r = gen_constants(out, "HABITAT", self.habitats.as_slice());
        proof {
            assert(final(out)@ =~= old(out)@ + constants_text("GROWTH"@, self.growth@)
                + constants_text("GROUP"@, self.groups@) + constants_text("COLOR"@, self.colors@)
                + constants_text("HABITAT"@, self.habitats@));
        }
        r
    }
}

} // verus!

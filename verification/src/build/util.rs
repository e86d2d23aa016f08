//! Common traits and functions for storing, validating and generating data.
use vstd::prelude::*;

use crate::build::text::{
    alphabetic,
    alphanumeric,
    chars_of,
    decimal,
    is_alphabetic,
    is_alphanumeric,
    push_decimal,
    push_escaped,
    to_upper,
    upper_case,
    utf8_escaped,
};
use crate::build::{BuildResult, Error};
use vstd::relations::injective_on;
use vstd::set_lib::{lemma_int_range, lemma_map_size, lemma_subset_equality, set_int_range};

verus! {

/// The identifier of a resource: its internal name if given, its display name otherwise.
pub open spec fn identifier_of(name: Seq<char>, internal: Option<Seq<char>>) -> Seq<char> {
    match internal {
        Some(s) => s,
        None => name,
    }
}

/// For resources that may have identifiers.
pub trait Identifiable {
    spec fn name_spec(&self) -> Seq<char>;

    spec fn internal_spec(&self) -> Option<Seq<char>>;

    /// The display name of the resource.
    ///
    /// The display name is always required. This name is used as an identifier unless an
    /// alternative identifier name is provided by `internal`.
    fn name(&self) -> (r: &String)
        ensures
            r@ == self.name_spec(),
    ;

    /// The internal name of the resource, which is only needed where `name()` is not a valid
    /// code identifier.
    fn internal(&self) -> (r: Option<&String>)
        ensures
            r is Some == self.internal_spec() is Some,
            r is Some ==> r->0@ == self.internal_spec()->0,
    ;

    /// Returns the internal name if provided, or the display name otherwise. This function does
    /// not validate if the strings are valid identifiers.
    fn identifier(&self) -> (r: &String)
        ensures
            r@ == identifier_of(self.name_spec(), self.internal_spec()),
    {
        match self.internal() {
            Some(s) => s,
            None => self.name(),
        }
    }

    /// Returns true if the identifier is valid.
    fn identifier_valid(&self) -> (r: bool)
        ensures
            r == valid_spec(identifier_of(self.name_spec(), self.internal_spec())),
    {
        valid(self.identifier().as_str())
    }
}

/// A resource with a unique identifier number.
pub trait IdResource: Identifiable {
    spec fn id_spec(&self) -> u64;

    /// The unique identifier number for the resource.
    ///
    /// Another resource with the same number is taken for the same resource.
    fn id(&self) -> (r: u64)
        ensures
            r == self.id_spec(),
    ;
}

/// The identifier of a resource.
pub open spec fn ident<T: Identifiable>(x: T) -> Seq<char> {
    identifier_of(x.name_spec(), x.internal_spec())
}

/// A code-compatible identifier: an alphabetic character, then alphanumeric characters and
/// underscores.
pub open spec fn valid_spec(s: Seq<char>) -> bool {
    &&& s.len() > 0
    &&& alphabetic(s[0])
    &&& forall|i: int| 0 <= i < s.len() ==> alphanumeric(#[trigger] s[i]) || s[i] == '_'
}

/// Returns true if the given string is valid as a code-compatible identifier.
pub fn valid(identifier: &str) -> (r: bool)
    ensures
        r == valid_spec(identifier@),
{
    let chars = chars_of(identifier);
    if chars.len() == 0 || !is_alphabetic(chars[0]) {
        return false;
    }
    let mut i: usize = 0;
    while i < chars.len()
        invariant
            chars@ == identifier@,
            0 <= i <= chars@.len(),
            forall|j: int| 0 <= j < i ==> alphanumeric(#[trigger] chars@[j]) || chars@[j] == '_',
        decreases chars@.len() - i,
    {
        if !(is_alphanumeric(chars[i]) || chars[i] == '_') {
            return false;
        }
        i += 1;
    }
    true
}

/// A deserializable struct that includes the bare minimum for hashing and an identifier.
#[derive(Debug, Clone, PartialEq, Eq)]
pub struct IdNamePair {
    id: u64,
    name: String,
    internal: Option<String>,
}

impl IdNamePair {
    pub fn new(id: u64, name: String, internal: Option<String>) -> (r: Self)
        ensures
            r.id_spec() == id,
            r.name_spec() == name@,
            r.internal_spec() == match internal {
                Some(s) => Some(s@),
                None => None,
            },
    {
        IdNamePair { id, name, internal }
    }
}

impl Identifiable for IdNamePair {
    closed spec fn name_spec(&self) -> Seq<char> {
        self.name@
    }

    closed spec fn internal_spec(&self) -> Option<Seq<char>> {
        match self.internal {
            Some(s) => Some(s@),
            None => None,
        }
    }

    fn name(&self) -> (r: &String) {
        &self.name
    }

    fn internal(&self) -> (r: Option<&String>) {
        self.internal.as_ref()
    }
}

impl IdResource for IdNamePair {
    closed spec fn id_spec(&self) -> u64 {
        self.id
    }

    fn id(&self) -> (r: u64) {
        self.id
    }
}

/// The comment at the top of generated code.
pub open spec fn disclaimer_text(name: Seq<char>) -> Seq<char> {
    "//! Generated code for "@ + name
        + ".\n// Edit at your own risk. Files may be modified by build script.\n\n"@
}

/// Prints a Rust style crate comment disclaimer for generated code.
pub fn write_disclaimer(out: &mut String, name: &str)
    ensures
        final(out)@ == old(out)@ + disclaimer_text(name@),
{
    out.append("//! Generated code for ");
    out.append(name);
    out.append(".\n// Edit at your own risk. Files may be modified by build script.\n\n");
}

/// `level` tabs.
pub open spec fn indent_text(level: nat) -> Seq<char> {
    Seq::new(level, |i: int| '\t')
}

/// Prints the given number of variable indentations.
pub fn write_indent(out: &mut String, level: usize)
    ensures
        final(out)@ == old(out)@ + indent_text(level as nat),
{
    let mut left = level;
    while left > 0
        invariant
            0 <= left <= level,
            out@ == old(out)@ + indent_text((level - left) as nat),
        decreases left,
    {
        crate::build::text::push_char(out, '\t');
        proof {
            assert(out@ =~= old(out)@ + indent_text((level - (left - 1)) as nat));
        }
        left -= 1;
    }
}

/// A Rust byte string literal of `s`, ended by a nul byte.
pub open spec fn escaped_literal(s: Seq<char>) -> Seq<char> {
    "b\""@ + utf8_escaped(s) + "\\0\""@
}

/// Prints a Rust style byte literal escaped version of the given string `s`.
pub fn write_utf8_escaped(out: &mut String, s: &str)
    ensures
        final(out)@ == old(out)@ + escaped_literal(s@),
{
    out.append("b\"");
    push_escaped(out, s);
    out.append("\\0\"");
    proof {
        assert(final(out)@ =~= old(out)@ + escaped_literal(s@));
    }
}

/// Some resource in `ids` has the identifier number `id`.
pub open spec fn has_id<T: IdResource>(ids: Seq<T>, id: int) -> bool {
    exists|j: int| 0 <= j < ids.len() && (#[trigger] ids[j]).id_spec() == id
}

/// The error message for an invalid or missing index.
pub open spec fn index_error(index: nat) -> Seq<char> {
    "Invalid or missing index `"@ + decimal(index) + "`."@
}

/// The identifiers numbers of `ids` are exactly `0` to `ids.len() - 1`, which must fit the
/// largest identifier `id_max`. On failure the error names the missing index, or 0 where the
/// count does not fit.
pub open spec fn sequential_spec<T: IdResource>(ids: Seq<T>, id_max: u64) -> Result<(), Seq<char>> {
    if ids.len() > id_max {
        Err(index_error(0))
    } else if exists|i: int| 0 <= i < ids.len() && !#[trigger] has_id(ids, i) {
        Err(
            index_error(
                (choose|i: int|
                    0 <= i < ids.len() && !has_id(ids, i) && forall|k: int|
                        0 <= k < i ==> has_id(ids, k)) as nat,
            ),
        )
    } else {
        Ok(())
    }
}

/// The error of a build result, as text.
pub open spec fn result_text(r: BuildResult) -> Result<(), Seq<char>> {
    match r {
        Ok(()) => Ok(()),
        Err(Error::SyntaxError(s)) => Err(s@),
        Err(Error::IoError(s)) => Err("IO error: "@ + s@),
        Err(Error::TomlError(_)) => Err("TOML error"@),
    }
}

/// Returns the position of a resource with identifier number `id`, if any.
pub fn find_id<T: IdResource>(ids: &[T], id: u64) -> (r: Option<usize>)
    ensures
        match r {
            Some(j) => j < ids@.len() && ids@[j as int].id_spec() == id && forall|k: int|
                0 <= k < j ==> (#[trigger] ids@[k]).id_spec() != id,
            None => !has_id(ids@, id as int),
        },
{
    let mut j: usize = 0;
    while j < ids.len()
        invariant
            0 <= j <= ids@.len(),
            forall|k: int| 0 <= k < j ==> (#[trigger] ids@[k]).id_spec() != id,
        decreases ids@.len() - j,
    {
        if ids[j].id() == id {
            return Some(j);
        }
        j += 1;
    }
    None
}

/// Returns `Ok` if the identifier numbers are sequential, or a syntax error naming the
/// missing index otherwise. `id_max` is the largest number of the identifier type.
pub fn sequential<T: IdResource>(ids: &[T], id_max: u64) -> (r: BuildResult)
    ensures
        result_text(r) == sequential_spec(ids@, id_max),
        r is Err ==> r->Err_0 is SyntaxError,
{
    let len = ids.len();
    if len as u64 > id_max {
        let mut message = String::new();
        message.append("Invalid or missing index `");
        push_decimal(&mut message, 0);
        message.append("`.");
        return Err(Error::SyntaxError(message));
    }
    let mut i: usize = 0;
    while i < len
        invariant
            len == ids@.len(),
            len <= id_max,
            0 <= i <= len,
            forall|k: int| 0 <= k < i ==> has_id(ids@, k),
        decreases len - i,
    {
        if find_id(ids, i as u64).is_none() {
            let mut message = String::new();
            message.append("Invalid or missing index `");
            push_decimal(&mut message, i as u64);
            message.append("`.");
            proof {
                let w = choose|w: int|
                    0 <= w < ids@.len() && !has_id(ids@, w) && forall|k: int|
                        0 <= k < w ==> has_id(ids@, k);
                assert(0 <= i < ids@.len() && !has_id(ids@, i as int) && forall|k: int|
                    0 <= k < i ==> has_id(ids@, k));
                if w < i {
                    assert(has_id(ids@, w));
                } else if w > i {
                    assert(has_id(ids@, i as int));
                }
            }
            return Err(Error::SyntaxError(message));
        }
        i += 1;
    }
    Ok(())
}

/// The constants lines `MON_{prefix}_{IDENTIFIER}={id}` for each resource, in order.
pub open spec fn constants_text<T: IdResource>(prefix: Seq<char>, ids: Seq<T>) -> Seq<char>
    decreases ids.len(),
{
    if ids.len() == 0 {
        Seq::empty()
    } else {
        constants_text(prefix, ids.drop_last()) + "MON_"@ + prefix + "_"@ + upper_case(
            ident(ids.last()),
        ) + "="@ + decimal(ids.last().id_spec() as nat) + "\n"@
    }
}

/// Prints a constants line for each resource.
pub fn gen_constants<T: IdResource>(out: &mut String, prefix: &str, ids: &[T]) -> (r: BuildResult)
    ensures
        r is Ok,
        final(out)@ == old(out)@ + constants_text(prefix@, ids@),
{
    let mut i: usize = 0;
    while i < ids.len()
        invariant
            0 <= i <= ids@.len(),
            out@ == old(out)@ + constants_text(prefix@, ids@.take(i as int)),
        decreases ids@.len() - i,
    {
        let ident_capital = to_upper(ids[i].identifier().as_str());
        out.append("MON_");
        out.append(prefix);
        out.append("_");
        out.append(ident_capital.as_str());
        out.append("=");
        push_decimal(out, ids[i].id());
        out.append("\n");
        proof {
            assert(ids@.take(i + 1).drop_last() =~= ids@.take(i as int));
            assert(out@ =~= old(out)@ + constants_text(prefix@, ids@.take(i + 1)));
        }
        i += 1;
    }
    proof {
        assert(ids@.take(ids@.len() as int) =~= ids@);
    }
    Ok(())
}

/// The enum variant lines `{IDENTIFIER} = {id},` for each resource, in order.
pub open spec fn enum_bare_text<T: IdResource>(ids: Seq<T>, indent: nat) -> Seq<char>
    decreases ids.len(),
{
    if ids.len() == 0 {
        Seq::empty()
    } else {
        enum_bare_text(ids.drop_last(), indent) + indent_text(indent) + ident(ids.last()) + " = "@
            + decimal(ids.last().id_spec() as nat) + ",\n"@
    }
}

/// Prints an enum variant line for each resource.
pub fn gen_rust_enum_bare<T: IdResource>(out: &mut String, ids: &[T], indent: usize)
    ensures
        final(out)@ == old(out)@ + enum_bare_text(ids@, indent as nat),
{
    let mut i: usize = 0;
    while i < ids.len()
        invariant
            0 <= i <= ids@.len(),
            out@ == old(out)@ + enum_bare_text(ids@.take(i as int), indent as nat),
        decreases ids@.len() - i,
    {
        write_indent(out, indent);
        out.append(ids[i].identifier().as_str());
        out.append(" = ");
        push_decimal(out, ids[i].id());
        out.append(",\n");
        proof {
            assert(ids@.take(i + 1).drop_last() =~= ids@.take(i as int));
            assert(out@ =~= old(out)@ + enum_bare_text(ids@.take(i + 1), indent as nat));
        }
        i += 1;
    }
    proof {
        assert(ids@.take(ids@.len() as int) =~= ids@);
    }
}

/// A Rust enum named `name` with `repr` as its representation and a variant for each resource.
pub open spec fn enum_text<T: IdResource>(
    name: Seq<char>,
    repr: Seq<char>,
    ids: Seq<T>,
    indent: nat,
) -> Seq<char> {
    indent_text(indent) + "#[repr("@ + repr + ")]\n"@ + indent_text(indent)
        + "#[derive(Debug, Eq, PartialEq, Ord, PartialOrd, Copy, Clone)]\n"@ + indent_text(indent)
        + "pub enum "@ + name + "\n"@ + indent_text(indent) + "{\n"@ + enum_bare_text(
        ids,
        indent + 1,
    ) + indent_text(indent) + "}\n\n"@
}

/// Prints a Rust enum with a variant for each resource, at the given indentation.
pub fn gen_rust_enum_indent<T: IdResource>(
    out: &mut String,
    name: &str,
    repr: &str,
    ids: &[T],
    indent: usize,
) -> (r: BuildResult)
    requires
        indent < usize::MAX,
    ensures
        r is Ok,
        final(out)@ == old(out)@ + enum_text(name@, repr@, ids@, indent as nat),
{
    write_indent(out, indent);
    out.append("#[repr(");
    out.append(repr);
    out.append(")]\n");
    write_indent(out, indent);
    out.append("#[derive(Debug, Eq, PartialEq, Ord, PartialOrd, Copy, Clone)]\n");
    write_indent(out, indent);
    out.append("pub enum ");
    out.append(name);
    out.append("\n");
    write_indent(out, indent);
    out.append("{\n");
    gen_rust_enum_bare(out, ids, indent + 1);
    write_indent(out, indent);
    out.append("}\n\n");
    proof {
        assert(final(out)@ =~= old(out)@ + enum_text(name@, repr@, ids@, indent as nat));
    }
    Ok(())
}

/// Prints a Rust enum with a variant for each resource.
pub fn gen_rust_enum<T: IdResource>(out: &mut String, name: &str, repr: &str, ids: &[T]) -> (r:
    BuildResult)
    ensures
        r is Ok,
        final(out)@ == old(out)@ + enum_text(name@, repr@, ids@, 0),
{
    gen_rust_enum_indent(out, name, repr, ids, 0)
}

/// The position of the first resource with identifier number `id`.
pub open spec fn first_with_id<T: IdResource>(ids: Seq<T>, id: u64) -> int {
    choose|j: int|
        0 <= j < ids.len() && ids[j].id_spec() == id && forall|k: int|
            0 <= k < j ==> (#[trigger] ids[k]).id_spec() != id
}

/// A position that holds `id`, with no earlier one that does, is the first with `id`.
pub(crate) proof fn lemma_find_is_first<T: IdResource>(ids: Seq<T>, id: u64, j: int)
    requires
        0 <= j < ids.len(),
        ids[j].id_spec() == id,
        forall|k: int| 0 <= k < j ==> (#[trigger] ids[k]).id_spec() != id,
    ensures
        first_with_id(ids, id) == j,
{
    let w = first_with_id(ids, id);
    if w < j {
        assert(ids[w].id_spec() != id);
    } else if w > j {
        assert(ids[j].id_spec() != id);
    }
}

/// Every identifier number from `0` to `n - 1` is held by some resource of `ids`.
pub open spec fn covers<T: IdResource>(ids: Seq<T>, n: nat) -> bool {
    forall|k: int| 0 <= k < n ==> #[trigger] has_id(ids, k)
}

/// The identifier numbers of `ids` pass the check for sequential numbering exactly when they
/// fit the largest identifier and every number from `0` to `ids.len() - 1` is held.
pub proof fn lemma_sequential_iff_covers<T: IdResource>(ids: Seq<T>, id_max: u64)
    ensures
        sequential_spec(ids, id_max) is Ok <==> (ids.len() <= id_max && covers(ids, ids.len())),
{
    if ids.len() <= id_max && !covers(ids, ids.len()) {
        let k = choose|k: int| 0 <= k < ids.len() && !#[trigger] has_id(ids, k);
        assert(exists|i: int| 0 <= i < ids.len() && !#[trigger] has_id(ids, i));
    }
}

/// Where the resources of `ids` hold every identifier number from `0` to `ids.len() - 1`, each
/// resource holds a number below `ids.len()` and no two hold the same one.
pub proof fn lemma_sequential_ids_distinct<T: IdResource>(ids: Seq<T>)
    requires
        covers(ids, ids.len()),
    ensures
        forall|i: int| 0 <= i < ids.len() ==> (#[trigger] ids[i]).id_spec() < ids.len(),
        forall|i: int, j: int|
            0 <= i < ids.len() && 0 <= j < ids.len() && i != j ==> (#[trigger] ids[i]).id_spec()
                != (#[trigger] ids[j]).id_spec(),
{
    let n = ids.len() as int;
    let range = set_int_range(0, n);
    let f = |k: int| first_with_id(ids, k as u64);
    lemma_int_range(0, n);
    assert forall|k: int| #[trigger] range.contains(k) implies 0 <= f(k) < n && ids[f(k)].id_spec()
        == k by {
        assert(has_id(ids, k));
        let j = choose|j: int| 0 <= j < ids.len() && (#[trigger] ids[j]).id_spec() == k;
        let w = choose|w: int|
            0 <= w < ids.len() && ids[w].id_spec() == k as u64 && forall|m: int|
                0 <= m < w ==> (#[trigger] ids[m]).id_spec() != k as u64;
        lemma_first_exists(ids, k as u64, j);
    }
    assert(injective_on(f, range)) by {
        assert forall|x: int, y: int|
            range.contains(x) && range.contains(y) && #[trigger] f(x) == #[trigger] f(y) implies x
                == y by {
            assert(ids[f(x)].id_spec() == x);
            assert(ids[f(y)].id_spec() == y);
        }
    }
    let image = range.map(f);
    lemma_map_size(range, image, f);
    assert(image.subset_of(range)) by {
        assert forall|i: int| #[trigger] image.contains(i) implies range.contains(i) by {
            let k = choose|k: int| range.contains(k) && f(k) == i;
        }
    }
    lemma_subset_equality(image, range);
    assert forall|i: int| 0 <= i < ids.len() implies (#[trigger] ids[i]).id_spec() < ids.len()
        && f(ids[i].id_spec() as int) == i by {
        assert(range.contains(i));
        assert(image.contains(i));
        let k = choose|k: int| range.contains(k) && f(k) == i;
    }
}

/// Where some resource holds `id`, there is a first one that does.
pub(crate) proof fn lemma_first_exists<T: IdResource>(ids: Seq<T>, id: u64, j: int)
    requires
        0 <= j < ids.len(),
        ids[j].id_spec() == id,
    ensures
        0 <= first_with_id(ids, id) < ids.len(),
        ids[first_with_id(ids, id)].id_spec() == id,
        forall|k: int| 0 <= k < first_with_id(ids, id) ==> (#[trigger] ids[k]).id_spec() != id,
    decreases j,
{
    if exists|k: int| 0 <= k < j && (#[trigger] ids[k]).id_spec() == id {
        let k = choose|k: int| 0 <= k < j && (#[trigger] ids[k]).id_spec() == id;
        lemma_first_exists(ids, id, k);
    } else {
        assert(0 <= j < ids.len() && ids[j].id_spec() == id && forall|k: int|
            0 <= k < j ==> (#[trigger] ids[k]).id_spec() != id);
    }
}

/// The byte string literal lines of the identifiers of the resources numbered `0` to `count - 1`.
pub open spec fn utf_literal_text<T: IdResource>(ids: Seq<T>, count: nat, indent: nat) -> Seq<
    char,
>
    decreases count,
{
    if count == 0 {
        Seq::empty()
    } else {
        utf_literal_text(ids, (count - 1) as nat, indent) + indent_text(indent) + escaped_literal(
            ident(ids[first_with_id(ids, (count - 1) as u64)]),
        ) + ",\n"@
    }
}

/// Prints, in identifier number order, the identifier of each resource as a byte string
/// literal.
pub fn gen_rust_utf_literal<T: IdResource>(out: &mut String, ids: &[T], indent: usize)
    requires
        forall|i: int| 0 <= i < ids@.len() ==> has_id(ids@, i as int),
    ensures
        final(out)@ == old(out)@ + utf_literal_text(ids@, ids@.len(), indent as nat),
{
    let mut i: usize = 0;
    while i < ids.len()
        invariant
            0 <= i <= ids@.len(),
            forall|i: int| 0 <= i < ids@.len() ==> has_id(ids@, i as int),
            out@ == old(out)@ + utf_literal_text(ids@, i as nat, indent as nat),
        decreases ids@.len() - i,
    {
        assert(has_id(ids@, i as int));
        let j = find_id(ids, i as u64).unwrap();
        proof {
            lemma_find_is_first(ids@, i as u64, j as int);
        }
        write_indent(out, indent);
        write_utf8_escaped(out, ids[j].identifier().as_str());
        out.append(",\n");
        proof {
            assert(out@ =~= old(out)@ + utf_literal_text(ids@, (i + 1) as nat, indent as nat));
        }
        i += 1;
    }
}

} // verus!

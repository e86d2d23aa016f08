//! Generates the `Gender` and `GenderRatio` enums.
use vstd::prelude::*;

use crate::build::text::{chars_of, is_digit, is_digit_spec};
use crate::build::util::{
    IdNamePair,
    IdResource,
    Identifiable,
    constants_text,
    disclaimer_text,
    enum_text,
    gen_constants,
    find_id,
    gen_rust_enum,
    has_id,
    ident,
    result_text,
    sequential,
    sequential_spec,
    write_disclaimer,
};
use crate::build::{BuildResult, CodeGenerate, Error};
use crate::types::{GenderId, GenderRatioId};

verus! {

/// The pieces of `s` between the occurrences of `sep`, as `str::split` gives them.
pub open spec fn split_pieces(s: Seq<char>, sep: char) -> Seq<Seq<char>>
    decreases s.len(),
{
    if s.len() == 0 {
        seq![Seq::empty()]
    } else {
        let p = split_pieces(s.drop_last(), sep);
        if s.last() == sep {
            p.push(Seq::empty())
        } else {
            p.update(p.len() - 1, p.last().push(s.last()))
        }
    }
}

proof fn lemma_split_pieces_nonempty(s: Seq<char>, sep: char)
    ensures
        split_pieces(s, sep).len() > 0,
    decreases s.len(),
{
    if s.len() > 0 {
        lemma_split_pieces_nonempty(s.drop_last(), sep);
    }
}

/// The value of a sequence of decimal digits.
pub open spec fn digits_value(d: Seq<char>) -> nat
    decreases d.len(),
{
    if d.len() == 0 {
        0
    } else {
        digits_value(d.drop_last()) * 10 + ((d.last() as nat) - ('0' as nat)) as nat
    }
}

/// The digits of a number text: what follows a leading `+`, if any.
pub open spec fn unsigned_part(s: Seq<char>) -> Seq<char> {
    if s.len() > 0 && s[0] == '+' {
        s.drop_first()
    } else {
        s
    }
}

/// Every character of `d` is a decimal digit.
pub open spec fn all_digits(d: Seq<char>) -> bool {
    forall|i: int| 0 <= i < d.len() ==> is_digit_spec(#[trigger] d[i])
}

/// The number that `str::parse::<usize>` reads from `s`: an optional `+`, then one or more
/// decimal digits whose value fits a `usize`.
pub open spec fn parse_usize_spec(s: Seq<char>) -> Option<usize> {
    let d = unsigned_part(s);
    if d.len() > 0 && all_digits(d) && digits_value(d) <= usize::MAX {
        Some(digits_value(d) as usize)
    } else {
        None
    }
}

/// Reads a `usize` as `str::parse` does.
pub fn parse_usize(s: &[char]) -> (r: Option<usize>)
    ensures
        r == parse_usize_spec(s@),
{
    let start: usize = if s.len() > 0 && s[0] == '+' {
        1
    } else {
        0
    };
    let ghost d = unsigned_part(s@);
    proof {
        assert(d =~= s@.skip(start as int));
    }
    if start >= s.len() {
        return None;
    }
    let mut value: usize = 0;
    let mut overflow = false;
    let mut i: usize = start;
    while i < s.len()
        invariant
            start <= i <= s@.len(),
            d == s@.skip(start as int),
            d == unsigned_part(s@),
            forall|k: int| start <= k < i ==> is_digit_spec(#[trigger] s@[k]),
            !overflow ==> value == digits_value(s@.subrange(start as int, i as int)),
            overflow ==> digits_value(s@.subrange(start as int, i as int)) > usize::MAX,
        decreases s@.len() - i,
    {
        if !is_digit(s[i]) {
            proof {
                assert(d[i - start] == s@[i as int]);
                assert(!is_digit_spec(d[i - start]));
            }
            return None;
        }
        let digit = (s[i] as u32 - '0' as u32) as usize;
        proof {
            assert(s@.subrange(start as int, i + 1).drop_last() =~= s@.subrange(
                start as int,
                i as int,
            ));
            lemma_digits_value_grows(s@.subrange(start as int, i + 1));
        }
        if !overflow {
            if value > (usize::MAX - digit) / 10 {
                overflow = true;
            } else {
                value = value * 10 + digit;
            }
        }
        i += 1;
    }
    proof {
        assert(s@.subrange(start as int, s@.len() as int) =~= d);
        assert forall|k: int| 0 <= k < d.len() implies is_digit_spec(#[trigger] d[k]) by {
            assert(d[k] == s@[k + start]);
        }
    }
    if overflow {
        None
    } else {
        Some(value)
    }
}

proof fn lemma_digits_value_grows(d: Seq<char>)
    requires
        d.len() > 0,
    ensures
        digits_value(d) >= digits_value(d.drop_last()) * 10,
{
}

/// The numbers of a ratio such as `1:7`, or `None` where a piece is not a number.
pub open spec fn ratio_spec(s: Seq<char>) -> Option<Seq<usize>> {
    let pieces = split_pieces(s, ':');
    if forall|i: int| 0 <= i < pieces.len() ==> (#[trigger] parse_usize_spec(pieces[i])) is Some {
        Some(pieces.map_values(|p: Seq<char>| parse_usize_spec(p)->0))
    } else {
        None
    }
}

/// A gender ratio: a named list of weights, one for each gender.
#[derive(Debug, Clone, PartialEq, Eq)]
pub struct IdNamePairRatio {
    pair: IdNamePair,
    ratio: String,
}

impl Identifiable for IdNamePairRatio {
    closed spec fn name_spec(&self) -> Seq<char> {
        self.pair.name_spec()
    }

    closed spec fn internal_spec(&self) -> Option<Seq<char>> {
        self.pair.internal_spec()
    }

    fn name(&self) -> (r: &String) {
        self.pair.name()
    }

    fn internal(&self) -> (r: Option<&String>) {
        self.pair.internal()
    }
}

impl IdResource for IdNamePairRatio {
    closed spec fn id_spec(&self) -> u64 {
        self.pair.id_spec()
    }

    fn id(&self) -> (r: u64) {
        self.pair.id()
    }
}

impl IdNamePairRatio {
    pub closed spec fn ratio_text(&self) -> Seq<char> {
        self.ratio@
    }

    pub fn new(id: GenderRatioId, name: String, internal: Option<String>, ratio: String) -> (r:
        Self)
        ensures
            r.id_spec() == id,
            r.name_spec() == name@,
            r.internal_spec() == match internal {
                Some(s) => Some(s@),
                None => None,
            },
            r.ratio_text() == ratio@,
    {
        IdNamePairRatio { pair: IdNamePair::new(id as u64, name, internal), ratio }
    }

    /// The weight of each gender, read from a ratio such as `1:7`.
    pub fn get_ratio(&self) -> (r: Option<Vec<usize>>)
        ensures
            match r {
                Some(v) => ratio_spec(self.ratio_text()) == Some(v@),
                None => ratio_spec(self.ratio_text()) is None,
            },
    {
        let chars = chars_of(self.ratio.as_str());
        let mut result: Vec<usize> = Vec::new();
        let mut piece: Vec<char> = Vec::new();
        let mut i: usize = 0;
        while i < chars.len()
            invariant
                0 <= i <= chars@.len(),
                chars@ == self.ratio@,
                ({
                    let pieces = split_pieces(chars@.take(i as int), ':');
                    &&& pieces.len() == result@.len() + 1
                    &&& piece@ == pieces.last()
                    &&& forall|k: int|
                        0 <= k < result@.len() ==> parse_usize_spec(#[trigger] pieces[k]) == Some(
                            result@[k],
                        )
                }),
            decreases chars@.len() - i,
        {
            proof {
                lemma_split_pieces_nonempty(chars@.take(i as int), ':');
                assert(chars@.take(i + 1).drop_last() =~= chars@.take(i as int));
            }
            if chars[i] == ':' {
                match parse_usize(piece.as_slice()) {
                    Some(n) => result.push(n),
                    None => {
                        proof {
                            let pieces = split_pieces(chars@, ':');
                            lemma_split_pieces_prefix(chars@, i as int + 1, ':');
                            assert(pieces[result@.len() as int] == piece@);
                        }
                        return None;
                    },
                }
                piece = Vec::new();
            } else {
                piece.push(chars[i]);
            }
            i += 1;
        }
        proof {
            assert(chars@.take(chars@.len() as int) =~= chars@);
        }
        match parse_usize(piece.as_slice()) {
            Some(n) => {
                result.push(n);
                proof {
                    let pieces = split_pieces(chars@, ':');
                    assert(result@ =~= pieces.map_values(|p: Seq<char>| parse_usize_spec(p)->0));
                }
                Some(result)
            },
            None => None,
        }
    }
}

/// Splitting a longer text keeps all but the last piece of a prefix.
proof fn lemma_split_pieces_prefix(s: Seq<char>, n: int, sep: char)
    requires
        0 <= n <= s.len(),
    ensures
        split_pieces(s, sep).len() >= split_pieces(s.take(n), sep).len(),
        forall|k: int|
            0 <= k < split_pieces(s.take(n), sep).len() - 1 ==> (#[trigger] split_pieces(
                s,
                sep,
            )[k]) == split_pieces(s.take(n), sep)[k],
    decreases s.len() - n,
{
    lemma_split_pieces_nonempty(s.take(n), sep);
    if n == s.len() {
        assert(s.take(n) =~= s);
    } else {
        lemma_split_pieces_prefix(s, n + 1, sep);
        assert(s.take(n + 1).drop_last() =~= s.take(n));
        lemma_split_pieces_nonempty(s.take(n + 1), sep);
    }
}

/// The ratio `ratios` as the list of genders that `rng.choose` picks from: gender `i` repeated
/// `ratios[i]` times.
pub open spec fn choices_text(of_name: Seq<char>, of_ids: Seq<IdNamePair>, ratios: Seq<usize>) -> Seq<
    char,
>
    decreases ratios.len(),
{
    if ratios.len() == 0 {
        Seq::empty()
    } else {
        choices_text(of_name, of_ids, ratios.drop_last()) + repeat_text(
            of_name + "::"@ + of_ids[crate::build::util::first_with_id(
                of_ids,
                (ratios.len() - 1) as u64,
            )].name_spec() + ","@,
            ratios.last() as nat,
        )
    }
}

/// `s` repeated `n` times.
pub open spec fn repeat_text(s: Seq<char>, n: nat) -> Seq<char>
    decreases n,
{
    if n == 0 {
        Seq::empty()
    } else {
        repeat_text(s, (n - 1) as nat) + s
    }
}

/// The match arm lines for each ratio, or the error text where a ratio cannot be read.
pub open spec fn ratio_arms_text(
    name: Seq<char>,
    ids: Seq<IdNamePairRatio>,
    of_name: Seq<char>,
    of_ids: Seq<IdNamePair>,
) -> Result<Seq<char>, Seq<char>>
    decreases ids.len(),
{
    if ids.len() == 0 {
        Ok(Seq::empty())
    } else {
        match ratio_arms_text(name, ids.drop_last(), of_name, of_ids) {
            Err(e) => Err(e),
            Ok(t) => match ratio_spec(ids.last().ratio_text()) {
                None => Err("Invalid ratio syntax"@),
                Some(r) => Ok(
                    t + "\t\t\t"@ + name + "::"@ + ident(ids.last()) + " => rng.choose(&["@
                        + choices_text(of_name, of_ids, r) + "]).unwrap().clone(),\n"@,
                ),
            },
        }
    }
}

/// Every gender that a ratio weighs with more than 0 exists.
pub open spec fn ratios_fit(ids: Seq<IdNamePairRatio>, of_ids: Seq<IdNamePair>) -> bool {
    forall|k: int|
        0 <= k < ids.len() ==> match ratio_spec((#[trigger] ids[k]).ratio_text()) {
            Some(r) => forall|i: int|
                0 <= i < r.len() && r[i] > 0 ==> has_id(of_ids, i),
            None => true,
        }
}

/// The `rand` function that picks a gender for a ratio.
pub open spec fn ratios_text(
    name: Seq<char>,
    ids: Seq<IdNamePairRatio>,
    of_name: Seq<char>,
    of_ids: Seq<IdNamePair>,
) -> Result<Seq<char>, Seq<char>> {
    match ratio_arms_text(name, ids, of_name, of_ids) {
        Err(e) => Err(e),
        Ok(arms) => Ok(
            "\nimpl "@ + of_name + "\n{\n\tpub fn rand<R: Rng>(rng: &mut R, ratio: "@ + name
                + ") -> Self\n\t{\n\t\tmatch ratio\n\t\t{\n"@ + arms + "\t\t}\n\t}\n}\n"@,
        ),
    }
}

impl IdNamePairRatio {
    /// Prints the `rand` function that picks a gender for each ratio.
    #[verifier::rlimit(60)]
    pub fn gen_rust_ratios(
        out: &mut String,
        name: &str,
        ids: &[IdNamePairRatio],
        of_name: &str,
        of_ids: &[IdNamePair],
    ) -> (r: Result<(), Error>)
        requires
            ratios_fit(ids@, of_ids@),
        ensures
            match ratios_text(name@, ids@, of_name@, of_ids@) {
                Ok(t) => r is Ok && final(out)@ == old(out)@ + t,
                Err(e) => r is Err && r->Err_0 is SyntaxError && result_text(r) == Err::<(), Seq<
                    char,
                >>(e),
            },
    {
        out.append("\nimpl ");
        out.append(of_name);
        out.append("\n{\n\tpub fn rand<R: Rng>(rng: &mut R, ratio: ");
        out.append(name);
        out.append(") -> Self\n\t{\n\t\tmatch ratio\n\t\t{\n");
        let ghost head = out@;
        let mut i: usize = 0;
        while i < ids.len()
            invariant
                0 <= i <= ids@.len(),
                ratios_fit(ids@, of_ids@),
                ratio_arms_text(name@, ids@.take(i as int), of_name@, of_ids@) is Ok,
                out@ == head + ratio_arms_text(name@, ids@.take(i as int), of_name@, of_ids@)->Ok_0,
            decreases ids@.len() - i,
        {
            proof {
                assert(ids@.take(i + 1).drop_last() =~= ids@.take(i as int));
                assert(ids@.take(i + 1).last() == ids@[i as int]);
            }
            let ratios = match ids[i].get_ratio() {
                Some(r) => r,
                None => {
                    proof {
                        lemma_arms_error_stays(name@, ids@, of_name@, of_ids@, i as int + 1);
                    }
                    return Err(Error::SyntaxError(String::from_str("Invalid ratio syntax")));
                },
            };
            let ghost before = out@;
            out.append("\t\t\t");
            out.append(name);
            out.append("::");
            out.append(ids[i].identifier().as_str());
            out.append(" => rng.choose(&[");
            let ghost choices_start = out@;
            let mut index: usize = 0;
            while index < ratios.len()
                invariant
                    0 <= index <= ratios@.len(),
                    ratio_spec(ids@[i as int].ratio_text()) == Some(ratios@),
                    ratios_fit(ids@, of_ids@),
                    i < ids@.len(),
                    out@ == choices_start + choices_text(
                        of_name@,
                        of_ids@,
                        ratios@.take(index as int),
                    ),
                decreases ratios@.len() - index,
            {
                let value = ratios[index];
                let ghost gender_start = out@;
                if value > 0 {
                    assert(has_id(of_ids@, index as int));
                }
                let mut k: usize = 0;
                while k < value
                    invariant
                        0 <= k <= value,
                        index < ratios@.len(),
                        value == ratios@[index as int],
                        value > 0 ==> has_id(of_ids@, index as int),
                        out@ == gender_start + repeat_text(
                            of_name@ + "::"@ + of_ids@[crate::build::util::first_with_id(
                                of_ids@,
                                index as u64,
                            )].name_spec() + ","@,
                            k as nat,
                        ),
                    decreases value - k,
                {
                    let j = crate::build::util::find_id(of_ids, index as u64).unwrap();
                    proof {
                        crate::build::util::lemma_find_is_first(of_ids@, index as u64, j as int);
                    }
                    out.append(of_name);
                    out.append("::");
                    out.append(of_ids[j].name().as_str());
                    out.append(",");
                    proof {
                        assert(out@ =~= gender_start + repeat_text(
                            of_name@ + "::"@ + of_ids@[crate::build::util::first_with_id(
                                of_ids@,
                                index as u64,
                            )].name_spec() + ","@,
                            (k + 1) as nat,
                        ));
                    }
                    k += 1;
                }
                proof {
                    assert(ratios@.take(index + 1).drop_last() =~= ratios@.take(index as int));
                    assert(out@ =~= choices_start + choices_text(
                        of_name@,
                        of_ids@,
                        ratios@.take(index + 1),
                    ));
                }
                index += 1;
            }
            out.append("]).unwrap().clone(),\n");
            proof {
                assert(ratios@.take(ratios@.len() as int) =~= ratios@);
                assert(out@ =~= head + ratio_arms_text(
                    name@,
                    ids@.take(i + 1),
                    of_name@,
                    of_ids@,
                )->Ok_0);
            }
            i += 1;
        }
        out.append("\t\t}\n\t}\n}\n");
        proof {
            assert(ids@.take(ids@.len() as int) =~= ids@);
            assert(final(out)@ =~= old(out)@ + ratios_text(name@, ids@, of_name@, of_ids@)->Ok_0);
        }
        Ok(())
    }
}

/// Once a ratio cannot be read, the arms give that error for every longer prefix.
proof fn lemma_arms_error_stays(
    name: Seq<char>,
    ids: Seq<IdNamePairRatio>,
    of_name: Seq<char>,
    of_ids: Seq<IdNamePair>,
    n: int,
)
    requires
        0 < n <= ids.len(),
        ratio_arms_text(name, ids.take(n - 1), of_name, of_ids) is Ok,
        ratio_spec(ids[n - 1].ratio_text()) is None,
    ensures
        ratio_arms_text(name, ids, of_name, of_ids) == Err::<Seq<char>, Seq<char>>(
            "Invalid ratio syntax"@,
        ),
    decreases ids.len() - n,
{
    if n == ids.len() {
        assert(ids.take(n) =~= ids);
        assert(ids.drop_last() =~= ids.take(n - 1));
    } else {
        assert(ids.drop_last().take(n - 1) =~= ids.take(n - 1));
        lemma_arms_error_stays(name, ids.drop_last(), of_name, of_ids, n);
    }
}

/// The classifiers of genders and gender ratios.
#[derive(Debug, Clone, PartialEq, Eq)]
pub struct GenderClassifiers {
    pub genders: Vec<IdNamePair>,
    pub gender_ratios: Vec<IdNamePairRatio>,
}

impl GenderClassifiers {
    /// Whether every gender that a ratio weighs with more than 0 exists, so that the code that
    /// picks a gender by ratio can be written.
    pub fn ratios_fit(&self) -> (r: bool)
        ensures
            r == ratios_fit(self.gender_ratios@, self.genders@),
    {
        let mut k: usize = 0;
        while k < self.gender_ratios.len()
            invariant
                0 <= k <= self.gender_ratios@.len(),
                ratios_fit(self.gender_ratios@.take(k as int), self.genders@),
            decreases self.gender_ratios@.len() - k,
        {
            if let Some(weights) = self.gender_ratios[k].get_ratio() {
                let mut i: usize = 0;
                while i < weights.len()
                    invariant
                        0 <= i <= weights@.len(),
                        k < self.gender_ratios@.len(),
                        ratio_spec(self.gender_ratios@[k as int].ratio_text()) == Some(weights@),
                        forall|j: int| 0 <= j < i && weights@[j] > 0 ==> has_id(self.genders@, j),
                    decreases weights@.len() - i,
                {
                    if weights[i] > 0 && find_id(self.genders.as_slice(), i as u64).is_none() {
                        proof {
                            assert(!has_id(self.genders@, i as int));
                            assert(!ratios_fit(self.gender_ratios@, self.genders@)) by {
                                let x = self.gender_ratios@[k as int];
                                assert(ratio_spec(x.ratio_text()) == Some(weights@));
                                assert(weights@[i as int] > 0);
                            }
                        }
                        return false;
                    }
                    i += 1;
                }
            }
            proof {
                assert(self.gender_ratios@.take(k + 1).drop_last() =~= self.gender_ratios@.take(k as int));
                assert forall|m: int| 0 <= m < k + 1 implies match ratio_spec(
                    (#[trigger] self.gender_ratios@.take(k + 1)[m]).ratio_text(),
                ) {
                    Some(r) => forall|i: int| 0 <= i < r.len() && r[i] > 0 ==> has_id(self.genders@, i),
                    None => true,
                } by {
                    if m < k {
                        assert(self.gender_ratios@.take(k + 1)[m] == self.gender_ratios@.take(k as int)[m]);
                    }
                }
            }
            k += 1;
        }
        proof {
            assert(self.gender_ratios@.take(k as int) =~= self.gender_ratios@);
        }
        true
    }
}

impl CodeGenerate for GenderClassifiers {
    open spec fn validity(&self) -> Result<(), Seq<char>> {
        match sequential_spec(self.genders@, 255) {
            Err(e) => Err(e),
            Ok(()) => sequential_spec(self.gender_ratios@, 255),
        }
    }

    /// Every gender that a ratio weighs with more than 0 exists.
    open spec fn generable(&self) -> bool {
        ratios_fit(self.gender_ratios@, self.genders@)
    }

    open spec fn rust_code(&self) -> Result<Seq<char>, Seq<char>> {
        match ratios_text("GenderRatio"@, self.gender_ratios@, "Gender"@, self.genders@) {
            Ok(t) => Ok(
                disclaimer_text("genders classifiers"@) + "use rand::Rng;\n\n"@ + enum_text(
                    "Gender"@,
                    "u8"@,
                    self.genders@,
                    0,
                ) + enum_text("GenderRatio"@, "u8"@, self.gender_ratios@, 0) + t,
            ),
            Err(e) => Err(e),
        }
    }

    open spec fn constants(&self) -> Seq<char> {
        constants_text("GENDER"@, self.genders@) + constants_text("GENDER_RATIO"@, self.gender_ratios@)
    }

    /// Both lists are numbered sequentially.
    fn is_valid(&self) -> (r: BuildResult)
        ensures
            result_text(r) == match sequential_spec(self.genders@, GenderId::MAX as u64) {
                Err(e) => Err(e),
                Ok(()) => sequential_spec(self.gender_ratios@, GenderRatioId::MAX as u64),
            },
    {
        let r = sequential(self.genders.as_slice(), GenderId::MAX as u64);
        if r.is_err() {
            return r;
        }
        sequential(self.gender_ratios.as_slice(), GenderRatioId::MAX as u64)
    }

    /// Prints the `Gender` and `GenderRatio` enums and the function that picks a gender.
    fn gen_rust(&self, out: &mut String) -> (r: BuildResult)
        ensures
            match ratios_text("GenderRatio"@, self.gender_ratios@, "Gender"@, self.genders@) {
                Ok(t) => r is Ok && final(out)@ == old(out)@ + disclaimer_text(
                    "genders classifiers"@,
                ) + "use rand::Rng;\n\n"@ + enum_text("Gender"@, "u8"@, self.genders@, 0)
                    + enum_text("GenderRatio"@, "u8"@, self.gender_ratios@, 0) + t,
                Err(e) => r is Err && r->Err_0 is SyntaxError && result_text(r) == Err::<(), Seq<
                    char,
                >>(e),
            },
    {
        write_disclaimer(out, "genders classifiers");
        out.append("use rand::Rng;\n\n");
        let _ = gen_rust_enum(out, "Gender", "u8", self.genders.as_slice());
        let _ = gen_rust_enum(out, "GenderRatio", "u8", self.gender_ratios.as_slice());
        let ghost mid = out@;
        let r = IdNamePairRatio::gen_rust_ratios(
            out,
            "GenderRatio",
            self.gender_ratios.as_slice(),
            "Gender",
            self.genders.as_slice(),
        );
        proof {
            if r is Ok {
                assert(final(out)@ =~= old(out)@ + disclaimer_text("genders classifiers"@)
                    + "use rand::Rng;\n\n"@ + enum_text("Gender"@, "u8"@, self.genders@, 0)
                    + enum_text("GenderRatio"@, "u8"@, self.gender_ratios@, 0) + ratios_text(
                    "GenderRatio"@,
                    self.gender_ratios@,
                    "Gender"@,
                    self.genders@,
                )->Ok_0);
            }
        }
        r
    }

    /// Prints the constants of genders and gender ratios.
    fn gen_constants(&self, out: &mut String) -> (r: BuildResult)
        ensures
            r is Ok,
            final(out)@ == old(out)@ + constants_text("GENDER"@, self.genders@) + constants_text(
                "GENDER_RATIO"@,
                self.gender_ratios@,
            ),
    {
        let _ = gen_constants(out, "GENDER", self.genders.as_slice());
        let _ = gen_constants(out, "GENDER_RATIO", self.gender_ratios.as_slice());
        proof {
            assert(final(out)@ =~= old(out)@ + constants_text("GENDER"@, self.genders@)
                + constants_text("GENDER_RATIO"@, self.gender_ratios@));
        }
        Ok(())
    }
}

} // verus!

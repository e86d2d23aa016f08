//! Generates the enums of `Monster` classifier values: natures and recruit methods.
use vstd::prelude::*;

use crate::build::util::{
    IdNamePair,
    Identifiable,
    constants_text,
    disclaimer_text,
    enum_text,
    gen_constants,
    gen_rust_enum,
    result_text,
    sequential,
    sequential_spec,
    write_disclaimer,
};
use crate::build::{BuildResult, CodeGenerate};

verus! {

/// The natures and recruit methods of monsters.
#[derive(Debug, Clone, PartialEq, Eq)]
pub struct MonsterClassifiers {
    pub natures: Vec<IdNamePair>,
    pub recruit_methods: Vec<IdNamePair>,
}

/// The lines of the natures that a random nature is chosen from.
pub open spec fn nature_choices_text(natures: Seq<IdNamePair>) -> Seq<char>
    decreases natures.len(),
{
    if natures.len() == 0 {
        Seq::empty()
    } else {
        nature_choices_text(natures.drop_last()) + "\t\t\tNature::"@ + natures.last().name_spec()
            + ",\n"@
    }
}

/// The generated code for the natures and recruit methods.
pub open spec fn monster_classifiers_text(
    natures: Seq<IdNamePair>,
    recruit_methods: Seq<IdNamePair>,
) -> Seq<char> {
    disclaimer_text("monster classifiers"@) + "use rand;\n\n"@ + enum_text(
        "Nature"@,
        "u8"@,
        natures,
        0,
    )
        + "impl rand::Rand for Nature\n{\n\tfn rand<R: rand::Rng>(rng: &mut R) -> Self\n\t{\n\t\t*rng.choose(&[\n"@
        + nature_choices_text(natures) + "\t\t]).unwrap()\n\t}\n}\n"@ + enum_text(
        "RecruitMethod"@,
        "u8"@,
        recruit_methods,
        0,
    )
}

impl CodeGenerate for MonsterClassifiers {
    open spec fn validity(&self) -> Result<(), Seq<char>> {
        match sequential_spec(self.natures@, 255) {
            Err(e) => Err(e),
            Ok(()) => sequential_spec(self.recruit_methods@, 255),
        }
    }

    open spec fn generable(&self) -> bool {
        true
    }

    open spec fn rust_code(&self) -> Result<Seq<char>, Seq<char>> {
        Ok(monster_classifiers_text(self.natures@, self.recruit_methods@))
    }

    open spec fn constants(&self) -> Seq<char> {
        constants_text("NATURE"@, self.natures@) + constants_text("RECRUIT_METHOD"@, self.recruit_methods@)
    }

    /// Both lists are numbered sequentially.
    fn is_valid(&self) -> (r: BuildResult)
        ensures
            result_text(r) == match sequential_spec(self.natures@, 255) {
                Err(e) => Err(e),
                Ok(()) => sequential_spec(self.recruit_methods@, 255),
            },
            r is Err ==> r->Err_0 is SyntaxError,
    {
        let r = sequential(self.natures.as_slice(), 255);
        if r.is_err() {
            return r;
        }
        sequential(self.recruit_methods.as_slice(), 255)
    }

    /// Prints the `Nature` enum, the random choice of a nature, and the `RecruitMethod` enum.
    fn gen_rust(&self, out: &mut String) -> (r: BuildResult)
        ensures
            r is Ok,
            final(out)@ == old(out)@ + monster_classifiers_text(
                self.natures@,
                self.recruit_methods@,
            ),
    {
        write_disclaimer(out, "monster classifiers");
        out.append("use rand;\n\n");
        let _ = gen_rust_enum(out, "Nature", "u8", self.natures.as_slice());
        out.append(
            "impl rand::Rand for Nature\n{\n\tfn rand<R: rand::Rng>(rng: &mut R) -> Self\n\t{\n\t\t*rng.choose(&[\n",
        );
        let ghost choices_start = out@;
        let mut i: usize = 0;
        while i < self.natures.len()
            invariant
                0 <= i <= self.natures@.len(),
                out@ == choices_start + nature_choices_text(self.natures@.take(i as int)),
            decreases self.natures@.len() - i,
        {
            out.append("\t\t\tNature::");
            out.append(self.natures[i].name().as_str());
            out.append(",\n");
            proof {
                assert(self.natures@.take(i + 1).drop_last() =~= self.natures@.take(i as int));
                assert(out@ =~= choices_start + nature_choices_text(
                    self.natures@.take(i + 1),
                ));
            }
            i += 1;
        }
        proof {
            assert(self.natures@.take(i as int) =~= self.natures@);
        }
        out.append("\t\t]).unwrap()\n\t}\n}\n");
        let r = gen_rust_enum(out, "RecruitMethod", "u8", self.recruit_methods.as_slice());
        proof {
            assert(final(out)@ =~= old(out)@ + monster_classifiers_text(
                self.natures@,
                self.recruit_methods@,
            ));
        }
        r
    }

    /// Prints the constants of the natures and recruit methods.
    fn gen_constants(&self, out: &mut String) -> (r: BuildResult)
        ensures
            r is Ok,
            final(out)@ == old(out)@ + constants_text("NATURE"@, self.natures@) + constants_text(
                "RECRUIT_METHOD"@,
                self.recruit_methods@,
            ),
    {
        let _ = gen_constants(out, "NATURE", self.natures.as_slice());
        let r = gen_constants(out, "RECRUIT_METHOD", self.recruit_methods.as_slice());
        proof {
            assert(final(out)@ =~= old(out)@ + constants_text("NATURE"@, self.natures@)
                + constants_text("RECRUIT_METHOD"@, self.recruit_methods@));
        }
        r
    }
}

} // verus!

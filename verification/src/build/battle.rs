//! Generates enums for battle related types.
use vstd::prelude::*;

use crate::build::util::{
    IdNamePair,
    constants_text,
    disclaimer_text,
    enum_text,
    gen_constants,
    gen_rust_enum,
    result_text,
    sequential,
    sequential_spec,
    write_disclaimer,
};
use crate::build::{BuildResult, CodeGenerate};

verus! {

/// The attack categories of battles.
#[derive(Debug, Clone, PartialEq, Eq)]
pub struct BattleClassifiers {
    pub categories: Vec<IdNamePair>,
}

impl CodeGenerate for BattleClassifiers {
    open spec fn validity(&self) -> Result<(), Seq<char>> {
        sequential_spec(self.categories@, 255)
    }

    open spec fn generable(&self) -> bool {
        true
    }

    open spec fn rust_code(&self) -> Result<Seq<char>, Seq<char>> {
        Ok(disclaimer_text("battle classifiers"@) + enum_text("Category"@, "u8"@, self.categories@, 0))
    }

    open spec fn constants(&self) -> Seq<char> {
        constants_text("ATTACK_CATEGORY"@, self.categories@)
    }

    /// The categories are numbered sequentially.
    fn is_valid(&self) -> (r: BuildResult)
        ensures
            result_text(r) == sequential_spec(self.categories@, 255),
            r is Err ==> r->Err_0 is SyntaxError,
    {
        sequential(self.categories.as_slice(), 255)
    }

    /// Prints the `Category` enum.
    fn gen_rust(&self, out: &mut String) -> (r: BuildResult)
        ensures
            r is Ok,
            final(out)@ == old(out)@ + disclaimer_text("battle classifiers"@) + enum_text(
                "Category"@,
                "u8"@,
                self.categories@,
                0,
            ),
    {
        write_disclaimer(out, "battle classifiers");
        gen_rust_enum(out, "Category", "u8", self.categories.as_slice())
    }

    /// Prints the constants of the categories.
    fn gen_constants(&self, out: &mut String) -> (r: BuildResult)
        ensures
            r is Ok,
            final(out)@ == old(out)@ + constants_text("ATTACK_CATEGORY"@, self.categories@),
    {
        gen_constants(out, "ATTACK_CATEGORY", self.categories.as_slice())
    }
}

} // verus!

//! Generates the `Location` and `SubLocation` enums.
use vstd::prelude::*;

use crate::build::util::{
    IdNamePair,
    constants_text,
    disclaimer_text,
    enum_text,
    gen_constants,
    gen_rust_enum,
    result_text,
    sequential,
    sequential_spec,
    write_disclaimer,
};
use crate::build::{BuildResult, CodeGenerate};

verus! {

/// The locations and sub-locations of a game.
#[derive(Debug, Clone, PartialEq, Eq)]
pub struct LocationClassifiers {
    pub locations: Vec<IdNamePair>,
    pub sub_locations: Vec<IdNamePair>,
}

impl CodeGenerate for LocationClassifiers {
    open spec fn validity(&self) -> Result<(), Seq<char>> {
        match sequential_spec(self.locations@, 255) {
            Err(e) => Err(e),
            Ok(()) => sequential_spec(self.sub_locations@, 255),
        }
    }

    open spec fn generable(&self) -> bool {
        true
    }

    open spec fn rust_code(&self) -> Result<Seq<char>, Seq<char>> {
        Ok(
            disclaimer_text("location classifiers"@) + enum_text("Location"@, "u8"@, self.locations@, 0)
                + enum_text("SubLocation"@, "u8"@, self.sub_locations@, 0),
        )
    }

    open spec fn constants(&self) -> Seq<char> {
        constants_text("LOCATION"@, self.locations@) + constants_text("SUBLOCATION"@, self.sub_locations@)
    }

    /// Both lists are numbered sequentially.
    fn is_valid(&self) -> (r: BuildResult)
        ensures
            result_text(r) == match sequential_spec(self.locations@, 255) {
                Err(e) => Err(e),
                Ok(()) => sequential_spec(self.sub_locations@, 255),
            },
            r is Err ==> r->Err_0 is SyntaxError,
    {
        let r = sequential(self.locations.as_slice(), 255);
        if r.is_err() {
            return r;
        }
        sequential(self.sub_locations.as_slice(), 255)
    }

    /// Prints the `Location` and `SubLocation` enums.
    fn gen_rust(&self, out: &mut String) -> (r: BuildResult)
        ensures
            r is Ok,
            final(out)@ == old(out)@ + disclaimer_text("location classifiers"@) + enum_text(
                "Location"@,
                "u8"@,
                self.locations@,
                0,
            ) + enum_text("SubLocation"@, "u8"@, self.sub_locations@, 0),
    {
        write_disclaimer(out, "location classifiers");
        let _ = gen_rust_enum(out, "Location", "u8", self.locations.as_slice());
        let r = gen_rust_enum(out, "SubLocation", "u8", self.sub_locations.as_slice());
        proof {
            assert(final(out)@ =~= old(out)@ + disclaimer_text("location classifiers"@) + enum_text(
                "Location"@,
                "u8"@,
                self.locations@,
                0,
            ) + enum_text("SubLocation"@, "u8"@, self.sub_locations@, 0));
        }
        r
    }

    /// Prints the constants of the locations and sub-locations.
    fn gen_constants(&self, out: &mut String) -> (r: BuildResult)
        ensures
            r is Ok,
            final(out)@ == old(out)@ + constants_text("LOCATION"@, self.locations@) + constants_text(
                "SUBLOCATION"@,
                self.sub_locations@,
            ),
    {
        let _ = gen_constants(out, "LOCATION", self.locations.as_slice());
        let r = gen_constants(out, "SUBLOCATION", self.sub_locations.as_slice());
        proof {
            assert(final(out)@ =~= old(out)@ + constants_text("LOCATION"@, self.locations@)
                + constants_text("SUBLOCATION"@, self.sub_locations@));
        }
        r
    }
}

} // verus!

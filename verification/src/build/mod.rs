//! Generates Rust code and constants from the game's resource definitions.
pub mod attacks;
pub mod battle;
pub mod compiler;
pub mod elements;
pub mod gender;
pub mod locations;
pub mod monster;
pub mod species;
pub mod text;
pub mod util;

use vstd::prelude::*;

use crate::build::text::{decimal, push_decimal};
use crate::build::util::{identifier_of, result_text, valid_spec, Identifiable};

verus! {

/// Represents a detailed TOML parser error.
#[derive(Debug, Clone, PartialEq, Eq)]
pub struct TomlParserError {
    /// The file name of the TOML file.
    pub filename: String,
    /// A short description of the error.
    pub desc: String,
    /// The starting line position of the error.
    pub start_line: usize,
    /// The starting column relative to the starting line position of the error.
    pub start_col: usize,
    /// The ending line position of the error.
    pub end_line: usize,
    /// The ending column relative to the ending line position of the error.
    pub end_col: usize,
}

/// Where a TOML parser found an error: its description, and its start and end as line and
/// column, both counted from 0.
#[derive(Debug, Clone, PartialEq, Eq)]
pub struct ParserErrorSpan {
    pub desc: String,
    pub start_line: usize,
    pub start_col: usize,
    pub end_line: usize,
    pub end_col: usize,
}

/// The detailed error for the parser error `e` in the file `name`: lines count from 1.
pub open spec fn detailed_error(e: TomlParserError, name: Seq<char>, span: ParserErrorSpan) -> bool {
    &&& e.filename@ == name
    &&& e.desc@ == span.desc@
    &&& e.start_line == span.start_line + 1
    &&& e.start_col == span.start_col
    &&& e.end_line == span.end_line + 1
    &&& e.end_col == span.end_col
}

impl TomlParserError {
    /// Generates a list of detailed TOML parser errors from the errors a parser reported for the
    /// file `name`. The parser counts lines from 0; the detailed errors count them from 1.
    pub fn from_parser(errors: &[ParserErrorSpan], name: &String) -> (r: Vec<Self>)
        requires
            forall|i: int|
                0 <= i < errors@.len() ==> (#[trigger] errors@[i]).start_line < usize::MAX
                    && errors@[i].end_line < usize::MAX,
        ensures
            r@.len() == errors@.len(),
            forall|i: int| 0 <= i < errors@.len() ==> detailed_error(#[trigger] r@[i], name@, errors@[i]),
    {
        let mut r: Vec<Self> = Vec::new();
        let mut i: usize = 0;
        while i < errors.len()
            invariant
                0 <= i <= errors@.len(),
                r@.len() == i,
                forall|k: int|
                    0 <= k < errors@.len() ==> (#[trigger] errors@[k]).start_line < usize::MAX
                        && errors@[k].end_line < usize::MAX,
                forall|k: int| 0 <= k < i ==> detailed_error(#[trigger] r@[k], name@, errors@[k]),
            decreases errors@.len() - i,
        {
            let e = &errors[i];
            r.push(
                TomlParserError {
                    filename: name.clone(),
                    desc: e.desc.clone(),
                    start_line: e.start_line + 1,
                    start_col: e.start_col,
                    end_line: e.end_line + 1,
                    end_col: e.end_col,
                },
            );
            i += 1;
        }
        r
    }
}

/// Represents an error from generating code out of TOML definitions.
#[derive(Debug, Clone, PartialEq, Eq)]
pub enum Error {
    /// Reading or writing a file failed; the text describes the failure.
    IoError(String),
    /// The TOML of a resource could not be read.
    TomlError(Vec<TomlParserError>),
    /// A resource is not valid.
    SyntaxError(String),
}

pub type BuildResult = Result<(), Error>;

/// Generating code and constants from a resource.
pub trait CodeGenerate {
    /// What checking the resource gives: `Ok`, or the text of the error.
    spec fn validity(&self) -> Result<(), Seq<char>>;

    /// The resource can be written out without failing.
    spec fn generable(&self) -> bool;

    /// The Rust code written for the resource, or the text of the error.
    spec fn rust_code(&self) -> Result<Seq<char>, Seq<char>>;

    /// The constants written for the resource.
    spec fn constants(&self) -> Seq<char>;

    /// Returns whether or not the current data is valid for code generation.
    fn is_valid(&self) -> (r: BuildResult)
        ensures
            result_text(r) == self.validity(),
            r is Err ==> r->Err_0 is SyntaxError,
    ;

    /// Generates Rust code.
    fn gen_rust(&self, out: &mut String) -> (r: BuildResult)
        requires
            self.generable(),
        ensures
            match self.rust_code() {
                Ok(t) => r is Ok && final(out)@ == old(out)@ + t,
                Err(e) => r is Err && r->Err_0 is SyntaxError && result_text(r) == Err::<
                    (),
                    Seq<char>,
                >(e),
            },
    ;

    /// Generates a GM-style constants mapping.
    fn gen_constants(&self, out: &mut String) -> (r: BuildResult)
        ensures
            r is Ok,
            final(out)@ == old(out)@ + self.constants(),
    ;
}

/// Generating code and constants from a group of resources, one file for each.
pub trait CodeGenerateGroup: Sized {
    /// What checking the group gives: `Ok`, or the text of the error.
    spec fn group_validity(group: Seq<Self>) -> Result<(), Seq<char>>;

    /// The group can be written out without failing.
    spec fn group_generable(group: Seq<Self>) -> bool;

    /// The Rust code written for the group, or the text of the error.
    spec fn group_code(group: Seq<Self>) -> Result<Seq<char>, Seq<char>>;

    /// The constants written for the group.
    spec fn group_constants(group: Seq<Self>) -> Seq<char>;

    /// Returns whether or not the group is valid for code generation.
    fn is_valid(group: &[Self]) -> (r: BuildResult)
        ensures
            result_text(r) == Self::group_validity(group@),
            r is Err ==> r->Err_0 is SyntaxError,
    ;

    /// Generates Rust code for the group.
    fn gen_rust_group(group: &[Self], out: &mut String) -> (r: BuildResult)
        requires
            Self::group_generable(group@),
        ensures
            match Self::group_code(group@) {
                Ok(t) => r is Ok && final(out)@ == old(out)@ + t,
                Err(e) => r is Err && r->Err_0 is SyntaxError && result_text(r) == Err::<
                    (),
                    Seq<char>,
                >(e),
            },
    ;

    /// Generates a GM-style constants mapping for the group.
    fn gen_constants_group(group: &[Self], out: &mut String) -> (r: BuildResult)
        ensures
            r is Ok,
            final(out)@ == old(out)@ + Self::group_constants(group@),
    ;
}

/// Whether a resource is built again: when a rebuild is asked for, or when the modification time
/// of its source differs from the one recorded at its last build.
pub fn build_needed(rebuild: bool, build_time: u64, time: u64) -> (r: bool)
    ensures
        r == (rebuild || build_time != time),
{
    rebuild || build_time != time
}

/// The message of a resource read from `file` whose identifier `identifier` is not valid.
pub open spec fn identifier_error_text(file: Seq<char>, identifier: Seq<char>) -> Seq<char> {
    "Invalid resource identifier for file `"@ + file + "`: `"@ + identifier + "`"@
}

/// Checks the identifier of a resource read from `file`.
pub fn identifier_checked<U: Identifiable>(resource: &U, file: &str) -> (r: BuildResult)
    ensures
        ({
            let id = identifier_of(resource.name_spec(), resource.internal_spec());
            if valid_spec(id) {
                r is Ok
            } else {
                r matches Err(Error::SyntaxError(m)) && m@ == identifier_error_text(file@, id)
            }
        }),
{
    if resource.identifier_valid() {
        return Ok(());
    }
    let mut m = String::from_str("Invalid resource identifier for file `");
    m.append(file);
    m.append("`: `");
    m.append(resource.identifier().as_str());
    m.append("`");
    proof {
        assert(m@ =~= identifier_error_text(
            file@,
            identifier_of(resource.name_spec(), resource.internal_spec()),
        ));
    }
    Err(Error::SyntaxError(m))
}

/// Checks a resource, then writes its Rust code to `rust` and its constants to `constants`,
/// stopping at the first error.
pub fn generate<T: CodeGenerate>(resource: &T, rust: &mut String, constants: &mut String) -> (r:
    BuildResult)
    requires
        resource.validity() is Ok ==> resource.generable(),
    ensures
        match resource.validity() {
            Err(e) => r is Err && result_text(r) == Err::<(), Seq<char>>(e) && final(rust)@ == old(rust)@ && final(constants)@ == old(constants)@,
            Ok(()) => match resource.rust_code() {
                Ok(t) => r is Ok && final(rust)@ == old(rust)@ + t && final(constants)@ == old(constants)@ + resource.constants(),
                Err(e) => r is Err && result_text(r) == Err::<(), Seq<char>>(e) && final(constants)@ == old(constants)@,
            },
        },
{
    resource.is_valid()?;
    resource.gen_rust(rust)?;
    resource.gen_constants(constants)
}

/// Checks a group of resources, then writes its Rust code to `rust` and its constants to
/// `constants`, stopping at the first error.
pub fn generate_group<U: CodeGenerateGroup>(group: &[U], rust: &mut String, constants: &mut String) -> (r:
    BuildResult)
    requires
        U::group_validity(group@) is Ok ==> U::group_generable(group@),
    ensures
        match U::group_validity(group@) {
            Err(e) => r is Err && result_text(r) == Err::<(), Seq<char>>(e) && final(rust)@ == old(rust)@ && final(constants)@ == old(constants)@,
            Ok(()) => match U::group_code(group@) {
                Ok(t) => r is Ok && final(rust)@ == old(rust)@ + t && final(constants)@ == old(constants)@ + U::group_constants(group@),
                Err(e) => r is Err && result_text(r) == Err::<(), Seq<char>>(e) && final(constants)@ == old(constants)@,
            },
        },
{
    U::is_valid(group)?;
    U::gen_rust_group(group, rust)?;
    U::gen_constants_group(group, constants)
}

/// The message that a syntax error with text `e` reads.
pub open spec fn syntax_error_message(e: Seq<char>) -> Seq<char> {
    "Syntax error: "@ + e + "\n"@
}

/// The message that an I/O error with text `e` reads.
pub open spec fn io_error_message(e: Seq<char>) -> Seq<char> {
    "IO error: "@ + e + "\n"@
}

/// The line that describes one TOML error.
pub open spec fn toml_error_line(e: TomlParserError) -> Seq<char> {
    " - At file `"@ + e.filename@ + "`: \""@ + e.desc@ + "\" at line "@ + decimal(
        e.start_line as nat,
    ) + ", col "@ + decimal(e.start_col as nat) + " - line "@ + decimal(e.end_line as nat)
        + ", col "@ + decimal(e.end_col as nat) + "\n"@
}

/// The lines that describe TOML errors, one after another.
pub open spec fn toml_error_lines(errors: Seq<TomlParserError>) -> Seq<char>
    decreases errors.len(),
{
    if errors.len() == 0 {
        Seq::empty()
    } else {
        toml_error_lines(errors.drop_last()) + toml_error_line(errors.last())
    }
}

/// The message that a TOML error reads.
pub open spec fn toml_error_message(errors: Seq<TomlParserError>) -> Seq<char> {
    "Error parsing TOML:\n"@ + if errors.len() == 0 {
        " - Unknown error. Required field are missing or invalid.\n"@
    } else {
        toml_error_lines(errors)
    }
}

/// Appends the line that describes one TOML error.
fn push_toml_error_line(out: &mut String, e: &TomlParserError)
    ensures
        final(out)@ == old(out)@ + toml_error_line(*e),
{
    let ghost start = out@;
    out.append(" - At file `");
    out.append(e.filename.as_str());
    out.append("`: \"");
    out.append(e.desc.as_str());
    out.append("\" at line ");
    let ghost a = out@;
    push_decimal(out, e.start_line as u64);
    out.append(", col ");
    push_decimal(out, e.start_col as u64);
    let ghost b = out@;
    out.append(" - line ");
    push_decimal(out, e.end_line as u64);
    out.append(", col ");
    push_decimal(out, e.end_col as u64);
    out.append("\n");
    proof {
        assert(a =~= start + " - At file `"@ + e.filename@ + "`: \""@ + e.desc@ + "\" at line "@);
        assert(b =~= a + decimal(e.start_line as nat) + ", col "@ + decimal(e.start_col as nat));
        assert(final(out)@ =~= b + " - line "@ + decimal(e.end_line as nat) + ", col "@ + decimal(
            e.end_col as nat,
        ) + "\n"@);
        assert(final(out)@ =~= old(out)@ + toml_error_line(*e));
    }
}

impl Error {
    /// The text that describes the error.
    pub fn message(&self) -> (r: String)
        ensures
            r@ == match self {
                Error::IoError(e) => io_error_message(e@),
                Error::TomlError(e) => toml_error_message(e@),
                Error::SyntaxError(e) => syntax_error_message(e@),
            },
    {
        let mut out = String::new();
        match self {
            Error::IoError(e) => {
                out.append("IO error: ");
                out.append(e.as_str());
                out.append("\n");
            },
            Error::TomlError(errors) => {
                out.append("Error parsing TOML:\n");
                if errors.len() == 0 {
                    out.append(" - Unknown error. Required field are missing or invalid.\n");
                } else {
                    let mut i: usize = 0;
                    while i < errors.len()
                        invariant
                            0 <= i <= errors@.len(),
                            errors@.len() > 0,
                            out@ == "Error parsing TOML:\n"@ + toml_error_lines(
                                errors@.take(i as int),
                            ),
                        decreases errors@.len() - i,
                    {
                        let ghost before = out@;
                        push_toml_error_line(&mut out, &errors[i]);
                        proof {
                            assert(errors@.take(i + 1).drop_last() =~= errors@.take(i as int));
                            assert(out@ =~= before + toml_error_line(errors@[i as int]));
                        }
                        i += 1;
                    }
                    proof {
                        assert(errors@.take(errors@.len() as int) =~= errors@);
                    }
                }
            },
            Error::SyntaxError(e) => {
                out.append("Syntax error: ");
                out.append(e.as_str());
                out.append("\n");
            },
        }
        out
    }
}

} // verus!

//! Compiles attack effect expressions into Rust code.
//!
//! A very simple lexer and a recursive descent parser insert the battle arguments into every
//! call and turn nested calls into closures. The accepted grammar is:
//!
//! ```text
//! N := A (+ A)*
//! A := identifier
//! A := identifier ( B )
//! B := C (, C)*
//! C := number
//! C := N
//! ```
//!
//! The lexer is lax in what it takes for an identifier or a number; such mistakes are carried
//! into the compiled code.
use vstd::prelude::*;

use crate::build::text::{
    alphabetic,
    alphanumeric,
    ascii_letter,
    chars_of,
    is_alphabetic,
    is_alphanumeric,
    is_digit,
    is_digit_spec,
    is_whitespace,
    push_char,
    white_space,
};

verus! {

/// The arguments inserted into every call.
pub const ADDITIONAL_ARGS: &'static str = "effects, command, party, state, rng";

/// The kinds of token.
#[derive(Debug, PartialEq, Eq, Clone, Copy, Structural)]
pub enum Token {
    Identifier,
    Variable,
    ParanL,
    ParanR,
    Digit,
    Comma,
    Plus,
    End,
    Unknown,
}

/// A token and the character positions `begin..end` of its text in the source.
#[derive(Debug, PartialEq, Eq, Clone, Copy, Structural)]
pub struct TokenRange {
    pub token: Token,
    pub begin: usize,
    pub end: usize,
}

/// A token as the specification sees it: kind, text range, and the position after it.
pub type LexedSpec = (Token, nat, nat, nat);

/// The name of a token kind.
pub open spec fn token_name(t: Token) -> Seq<char> {
    match t {
        Token::Identifier => "Identifier"@,
        Token::Variable => "Variable"@,
        Token::ParanL => "ParanL"@,
        Token::ParanR => "ParanR"@,
        Token::Digit => "Digit"@,
        Token::Comma => "Comma"@,
        Token::Plus => "Plus"@,
        Token::End => "End"@,
        Token::Unknown => "Unknown"@,
    }
}

impl Token {
    /// The name of the token kind.
    pub fn name(&self) -> (r: &'static str)
        ensures
            r@ == token_name(*self),
    {
        match self {
            Token::Identifier => "Identifier",
            Token::Variable => "Variable",
            Token::ParanL => "ParanL",
            Token::ParanR => "ParanR",
            Token::Digit => "Digit",
            Token::Comma => "Comma",
            Token::Plus => "Plus",
            Token::End => "End",
            Token::Unknown => "Unknown",
        }
    }
}

/// The first position from `p` on that holds no white space.
pub open spec fn skip_space(s: Seq<char>, p: nat) -> nat
    decreases s.len() - p,
{
    if p < s.len() && white_space(s[p as int]) {
        skip_space(s, p + 1)
    } else {
        p
    }
}

/// The rest of an identifier from position `i`: the kind found and the end of its text, or,
/// where a single `:` breaks it, the position after that `:`.
pub open spec fn ident_rest(s: Seq<char>, i: nat, tok: Token) -> Result<(Token, nat), nat>
    decreases s.len() - i,
{
    if i >= s.len() {
        Ok((tok, s.len()))
    } else {
        let c = s[i as int];
        if alphanumeric(c) || c == '_' || c == '.' {
            ident_rest(
                s,
                i + 1,
                if c == '.' {
                    Token::Variable
                } else {
                    tok
                },
            )
        } else if c == ':' {
            if i + 1 >= s.len() {
                Ok((tok, s.len()))
            } else if s[i + 1int] != ':' {
                Err(i + 1)
            } else {
                ident_rest(s, i + 2, tok)
            }
        } else {
            Ok((tok, i))
        }
    }
}

/// The first position from `i` on that holds neither a digit nor `_`.
pub open spec fn number_rest(s: Seq<char>, i: nat) -> nat
    decreases s.len() - i,
{
    if i < s.len() && (is_digit_spec(s[i as int]) || s[i as int] == '_') {
        number_rest(s, i + 1)
    } else {
        i
    }
}

/// The token of a single character.
pub open spec fn punct_token(c: char) -> Token {
    if c == '(' {
        Token::ParanL
    } else if c == ')' {
        Token::ParanR
    } else if c == ',' {
        Token::Comma
    } else if c == '+' {
        Token::Plus
    } else {
        Token::Unknown
    }
}

/// A number, or a token of one character, at position `r`. A number that runs to the end of the
/// source has an empty text.
pub open spec fn plain_token(s: Seq<char>, r: nat) -> Option<LexedSpec> {
    if r >= s.len() {
        None
    } else if is_digit_spec(s[r as int]) || s[r as int] == '-' {
        let e = number_rest(s, r + 1);
        Some(
            (
                Token::Digit,
                r,
                if e >= s.len() {
                    r
                } else {
                    e
                },
                e,
            ),
        )
    } else {
        Some((punct_token(s[r as int]), r, r, r + 1))
    }
}

/// The token that the lexer reads from position `p`, if any is left.
pub open spec fn next_token(s: Seq<char>, p: nat) -> Option<LexedSpec> {
    let q = skip_space(s, p);
    if q >= s.len() {
        None
    } else if alphabetic(s[q as int]) {
        match ident_rest(s, q + 1, Token::Identifier) {
            Ok((t, e)) => Some((t, q, e, e)),
            Err(r) => plain_token(s, r),
        }
    } else {
        plain_token(s, q)
    }
}

proof fn lemma_skip_space(s: Seq<char>, p: nat)
    ensures
        p <= skip_space(s, p),
        p <= s.len() ==> skip_space(s, p) <= s.len(),
    decreases s.len() - p,
{
    if p < s.len() && white_space(s[p as int]) {
        lemma_skip_space(s, p + 1);
    }
}

proof fn lemma_ident_rest(s: Seq<char>, i: nat, tok: Token)
    requires
        i <= s.len(),
    ensures
        match ident_rest(s, i, tok) {
            Ok((_, e)) => i <= e <= s.len(),
            Err(r) => i < r < s.len(),
        },
    decreases s.len() - i,
{
    if i < s.len() {
        let c = s[i as int];
        if alphanumeric(c) || c == '_' || c == '.' {
            lemma_ident_rest(
                s,
                i + 1,
                if c == '.' {
                    Token::Variable
                } else {
                    tok
                },
            );
        } else if c == ':' && i + 1 < s.len() && s[i + 1int] == ':' {
            lemma_ident_rest(s, i + 2, tok);
        }
    }
}

proof fn lemma_number_rest(s: Seq<char>, i: nat)
    requires
        i <= s.len(),
    ensures
        i <= number_rest(s, i) <= s.len(),
    decreases s.len() - i,
{
    if i < s.len() && (is_digit_spec(s[i as int]) || s[i as int] == '_') {
        lemma_number_rest(s, i + 1);
    }
}

/// A token read from `p` lies after `p`, and the lexer moves past `p`.
pub proof fn lemma_next_token(s: Seq<char>, p: nat)
    ensures
        match next_token(s, p) {
            Some((_, b, e, n)) => p <= b <= e <= n && p < n <= s.len(),
            None => true,
        },
{
    lemma_skip_space(s, p);
    let q = skip_space(s, p);
    if q < s.len() {
        if alphabetic(s[q as int]) {
            lemma_ident_rest(s, q + 1, Token::Identifier);
            match ident_rest(s, q + 1, Token::Identifier) {
                Ok(_) => {},
                Err(r) => {
                    lemma_number_rest(s, r + 1);
                },
            }
        } else {
            lemma_number_rest(s, q + 1);
        }
    }
}

/// The token at `p` as the specification sees it.
pub open spec fn lexed_view(r: Option<(TokenRange, usize)>) -> Option<LexedSpec> {
    match r {
        Some((t, n)) => Some((t.token, t.begin as nat, t.end as nat, n as nat)),
        None => None,
    }
}

fn skip_space_exec(chars: &[char], p: usize) -> (q: usize)
    ensures
        q == skip_space(chars@, p as nat),
{
    let mut i = p;
    while i < chars.len() && is_whitespace(chars[i])
        invariant
            p <= i,
            skip_space(chars@, i as nat) == skip_space(chars@, p as nat),
        decreases chars@.len() - i,
    {
        i += 1;
    }
    i
}

fn ident_rest_exec(chars: &[char], start: usize) -> (r: Result<(Token, usize), usize>)
    requires
        start <= chars@.len(),
    ensures
        ident_rest(chars@, start as nat, Token::Identifier) == match r {
            Ok((t, e)) => Ok::<(Token, nat), nat>((t, e as nat)),
            Err(n) => Err::<(Token, nat), nat>(n as nat),
        },
{
    let mut i = start;
    let mut tok = Token::Identifier;
    while i < chars.len()
        invariant
            start <= i <= chars@.len(),
            ident_rest(chars@, i as nat, tok) == ident_rest(
                chars@,
                start as nat,
                Token::Identifier,
            ),
        decreases chars@.len() - i,
    {
        let c = chars[i];
        if is_alphanumeric(c) || c == '_' || c == '.' {
            if c == '.' {
                tok = Token::Variable;
            }
            i += 1;
        } else if c == ':' {
            if i + 1 >= chars.len() {
                return Ok((tok, chars.len()));
            } else if chars[i + 1] != ':' {
                return Err(i + 1);
            } else {
                i += 2;
            }
        } else {
            return Ok((tok, i));
        }
    }
    Ok((tok, chars.len()))
}

fn number_rest_exec(chars: &[char], start: usize) -> (e: usize)
    requires
        start <= chars@.len(),
    ensures
        e == number_rest(chars@, start as nat),
{
    let mut i = start;
    while i < chars.len() && (is_digit(chars[i]) || chars[i] == '_')
        invariant
            start <= i <= chars@.len(),
            number_rest(chars@, i as nat) == number_rest(chars@, start as nat),
        decreases chars@.len() - i,
    {
        i += 1;
    }
    i
}

fn plain_token_exec(chars: &[char], r: usize) -> (t: Option<(TokenRange, usize)>)
    requires
        r <= chars@.len(),
    ensures
        lexed_view(t) == plain_token(chars@, r as nat),
{
    if r >= chars.len() {
        return None;
    }
    let c = chars[r];
    if is_digit(c) || c == '-' {
        let e = number_rest_exec(chars, r + 1);
        let end = if e >= chars.len() {
            r
        } else {
            e
        };
        Some((TokenRange { token: Token::Digit, begin: r, end }, e))
    } else {
        let token = if c == '(' {
            Token::ParanL
        } else if c == ')' {
            Token::ParanR
        } else if c == ',' {
            Token::Comma
        } else if c == '+' {
            Token::Plus
        } else {
            Token::Unknown
        };
        Some((TokenRange { token, begin: r, end: r }, r + 1))
    }
}

/// Reads the token at position `p`, with the position after it.
pub fn lex(chars: &[char], p: usize) -> (t: Option<(TokenRange, usize)>)
    ensures
        lexed_view(t) == next_token(chars@, p as nat),
        t is Some ==> p < t.unwrap().1 <= chars@.len() && p <= t.unwrap().0.begin <= t.unwrap().0.end
            <= t.unwrap().1,
{
    proof {
        lemma_next_token(chars@, p as nat);
    }
    let q = skip_space_exec(chars, p);
    proof {
        lemma_skip_space(chars@, p as nat);
    }
    if q >= chars.len() {
        return None;
    }
    if is_alphabetic(chars[q]) {
        match ident_rest_exec(chars, q + 1) {
            Ok((t, e)) => Some((TokenRange { token: t, begin: q, end: e }, e)),
            Err(r) => {
                proof {
                    lemma_ident_rest(chars@, (q + 1) as nat, Token::Identifier);
                }
                plain_token_exec(chars, r)
            },
        }
    } else {
        plain_token_exec(chars, q)
    }
}

/// A parse error as the specification sees it: the message and the offending token, if any.
pub type ParseErrorSpec = (Seq<char>, Option<(Token, nat, nat)>);

/// What the parser gives: the compiled text and how many characters it read, or the error.
pub type ParsedSpec = Result<(Seq<char>, nat), ParseErrorSpec>;

/// The error message for a token that is not the expected one.
pub open spec fn expected_message(t: Token) -> Seq<char> {
    "Expected symbol `"@ + token_name(t) + "`."@
}

/// `s` with each `.` written as `::`.
pub open spec fn replace_dots(s: Seq<char>) -> Seq<char>
    decreases s.len(),
{
    if s.len() == 0 {
        Seq::empty()
    } else {
        replace_dots(s.drop_last()) + if s.last() == '.' {
            "::"@
        } else {
            seq![s.last()]
        }
    }
}

/// Parses a chain `A (+ A)*` of calls from position `p`. Each call gets the battle arguments;
/// the calls of a chain are separated by `; `. Outside of an argument list the chain must end
/// the source.
pub open spec fn parse_identifier(s: Seq<char>, p: nat, inner: bool) -> ParsedSpec
    decreases s.len() - p, 0int,
{
    proof {
        lemma_next_token(s, p);
    }
    match next_token(s, p) {
        None => Err((expected_message(Token::Identifier), None)),
        Some((t, b, e, n)) => if t != Token::Identifier {
            Err((expected_message(Token::Identifier), Some((t, b, e))))
        } else {
            let head = s.subrange(b as int, e as int) + "("@ + ADDITIONAL_ARGS@;
            proof {
                lemma_next_token(s, n);
            }
            let call: Result<(Seq<char>, nat), ParseErrorSpec> = match next_token(s, n) {
                Some((t2, _, _, n2)) => if t2 == Token::ParanL {
                    match parse_args(s, n2) {
                        Err(x) => Err(x),
                        Ok((a, c)) => {
                            let n3 = n2 + c;
                            proof {
                                lemma_next_token(s, n3);
                            }
                            match next_token(s, n3) {
                                None => Err((expected_message(Token::ParanR), None)),
                                Some((t3, b3, e3, n4)) => if t3 == Token::ParanR {
                                    Ok((", "@ + a, n4))
                                } else {
                                    Err((expected_message(Token::ParanR), Some((t3, b3, e3))))
                                },
                            }
                        },
                    }
                } else {
                    Ok((Seq::empty(), n))
                },
                None => Ok((Seq::empty(), n)),
            };
            match call {
                Err(x) => Err(x),
                Ok((mid, m)) => {
                    let out = head + mid + ")"@;
                    proof {
                        lemma_next_token(s, m);
                    }
                    match next_token(s, m) {
                        None => Ok((out, (m - p) as nat)),
                        Some((t4, b4, e4, m2)) => if t4 == Token::Plus {
                            match parse_identifier(s, m2, inner) {
                                Ok((rest, c2)) => Ok((out + "; "@ + rest, (m2 + c2 - p) as nat)),
                                Err(x) => Err(x),
                            }
                        } else if !inner {
                            Err(("Expected token '+'"@, Some((t4, b4, e4))))
                        } else {
                            Ok((out, (m - p) as nat))
                        },
                    }
                },
            }
        },
    }
}

/// Parses an argument list `C (, C)*` from position `p`, up to its closing bracket. A nested
/// chain of calls becomes a closure over the battle arguments.
pub open spec fn parse_args(s: Seq<char>, p: nat) -> ParsedSpec
    decreases s.len() - p, 1int,
{
    proof {
        lemma_next_token(s, p);
    }
    match next_token(s, p) {
        None => Ok((Seq::empty(), 0)),
        Some((t, b, e, n)) => if t == Token::ParanR {
            Ok((Seq::empty(), 0))
        } else {
            let first: Result<(Seq<char>, nat), ParseErrorSpec> = if t == Token::Identifier {
                match parse_identifier(s, p, true) {
                    Ok((x, c)) => Ok(("|"@ + ADDITIONAL_ARGS@ + "| {"@ + x + "}"@, c)),
                    Err(x) => Err(x),
                }
            } else if t == Token::Digit {
                Ok((s.subrange(b as int, e as int), (n - p) as nat))
            } else if t == Token::Variable {
                Ok((replace_dots(s.subrange(b as int, e as int)), (n - p) as nat))
            } else {
                Err(("Expected argument (digit, closure or end paranthesis)."@, Some((t, b, e))))
            };
            match first {
                Err(x) => Err(x),
                Ok((x, c)) => {
                    let m = p + c;
                    proof {
                        lemma_next_token(s, m);
                    }
                    match next_token(s, m) {
                        None => Ok((x, c)),
                        Some((t2, b2, e2, m2)) => if t2 == Token::Comma {
                            match parse_args(s, m2) {
                                Ok((y, c2)) => Ok((x + ", "@ + y, (m2 + c2 - p) as nat)),
                                Err(z) => Err(z),
                            }
                        } else if t2 != Token::ParanR {
                            Err(("Expected comma or end paranthesis."@, Some((t2, b2, e2))))
                        } else {
                            Ok((x, c))
                        },
                    }
                },
            }
        },
    }
}

/// What compiling `s` gives: the compiled code, or the parse error.
pub open spec fn compiled(s: Seq<char>) -> Result<Seq<char>, ParseErrorSpec> {
    match parse_identifier(s, 0, false) {
        Ok((out, _)) => Ok(out),
        Err(x) => Err(x),
    }
}

/// A plain call name: an ASCII letter, then ASCII letters, digits and `_`.
pub open spec fn call_name(x: Seq<char>) -> bool {
    &&& x.len() > 0
    &&& ascii_letter(x[0])
    &&& forall|i: int|
        1 <= i < x.len() ==> ascii_letter(#[trigger] x[i]) || ('0' <= x[i] && x[i] <= '9') || x[i]
            == '_'
}

/// The compiled form of a plain call: the name with the battle arguments.
pub open spec fn call_text(x: Seq<char>) -> Seq<char> {
    x + "("@ + ADDITIONAL_ARGS@ + ")"@
}

proof fn lemma_ident_run(s: Seq<char>, i: nat, e: nat, tok: Token)
    requires
        i <= e <= s.len(),
        forall|j: int|
            i <= j < e ==> ascii_letter(#[trigger] s[j]) || ('0' <= s[j] && s[j] <= '9') || s[j] == '_',
        e < s.len() ==> !(alphanumeric(s[e as int]) || s[e as int] == '_' || s[e as int] == '.'
            || s[e as int] == ':'),
    ensures
        ident_rest(s, i, tok) == Ok::<(Token, nat), nat>((tok, e)),
    decreases e - i,
{
    if i < e {
        let c = s[i as int];
        assert(ascii_letter(c) || ('0' <= c && c <= '9') || c == '_');
        assert(alphanumeric(c) || c == '_');
        assert(c != '.');
        lemma_ident_run(s, i + 1, e, tok);
    }
}

proof fn lemma_skip_run(s: Seq<char>, p: nat, q: nat)
    requires
        p <= q <= s.len(),
        forall|j: int| p <= j < q ==> white_space(#[trigger] s[j]),
        q < s.len() ==> !white_space(s[q as int]),
    ensures
        skip_space(s, p) == q,
    decreases q - p,
{
    if p < q {
        lemma_skip_run(s, p + 1, q);
    }
}

/// A plain call after white space, up to the end of the source, compiles to the call with the
/// battle arguments.
proof fn lemma_plain_call(s: Seq<char>, p: nat, q: nat, inner: bool)
    requires
        p <= q < s.len(),
        forall|j: int| p <= j < q ==> white_space(#[trigger] s[j]),
        call_name(s.subrange(q as int, s.len() as int)),
    ensures
        parse_identifier(s, p, inner) == Ok::<(Seq<char>, nat), ParseErrorSpec>(
            (call_text(s.subrange(q as int, s.len() as int)), (s.len() - p) as nat),
        ),
{
    let x = s.subrange(q as int, s.len() as int);
    assert(x[0] == s[q as int]);
    assert(!white_space(s[q as int]));
    lemma_skip_run(s, p, q);
    assert forall|j: int| q + 1 <= j < s.len() implies ascii_letter(#[trigger] s[j]) || ('0' <= s[j]
        && s[j] <= '9') || s[j] == '_' by {
        assert(s[j] == x[j - q]);
    }
    lemma_ident_run(s, q + 1, s.len(), Token::Identifier);
    assert(next_token(s, p) == Some::<LexedSpec>((Token::Identifier, q, s.len(), s.len())));
    lemma_skip_run(s, s.len(), s.len());
    assert(next_token(s, s.len()) is None);
    assert(x + "("@ + ADDITIONAL_ARGS@ + Seq::<char>::empty() + ")"@ =~= call_text(x));
}

/// A plain call compiles to the call with the battle arguments, and two calls joined by ` + `
/// compile to the two compiled calls joined by `; `.
pub proof fn lemma_compile_calls(x: Seq<char>, y: Seq<char>)
    requires
        call_name(x),
        call_name(y),
    ensures
        compiled(x) == Ok::<Seq<char>, ParseErrorSpec>(call_text(x)),
        compiled(x + " + "@ + y) == Ok::<Seq<char>, ParseErrorSpec>(
            call_text(x) + "; "@ + call_text(y),
        ),
{
    assert(x.subrange(0, x.len() as int) =~= x);
    lemma_plain_call(x, 0, 0, false);
    reveal_strlit(" + ");
    let s = x + " + "@ + y;
    let lx = x.len();
    assert(s[lx as int] == ' ');
    assert(s[lx + 1int] == '+');
    assert(s[lx + 2int] == ' ');
    assert(s[0] == x[0]);
    lemma_skip_run(s, 0, 0);
    assert forall|j: int| 1 <= j < lx implies ascii_letter(#[trigger] s[j]) || ('0' <= s[j] && s[j]
        <= '9') || s[j] == '_' by {
        assert(s[j] == x[j]);
    }
    lemma_ident_run(s, 1, lx, Token::Identifier);
    assert(next_token(s, 0) == Some::<LexedSpec>((Token::Identifier, 0, lx, lx)));
    assert(s.subrange(0, lx as int) =~= x);
    lemma_skip_run(s, lx, lx + 1);
    assert(next_token(s, lx) == Some::<LexedSpec>((Token::Plus, lx + 1, lx + 1, lx + 2)));
    assert(s.subrange(lx + 3int, s.len() as int) =~= y);
    lemma_plain_call(s, lx + 2, lx + 3, false);
    assert(x + "("@ + ADDITIONAL_ARGS@ + Seq::<char>::empty() + ")"@ =~= call_text(x));
}

/// Why an expression could not be compiled: a message, and the offending token (`None` where the
/// source ended).
#[derive(Debug, Clone, PartialEq, Eq)]
pub struct CompileError {
    pub message: String,
    pub token: Option<TokenRange>,
}

/// The error as the specification sees it.
pub open spec fn error_view(e: CompileError) -> ParseErrorSpec {
    (
        e.message@,
        match e.token {
            Some(t) => Some((t.token, t.begin as nat, t.end as nat)),
            None => None,
        },
    )
}

fn expected_error(t: Token, found: Option<TokenRange>) -> (e: CompileError)
    ensures
        e.message@ == expected_message(t),
        e.token == found,
{
    let mut message = String::new();
    message.append("Expected symbol `");
    message.append(t.name());
    message.append("`.");
    CompileError { message, token: found }
}

fn push_range(out: &mut String, chars: &[char], b: usize, e: usize)
    requires
        b <= e <= chars@.len(),
    ensures
        final(out)@ == old(out)@ + chars@.subrange(b as int, e as int),
{
    let mut i = b;
    while i < e
        invariant
            b <= i <= e <= chars@.len(),
            out@ == old(out)@ + chars@.subrange(b as int, i as int),
        decreases e - i,
    {
        push_char(out, chars[i]);
        proof {
            assert(chars@.subrange(b as int, i + 1) =~= chars@.subrange(b as int, i as int).push(
                chars@[i as int],
            ));
        }
        i += 1;
    }
}

fn push_replaced(out: &mut String, chars: &[char], b: usize, e: usize)
    requires
        b <= e <= chars@.len(),
    ensures
        final(out)@ == old(out)@ + replace_dots(chars@.subrange(b as int, e as int)),
{
    let mut i = b;
    while i < e
        invariant
            b <= i <= e <= chars@.len(),
            out@ == old(out)@ + replace_dots(chars@.subrange(b as int, i as int)),
        decreases e - i,
    {
        let ghost before = out@;
        if chars[i] == '.' {
            out.append("::");
        } else {
            push_char(out, chars[i]);
        }
        proof {
            let t = chars@.subrange(b as int, i + 1);
            assert(t.drop_last() =~= chars@.subrange(b as int, i as int));
            assert(out@ =~= old(out)@ + replace_dots(t));
        }
        i += 1;
    }
}

#[verifier::rlimit(40)]
fn parse_identifier_exec(chars: &[char], p: usize, out: &mut String, inner: bool) -> (r: Result<
    usize,
    CompileError,
>)
    requires
        p <= chars@.len(),
    ensures
        r is Ok ==> p <= r->Ok_0 <= chars@.len(),
        match parse_identifier(chars@, p as nat, inner) {
            Ok((o, c)) => r is Ok && r->Ok_0 == p + c && final(out)@ == old(out)@ + o,
            Err(x) => r is Err && error_view(r->Err_0) == x,
        },
    decreases chars@.len() - p, 0int,
{
    proof {
        lemma_next_token(chars@, p as nat);
    }
    let (tr, n) = match lex(chars, p) {
        None => {
            return Err(expected_error(Token::Identifier, None));
        },
        Some(x) => x,
    };
    if tr.token != Token::Identifier {
        return Err(expected_error(Token::Identifier, Some(tr)));
    }
    push_range(out, chars, tr.begin, tr.end);
    out.append("(");
    out.append(ADDITIONAL_ARGS);
    let ghost head = out@;
    let ghost mut mid: Seq<char> = Seq::empty();
    let mut m = n;
    if let Some((t2, n2)) = lex(chars, n) {
        if t2.token == Token::ParanL {
            out.append(", ");
            let n3 = match parse_args_exec(chars, n2, out) {
                Ok(x) => x,
                Err(e) => {
                    return Err(e);
                },
            };
            proof {
                mid = ", "@ + parse_args(chars@, n2 as nat)->Ok_0.0;
                assert(out@ =~= head + mid);
            }
            match lex(chars, n3) {
                None => {
                    return Err(expected_error(Token::ParanR, None));
                },
                Some((t3, n4)) => {
                    if t3.token != Token::ParanR {
                        return Err(expected_error(Token::ParanR, Some(t3)));
                    }
                    m = n4;
                },
            }
        }
    }
    out.append(")");
    let ghost spec_out = chars@.subrange(tr.begin as int, tr.end as int) + "("@ + ADDITIONAL_ARGS@
        + mid + ")"@;
    proof {
        assert(out@ =~= old(out)@ + spec_out);
    }
    match lex(chars, m) {
        None => Ok(m),
        Some((t4, m2)) => {
            if t4.token == Token::Plus {
                out.append("; ");
                let ghost before = out@;
                let r = parse_identifier_exec(chars, m2, out, inner);
                proof {
                    if r is Ok {
                        let rest = parse_identifier(chars@, m2 as nat, inner)->Ok_0.0;
                        assert(out@ =~= old(out)@ + (spec_out + "; "@ + rest));
                    }
                }
                r
            } else if !inner {
                Err(CompileError { message: String::from_str("Expected token '+'"), token: Some(t4) })
            } else {
                Ok(m)
            }
        },
    }
}

#[verifier::rlimit(40)]
fn parse_args_exec(chars: &[char], p: usize, out: &mut String) -> (r: Result<usize, CompileError>)
    requires
        p <= chars@.len(),
    ensures
        r is Ok ==> p <= r->Ok_0 <= chars@.len(),
        match parse_args(chars@, p as nat) {
            Ok((o, c)) => r is Ok && r->Ok_0 == p + c && final(out)@ == old(out)@ + o,
            Err(x) => r is Err && error_view(r->Err_0) == x,
        },
    decreases chars@.len() - p, 1int,
{
    proof {
        lemma_next_token(chars@, p as nat);
    }
    let (tr, n) = match lex(chars, p) {
        None => {
            return Ok(p);
        },
        Some(x) => x,
    };
    let m: usize;
    if tr.token == Token::Identifier {
        out.append("|");
        out.append(ADDITIONAL_ARGS);
        out.append("| {");
        let ghost start = out@;
        m = match parse_identifier_exec(chars, p, out, true) {
            Ok(x) => x,
            Err(e) => {
                return Err(e);
            },
        };
        out.append("}");
        proof {
            let x = parse_identifier(chars@, p as nat, true)->Ok_0.0;
            assert(out@ =~= old(out)@ + ("|"@ + ADDITIONAL_ARGS@ + "| {"@ + x + "}"@));
        }
    } else if tr.token == Token::Digit {
        push_range(out, chars, tr.begin, tr.end);
        m = n;
    } else if tr.token == Token::Variable {
        push_replaced(out, chars, tr.begin, tr.end);
        m = n;
    } else if tr.token == Token::ParanR {
        return Ok(p);
    } else {
        return Err(
            CompileError {
                message: String::from_str("Expected argument (digit, closure or end paranthesis)."),
                token: Some(tr),
            },
        );
    }
    let ghost first = out@;
    match lex(chars, m) {
        None => Ok(m),
        Some((t2, m2)) => {
            if t2.token == Token::Comma {
                out.append(", ");
                let r = parse_args_exec(chars, m2, out);
                proof {
                    if r is Ok {
                        let y = parse_args(chars@, m2 as nat)->Ok_0.0;
                        assert(out@ =~= first + (", "@ + y));
                        assert(out@ =~= old(out)@ + (first.subrange(old(out)@.len() as int, first.len() as int) + ", "@ + y));
                    }
                }
                r
            } else if t2.token != Token::ParanR {
                Err(
                    CompileError {
                        message: String::from_str("Expected comma or end paranthesis."),
                        token: Some(t2),
                    },
                )
            } else {
                Ok(m)
            }
        },
    }
}

/// Compiles `source`, or gives the error that stops it.
pub fn compile_checked(source: &str) -> (r: Result<String, CompileError>)
    ensures
        match compiled(source@) {
            Ok(o) => r is Ok && r->Ok_0@ == o,
            Err(x) => r is Err && error_view(r->Err_0) == x,
        },
{
    let chars = chars_of(source);
    let mut result = String::new();
    match parse_identifier_exec(chars.as_slice(), 0, &mut result, false) {
        Ok(_) => Ok(result),
        Err(e) => Err(e),
    }
}

/// Compiles `source` and returns the compiled code, or `None` where it cannot be compiled.
pub fn compile(source: &str) -> (r: Option<String>)
    ensures
        r is Some <==> compiled(source@) is Ok,
        r is Some ==> r->0@ == compiled(source@)->Ok_0,
{
    match compile_checked(source) {
        Ok(s) => Some(s),
        Err(_) => None,
    }
}

/// The number of bytes of `c` in UTF-8.
pub open spec fn utf8_width(c: char) -> nat {
    if (c as u32) < 0x80 {
        1
    } else if (c as u32) < 0x800 {
        2
    } else if (c as u32) < 0x10000 {
        3
    } else {
        4
    }
}

/// The number of bytes of `s` in UTF-8.
pub open spec fn utf8_len(s: Seq<char>) -> nat
    decreases s.len(),
{
    if s.len() == 0 {
        0
    } else {
        utf8_len(s.drop_last()) + utf8_width(s.last())
    }
}

/// The position of the first line break at or after `b`, or the end of `s`.
pub open spec fn line_end(s: Seq<char>, b: nat) -> nat
    decreases s.len() - b,
{
    if b >= s.len() {
        s.len()
    } else if s[b as int] == '\n' {
        b
    } else {
        line_end(s, b + 1)
    }
}

/// The position after the last line break before `b`, or 0.
pub open spec fn line_start(s: Seq<char>, b: nat) -> nat
    decreases b,
{
    if b == 0 {
        0
    } else if b - 1 < s.len() && s[b - 1] == '\n' {
        b
    } else {
        line_start(s, (b - 1) as nat)
    }
}

/// `c` repeated `n` times.
pub open spec fn repeated(c: char, n: nat) -> Seq<char> {
    Seq::new(n, |i: int| c)
}

/// The report of an error at the token `t` (kind, and text from `b` to `e`) of source `s`: the
/// source up to the end of the token's line, a marker under the token, the message, the token
/// found, and the rest of the source. Columns count bytes.
pub open spec fn report_text(s: Seq<char>, t: Token, b: nat, e: nat, message: Seq<char>) -> Seq<
    char,
> {
    let split = line_end(s, b);
    let spaces = repeated(' ', utf8_len(s.subrange(line_start(s, b) as int, b as int)));
    let lines = repeated('-', utf8_len(s.subrange(b as int, e as int)));
    "\n"@ + s.take(split as int) + "\n"@ + spaces + "^"@ + lines + "\n"@ + spaces + message + "\n"@
        + spaces + "Found symbol `"@ + token_name(t) + "`.\n"@ + s.skip(split as int) + "\n"@
}

/// The token of an error: the offending one, or the end of the source.
pub open spec fn error_token(s: Seq<char>, e: CompileError) -> (Token, nat, nat) {
    match e.token {
        Some(t) => (t.token, t.begin as nat, t.end as nat),
        None => (Token::End, s.len(), s.len()),
    }
}

fn utf8_width_exec(c: char) -> (w: usize)
    ensures
        w == utf8_width(c),
{
    let v = c as u32;
    if v < 0x80 {
        1
    } else if v < 0x800 {
        2
    } else if v < 0x10000 {
        3
    } else {
        4
    }
}

fn push_repeated(out: &mut String, c: char, n: usize)
    ensures
        final(out)@ == old(out)@ + repeated(c, n as nat),
{
    let mut i: usize = 0;
    while i < n
        invariant
            0 <= i <= n,
            out@ == old(out)@ + repeated(c, i as nat),
        decreases n - i,
    {
        push_char(out, c);
        proof {
            assert(out@ =~= old(out)@ + repeated(c, (i + 1) as nat));
        }
        i += 1;
    }
}

proof fn lemma_utf8_len_concat(a: Seq<char>, b: Seq<char>)
    ensures
        utf8_len(a + b) == utf8_len(a) + utf8_len(b),
    decreases b.len(),
{
    if b.len() == 0 {
        assert(a + b =~= a);
    } else {
        assert((a + b).drop_last() =~= a + b.drop_last());
        lemma_utf8_len_concat(a, b.drop_last());
    }
}

fn utf8_len_exec(chars: &[char], b: usize, e: usize) -> (n: usize)
    requires
        b <= e <= chars@.len(),
        utf8_len(chars@.subrange(b as int, e as int)) <= usize::MAX,
    ensures
        n == utf8_len(chars@.subrange(b as int, e as int)),
{
    let mut n: usize = 0;
    let mut i = b;
    while i < e
        invariant
            b <= i <= e <= chars@.len(),
            n == utf8_len(chars@.subrange(b as int, i as int)),
            utf8_len(chars@.subrange(b as int, e as int)) <= usize::MAX,
        decreases e - i,
    {
        proof {
            assert(chars@.subrange(b as int, i + 1).drop_last() =~= chars@.subrange(
                b as int,
                i as int,
            ));
            assert(chars@.subrange(b as int, e as int) =~= chars@.subrange(b as int, i + 1)
                + chars@.subrange(i + 1, e as int));
            lemma_utf8_len_concat(
                chars@.subrange(b as int, i + 1),
                chars@.subrange(i + 1, e as int),
            );
        }
        n = n + utf8_width_exec(chars[i]);
        i += 1;
    }
    n
}

impl CompileError {
    /// The report of this error on `source`: the source with a marker under the offending token,
    /// the message and the token found.
    #[verifier::rlimit(40)]
    pub fn report(&self, source: &str) -> (r: String)
        requires
            self.token is Some ==> self.token->0.begin <= self.token->0.end <= source@.len(),
            utf8_len(source@) <= usize::MAX,
        ensures
            r@ == report_text(
                source@,
                error_token(source@, *self).0,
                error_token(source@, *self).1,
                error_token(source@, *self).2,
                self.message@,
            ),
    {
        let chars = chars_of(source);
        let (token, b, e) = match self.token {
            Some(t) => (t.token, t.begin, t.end),
            None => (Token::End, chars.len(), chars.len()),
        };
        let mut split = b;
        while split < chars.len() && chars[split] != '\n'
            invariant
                b <= split <= chars@.len(),
                line_end(chars@, split as nat) == line_end(chars@, b as nat),
            decreases chars@.len() - split,
        {
            split += 1;
        }
        let mut start = b;
        while start > 0 && chars[start - 1] != '\n'
            invariant
                start <= b <= chars@.len(),
                line_start(chars@, start as nat) == line_start(chars@, b as nat),
            decreases start,
        {
            start -= 1;
        }
        proof {
            let s = chars@;
            assert(s =~= s.take(start as int) + s.subrange(start as int, b as int) + s.skip(
                b as int,
            ));
            lemma_utf8_len_concat(s.take(start as int), s.subrange(start as int, b as int));
            lemma_utf8_len_concat(
                s.take(start as int) + s.subrange(start as int, b as int),
                s.skip(b as int),
            );
            assert(s =~= s.take(b as int) + s.subrange(b as int, e as int) + s.skip(e as int));
            lemma_utf8_len_concat(s.take(b as int), s.subrange(b as int, e as int));
            lemma_utf8_len_concat(
                s.take(b as int) + s.subrange(b as int, e as int),
                s.skip(e as int),
            );
        }
        let spaces = utf8_len_exec(chars.as_slice(), start, b);
        let lines = utf8_len_exec(chars.as_slice(), b, e);
        proof {
            assert(split == line_end(chars@, b as nat));
            assert(start == line_start(chars@, b as nat));
        }
        let mut out = String::from_str("\n");
        push_range(&mut out, chars.as_slice(), 0, split);
        out.append("\n");
        push_repeated(&mut out, ' ', spaces);
        out.append("^");
        push_repeated(&mut out, '-', lines);
        out.append("\n");
        push_repeated(&mut out, ' ', spaces);
        out.append(self.message.as_str());
        out.append("\n");
        push_repeated(&mut out, ' ', spaces);
        out.append("Found symbol `");
        out.append(token.name());
        out.append("`.\n");
        push_range(&mut out, chars.as_slice(), split, chars.len());
        out.append("\n");
        proof {
            assert(chars@.subrange(0, split as int) =~= chars@.take(split as int));
            assert(chars@.subrange(split as int, chars@.len() as int) =~= chars@.skip(split as int));
            assert(out@ == report_text(chars@, token, b as nat, e as nat, self.message@));
        }
        out
    }
}

} // verus!

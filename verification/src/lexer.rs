//! The smallest pieces of the grammar: white space, fixed tokens, names
//! and numbers at the start of a text.

use vstd::prelude::*;

verus! {

/// The classes of characters that the grammar tells apart.
#[derive(Debug, Clone, Copy, PartialEq, Eq, Structural)]
pub enum CharClass {
    /// Space, tab, carriage return, line feed.
    Space,
    /// The decimal digits.
    Digit,
    /// The letters `a` to `z` and `A` to `Z`, and the underscore.
    Name,
}

/// What a parser missed at the place where it failed.
#[derive(Debug, Clone, Copy, PartialEq, Eq, Structural)]
pub enum Expected {
    /// A fixed token.
    Tag,
    /// A name.
    Name,
    /// A number that fits in 32 bits.
    Digit,
    /// White space.
    Space,
}

/// The model of a parse failure: the text at which a parser failed, and
/// what it missed there.
pub struct Failure {
    pub rest: Seq<char>,
    pub expected: Expected,
}

/// A parse failure: the text at which a parser failed, and what it missed
/// there.
#[derive(Debug, Clone, Copy)]
pub struct ParseError<'a> {
    pub rest: &'a str,
    pub expected: Expected,
}

impl<'a> View for ParseError<'a> {
    type V = Failure;

    open spec fn view(&self) -> Failure {
        Failure { rest: self.rest@, expected: self.expected }
    }
}

/// Whether a character can stand in a name.
pub open spec fn name_char(c: char) -> bool {
    ('a' <= c && c <= 'z') || ('A' <= c && c <= 'Z') || c == '_'
}

/// Whether `c` belongs to the class `k`.
pub open spec fn in_class(c: char, k: CharClass) -> bool {
    match k {
        CharClass::Space => c == ' ' || c == '\t' || c == '\r' || c == '\n',
        CharClass::Digit => '0' <= c && c <= '9',
        CharClass::Name => name_char(c),
    }
}

/// The length of the longest prefix of `s` made of characters of class `k`.
#[verifier::opaque]
pub open spec fn span(s: Seq<char>, k: CharClass) -> nat
    decreases s.len(),
{
    if s.len() > 0 && in_class(s[0], k) {
        1 + span(s.drop_first(), k)
    } else {
        0
    }
}

/// `s` without its first `n` characters; the empty text where it has fewer.
/// No prefix is longer than its text; the definitions below still test for
/// it, so that they stay within the text by their own wording.
pub open spec fn advance(s: Seq<char>, n: nat) -> Seq<char> {
    if n <= s.len() {
        s.skip(n as int)
    } else {
        Seq::empty()
    }
}

/// The number that a digit stands for.
pub open spec fn digit_value(c: char) -> nat {
    (c as u32 - '0' as u32) as nat
}

/// The number that a sequence of digits stands for in decimal notation.
pub open spec fn digits_value(s: Seq<char>) -> nat
    decreases s.len(),
{
    if s.len() == 0 {
        0
    } else {
        10 * digits_value(s.drop_last()) + digit_value(s.last())
    }
}

/// `s` without the white space that it starts with.
pub open spec fn skip(s: Seq<char>) -> Seq<char> {
    advance(s, span(s, CharClass::Space))
}

/// `s` without the white space that it starts with, which must be there.
pub open spec fn space(s: Seq<char>) -> Result<Seq<char>, Failure> {
    let n = span(s, CharClass::Space);
    if n == 0 || n > s.len() {
        Err(Failure { rest: s, expected: Expected::Space })
    } else {
        Ok(s.skip(n as int))
    }
}

/// `s` without the token `t` that it starts with.
pub open spec fn tag(s: Seq<char>, t: Seq<char>) -> Result<Seq<char>, Failure> {
    if t.is_prefix_of(s) {
        Ok(s.skip(t.len() as int))
    } else {
        Err(Failure { rest: s, expected: Expected::Tag })
    }
}

/// `s` without the token `t` that follows its leading white space.
pub open spec fn token(s: Seq<char>, t: Seq<char>) -> Result<Seq<char>, Failure> {
    tag(skip(s), t)
}

/// The name that `s` starts with, and what follows it.
pub open spec fn name(s: Seq<char>) -> Result<(Seq<char>, Seq<char>), Failure> {
    let n = span(s, CharClass::Name);
    if n == 0 || n > s.len() {
        Err(Failure { rest: s, expected: Expected::Name })
    } else {
        Ok((s.take(n as int), s.skip(n as int)))
    }
}

/// The number that `s` starts with, and what follows it. The digits are
/// taken as far as they go; a number beyond 32 bits is a failure.
pub open spec fn number(s: Seq<char>) -> Result<(u32, Seq<char>), Failure> {
    let n = span(s, CharClass::Digit);
    if n == 0 || n > s.len() || digits_value(s.take(n as int)) > u32::MAX {
        Err(Failure { rest: s, expected: Expected::Digit })
    } else {
        Ok((digits_value(s.take(n as int)) as u32, s.skip(n as int)))
    }
}

/// Whether a character can stand in a name: a letter of the ASCII alphabet
/// or the underscore.
pub fn is_alpha_or_underscore(c: char) -> (r: bool)
    ensures
        r == name_char(c),
{
    ('a' <= c && c <= 'z') || ('A' <= c && c <= 'Z') || c == '_'
}

/// Calls nom's `multispace0`. Claims that it strips the longest prefix made
/// of spaces, tabs, carriage returns and line feeds, and never fails.
#[verifier::external_body]
pub(crate) fn skip_space<'a>(input: &'a str) -> (rest: &'a str)
    ensures
        rest@ == skip(input@),
{
    match nom::character::complete::multispace0::<&str, nom::error::Error<&str>>(input) {
        Ok((rest, _)) => rest,
        Err(_) => input,
    }
}

/// Calls nom's `multispace1`. Claims that it strips the longest prefix made
/// of spaces, tabs, carriage returns and line feeds, and fails exactly where
/// that prefix is empty.
#[verifier::external_body]
pub(crate) fn take_space<'a>(input: &'a str) -> (r: Option<&'a str>)
    ensures
        match r {
            Some(rest) => space(input@) == Ok::<Seq<char>, Failure>(rest@),
            None => space(input@) is Err,
        },
{
    match nom::character::complete::multispace1::<&str, nom::error::Error<&str>>(input) {
        Ok((rest, _)) => Some(rest),
        Err(_) => None,
    }
}

/// Calls nom's `tag`. Claims that it succeeds exactly where the input
/// starts with the token, and then returns what follows the token.
#[verifier::external_body]
pub(crate) fn take_tag<'a>(token: &str, input: &'a str) -> (r: Option<&'a str>)
    ensures
        match r {
            Some(rest) => tag(input@, token@) == Ok::<Seq<char>, Failure>(rest@),
            None => tag(input@, token@) is Err,
        },
{
    match nom::bytes::complete::tag::<&str, &str, nom::error::Error<&str>>(token)(input) {
        Ok((rest, _)) => Some(rest),
        Err(_) => None,
    }
}

/// Calls nom's `take_while1` with `is_alpha_or_underscore`. Claims that it
/// splits the input behind its longest prefix of name characters, and fails
/// exactly where that prefix is empty.
#[verifier::external_body]
pub(crate) fn take_name<'a>(input: &'a str) -> (r: Option<(&'a str, String)>)
    ensures
        match r {
            Some((rest, word)) => name(input@) == Ok::<(Seq<char>, Seq<char>), Failure>(
                (word@, rest@),
            ),
            None => name(input@) is Err,
        },
{
    match nom::bytes::complete::take_while1::<_, &str, nom::error::Error<&str>>(
        is_alpha_or_underscore,
    )(input) {
        Ok((rest, word)) => Some((rest, word.to_string())),
        Err(_) => None,
    }
}

/// Calls nom's `u32`. Claims that it reads the longest prefix of decimal
/// digits as a number, and fails exactly where that prefix is empty or the
/// number does not fit in 32 bits.
#[verifier::external_body]
pub(crate) fn take_number<'a>(input: &'a str) -> (r: Option<(&'a str, u32)>)
    ensures
        match r {
            Some((rest, n)) => number(input@) == Ok::<(u32, Seq<char>), Failure>((n, rest@)),
            None => number(input@) is Err,
        },
{
    match nom::character::complete::u32::<&str, nom::error::Error<&str>>(input) {
        Ok((rest, n)) => Some((rest, n)),
        Err(_) => None,
    }
}

/// Skips white space, then takes the token.
pub fn take_token<'a>(token: &str, input: &'a str) -> (r: Result<&'a str, ParseError<'a>>)
    ensures
        match r {
            Ok(rest) => self::token(input@, token@) == Ok::<Seq<char>, Failure>(rest@),
            Err(e) => self::token(input@, token@) == Err::<Seq<char>, Failure>(e@),
        },
{
    let input = skip_space(input);
    match take_tag(token, input) {
        Some(rest) => Ok(rest),
        None => Err(ParseError { rest: input, expected: Expected::Tag }),
    }
}

/// Takes the token at the very start of the input.
pub fn expect_tag<'a>(token: &str, input: &'a str) -> (r: Result<&'a str, ParseError<'a>>)
    ensures
        match r {
            Ok(rest) => tag(input@, token@) == Ok::<Seq<char>, Failure>(rest@),
            Err(e) => tag(input@, token@) == Err::<Seq<char>, Failure>(e@),
        },
{
    match take_tag(token, input) {
        Some(rest) => Ok(rest),
        None => Err(ParseError { rest: input, expected: Expected::Tag }),
    }
}

/// Takes the white space at the start of the input, which must be there.
pub fn expect_space<'a>(input: &'a str) -> (r: Result<&'a str, ParseError<'a>>)
    ensures
        match r {
            Ok(rest) => space(input@) == Ok::<Seq<char>, Failure>(rest@),
            Err(e) => space(input@) == Err::<Seq<char>, Failure>(e@),
        },
{
    match take_space(input) {
        Some(rest) => Ok(rest),
        None => Err(ParseError { rest: input, expected: Expected::Space }),
    }
}

/// The characters that stand alone as tokens.
pub open spec fn is_punct(c: char) -> bool {
    c == ';' || c == '(' || c == ')' || c == '[' || c == ']' || c == '{' || c == '}' || c == '='
        || c == '$' || c == '?' || c == '@' || c == ':' || c == ',' || c == '|' || c == '*'
        || c == '+' || c == '-' || c == '<' || c == '>'
}

/// The text of a token of one character.
pub fn punct(c: char) -> (r: &'static str)
    requires
        is_punct(c),
    ensures
        r@ == seq![c],
{
    proof {
        reveal_strlit(";");
        reveal_strlit("(");
        reveal_strlit(")");
        reveal_strlit("[");
        reveal_strlit("]");
        reveal_strlit("{");
        reveal_strlit("}");
        reveal_strlit("=");
        reveal_strlit("$");
        reveal_strlit("?");
        reveal_strlit("@");
        reveal_strlit(":");
        reveal_strlit(",");
        reveal_strlit("|");
        reveal_strlit("*");
        reveal_strlit("+");
        reveal_strlit("-");
        reveal_strlit("<");
        reveal_strlit(">");
    }
    let r = if c == ';' {
        ";"
    } else if c == '(' {
        "("
    } else if c == ')' {
        ")"
    } else if c == '[' {
        "["
    } else if c == ']' {
        "]"
    } else if c == '{' {
        "{"
    } else if c == '}' {
        "}"
    } else if c == '=' {
        "="
    } else if c == '$' {
        "$"
    } else if c == '?' {
        "?"
    } else if c == '@' {
        "@"
    } else if c == ':' {
        ":"
    } else if c == ',' {
        ","
    } else if c == '|' {
        "|"
    } else if c == '*' {
        "*"
    } else if c == '+' {
        "+"
    } else if c == '-' {
        "-"
    } else if c == '<' {
        "<"
    } else {
        ">"
    };
    assert(r@ =~= seq![c]);
    r
}

/// Skips white space, then takes the token of one character.
pub fn symbol<'a>(c: char, input: &'a str) -> (r: Result<&'a str, ParseError<'a>>)
    requires
        is_punct(c),
    ensures
        match r {
            Ok(rest) => token(input@, seq![c]) == Ok::<Seq<char>, Failure>(rest@),
            Err(e) => token(input@, seq![c]) == Err::<Seq<char>, Failure>(e@),
        },
{
    take_token(punct(c), input)
}

} // verus!

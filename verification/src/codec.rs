//! The two per-instruction codecs.
//!
//! The surface codec maps each instruction to an ordered pair of base
//! symbols and back; the two directions are exact inverses on all nine
//! instructions and all nine pairs.  The glyph codec maps each instruction
//! to a single character; decoding is total over all characters, with
//! everything outside the eight canonical glyphs collapsing to the no-op,
//! which re-encodes as a newline.

use vstd::prelude::*;

use crate::tokens::Token;
use crate::tokens::TranscodeError;
use crate::tokens::TranspileToken;
use vstd::string::StrSliceExecFns;
use vstd::string::StringExecFns;

verus! {

/// The surface-notation pair that encodes an instruction.
pub open spec fn surface_pair(t: TranspileToken) -> (Token, Token) {
    match t {
        TranspileToken::Next => (Token::Meow, Token::Meow),
        TranspileToken::Previous => (Token::Meow, Token::Mrrp),
        TranspileToken::Increment => (Token::Meow, Token::Mrowp),
        TranspileToken::Decrement => (Token::Mrrp, Token::Meow),
        TranspileToken::Output => (Token::Mrrp, Token::Mrrp),
        TranspileToken::Input => (Token::Mrrp, Token::Mrowp),
        TranspileToken::LoopStart => (Token::Mrowp, Token::Meow),
        TranspileToken::LoopEnd => (Token::Mrowp, Token::Mrrp),
        TranspileToken::Other => (Token::Mrowp, Token::Mrowp),
    }
}

/// The instruction that a surface-notation pair decodes to.
pub open spec fn pair_to_instruction(p: (Token, Token)) -> TranspileToken {
    match p {
        (Token::Meow, Token::Meow) => TranspileToken::Next,
        (Token::Meow, Token::Mrrp) => TranspileToken::Previous,
        (Token::Meow, Token::Mrowp) => TranspileToken::Increment,
        (Token::Mrrp, Token::Meow) => TranspileToken::Decrement,
        (Token::Mrrp, Token::Mrrp) => TranspileToken::Output,
        (Token::Mrrp, Token::Mrowp) => TranspileToken::Input,
        (Token::Mrowp, Token::Meow) => TranspileToken::LoopStart,
        (Token::Mrowp, Token::Mrrp) => TranspileToken::LoopEnd,
        (Token::Mrowp, Token::Mrowp) => TranspileToken::Other,
    }
}

/// The written name of a base symbol.
pub open spec fn token_name(t: Token) -> Seq<char> {
    match t {
        Token::Meow => seq!['M', 'e', 'o', 'w'],
        Token::Mrrp => seq!['M', 'r', 'r', 'p'],
        Token::Mrowp => seq!['M', 'r', 'o', 'w', 'p'],
    }
}

/// The base symbol written under a given name, if any.
pub open spec fn name_to_token(s: Seq<char>) -> Option<Token> {
    if s == token_name(Token::Meow) {
        Some(Token::Meow)
    } else if s == token_name(Token::Mrrp) {
        Some(Token::Mrrp)
    } else if s == token_name(Token::Mrowp) {
        Some(Token::Mrowp)
    } else {
        None
    }
}

/// The glyph that encodes an instruction; the no-op encodes as a newline.
pub open spec fn glyph_char(t: TranspileToken) -> char {
    match t {
        TranspileToken::Next => '>',
        TranspileToken::Previous => '<',
        TranspileToken::Increment => '+',
        TranspileToken::Decrement => '-',
        TranspileToken::Output => '.',
        TranspileToken::Input => ',',
        TranspileToken::LoopStart => '[',
        TranspileToken::LoopEnd => ']',
        TranspileToken::Other => '\n',
    }
}

/// The instruction that a character decodes to; total, with every
/// character outside the eight canonical glyphs decoding to the no-op.
pub open spec fn glyph_to_instruction(c: char) -> TranspileToken {
    if c == '>' {
        TranspileToken::Next
    } else if c == '<' {
        TranspileToken::Previous
    } else if c == '+' {
        TranspileToken::Increment
    } else if c == '-' {
        TranspileToken::Decrement
    } else if c == '.' {
        TranspileToken::Output
    } else if c == ',' {
        TranspileToken::Input
    } else if c == '[' {
        TranspileToken::LoopStart
    } else if c == ']' {
        TranspileToken::LoopEnd
    } else {
        TranspileToken::Other
    }
}

/// Whether a character is one of the eight canonical glyphs.
pub open spec fn is_canonical_glyph(c: char) -> bool {
    c == '>' || c == '<' || c == '+' || c == '-' || c == '.' || c == ','
        || c == '[' || c == ']'
}

/// Encodes one instruction as its surface-notation pair.
pub fn transpile_token(token: &TranspileToken) -> (pair: (Token, Token))
    ensures
        pair == surface_pair(*token),
{
    match token {
        TranspileToken::Next => (Token::Meow, Token::Meow),
        TranspileToken::Previous => (Token::Meow, Token::Mrrp),
        TranspileToken::Increment => (Token::Meow, Token::Mrowp),
        TranspileToken::Decrement => (Token::Mrrp, Token::Meow),
        TranspileToken::Output => (Token::Mrrp, Token::Mrrp),
        TranspileToken::Input => (Token::Mrrp, Token::Mrowp),
        TranspileToken::LoopStart => (Token::Mrowp, Token::Meow),
        TranspileToken::LoopEnd => (Token::Mrowp, Token::Mrrp),
        TranspileToken::Other => (Token::Mrowp, Token::Mrowp),
    }
}

/// Decodes one surface-notation pair to its instruction.
pub fn compile_token(token: &(Token, Token)) -> (instr: TranspileToken)
    ensures
        instr == pair_to_instruction(*token),
{
    match token {
        (Token::Meow, Token::Meow) => TranspileToken::Next,
        (Token::Meow, Token::Mrrp) => TranspileToken::Previous,
        (Token::Meow, Token::Mrowp) => TranspileToken::Increment,
        (Token::Mrrp, Token::Meow) => TranspileToken::Decrement,
        (Token::Mrrp, Token::Mrrp) => TranspileToken::Output,
        (Token::Mrrp, Token::Mrowp) => TranspileToken::Input,
        (Token::Mrowp, Token::Meow) => TranspileToken::LoopStart,
        (Token::Mrowp, Token::Mrrp) => TranspileToken::LoopEnd,
        (Token::Mrowp, Token::Mrowp) => TranspileToken::Other,
    }
}

/// Renders one base symbol as its written name.
pub fn token_to_string(token: Token) -> (s: String)
    ensures
        s@ == token_name(token),
{
    match token {
        Token::Meow => {
            let s = String::from_str("Meow");
            proof {
                reveal_strlit("Meow");
                assert(s@ =~= token_name(Token::Meow));
            }
            s
        },
        Token::Mrrp => {
            let s = String::from_str("Mrrp");
            proof {
                reveal_strlit("Mrrp");
                assert(s@ =~= token_name(Token::Mrrp));
            }
            s
        },
        Token::Mrowp => {
            let s = String::from_str("Mrowp");
            proof {
                reveal_strlit("Mrowp");
                assert(s@ =~= token_name(Token::Mrowp));
            }
            s
        },
    }
}

/// Reads one base symbol from its written name; any other text is a
/// malformed surface token.
pub fn string_to_token(input: &str) -> (r: Result<Token, TranscodeError>)
    ensures
        match name_to_token(input@) {
            Some(t) => r == Ok::<Token, TranscodeError>(t),
            None => r == Err::<Token, TranscodeError>(TranscodeError::MalformedSurfaceToken),
        },
{
    let n = input.unicode_len();
    if n == 4 {
        let c0 = input.get_char(0);
        let c1 = input.get_char(1);
        let c2 = input.get_char(2);
        let c3 = input.get_char(3);
        if c0 == 'M' && c1 == 'e' && c2 == 'o' && c3 == 'w' {
            proof {
                assert(input@ =~= token_name(Token::Meow));
            }
            Ok(Token::Meow)
        } else if c0 == 'M' && c1 == 'r' && c2 == 'r' && c3 == 'p' {
            proof {
                assert(input@ =~= token_name(Token::Mrrp));
            }
            Ok(Token::Mrrp)
        } else {
            proof {
                assert(input@ != token_name(Token::Meow) && input@ != token_name(Token::Mrrp));
                assert(input@.len() != token_name(Token::Mrowp).len());
            }
            Err(TranscodeError::MalformedSurfaceToken)
        }
    } else if n == 5 {
        let c0 = input.get_char(0);
        let c1 = input.get_char(1);
        let c2 = input.get_char(2);
        let c3 = input.get_char(3);
        let c4 = input.get_char(4);
        if c0 == 'M' && c1 == 'r' && c2 == 'o' && c3 == 'w' && c4 == 'p' {
            proof {
                assert(input@ =~= token_name(Token::Mrowp));
            }
            Ok(Token::Mrowp)
        } else {
            proof {
                assert(input@ != token_name(Token::Mrowp));
            }
            Err(TranscodeError::MalformedSurfaceToken)
        }
    } else {
        Err(TranscodeError::MalformedSurfaceToken)
    }
}

/// Renders one instruction as its glyph.
pub fn transpiletoken_to_char(token: TranspileToken) -> (c: char)
    ensures
        c == glyph_char(token),
{
    match token {
        TranspileToken::Next => '>',
        TranspileToken::Previous => '<',
        TranspileToken::Increment => '+',
        TranspileToken::Decrement => '-',
        TranspileToken::Output => '.',
        TranspileToken::Input => ',',
        TranspileToken::LoopStart => '[',
        TranspileToken::LoopEnd => ']',
        TranspileToken::Other => '\n',
    }
}

/// Decodes one character to its instruction.
pub fn char_to_transpiletoken(c: char) -> (instr: TranspileToken)
    ensures
        instr == glyph_to_instruction(c),
{
    match c {
        '>' => TranspileToken::Next,
        '<' => TranspileToken::Previous,
        '+' => TranspileToken::Increment,
        '-' => TranspileToken::Decrement,
        '.' => TranspileToken::Output,
        ',' => TranspileToken::Input,
        '[' => TranspileToken::LoopStart,
        ']' => TranspileToken::LoopEnd,
        _ => TranspileToken::Other,
    }
}

/// The surface codec is lossless: decoding the pair that encodes an
/// instruction gives that instruction back, for all nine instructions.
pub proof fn lemma_surface_codec_round_trip(t: TranspileToken)
    ensures
        pair_to_instruction(surface_pair(t)) == t,
{
}

/// The surface codec is lossless in the other direction as well: encoding
/// the instruction that a pair decodes to gives that pair back, for all
/// nine pairs.
pub proof fn lemma_surface_pair_round_trip(a: Token, b: Token)
    ensures
        surface_pair(pair_to_instruction((a, b))) == (a, b),
{
}

/// Each canonical glyph decodes to the instruction whose re-encoding is
/// that same glyph.
pub proof fn lemma_glyph_codec_round_trip(g: char)
    requires
        is_canonical_glyph(g),
    ensures
        glyph_char(glyph_to_instruction(g)) == g,
{
}

/// The written name of each base symbol reads back as that symbol.
pub proof fn lemma_name_round_trip(t: Token)
    ensures
        name_to_token(token_name(t)) == Some(t),
{
    assert(token_name(Token::Mrrp)[1] != token_name(Token::Meow)[1]);
    assert(token_name(Token::Mrowp).len() != token_name(Token::Meow).len());
}

} // verus!

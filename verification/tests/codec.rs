use cmeow::codec::compile_token;
use cmeow::codec::char_to_transpiletoken;
use cmeow::codec::string_to_token;
use cmeow::codec::token_to_string;
use cmeow::codec::transpile_token;
use cmeow::codec::transpiletoken_to_char;
use cmeow::tokens::Token;
use cmeow::tokens::TranscodeError;
use cmeow::tokens::TranspileToken;

fn all_instructions() -> Vec<TranspileToken> {
    vec![
        TranspileToken::Next,
        TranspileToken::Previous,
        TranspileToken::Increment,
        TranspileToken::Decrement,
        TranspileToken::Output,
        TranspileToken::Input,
        TranspileToken::LoopStart,
        TranspileToken::LoopEnd,
        TranspileToken::Other,
    ]
}

#[test]
fn surface_codec_round_trips_every_instruction() {
    for instr in all_instructions() {
        let pair = transpile_token(&instr);
        assert_eq!(compile_token(&pair), instr);
    }
}

#[test]
fn surface_codec_round_trips_every_pair() {
    let tokens = [Token::Meow, Token::Mrrp, Token::Mrowp];
    for a in tokens {
        for b in tokens {
            let instr = compile_token(&(a, b));
            assert_eq!(transpile_token(&instr), (a, b));
        }
    }
}

#[test]
fn surface_codec_table() {
    assert_eq!(transpile_token(&TranspileToken::Next), (Token::Meow, Token::Meow));
    assert_eq!(transpile_token(&TranspileToken::Previous), (Token::Meow, Token::Mrrp));
    assert_eq!(transpile_token(&TranspileToken::Increment), (Token::Meow, Token::Mrowp));
    assert_eq!(transpile_token(&TranspileToken::Decrement), (Token::Mrrp, Token::Meow));
    assert_eq!(transpile_token(&TranspileToken::Output), (Token::Mrrp, Token::Mrrp));
    assert_eq!(transpile_token(&TranspileToken::Input), (Token::Mrrp, Token::Mrowp));
    assert_eq!(transpile_token(&TranspileToken::LoopStart), (Token::Mrowp, Token::Meow));
    assert_eq!(transpile_token(&TranspileToken::LoopEnd), (Token::Mrowp, Token::Mrrp));
    assert_eq!(transpile_token(&TranspileToken::Other), (Token::Mrowp, Token::Mrowp));
}

#[test]
fn glyph_codec_decodes_and_reencodes_every_canonical_glyph() {
    let table = [
        ('>', TranspileToken::Next),
        ('<', TranspileToken::Previous),
        ('+', TranspileToken::Increment),
        ('-', TranspileToken::Decrement),
        ('.', TranspileToken::Output),
        (',', TranspileToken::Input),
        ('[', TranspileToken::LoopStart),
        (']', TranspileToken::LoopEnd),
    ];
    for (glyph, instr) in table {
        assert_eq!(char_to_transpiletoken(glyph), instr);
        assert_eq!(transpiletoken_to_char(instr), glyph);
    }
}

#[test]
fn glyph_codec_collapses_everything_else_to_noop() {
    for c in ['a', ' ', '\n', '0', '!', 'é'] {
        assert_eq!(char_to_transpiletoken(c), TranspileToken::Other);
    }
    assert_eq!(transpiletoken_to_char(TranspileToken::Other), '\n');
}

#[test]
fn token_names_render_and_read_back() {
    assert_eq!(token_to_string(Token::Meow), "Meow");
    assert_eq!(token_to_string(Token::Mrrp), "Mrrp");
    assert_eq!(token_to_string(Token::Mrowp), "Mrowp");
    assert_eq!(string_to_token("Meow"), Ok(Token::Meow));
    assert_eq!(string_to_token("Mrrp"), Ok(Token::Mrrp));
    assert_eq!(string_to_token("Mrowp"), Ok(Token::Mrowp));
}

#[test]
fn unknown_token_names_are_malformed() {
    for bad in ["", "meow", "Meo", "Meoww", "Mrowl", "Purr", "Mrrp "] {
        assert_eq!(string_to_token(bad), Err(TranscodeError::MalformedSurfaceToken));
    }
}

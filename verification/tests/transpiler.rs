use cmeow::tokens::TranscodeError;
use cmeow::tokens::TranspileToken;
use cmeow::transpiler::glyph_text_to_surface_text;
use cmeow::transpiler::string_to_transpiletokens;
use cmeow::transpiler::surface_text_to_glyph_text;
use cmeow::transpiler::surface_text_to_program;
use cmeow::transpiler::transpiletokens_to_string;

#[test]
fn glyph_text_decodes_per_character() {
    assert_eq!(
        string_to_transpiletokens("+-x\n"),
        vec![
            TranspileToken::Increment,
            TranspileToken::Decrement,
            TranspileToken::Other,
            TranspileToken::Other,
        ]
    );
    assert_eq!(string_to_transpiletokens(""), Vec::<TranspileToken>::new());
}

#[test]
fn instructions_render_as_space_separated_names() {
    assert_eq!(
        transpiletokens_to_string(vec![TranspileToken::Next]),
        "Meow Meow"
    );
    assert_eq!(
        transpiletokens_to_string(vec![TranspileToken::Next, TranspileToken::Previous]),
        "Meow Meow Meow Mrrp"
    );
    assert_eq!(transpiletokens_to_string(vec![]), "");
}

#[test]
fn glyph_text_translates_to_surface_text() {
    assert_eq!(glyph_text_to_surface_text(">"), "Meow Meow");
    assert_eq!(glyph_text_to_surface_text("><"), "Meow Meow Meow Mrrp");
    assert_eq!(glyph_text_to_surface_text("x"), "Mrowp Mrowp");
    assert_eq!(glyph_text_to_surface_text(""), "");
}

#[test]
fn surface_text_translates_to_glyph_text() {
    assert_eq!(surface_text_to_glyph_text("Meow Meow"), Ok(String::from(">")));
    assert_eq!(
        surface_text_to_glyph_text("  Mrowp   Meow \n Meow\tMrowp  Mrowp Mrrp "),
        Ok(String::from("[+]"))
    );
    assert_eq!(surface_text_to_glyph_text(""), Ok(String::new()));
    assert_eq!(surface_text_to_glyph_text("Mrowp Mrowp"), Ok(String::from("\n")));
}

#[test]
fn odd_token_count_is_truncated() {
    assert_eq!(
        surface_text_to_glyph_text("Meow"),
        Err(TranscodeError::TruncatedSurfaceStream)
    );
    assert_eq!(
        surface_text_to_glyph_text("Meow Meow Mrrp"),
        Err(TranscodeError::TruncatedSurfaceStream)
    );
}

#[test]
fn unknown_token_is_malformed() {
    assert_eq!(
        surface_text_to_glyph_text("Meow Purr"),
        Err(TranscodeError::MalformedSurfaceToken)
    );
    assert_eq!(
        surface_text_to_glyph_text("Purr Meow Mrrp"),
        Err(TranscodeError::MalformedSurfaceToken)
    );
}

#[test]
fn surface_text_decodes_to_a_program() {
    assert_eq!(
        surface_text_to_program("Mrowp Meow Meow Mrowp Mrowp Mrrp"),
        Ok(vec![
            TranspileToken::LoopStart,
            TranspileToken::Increment,
            TranspileToken::LoopEnd,
        ])
    );
    assert_eq!(surface_text_to_program(""), Ok(vec![]));
    assert_eq!(
        surface_text_to_program("Mrowp"),
        Err(TranscodeError::TruncatedSurfaceStream)
    );
}

#[test]
fn canonical_glyph_text_round_trips_exactly() {
    for t in ["", ">", "+++[->+<].", "[,.]", "><+-.,[]"] {
        let surface = glyph_text_to_surface_text(t);
        assert_eq!(surface_text_to_glyph_text(&surface), Ok(String::from(t)));
    }
}

#[test]
fn round_trip_normalizes_non_canonical_glyphs_to_newlines() {
    let surface = glyph_text_to_surface_text("a+b\nc");
    assert_eq!(surface_text_to_glyph_text(&surface), Ok(String::from("\n+\n\n\n")));
}

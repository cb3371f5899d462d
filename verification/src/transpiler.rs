//! Text-level translation between glyph notation and surface notation.
//!
//! Glyph text decodes character by character (the glyph codec is total),
//! so translating to surface notation never fails.  Surface text is split
//! on ASCII whitespace into symbol names, consumed two at a time; an
//! unrecognized name or a trailing unpaired name is an error.

use vstd::prelude::*;

use crate::codec::compile_token;
use crate::codec::char_to_transpiletoken;
use crate::codec::glyph_char;
use crate::codec::glyph_to_instruction;
use crate::codec::is_canonical_glyph;
use crate::codec::lemma_glyph_codec_round_trip;
use crate::codec::lemma_name_round_trip;
use crate::codec::lemma_surface_codec_round_trip;
use crate::codec::name_to_token;
use crate::codec::pair_to_instruction;
use crate::codec::string_to_token;
use crate::codec::surface_pair;
use crate::codec::token_name;
use crate::codec::token_to_string;
use crate::codec::transpile_token;
use crate::codec::transpiletoken_to_char;
use crate::tokens::Token;
use crate::tokens::TranscodeError;
use crate::tokens::TranspileToken;
use vstd::string::StrSliceExecFns;
use vstd::string::StringExecFns;

verus! {

/// The instruction sequence that a glyph text decodes to, one instruction
/// per character.
pub open spec fn decode_glyph_text(s: Seq<char>) -> Seq<TranspileToken> {
    s.map_values(|c: char| glyph_to_instruction(c))
}

/// The glyph text that an instruction sequence encodes to, one character
/// per instruction.
pub open spec fn encode_glyph_text(ts: Seq<TranspileToken>) -> Seq<char> {
    ts.map_values(|t: TranspileToken| glyph_char(t))
}

/// The surface rendering of one instruction: the two symbol names of its
/// pair, separated by a single space.
pub open spec fn pair_text(t: TranspileToken) -> Seq<char> {
    token_name(surface_pair(t).0) + seq![' '] + token_name(surface_pair(t).1)
}

/// The surface rendering of an instruction sequence: the renderings of the
/// instructions, joined by single spaces.
pub open spec fn render_surface(ts: Seq<TranspileToken>) -> Seq<char>
    decreases ts.len(),
{
    if ts.len() == 0 {
        Seq::empty()
    } else if ts.len() == 1 {
        pair_text(ts[0])
    } else {
        pair_text(ts[0]) + seq![' '] + render_surface(ts.drop_first())
    }
}

/// Whether a character is ASCII whitespace, the separator alphabet of
/// surface text.
pub open spec fn is_ws_char(c: char) -> bool {
    c == ' ' || c == '\t' || c == '\n' || c == '\u{000C}' || c == '\r'
}

/// The length of the maximal non-whitespace prefix of a text.
pub open spec fn word_len(s: Seq<char>) -> nat
    decreases s.len(),
{
    if s.len() == 0 || is_ws_char(s[0]) {
        0
    } else {
        (1 + word_len(s.drop_first())) as nat
    }
}

/// A word never extends past the end of the text.
pub proof fn lemma_word_len_le(s: Seq<char>)
    ensures
        word_len(s) <= s.len(),
    decreases s.len(),
{
    if !(s.len() == 0 || is_ws_char(s[0])) {
        lemma_word_len_le(s.drop_first());
    }
}

/// The whitespace-separated words of a text, in order.
pub open spec fn tokenize(s: Seq<char>) -> Seq<Seq<char>>
    decreases s.len(),
    via tokenize_decreases
{
    if s.len() == 0 {
        Seq::empty()
    } else if is_ws_char(s[0]) {
        tokenize(s.drop_first())
    } else {
        seq![s.take(word_len(s) as int)] + tokenize(s.skip(word_len(s) as int))
    }
}

#[via_fn]
proof fn tokenize_decreases(s: Seq<char>) {
    if s.len() > 0 && !is_ws_char(s[0]) {
        lemma_word_len_le(s);
    }
}

/// The instruction sequence read from a word list: words are consumed two
/// at a time in order; an unrecognized name fails as malformed, and a
/// trailing unpaired word fails as truncated.
pub open spec fn parse_pairs(toks: Seq<Seq<char>>) -> Result<
    Seq<TranspileToken>,
    TranscodeError,
>
    decreases toks.len(),
{
    if toks.len() == 0 {
        Ok(Seq::empty())
    } else if toks.len() == 1 {
        Err(TranscodeError::TruncatedSurfaceStream)
    } else {
        match (name_to_token(toks[0]), name_to_token(toks[1])) {
            (Some(a), Some(b)) => match parse_pairs(toks.skip(2)) {
                Ok(rest) => Ok(seq![pair_to_instruction((a, b))] + rest),
                Err(e) => Err(e),
            },
            _ => Err(TranscodeError::MalformedSurfaceToken),
        }
    }
}

/// The glyph text that a surface text translates to, or the error that the
/// translation fails with.
pub open spec fn surface_to_glyph(s: Seq<char>) -> Result<Seq<char>, TranscodeError> {
    match parse_pairs(tokenize(s)) {
        Ok(ts) => Ok(encode_glyph_text(ts)),
        Err(e) => Err(e),
    }
}

/// Decodes a glyph text into its instruction sequence.
pub fn string_to_transpiletokens(input: &str) -> (r: Vec<TranspileToken>)
    ensures
        r@ == decode_glyph_text(input@),
{
    let n = input.unicode_len();
    let mut r: Vec<TranspileToken> = Vec::new();
    let mut i: usize = 0;
    while i < n
        invariant
            i <= n,
            n == input@.len(),
            r@.len() == i,
            forall|k: int| 0 <= k < i ==> r@[k] == glyph_to_instruction(input@[k]),
        decreases n - i,
    {
        let c = input.get_char(i);
        r.push(char_to_transpiletoken(c));
        i = i + 1;
    }
    proof {
        assert(r@ =~= decode_glyph_text(input@));
    }
    r
}

/// Appending one instruction to a rendered sequence appends its pair text,
/// after a separating space when the sequence was nonempty.
proof fn lemma_render_surface_push(ts: Seq<TranspileToken>, t: TranspileToken)
    ensures
        render_surface(ts.push(t)) == if ts.len() == 0 {
            pair_text(t)
        } else {
            render_surface(ts) + seq![' '] + pair_text(t)
        },
    decreases ts.len(),
{
    let p = ts.push(t);
    if ts.len() == 0 {
        assert(p.len() == 1 && p[0] == t);
    } else {
        assert(p[0] == ts[0]);
        assert(p.drop_first() =~= ts.drop_first().push(t));
        lemma_render_surface_push(ts.drop_first(), t);
        // The two renderings unfold differently at length one and beyond.
        if ts.len() == 1 {
            assert(render_surface(p) =~= render_surface(ts) + seq![' '] + pair_text(t));
        } else {
            assert(render_surface(p) =~= render_surface(ts) + seq![' '] + pair_text(t));
        }
    }
}

/// Renders an instruction sequence as surface text.
pub fn transpiletokens_to_string(tokens: Vec<TranspileToken>) -> (s: String)
    ensures
        s@ == render_surface(tokens@),
{
    let n = tokens.len();
    let mut s = String::new();
    let mut i: usize = 0;
    while i < n
        invariant
            i <= n,
            n == tokens@.len(),
            s@ == render_surface(tokens@.take(i as int)),
        decreases n - i,
    {
        if i > 0 {
            s.append(" ");
            proof {
                reveal_strlit(" ");
            }
        }
        let (a, b) = transpile_token(&tokens[i]);
        let name_a = token_to_string(a);
        s.append(name_a.as_str());
        s.append(" ");
        let name_b = token_to_string(b);
        s.append(name_b.as_str());
        proof {
            reveal_strlit(" ");
            assert(" "@ =~= seq![' ']);
            lemma_render_surface_push(tokens@.take(i as int), tokens@[i as int]);
            assert(tokens@.take(i as int).push(tokens@[i as int]) =~= tokens@.take(
                i as int + 1,
            ));
            assert(s@ =~= render_surface(tokens@.take(i as int + 1)));
        }
        i = i + 1;
    }
    proof {
        assert(tokens@.take(n as int) =~= tokens@);
    }
    s
}

/// Translates glyph text to surface text; total, since the glyph codec
/// accepts every character.
pub fn glyph_text_to_surface_text(text: &str) -> (s: String)
    ensures
        s@ == render_surface(decode_glyph_text(text@)),
{
    let tokens = string_to_transpiletokens(text);
    transpiletokens_to_string(tokens)
}

/// Whether the character at one position of a text is whitespace.
fn ws_at(text: &str, j: usize) -> (b: bool)
    requires
        j < text@.len(),
    ensures
        b == is_ws_char(text@[j as int]),
{
    let c = text.get_char(j);
    c == ' ' || c == '\t' || c == '\n' || c == '\u{000C}' || c == '\r'
}

/// A text whose first `k` characters are non-whitespace and whose next
/// character (if any) is whitespace has word length exactly `k`.
proof fn lemma_word_len_of_prefix(s: Seq<char>, k: int)
    requires
        0 <= k <= s.len(),
        forall|m: int| 0 <= m < k ==> !is_ws_char(s[m]),
        k == s.len() || is_ws_char(s[k]),
    ensures
        word_len(s) == k,
    decreases k,
{
    if k > 0 {
        lemma_word_len_of_prefix(s.drop_first(), k - 1);
    }
}

/// Splits a surface text into its whitespace-separated words.
#[verifier::loop_isolation(false)]
fn split_words(text: &str) -> (words: Vec<String>)
    ensures
        words@.map_values(|w: String| w@) == tokenize(text@),
{
    let n = text.unicode_len();
    let mut words: Vec<String> = Vec::new();
    let mut i: usize = 0;
    proof {
        assert(text@.skip(0) =~= text@);
        assert(words@.map_values(|w: String| w@) + tokenize(text@) =~= tokenize(text@));
    }
    while i < n
        invariant
            i <= n,
            n == text@.len(),
            tokenize(text@) == words@.map_values(|w: String| w@) + tokenize(
                text@.skip(i as int),
            ),
        decreases n - i,
    {
        if ws_at(text, i) {
            proof {
                assert(text@.skip(i as int).drop_first() =~= text@.skip(i as int + 1));
            }
            i = i + 1;
        } else {
            let start = i;
            let mut j = i + 1;
            while j < n && !ws_at(text, j)
                invariant
                    start < j <= n,
                    n == text@.len(),
                    forall|m: int| start <= m < j ==> !is_ws_char(text@[m]),
                decreases n - j,
            {
                j = j + 1;
            }
            let w = String::from_str(text.substring_char(start, j));
            proof {
                let rest = text@.skip(start as int);
                assert forall|m: int| 0 <= m < j - start implies !is_ws_char(rest[m]) by {
                    assert(rest[m] == text@[start + m]);
                }
                if j < n {
                    assert(rest[j - start] == text@[j as int]);
                }
                lemma_word_len_of_prefix(rest, j - start);
                assert(rest.take(j - start) =~= w@);
                assert(rest.skip(j - start) =~= text@.skip(j as int));
                assert(tokenize(text@.skip(start as int)) == seq![w@] + tokenize(
                    text@.skip(j as int),
                ));
                assert(words@.push(w).map_values(|x: String| x@) =~= words@.map_values(
                    |x: String| x@,
                ).push(w@));
                assert(words@.map_values(|x: String| x@).push(w@) + tokenize(
                    text@.skip(j as int),
                ) =~= words@.map_values(|x: String| x@) + (seq![w@] + tokenize(
                    text@.skip(j as int),
                )));
            }
            words.push(w);
            i = j;
        }
    }
    proof {
        assert(text@.skip(n as int) =~= Seq::<char>::empty());
        assert(words@.map_values(|w: String| w@) + tokenize(text@.skip(n as int))
            =~= words@.map_values(|w: String| w@));
    }
    words
}

/// Decodes a surface text into the program it denotes: words are consumed
/// two at a time, each pair decoding to one instruction.  Fails as
/// malformed on an unrecognized symbol name and as truncated on a
/// trailing unpaired name.
#[verifier::loop_isolation(false)]
pub fn surface_text_to_program(text: &str) -> (r: Result<Vec<TranspileToken>, TranscodeError>)
    ensures
        match parse_pairs(tokenize(text@)) {
            Ok(ts) => r matches Ok(p) && p@ == ts,
            Err(e) => r == Err::<Vec<TranspileToken>, TranscodeError>(e),
        },
{
    let words = split_words(text);
    let ghost wv = tokenize(text@);
    let m = words.len();
    let mut instrs: Vec<TranspileToken> = Vec::new();
    let mut k: usize = 0;
    proof {
        assert(wv.skip(0) =~= wv);
        assert(instrs@ + parse_pairs(wv)->Ok_0 =~= parse_pairs(wv)->Ok_0);
    }
    while m - k > 1
        invariant
            k <= m,
            m == wv.len(),
            words@.map_values(|w: String| w@) == wv,
            parse_pairs(wv) == match parse_pairs(wv.skip(k as int)) {
                Ok(rest) => Ok::<Seq<TranspileToken>, TranscodeError>(instrs@ + rest),
                Err(e) => Err::<Seq<TranspileToken>, TranscodeError>(e),
            },
        decreases m - k,
    {
        let ta = match string_to_token(words[k].as_str()) {
            Ok(t) => t,
            Err(e) => {
                proof {
                    assert(wv[k as int] == words@[k as int]@);
                    assert(wv.skip(k as int)[0] == wv[k as int]);
                }
                return Err(TranscodeError::MalformedSurfaceToken);
            },
        };
        let tb = match string_to_token(words[k + 1].as_str()) {
            Ok(t) => t,
            Err(e) => {
                proof {
                    assert(wv[k as int] == words@[k as int]@);
                    assert(wv[k as int + 1] == words@[k as int + 1]@);
                    assert(wv.skip(k as int)[0] == wv[k as int]);
                    assert(wv.skip(k as int)[1] == wv[k as int + 1]);
                }
                return Err(TranscodeError::MalformedSurfaceToken);
            },
        };
        let instr = compile_token(&(ta, tb));
        proof {
            assert(wv[k as int] == words@[k as int]@);
            assert(wv[k as int + 1] == words@[k as int + 1]@);
            assert(wv.skip(k as int)[0] == wv[k as int]);
            assert(wv.skip(k as int)[1] == wv[k as int + 1]);
            assert(wv.skip(k as int).skip(2) =~= wv.skip(k as int + 2));
            assert(instrs@.push(instr) + parse_pairs(wv.skip(k as int + 2))->Ok_0
                =~= instrs@ + (seq![instr] + parse_pairs(wv.skip(k as int + 2))->Ok_0));
        }
        instrs.push(instr);
        k = k + 2;
    }
    if k < m {
        proof {
            assert(wv.skip(k as int).len() == 1);
        }
        return Err(TranscodeError::TruncatedSurfaceStream);
    }
    proof {
        assert(wv.skip(k as int) =~= Seq::<Seq<char>>::empty());
        assert(instrs@ + Seq::<TranspileToken>::empty() =~= instrs@);
    }
    Ok(instrs)
}

/// Translates surface text to glyph text: the program it denotes,
/// rendered as glyphs with no separators.  Fails exactly as the decoding
/// to a program does.
pub fn surface_text_to_glyph_text(text: &str) -> (r: Result<String, TranscodeError>)
    ensures
        match surface_to_glyph(text@) {
            Ok(g) => r matches Ok(s) && s@ == g,
            Err(e) => r == Err::<String, TranscodeError>(e),
        },
{
    let instrs = match surface_text_to_program(text) {
        Ok(p) => p,
        Err(e) => {
            return Err(e);
        },
    };
    let q = instrs.len();
    let mut out = String::new();
    let mut idx: usize = 0;
    while idx < q
        invariant
            idx <= q,
            q == instrs@.len(),
            out@.len() == idx,
            forall|p: int| 0 <= p < idx ==> out@[p] == glyph_char(instrs@[p]),
        decreases q - idx,
    {
        let c = transpiletoken_to_char(instrs[idx]);
        push_char(&mut out, c);
        idx = idx + 1;
    }
    proof {
        assert(out@ =~= encode_glyph_text(instrs@));
    }
    Ok(out)
}

/// Relies on String::push: appends exactly the given character to the end
/// of the string.
#[verifier::external_body]
fn push_char(s: &mut String, c: char)
    ensures
        final(s)@ == old(s)@.push(c),
{
    s.push(c);
}


/// A glyph text after one round trip: every character replaced by the
/// canonical re-encoding of the instruction it decodes to, so canonical
/// glyphs stay themselves and everything else becomes the newline no-op.
pub open spec fn normalize_glyph_text(t: Seq<char>) -> Seq<char> {
    t.map_values(|c: char| glyph_char(glyph_to_instruction(c)))
}

/// The flat list of symbol names that renders an instruction sequence.
spec fn token_list(ts: Seq<TranspileToken>) -> Seq<Seq<char>>
    decreases ts.len(),
{
    if ts.len() == 0 {
        Seq::empty()
    } else {
        seq![
            token_name(surface_pair(ts[0]).0),
            token_name(surface_pair(ts[0]).1),
        ] + token_list(ts.drop_first())
    }
}

/// Symbol names are nonempty and hold no whitespace.
proof fn lemma_token_name_no_ws(t: Token)
    ensures
        token_name(t).len() >= 1,
        forall|i: int| 0 <= i < token_name(t).len() ==> !is_ws_char(token_name(t)[i]),
{
    assert forall|i: int| 0 <= i < token_name(t).len() implies !is_ws_char(
        token_name(t)[i],
    ) by {
        let s = token_name(t);
        assert(s[i] == 'M' || s[i] == 'e' || s[i] == 'o' || s[i] == 'w' || s[i] == 'r'
            || s[i] == 'p');
    }
}

/// A nonempty whitespace-free word followed by whitespace (or by nothing)
/// tokenizes as that word, then the words of the rest.
proof fn lemma_tokenize_word_prepend(w: Seq<char>, s: Seq<char>)
    requires
        w.len() >= 1,
        forall|i: int| 0 <= i < w.len() ==> !is_ws_char(w[i]),
        s.len() == 0 || is_ws_char(s[0]),
    ensures
        tokenize(w + s) == seq![w] + tokenize(s),
{
    let c = w + s;
    assert(c[0] == w[0]);
    assert forall|m: int| 0 <= m < w.len() implies !is_ws_char(c[m]) by {
        assert(c[m] == w[m]);
    }
    if s.len() > 0 {
        assert(c[w.len() as int] == s[0]);
    }
    lemma_word_len_of_prefix(c, w.len() as int);
    assert(c.take(w.len() as int) =~= w);
    assert(c.skip(w.len() as int) =~= s);
}

/// Tokenizing the rendering of an instruction sequence recovers the flat
/// list of its symbol names.
proof fn lemma_tokenize_render(ts: Seq<TranspileToken>)
    ensures
        tokenize(render_surface(ts)) == token_list(ts),
    decreases ts.len(),
{
    if ts.len() == 0 {
        assert(tokenize(render_surface(ts)) =~= token_list(ts));
    } else {
        let a = token_name(surface_pair(ts[0]).0);
        let b = token_name(surface_pair(ts[0]).1);
        lemma_token_name_no_ws(surface_pair(ts[0]).0);
        lemma_token_name_no_ws(surface_pair(ts[0]).1);
        if ts.len() == 1 {
            assert(render_surface(ts) =~= a + (seq![' '] + b));
            lemma_tokenize_word_prepend(a, seq![' '] + b);
            assert((seq![' '] + b).drop_first() =~= b);
            assert(b + Seq::<char>::empty() =~= b);
            lemma_tokenize_word_prepend(b, Seq::empty());
            assert(tokenize(render_surface(ts)) =~= token_list(ts));
        } else {
            let rest = render_surface(ts.drop_first());
            let s1 = (seq![' '] + b) + (seq![' '] + rest);
            assert(render_surface(ts) =~= a + s1);
            assert(s1[0] == ' ');
            lemma_tokenize_word_prepend(a, s1);
            assert(s1.drop_first() =~= b + (seq![' '] + rest));
            lemma_tokenize_word_prepend(b, seq![' '] + rest);
            assert((seq![' '] + rest).drop_first() =~= rest);
            lemma_tokenize_render(ts.drop_first());
            assert(tokenize(render_surface(ts)) == seq![a] + (seq![b] + token_list(
                ts.drop_first(),
            )));
            assert(seq![a] + (seq![b] + token_list(ts.drop_first())) =~= token_list(ts));
        }
    }
}

/// Parsing the symbol-name list of an instruction sequence gives that
/// sequence back.
proof fn lemma_parse_token_list(ts: Seq<TranspileToken>)
    ensures
        parse_pairs(token_list(ts)) == Ok::<Seq<TranspileToken>, TranscodeError>(ts),
    decreases ts.len(),
{
    if ts.len() == 0 {
        assert(parse_pairs(token_list(ts)) == Ok::<Seq<TranspileToken>, TranscodeError>(
            Seq::empty(),
        ));
        assert(Seq::<TranspileToken>::empty() =~= ts);
    } else {
        let tl = token_list(ts);
        let pa = surface_pair(ts[0]);
        assert(tl[0] == token_name(pa.0));
        assert(tl[1] == token_name(pa.1));
        lemma_name_round_trip(pa.0);
        lemma_name_round_trip(pa.1);
        lemma_surface_codec_round_trip(ts[0]);
        assert(tl.skip(2) =~= token_list(ts.drop_first()));
        lemma_parse_token_list(ts.drop_first());
        assert(seq![ts[0]] + ts.drop_first() =~= ts);
    }
}

/// The round-trip law of the transpiler: translating any glyph text to
/// surface notation and back succeeds and yields the text with every
/// character normalized to its canonical re-encoding.
pub proof fn lemma_text_round_trip(t: Seq<char>)
    ensures
        surface_to_glyph(render_surface(decode_glyph_text(t))) == Ok::<
            Seq<char>,
            TranscodeError,
        >(normalize_glyph_text(t)),
{
    let ts = decode_glyph_text(t);
    lemma_tokenize_render(ts);
    lemma_parse_token_list(ts);
    assert(encode_glyph_text(ts) =~= normalize_glyph_text(t));
}

/// A glyph text of canonical glyphs alone is reproduced exactly by the
/// round trip through surface notation.
pub proof fn lemma_canonical_round_trip(t: Seq<char>)
    requires
        forall|i: int| 0 <= i < t.len() ==> is_canonical_glyph(t[i]),
    ensures
        surface_to_glyph(render_surface(decode_glyph_text(t))) == Ok::<
            Seq<char>,
            TranscodeError,
        >(t),
{
    lemma_text_round_trip(t);
    assert forall|i: int| 0 <= i < t.len() implies normalize_glyph_text(t)[i] == t[i] by {
        lemma_glyph_codec_round_trip(t[i]);
    }
    assert(normalize_glyph_text(t) =~= t);
}

} // verus!

//! Laws of the string constants: the words that stand for a text.

use crate::laws::size::escapes_are_line_feeds;
use crate::model::expression::{string_constant, string_words};
use crate::model::state::{consume, emit, kind, text, State};
use crate::opcode::S_CONSTANT;
use crate::theory::count::text_words;
use crate::token::{Token, TokenKind};
use vstd::prelude::*;

verus! {

/// The words that stand for the text `chars`, of which every backslash is
/// followed by an `n`: the number of each character in its order, a line
/// feed for a backslash with its `n`, and nothing for a quotation mark.
/// `escaped` says whether a backslash stands just before `chars`.
pub open spec fn text_code(chars: Seq<char>, escaped: bool) -> Seq<i64>
    decreases chars.len(),
{
    if chars.len() == 0 {
        Seq::empty()
    } else if escaped {
        seq![10i64] + text_code(chars.drop_first(), false)
    } else if chars[0] == '\\' {
        text_code(chars.drop_first(), true)
    } else if chars[0] == '"' {
        text_code(chars.drop_first(), false)
    } else {
        seq![chars[0] as u8 as i64] + text_code(chars.drop_first(), false)
    }
}

/// The code generator puts the words of a text behind the code and touches
/// nothing else.
proof fn lemma_text_code(tokens: Seq<Token>, st: State, chars: Seq<char>, escaped: bool)
    requires
        escapes_are_line_feeds(chars, escaped),
    ensures
        string_words(tokens, st, chars, escaped) == (State {
            code: st.code + text_code(chars, escaped),
            ..st
        }),
        text_code(chars, escaped).len() == text_words(chars),
    decreases chars.len(),
{
    if chars.len() > 0 {
        let c = chars[0];
        let rest = chars.drop_first();
        if escaped {
            lemma_text_code(tokens, emit(st, 10), rest, false);
            assert(st.code.push(10) + text_code(rest, false) =~= st.code + text_code(
                chars,
                escaped,
            ));
        } else if c == '\\' {
            lemma_text_code(tokens, st, rest, true);
        } else if c == '"' {
            lemma_text_code(tokens, st, rest, false);
        } else {
            lemma_text_code(tokens, emit(st, c as u8 as i64), rest, false);
            assert(st.code.push(c as u8 as i64) + text_code(rest, false) =~= st.code + text_code(
                chars,
                escaped,
            ));
        }
    } else {
        assert(st.code + text_code(chars, escaped) =~= st.code);
    }
}

/// A string literal whose escapes are all line feeds is compiled to the
/// opcode of a string constant, the words of its text and a zero word, put
/// behind the code that was there. There are as many words of the text as
/// the literal has characters that are no quotation mark and no backslash.
/// Nothing is reported, and the literal is passed over.
pub proof fn law_string_is_written_out(tokens: Seq<Token>, st: State)
    requires
        kind(tokens, st) == TokenKind::Str,
        escapes_are_line_feeds(text(tokens, st), false),
    ensures
        string_constant(tokens, st) == consume(
            tokens,
            State {
                code: st.code + seq![S_CONSTANT] + text_code(text(tokens, st), false) + seq![0i64],
                ..st
            },
        ),
        text_code(text(tokens, st), false).len() == text_words(text(tokens, st)),
{
    let words = text_code(text(tokens, st), false);
    lemma_text_code(tokens, emit(st, S_CONSTANT), text(tokens, st), false);
    assert(st.code.push(S_CONSTANT) + words =~= st.code + seq![S_CONSTANT] + words);
    assert((st.code + seq![S_CONSTANT] + words).push(0) =~= st.code + seq![S_CONSTANT] + words
        + seq![0i64]);
}

/// A text without quotation marks and backslashes is written character by
/// character.
pub proof fn law_plain_text_is_written_by_character(chars: Seq<char>)
    requires
        forall|i: int| 0 <= i < chars.len() ==> chars[i] != '"' && chars[i] != '\\',
    ensures
        text_code(chars, false) == Seq::new(chars.len(), |i: int| chars[i] as u8 as i64),
    decreases chars.len(),
{
    if chars.len() > 0 {
        let rest = chars.drop_first();
        assert forall|i: int| 0 <= i < rest.len() implies rest[i] != '"' && rest[i] != '\\' by {
            assert(rest[i] == chars[i + 1]);
        }
        law_plain_text_is_written_by_character(rest);
        assert(text_code(chars, false) =~= Seq::new(chars.len(), |i: int| chars[i] as u8 as i64));
    } else {
        assert(text_code(chars, false) =~= Seq::new(chars.len(), |i: int| chars[i] as u8 as i64));
    }
}

/// The word of a character that fits in a byte is its number, which tells
/// it from every other such character.
proof fn lemma_byte_of_char(c: char)
    requires
        c as int <= 0xff,
    ensures
        c as u8 as int == c as int,
        c != '"' ==> c as u8 as i64 != 34,
        c != '\\' ==> c as u8 as i64 != 92,
{
    assert('"' as int == 34 && '\\' as int == 92);
}

/// The words of a text whose characters all fit in a byte hold no quotation
/// mark and no backslash.
pub proof fn law_text_holds_no_mark(chars: Seq<char>, escaped: bool, i: int)
    requires
        forall|j: int| 0 <= j < chars.len() ==> (#[trigger] chars[j]) as int <= 0xff,
        0 <= i < text_code(chars, escaped).len(),
    ensures
        text_code(chars, escaped)[i] != 34,
        text_code(chars, escaped)[i] != 92,
    decreases chars.len(),
{
    if chars.len() > 0 {
        let rest = chars.drop_first();
        let code = text_code(chars, escaped);
        assert forall|j: int| 0 <= j < rest.len() implies (#[trigger] rest[j]) as int <= 0xff by {
            assert(rest[j] == chars[j + 1]);
        }
        if escaped {
            assert(code == seq![10i64] + text_code(rest, false));
            if i > 0 {
                law_text_holds_no_mark(rest, false, i - 1);
                assert(code[i] == text_code(rest, false)[i - 1]);
            }
        } else if chars[0] == '\\' {
            law_text_holds_no_mark(rest, true, i);
        } else if chars[0] == '"' {
            law_text_holds_no_mark(rest, false, i);
        } else {
            assert(code == seq![chars[0] as u8 as i64] + text_code(rest, false));
            if i > 0 {
                law_text_holds_no_mark(rest, false, i - 1);
                assert(code[i] == text_code(rest, false)[i - 1]);
            } else {
                let c = chars[0];
                lemma_byte_of_char(c);
                assert(code[0] == c as u8 as i64);
            }
        }
    }
}

} // verus!

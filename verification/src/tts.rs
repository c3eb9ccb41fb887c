//! The text-to-speech client: how a reply is cleaned before it is spoken,
//! the synthesize request, and how the streamed audio chunks are read.

use vstd::prelude::*;
use crate::codec::base64_encode;
use crate::codec::decode;
use crate::text::same_text;
use crate::text::take_text;
use crate::text::text_or_empty;
use crate::json::json_quoted;
use crate::json::quote;
use crate::json::single_line;
use crate::json::lemma_join_single_line;
use crate::json::lemma_quoted_single_line;
use crate::text::chars_of;
use crate::text::concat;
use crate::text::concat3;
use crate::text::owned;
use crate::text::string_of;
use crate::text::trim;
use crate::text::trimmed;
use crate::text::is_white_space;
use crate::text::utf8_len;
use crate::text::lemma_utf8_len_concat;
use crate::text::lemma_utf8_len_subrange;

verus! {

/// Whether `regex::Regex::new` accepts `pattern`.
pub uninterp spec fn regex_compiles(pattern: Seq<char>) -> bool;

/// What `regex::Regex::replace_all` gives for the compiled `pattern`, the
/// `text` searched and the `replacement` (where `$1` stands for the first
/// group).
pub uninterp spec fn regex_replace_all(
    pattern: Seq<char>,
    text: Seq<char>,
    replacement: Seq<char>,
) -> Seq<char>;

/// `s[k]` and `s[k + 1]` are both spaces.
pub open spec fn double_space_at(s: Seq<char>, k: int) -> bool {
    s[k] == ' ' && s[k + 1] == ' '
}

/// White space in `s` is only single spaces: no other white-space
/// character, and never two spaces in a row.
pub open spec fn single_spaced(s: Seq<char>) -> bool {
    &&& forall|k: int| 0 <= k < s.len() ==> #[trigger] s[k] == ' ' || !is_white_space(s[k])
    &&& forall|k: int| 0 <= k < s.len() - 1 ==> !#[trigger] double_space_at(s, k)
}

/// For the markdown patterns the cleaning uses: a character that every match
/// of the pattern contains.
pub open spec fn markdown_literal(pattern: Seq<char>) -> Option<char> {
    if pattern == "\\*\\*(.+?)\\*\\*"@ || pattern == "\\*(.+?)\\*"@ {
        Some('*')
    } else if pattern == "__(.+?)__"@ || pattern == "_(.+?)_"@ {
        Some('_')
    } else if pattern == "`(.+?)`"@ || pattern == "(?s)```.*?```"@ {
        Some('`')
    } else if pattern == "~~(.+?)~~"@ {
        Some('~')
    } else if pattern == "\\[(.+?)\\]\\(.+?\\)"@ {
        Some('[')
    } else if pattern == "(?m)^#+\\s+"@ {
        Some('#')
    } else {
        None
    }
}

/// `regex::Regex::new(pattern)` and, when it compiles, `replace_all(text,
/// replacement)` on it: every non-overlapping leftmost match in `text` is
/// replaced (`$1` standing for the first group), and text without a match
/// comes back unchanged. The regular-expression semantics are named, not
/// spelled out; these facts of them are stated:
/// - the cleaning's patterns (the markdown patterns and `\s+`) compile;
/// - a replacement without `$` is inserted literally, so every character of
///   the result comes from `text` or from the replacement;
/// - replacing matches by nothing or by their first group never lengthens
///   the text, in characters or in UTF-8 bytes (the group is a piece of the
///   match);
/// - a text without the character every match of a markdown pattern
///   contains has no match and comes back unchanged;
/// - `\s` is the Unicode `White_Space` class and `+` is greedy, so
///   replacing `\s+` by one space turns each maximal run of white space into
///   one space (each run holds at least one character of at least one byte,
///   the space is one byte): the result is no longer in characters or in
///   UTF-8 bytes, holds no other white space and no two spaces in a row,
///   and a text already like that comes back unchanged.
#[verifier::external_body]
fn regex_replace(pattern: &str, text: &str, replacement: &str) -> (r: Option<String>)
    ensures
        r is Some <==> regex_compiles(pattern@),
        markdown_literal(pattern@) is Some || pattern@ == "\\s+"@ ==> r is Some,
        r matches Some(s) ==> s@ == regex_replace_all(pattern@, text@, replacement@),
        r matches Some(s) ==> (!replacement@.contains('$') ==> forall|k: int|
            0 <= k < s@.len() ==> text@.contains(#[trigger] s@[k]) || replacement@.contains(
                s@[k],
            )),
        r matches Some(s) ==> ((replacement@ == ""@ || replacement@ == "$1"@) ==> s@.len()
            <= text@.len() && utf8_len(s@) <= utf8_len(text@)),
        r matches Some(s) ==> (markdown_literal(pattern@) matches Some(c) ==> (!text@.contains(c)
            ==> s@ == text@)),
        r matches Some(s) ==> (pattern@ == "\\s+"@ && replacement@ == " "@ ==> {
            &&& s@.len() <= text@.len()
            &&& utf8_len(s@) <= utf8_len(text@)
            &&& single_spaced(s@)
            &&& single_spaced(text@) ==> s@ == text@
        }),
{
    match regex::Regex::new(pattern) {
        Ok(re) => Some(re.replace_all(text, replacement).into_owned()),
        Err(_) => None,
    }
}

/// `text` after replacing the matches of `pattern`, or `text` itself when
/// the pattern does not compile.
pub open spec fn replaced(pattern: Seq<char>, text: Seq<char>, replacement: Seq<char>) -> Seq<
    char,
> {
    if regex_compiles(pattern) {
        regex_replace_all(pattern, text, replacement)
    } else {
        text
    }
}

fn replace_with(pattern: &str, text: String, replacement: &str) -> (r: String)
    ensures
        r@ == replaced(pattern@, text@, replacement@),
        !replacement@.contains('$') ==> forall|k: int|
            0 <= k < r@.len() ==> text@.contains(#[trigger] r@[k]) || replacement@.contains(
                r@[k],
            ),
        (replacement@ == ""@ || replacement@ == "$1"@) ==> r@.len() <= text@.len() && utf8_len(r@)
            <= utf8_len(text@),
        markdown_literal(pattern@) matches Some(c) ==> (!text@.contains(c) ==> r@ == text@),
        pattern@ == "\\s+"@ && replacement@ == " "@ ==> {
            &&& r@.len() <= text@.len()
            &&& utf8_len(r@) <= utf8_len(text@)
            &&& single_spaced(r@)
            &&& single_spaced(text@) ==> r@ == text@
        },
{
    match regex_replace(pattern, text.as_str(), replacement) {
        Some(s) => s,
        None => {
            assert forall|k: int| 0 <= k < text@.len() implies text@.contains(
                #[trigger] text@[k],
            ) by {}
            text
        },
    }
}

/// The text with markdown reduced to its words: fenced code blocks go
/// entirely (they are removed first, before the inline passes could take
/// their fences apart), bold, italic, code and struck-through spans keep
/// their text, links keep their label, and heading marks go.
pub open spec fn markdown_stripped(t: Seq<char>) -> Seq<char> {
    let t0 = replaced("(?s)```.*?```"@, t, ""@);
    let t1 = replaced("\\*\\*(.+?)\\*\\*"@, t0, "$1"@);
    let t2 = replaced("__(.+?)__"@, t1, "$1"@);
    let t3 = replaced("\\*(.+?)\\*"@, t2, "$1"@);
    let t4 = replaced("_(.+?)_"@, t3, "$1"@);
    let t5 = replaced("`(.+?)`"@, t4, "$1"@);
    let t6 = replaced("~~(.+?)~~"@, t5, "$1"@);
    let t7 = replaced("\\[(.+?)\\]\\(.+?\\)"@, t6, "$1"@);
    replaced("(?m)^#+\\s+"@, t7, ""@)
}

/// Characters that are not spoken: emoji, pictographs and symbols,
/// dingbats, technical symbols, variation selectors, surrogates and the
/// specials block.
pub open spec fn unspeakable(c: char) -> bool {
    let code = c as u32;
    ||| 0x1F600 <= code <= 0x1F64F
    ||| 0x1F300 <= code <= 0x1F5FF
    ||| 0x1F680 <= code <= 0x1F6FF
    ||| 0x1F1E0 <= code <= 0x1F1FF
    ||| 0x1F900 <= code <= 0x1F9FF
    ||| 0x1FA00 <= code <= 0x1FA6F
    ||| 0x1FA70 <= code <= 0x1FAFF
    ||| 0x2600 <= code <= 0x26FF
    ||| 0x2700 <= code <= 0x27BF
    ||| 0x2300 <= code <= 0x23FF
    ||| 0xFE00 <= code <= 0xFE0F
    ||| 0xD800 <= code <= 0xDFFF
    ||| 0xFFF0 <= code <= 0xFFFF
}

/// `s` without its unspeakable characters, the others in order.
pub open spec fn speakable(s: Seq<char>) -> Seq<char>
    decreases s.len(),
{
    if s.len() == 0 {
        Seq::empty()
    } else if unspeakable(s.last()) {
        speakable(s.drop_last())
    } else {
        speakable(s.drop_last()).push(s.last())
    }
}

/// The text to speak for `t`: markdown stripped, unspeakable characters
/// dropped, every run of white space made one space, and the ends trimmed.
pub open spec fn clean_text_spec(t: Seq<char>) -> Seq<char> {
    trimmed(replaced("\\s+"@, speakable(markdown_stripped(t)), " "@))
}

fn is_unspeakable(c: char) -> (b: bool)
    ensures
        b == unspeakable(c),
{
    let code = c as u32;
    (0x1F600 <= code && code <= 0x1F64F) || (0x1F300 <= code && code <= 0x1F5FF) || (0x1F680
        <= code && code <= 0x1F6FF) || (0x1F1E0 <= code && code <= 0x1F1FF) || (0x1F900 <= code
        && code <= 0x1F9FF) || (0x1FA00 <= code && code <= 0x1FA6F) || (0x1FA70 <= code && code
        <= 0x1FAFF) || (0x2600 <= code && code <= 0x26FF) || (0x2700 <= code && code <= 0x27BF)
        || (0x2300 <= code && code <= 0x23FF) || (0xFE00 <= code && code <= 0xFE0F) || (0xD800
        <= code && code <= 0xDFFF) || (0xFFF0 <= code && code <= 0xFFFF)
}

fn drop_unspeakable(s: &str) -> (r: String)
    ensures
        r@ == speakable(s@),
{
    let v = chars_of(s);
    let mut out: Vec<char> = Vec::new();
    let mut i: usize = 0;
    while i < v.len()
        invariant
            i <= v.len(),
            out@ == speakable(v@.take(i as int)),
        decreases v.len() - i,
    {
        let c = v[i];
        proof {
            let t = v@.take(i + 1);
            assert(t.drop_last() == v@.take(i as int));
            assert(t.last() == c);
        }
        if !is_unspeakable(c) {
            out.push(c);
        }
        i += 1;
    }
    assert(v@.take(v.len() as int) == v@);
    string_of(&out)
}

/// Text the cleaning leaves as it is: no markdown characters (`*`, `_`,
/// backtick, `~`, `[`, `#`), nothing unspeakable, white space only as single
/// spaces, and no white space at either end.
pub open spec fn plain_text(t: Seq<char>) -> bool {
    &&& !t.contains('*')
    &&& !t.contains('_')
    &&& !t.contains('`')
    &&& !t.contains('~')
    &&& !t.contains('[')
    &&& !t.contains('#')
    &&& forall|k: int| 0 <= k < t.len() ==> !unspeakable(#[trigger] t[k])
    &&& single_spaced(t)
    &&& t.len() > 0 ==> !is_white_space(t[0]) && !is_white_space(t.last())
}

/// Prepares a reply for speech: removes fenced code blocks, strips the
/// remaining markdown, drops emoji and other unspeakable characters,
/// collapses white space and trims the ends. The result is never longer
/// than the text, in characters or in UTF-8 bytes, holds none of the listed
/// emoji and symbol code points, has white space only as single spaces and
/// none at its ends; a text with no markdown character, none of the listed
/// code points and only single inner spaces comes back unchanged.
pub fn clean_text_for_tts(text: &str) -> (r: String)
    ensures
        r@ == clean_text_spec(text@),
        r@.len() <= text@.len(),
        utf8_len(r@) <= utf8_len(text@),
        forall|k: int| 0 <= k < r@.len() ==> !unspeakable(#[trigger] r@[k]),
        single_spaced(r@),
        r@.len() > 0 ==> !is_white_space(r@[0]) && !is_white_space(r@.last()),
        plain_text(text@) ==> r@ == text@,
        forall|k: int| 0 <= k < r@.len() ==> !(
                (0x1F600 <= #[trigger] r@[k] as u32 <= 0x1F64F)
                || (0x1F300 <= r@[k] as u32 <= 0x1F5FF)
                || (0x1F680 <= r@[k] as u32 <= 0x1F6FF)
                || (0x1F1E0 <= r@[k] as u32 <= 0x1F1FF)
                || (0x1F900 <= r@[k] as u32 <= 0x1F9FF)
                || (0x1FA00 <= r@[k] as u32 <= 0x1FA6F)
                || (0x1FA70 <= r@[k] as u32 <= 0x1FAFF)
                || (0x2600 <= r@[k] as u32 <= 0x26FF)
                || (0x2700 <= r@[k] as u32 <= 0x27BF)
                || (0x2300 <= r@[k] as u32 <= 0x23FF)
                || (0xFE00 <= r@[k] as u32 <= 0xFE0F)
                || (0xD800 <= r@[k] as u32 <= 0xDFFF)
                || (0xFFF0 <= r@[k] as u32 <= 0xFFFF)
            ),
        ({
            &&& !text@.contains('*') && !text@.contains('_') && !text@.contains('`')
            &&& !text@.contains('~') && !text@.contains('[') && !text@.contains('#')
            &&& single_spaced(text@)
            &&& text@.len() > 0 ==> !is_white_space(text@[0]) && !is_white_space(text@.last())
            &&& forall|k: int| 0 <= k < text@.len() ==> !(
                    (0x1F600 <= #[trigger] text@[k] as u32 <= 0x1F64F)
                    || (0x1F300 <= text@[k] as u32 <= 0x1F5FF)
                    || (0x1F680 <= text@[k] as u32 <= 0x1F6FF)
                    || (0x1F1E0 <= text@[k] as u32 <= 0x1F1FF)
                    || (0x1F900 <= text@[k] as u32 <= 0x1F9FF)
                    || (0x1FA00 <= text@[k] as u32 <= 0x1FA6F)
                    || (0x1FA70 <= text@[k] as u32 <= 0x1FAFF)
                    || (0x2600 <= text@[k] as u32 <= 0x26FF)
                    || (0x2700 <= text@[k] as u32 <= 0x27BF)
                    || (0x2300 <= text@[k] as u32 <= 0x23FF)
                    || (0xFE00 <= text@[k] as u32 <= 0xFE0F)
                    || (0xD800 <= text@[k] as u32 <= 0xDFFF)
                    || (0xFFF0 <= text@[k] as u32 <= 0xFFFF)
                )
        }) ==> r@ == text@,
{
    proof {
        reveal_strlit("(?s)```.*?```");
        reveal_strlit("\\*\\*(.+?)\\*\\*");
        reveal_strlit("__(.+?)__");
        reveal_strlit("\\*(.+?)\\*");
        reveal_strlit("_(.+?)_");
        reveal_strlit("`(.+?)`");
        reveal_strlit("~~(.+?)~~");
        reveal_strlit("\\[(.+?)\\]\\(.+?\\)");
        reveal_strlit("(?m)^#+\\s+");
        reveal_strlit("\\s+");
        reveal_strlit("$1");
        reveal_strlit("");
        reveal_strlit(" ");
    }
    let mut result = owned(text);
    result = replace_with("(?s)```.*?```", result, "");
    let ghost r0 = result@;
    result = replace_with("\\*\\*(.+?)\\*\\*", result, "$1");
    let ghost r1 = result@;
    result = replace_with("__(.+?)__", result, "$1");
    let ghost r2 = result@;
    result = replace_with("\\*(.+?)\\*", result, "$1");
    let ghost r3 = result@;
    result = replace_with("_(.+?)_", result, "$1");
    let ghost r4 = result@;
    result = replace_with("`(.+?)`", result, "$1");
    let ghost r5 = result@;
    result = replace_with("~~(.+?)~~", result, "$1");
    let ghost r6 = result@;
    result = replace_with("\\[(.+?)\\]\\(.+?\\)", result, "$1");
    let ghost r7 = result@;
    result = replace_with("(?m)^#+\\s+", result, "");
    let kept = drop_unspeakable(result.as_str());
    let ghost stripped_view = result@;
    let ghost kept_view = kept@;
    let spaced = replace_with("\\s+", kept, " ");
    let r = trim(spaced.as_str());
    proof {
        lemma_speakable_clean(stripped_view);
        lemma_speakable_shorter(stripped_view);
        assert(!" "@.contains('$'));
        let (i, j) = choose|i: int, j: int|
            0 <= i <= j <= spaced@.len() && r@ == spaced@.subrange(i, j);
        lemma_utf8_len_subrange(spaced@, i, j);
        assert forall|k: int| 0 <= k < r@.len() implies !unspeakable(#[trigger] r@[k]) by {
            assert(r@[k] == spaced@[i + k]);
            if kept_view.contains(spaced@[i + k]) {
                let m = choose|m: int| 0 <= m < kept_view.len() && kept_view[m] == spaced@[i + k];
                assert(!unspeakable(kept_view[m]));
            } else {
                assert(" "@.contains(spaced@[i + k]));
                let m = choose|m: int| 0 <= m < " "@.len() && " "@[m] == spaced@[i + k];
                assert(spaced@[i + k] == ' ');
            }
        }
        assert forall|k: int| 0 <= k < r@.len() implies #[trigger] r@[k] == ' '
            || !is_white_space(r@[k]) by {
            assert(r@[k] == spaced@[i + k]);
        }
        assert forall|k: int| 0 <= k < r@.len() - 1 implies !#[trigger] double_space_at(r@, k) by {
            assert(r@[k] == spaced@[i + k]);
            assert(r@[k + 1] == spaced@[i + k + 1]);
            assert(!double_space_at(spaced@, i + k));
        }
        if plain_text(text@) {
            assert(r0 == text@);
            assert(r1 == text@);
            assert(r2 == text@);
            assert(r3 == text@);
            assert(r4 == text@);
            assert(r5 == text@);
            assert(r6 == text@);
            assert(r7 == text@);
            assert(stripped_view == text@);
            lemma_speakable_keeps_plain(text@);
            assert(kept_view == text@);
            assert(spaced@ == text@);
        }
    }
    r
}

/// Dropping unspeakable characters never lengthens a text, in characters
/// or in UTF-8 bytes.
pub proof fn lemma_speakable_shorter(s: Seq<char>)
    ensures
        speakable(s).len() <= s.len(),
        utf8_len(speakable(s)) <= utf8_len(s),
    decreases s.len(),
{
    if s.len() > 0 {
        let t = s.drop_last();
        let c = seq![s.last()];
        lemma_speakable_shorter(t);
        assert(s =~= t + c);
        lemma_utf8_len_concat(t, c);
        if !unspeakable(s.last()) {
            assert(speakable(t).push(s.last()) =~= speakable(t) + c);
            lemma_utf8_len_concat(speakable(t), c);
        }
    }
}

/// A text with nothing unspeakable keeps every character.
pub proof fn lemma_speakable_keeps_plain(s: Seq<char>)
    requires
        forall|k: int| 0 <= k < s.len() ==> !unspeakable(#[trigger] s[k]),
    ensures
        speakable(s) == s,
    decreases s.len(),
{
    if s.len() > 0 {
        let t = s.drop_last();
        assert forall|k: int| 0 <= k < t.len() implies !unspeakable(#[trigger] t[k]) by {
            assert(t[k] == s[k]);
        }
        lemma_speakable_keeps_plain(t);
        assert(!unspeakable(s[s.len() - 1]));
        assert(t.push(s.last()) == s);
    }
}

/// No unspeakable character is left in `speakable(s)`.
pub proof fn lemma_speakable_clean(s: Seq<char>)
    ensures
        forall|k: int| 0 <= k < speakable(s).len() ==> !unspeakable(#[trigger] speakable(s)[k]),
    decreases s.len(),
{
    if s.len() > 0 {
        lemma_speakable_clean(s.drop_last());
        let p = speakable(s.drop_last());
        if !unspeakable(s.last()) {
            assert forall|k: int| 0 <= k < p.push(s.last()).len() implies !unspeakable(
                #[trigger] p.push(s.last())[k],
            ) by {
                if k < p.len() {
                    assert(p.push(s.last())[k] == p[k]);
                }
            }
        }
    }
}

/// The symbol filter drops exactly the listed code points: the emoticons
/// (U+1F600–1F64F), the miscellaneous symbols and pictographs
/// (U+1F300–1F5FF), transport and map symbols (U+1F680–1F6FF), regional
/// indicators (U+1F1E0–1F1FF), the supplemental symbols and pictographs
/// (U+1F900–1F9FF), chess and extended-A symbols (U+1FA00–1FAFF), the
/// miscellaneous symbols (U+2600–26FF), dingbats (U+2700–27BF), technical
/// symbols (U+2300–23FF), variation selectors (U+FE00–FE0F), surrogates and
/// the specials (U+FFF0–FFFF). Nothing listed is left, and every other
/// character stays, in order: a text with none of them comes back whole.
pub proof fn lemma_speakable_drops_exactly_the_listed(s: Seq<char>)
    ensures
        forall|k: int| 0 <= k < speakable(s).len() ==> !(
                (0x1F600 <= #[trigger] speakable(s)[k] as u32 <= 0x1F64F)
                || (0x1F300 <= speakable(s)[k] as u32 <= 0x1F5FF)
                || (0x1F680 <= speakable(s)[k] as u32 <= 0x1F6FF)
                || (0x1F1E0 <= speakable(s)[k] as u32 <= 0x1F1FF)
                || (0x1F900 <= speakable(s)[k] as u32 <= 0x1F9FF)
                || (0x1FA00 <= speakable(s)[k] as u32 <= 0x1FA6F)
                || (0x1FA70 <= speakable(s)[k] as u32 <= 0x1FAFF)
                || (0x2600 <= speakable(s)[k] as u32 <= 0x26FF)
                || (0x2700 <= speakable(s)[k] as u32 <= 0x27BF)
                || (0x2300 <= speakable(s)[k] as u32 <= 0x23FF)
                || (0xFE00 <= speakable(s)[k] as u32 <= 0xFE0F)
                || (0xD800 <= speakable(s)[k] as u32 <= 0xDFFF)
                || (0xFFF0 <= speakable(s)[k] as u32 <= 0xFFFF)
            ),
        (forall|k: int| 0 <= k < s.len() ==> !(
                    (0x1F600 <= #[trigger] s[k] as u32 <= 0x1F64F)
                    || (0x1F300 <= s[k] as u32 <= 0x1F5FF)
                    || (0x1F680 <= s[k] as u32 <= 0x1F6FF)
                    || (0x1F1E0 <= s[k] as u32 <= 0x1F1FF)
                    || (0x1F900 <= s[k] as u32 <= 0x1F9FF)
                    || (0x1FA00 <= s[k] as u32 <= 0x1FA6F)
                    || (0x1FA70 <= s[k] as u32 <= 0x1FAFF)
                    || (0x2600 <= s[k] as u32 <= 0x26FF)
                    || (0x2700 <= s[k] as u32 <= 0x27BF)
                    || (0x2300 <= s[k] as u32 <= 0x23FF)
                    || (0xFE00 <= s[k] as u32 <= 0xFE0F)
                    || (0xD800 <= s[k] as u32 <= 0xDFFF)
                    || (0xFFF0 <= s[k] as u32 <= 0xFFFF)
                )) ==> speakable(s) == s,
{
    lemma_speakable_clean(s);
    if forall|k: int| 0 <= k < s.len() ==> !unspeakable(#[trigger] s[k]) {
        lemma_speakable_keeps_plain(s);
    }
}

/// The request that asks for streamed speech of `text`:
/// `{"cmd":"synthesize","streaming":true,"text":<text>}`.
pub open spec fn synthesize_request_spec(text: Seq<char>) -> Seq<char> {
    "{\"cmd\":\"synthesize\",\"streaming\":true,\"text\":"@ + json_quoted(text) + "}"@
}

/// A synthesize request is one line of the protocol, whatever the text.
pub proof fn lemma_synthesize_request_single_line(text: Seq<char>)
    ensures
        single_line(synthesize_request_spec(text)),
{
    reveal_strlit("{\"cmd\":\"synthesize\",\"streaming\":true,\"text\":");
    reveal_strlit("}");
    let a = "{\"cmd\":\"synthesize\",\"streaming\":true,\"text\":"@;
    lemma_quoted_single_line(text);
    lemma_join_single_line(a, json_quoted(text));
    lemma_join_single_line(a + json_quoted(text), "}"@);
}

pub fn synthesize_request(text: &str) -> (r: String)
    ensures
        r@ == synthesize_request_spec(text@),
{
    let q = quote(text);
    concat3("{\"cmd\":\"synthesize\",\"streaming\":true,\"text\":", q.as_str(), "}")
}

/// What to send to speak `text`: nothing when the cleaned text is empty,
/// otherwise the synthesize request for the cleaned text.
pub fn speak_request(text: &str) -> (r: Option<String>)
    ensures
        clean_text_spec(text@).len() == 0 ==> r is None,
        clean_text_spec(text@).len() > 0 ==> (r matches Some(q) && q@
            == synthesize_request_spec(clean_text_spec(text@))),
{
    let clean = clean_text_for_tts(text);
    if clean.as_str().is_empty() {
        None
    } else {
        Some(synthesize_request(clean.as_str()))
    }
}

/// A reply line of the engine while it synthesizes.
pub struct TTSResponse {
    pub response_type: String,
    pub message: Option<String>,
    pub audio: Option<String>,
}

/// What to do after one reply while speech is streamed.
pub enum SynthesisStep {
    Pending,
    /// A chunk of WAV audio to queue for playback.
    Audio(Vec<u8>),
    /// All chunks have arrived.
    Done,
    Failed(String),
}

/// One reply line while synthesizing: an `audio_chunk` yields the WAV bytes
/// its Base64 `audio` field encodes (and fails when the field is missing or
/// is not Base64); `audio_done` ends the stream; `error` fails with
/// `Synthesis error: <message>`; anything else is skipped.
pub fn synthesis_step(reply: TTSResponse) -> (step: SynthesisStep)
    ensures
        reply.response_type@ == "audio_chunk"@ ==> match reply.audio {
            None => step matches SynthesisStep::Failed(e) && e@ == "No audio data in chunk"@,
            Some(a) => if exists|b: Seq<u8>| base64_encode(b) == a@ {
                step matches SynthesisStep::Audio(w) && base64_encode(w@) == a@
            } else {
                step matches SynthesisStep::Failed(e) && e@.take(30)
                    == "Failed to decode audio chunk: "@
            },
        },
        reply.response_type@ == "audio_done"@ ==> step is Done,
        reply.response_type@ == "error"@ ==> (step matches SynthesisStep::Failed(e) && e@
            == "Synthesis error: "@ + text_or_empty(reply.message)),
        reply.response_type@ != "audio_chunk"@ && reply.response_type@ != "audio_done"@
            && reply.response_type@ != "error"@ ==> step is Pending,
{
    proof {
        reveal_strlit("audio_chunk");
        reveal_strlit("audio_done");
        reveal_strlit("error");
        reveal_strlit("Failed to decode audio chunk: ");
        assert("audio_chunk"@.len() != "audio_done"@.len());
        assert("audio_chunk"@.len() != "error"@.len());
        assert("audio_done"@.len() != "error"@.len());
    }
    let kind = reply.response_type;
    if same_text(kind.as_str(), "audio_chunk") {
        match reply.audio {
            None => SynthesisStep::Failed(owned("No audio data in chunk")),
            Some(a) => match decode(a.as_str()) {
                Ok(w) => SynthesisStep::Audio(w),
                Err(e) => {
                    let m = concat("Failed to decode audio chunk: ", e.as_str());
                    assert(m@.take(30) == "Failed to decode audio chunk: "@);
                    SynthesisStep::Failed(m)
                },
            },
        }
    } else if same_text(kind.as_str(), "audio_done") {
        SynthesisStep::Done
    } else if same_text(kind.as_str(), "error") {
        let msg = take_text(reply.message);
        SynthesisStep::Failed(concat("Synthesis error: ", msg.as_str()))
    } else {
        SynthesisStep::Pending
    }
}

} // verus!

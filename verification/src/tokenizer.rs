//! Morphological token model, reading conversion, paragraph and sentence
//! splitting, and conjugation grouping.
use vstd::prelude::*;

use crate::romaji::{romaji_conv, romaji_to_hiragana};
use crate::text::{ascii_lower, lowercase_of};
pub use crate::text::strings_view;
use crate::text::{
    chars_occur_at, contains_seq, find_from, lemma_trim_keeps_non_ws, lemma_part_lacks, lemma_split_pieces_lack_sep, is_ascii_alpha, is_ascii_char, is_ascii_digit, split_from,
    lemma_trim_idempotent, lemma_trim_is_infix, split_str, str_eq, string_of, string_of_range,
    to_chars, trim, trim_bounds, trim_chars, find_from_exec,
    trim_str,
};

verus! {

/// `char::from_u32`: the character with code point `i`, when `i` is a valid
/// Unicode scalar value.
pub assume_specification[ char::from_u32 ](i: u32) -> (r: Option<char>)
    ensures
        r == (if i <= 0x10FFFF && !(0xD800 <= i && i <= 0xDFFF) {
            Some(i as char)
        } else {
            None
        }),
;

/// Information extracted from a single morphological token.
#[derive(Debug, Clone)]
pub struct TokenInfo {
    pub surface: String,
    pub base_form: String,
    /// Reading of the base/lemma form (for vocabulary matching and dictionary lookup).
    pub reading: String,
    /// Reading of the actual surface form (for furigana display above conjugated forms).
    pub surface_reading: String,
    pub pos: String,
    pub conjugation_form: String,
    pub conjugation_type: String,
}

/// Characters that count as numeric: ASCII and full-width digits, `.` and `,`.
pub open spec fn numeric_char(c: char) -> bool {
    is_ascii_digit(c) || c == '.' || c == ',' || ('０' <= c && c <= '９')
}

/// The trimmed string is non-empty and made of numeric characters only.
pub open spec fn numeric_str(s: Seq<char>) -> bool {
    trim(s).len() > 0 && forall|i: int| 0 <= i < trim(s).len() ==> numeric_char(#[trigger] trim(s)[i])
}

/// The trimmed string is non-empty and made of ASCII characters only.
pub open spec fn ascii_only_str(s: Seq<char>) -> bool {
    trim(s).len() > 0 && forall|i: int|
        0 <= i < trim(s).len() ==> is_ascii_char(#[trigger] trim(s)[i])
}

/// Part-of-speech tags that never create vocabulary entries.
pub open spec fn trivial_token_pos(pos: Seq<char>) -> bool {
    ||| pos == "Symbol"@
    ||| pos == "Punctuation"@
    ||| pos == "Whitespace"@
    ||| pos == "BOS/EOS"@
    ||| pos.len() == 0
}

pub open spec fn token_is_trivial(pos: Seq<char>, surface: Seq<char>) -> bool {
    ||| trivial_token_pos(pos)
    ||| trim(surface).len() == 0
    ||| numeric_str(surface)
    ||| ascii_only_str(surface)
}

fn all_numeric(v: &[char], a: usize, b: usize) -> (r: bool)
    requires
        a <= b <= v@.len(),
    ensures
        r == forall|i: int| a <= i < b ==> numeric_char(#[trigger] v@[i]),
{
    let mut i = a;
    while i < b
        invariant
            a <= i <= b <= v@.len(),
            forall|k: int| a <= k < i ==> numeric_char(#[trigger] v@[k]),
        decreases b - i,
    {
        let c = v[i];
        if !(('0' <= c && c <= '9') || c == '.' || c == ',' || ('０' <= c && c <= '９')) {
            return false;
        }
        i += 1;
    }
    true
}

fn all_ascii(v: &[char], a: usize, b: usize) -> (r: bool)
    requires
        a <= b <= v@.len(),
    ensures
        r == forall|i: int| a <= i < b ==> is_ascii_char(#[trigger] v@[i]),
{
    let mut i = a;
    while i < b
        invariant
            a <= i <= b <= v@.len(),
            forall|k: int| a <= k < i ==> is_ascii_char(#[trigger] v@[k]),
        decreases b - i,
    {
        if (v[i] as u32) >= 128 {
            return false;
        }
        i += 1;
    }
    true
}

/// Check if a string is purely numeric (digits, decimal points, commas).
pub fn is_numeric(s: &str) -> (r: bool)
    ensures
        r == numeric_str(s@),
{
    let v = to_chars(s);
    let (a, b) = trim_bounds(&v);
    if a == b {
        return false;
    }
    let r = all_numeric(&v, a, b);
    assert(r == forall|i: int| 0 <= i < trim(s@).len() ==> numeric_char(#[trigger] trim(s@)[i]))
        by {
        if r {
            assert forall|i: int| 0 <= i < trim(s@).len() implies numeric_char(
                #[trigger] trim(s@)[i],
            ) by {
                assert(trim(s@)[i] == v@[a + i]);
            }
        } else {
            let k = choose|k: int| a <= k < b && !numeric_char(#[trigger] v@[k]);
            assert(trim(s@)[k - a] == v@[k]);
        }
    }
    r
}

/// Check if a string contains only ASCII characters (English text, punctuation, etc.).
pub fn is_ascii_only(s: &str) -> (r: bool)
    ensures
        r == ascii_only_str(s@),
{
    let v = to_chars(s);
    let (a, b) = trim_bounds(&v);
    if a == b {
        return false;
    }
    let r = all_ascii(&v, a, b);
    assert(r == forall|i: int| 0 <= i < trim(s@).len() ==> is_ascii_char(#[trigger] trim(s@)[i]))
        by {
        if r {
            assert forall|i: int| 0 <= i < trim(s@).len() implies is_ascii_char(
                #[trigger] trim(s@)[i],
            ) by {
                assert(trim(s@)[i] == v@[a + i]);
            }
        } else {
            let k = choose|k: int| a <= k < b && !is_ascii_char(#[trigger] v@[k]);
            assert(trim(s@)[k - a] == v@[k]);
        }
    }
    r
}

/// Whether the trimmed string is empty.
pub fn is_blank(s: &str) -> (r: bool)
    ensures
        r == (trim(s@).len() == 0),
{
    let v = to_chars(s);
    let (a, b) = trim_bounds(&v);
    a == b
}

impl TokenInfo {
    /// Returns true if this token represents punctuation, whitespace, symbols,
    /// numbers, or non-Japanese text that should not create vocabulary entries.
    pub fn is_trivial(&self) -> (r: bool)
        ensures
            r == token_is_trivial(self.pos@, self.surface@),
    {
        let p = self.pos.as_str();
        str_eq(p, "Symbol") || str_eq(p, "Punctuation") || str_eq(p, "Whitespace") || str_eq(
            p,
            "BOS/EOS",
        ) || p.is_empty() || is_blank(self.surface.as_str()) || is_numeric(
            self.surface.as_str(),
        ) || is_ascii_only(self.surface.as_str())
    }
}

/// `*` (UniDic's "no value") read as the empty string.
pub open spec fn star_to_empty(s: Seq<char>) -> Seq<char> {
    if s == "*"@ {
        Seq::empty()
    } else {
        s
    }
}

/// Replace "*" with empty string.
pub fn normalize_star(s: &str) -> (r: String)
    ensures
        r@ == star_to_empty(s@),
{
    if str_eq(s, "*") {
        String::new()
    } else {
        String::from_str(s)
    }
}

/// Simplified category of a UniDic major part-of-speech tag.
pub open spec fn pos_category(p: Seq<char>) -> Seq<char> {
    if p == "名詞"@ {
        "Noun"@
    } else if p == "代名詞"@ {
        "Pronoun"@
    } else if p == "動詞"@ {
        "Verb"@
    } else if p == "形容詞"@ {
        "Adjective"@
    } else if p == "形状詞"@ {
        "Adjectival_Noun"@
    } else if p == "副詞"@ {
        "Adverb"@
    } else if p == "助詞"@ {
        "Particle"@
    } else if p == "助動詞"@ {
        "Auxiliary"@
    } else if p == "接続詞"@ {
        "Conjunction"@
    } else if p == "記号"@ {
        "Symbol"@
    } else if p == "補助記号"@ {
        "Symbol"@
    } else if p == "感動詞"@ {
        "Interjection"@
    } else if p == "連体詞"@ {
        "Adnominal"@
    } else if p == "接頭辞"@ {
        "Prefix"@
    } else if p == "接頭詞"@ {
        "Prefix"@
    } else if p == "接尾辞"@ {
        "Suffix"@
    } else if p == "空白"@ {
        "Whitespace"@
    } else if p == "フィラー"@ {
        "Filler"@
    } else if p == "BOS/EOS"@ {
        "BOS/EOS"@
    } else {
        "Other"@
    }
}

spec fn pos_tags_distinct() -> bool {
    &&& "名詞"@ != "代名詞"@
    &&& "名詞"@ != "動詞"@
    &&& "名詞"@ != "形容詞"@
    &&& "名詞"@ != "形状詞"@
    &&& "名詞"@ != "副詞"@
    &&& "名詞"@ != "助詞"@
    &&& "名詞"@ != "助動詞"@
    &&& "名詞"@ != "接続詞"@
    &&& "名詞"@ != "記号"@
    &&& "名詞"@ != "補助記号"@
    &&& "名詞"@ != "感動詞"@
    &&& "名詞"@ != "連体詞"@
    &&& "名詞"@ != "接頭辞"@
    &&& "名詞"@ != "接頭詞"@
    &&& "名詞"@ != "接尾辞"@
    &&& "名詞"@ != "空白"@
    &&& "名詞"@ != "フィラー"@
    &&& "名詞"@ != "BOS/EOS"@
    &&& "代名詞"@ != "動詞"@
    &&& "代名詞"@ != "形容詞"@
    &&& "代名詞"@ != "形状詞"@
    &&& "代名詞"@ != "副詞"@
    &&& "代名詞"@ != "助詞"@
    &&& "代名詞"@ != "助動詞"@
    &&& "代名詞"@ != "接続詞"@
    &&& "代名詞"@ != "記号"@
    &&& "代名詞"@ != "補助記号"@
    &&& "代名詞"@ != "感動詞"@
    &&& "代名詞"@ != "連体詞"@
    &&& "代名詞"@ != "接頭辞"@
    &&& "代名詞"@ != "接頭詞"@
    &&& "代名詞"@ != "接尾辞"@
    &&& "代名詞"@ != "空白"@
    &&& "代名詞"@ != "フィラー"@
    &&& "代名詞"@ != "BOS/EOS"@
    &&& "動詞"@ != "形容詞"@
    &&& "動詞"@ != "形状詞"@
    &&& "動詞"@ != "副詞"@
    &&& "動詞"@ != "助詞"@
    &&& "動詞"@ != "助動詞"@
    &&& "動詞"@ != "接続詞"@
    &&& "動詞"@ != "記号"@
    &&& "動詞"@ != "補助記号"@
    &&& "動詞"@ != "感動詞"@
    &&& "動詞"@ != "連体詞"@
    &&& "動詞"@ != "接頭辞"@
    &&& "動詞"@ != "接頭詞"@
    &&& "動詞"@ != "接尾辞"@
    &&& "動詞"@ != "空白"@
    &&& "動詞"@ != "フィラー"@
    &&& "動詞"@ != "BOS/EOS"@
    &&& "形容詞"@ != "形状詞"@
    &&& "形容詞"@ != "副詞"@
    &&& "形容詞"@ != "助詞"@
    &&& "形容詞"@ != "助動詞"@
    &&& "形容詞"@ != "接続詞"@
    &&& "形容詞"@ != "記号"@
    &&& "形容詞"@ != "補助記号"@
    &&& "形容詞"@ != "感動詞"@
    &&& "形容詞"@ != "連体詞"@
    &&& "形容詞"@ != "接頭辞"@
    &&& "形容詞"@ != "接頭詞"@
    &&& "形容詞"@ != "接尾辞"@
    &&& "形容詞"@ != "空白"@
    &&& "形容詞"@ != "フィラー"@
    &&& "形容詞"@ != "BOS/EOS"@
    &&& "形状詞"@ != "副詞"@
    &&& "形状詞"@ != "助詞"@
    &&& "形状詞"@ != "助動詞"@
    &&& "形状詞"@ != "接続詞"@
    &&& "形状詞"@ != "記号"@
    &&& "形状詞"@ != "補助記号"@
    &&& "形状詞"@ != "感動詞"@
    &&& "形状詞"@ != "連体詞"@
    &&& "形状詞"@ != "接頭辞"@
    &&& "形状詞"@ != "接頭詞"@
    &&& "形状詞"@ != "接尾辞"@
    &&& "形状詞"@ != "空白"@
    &&& "形状詞"@ != "フィラー"@
    &&& "形状詞"@ != "BOS/EOS"@
    &&& "副詞"@ != "助詞"@
    &&& "副詞"@ != "助動詞"@
    &&& "副詞"@ != "接続詞"@
    &&& "副詞"@ != "記号"@
    &&& "副詞"@ != "補助記号"@
    &&& "副詞"@ != "感動詞"@
    &&& "副詞"@ != "連体詞"@
    &&& "副詞"@ != "接頭辞"@
    &&& "副詞"@ != "接頭詞"@
    &&& "副詞"@ != "接尾辞"@
    &&& "副詞"@ != "空白"@
    &&& "副詞"@ != "フィラー"@
    &&& "副詞"@ != "BOS/EOS"@
    &&& "助詞"@ != "助動詞"@
    &&& "助詞"@ != "接続詞"@
    &&& "助詞"@ != "記号"@
    &&& "助詞"@ != "補助記号"@
    &&& "助詞"@ != "感動詞"@
    &&& "助詞"@ != "連体詞"@
    &&& "助詞"@ != "接頭辞"@
    &&& "助詞"@ != "接頭詞"@
    &&& "助詞"@ != "接尾辞"@
    &&& "助詞"@ != "空白"@
    &&& "助詞"@ != "フィラー"@
    &&& "助詞"@ != "BOS/EOS"@
    &&& "助動詞"@ != "接続詞"@
    &&& "助動詞"@ != "記号"@
    &&& "助動詞"@ != "補助記号"@
    &&& "助動詞"@ != "感動詞"@
    &&& "助動詞"@ != "連体詞"@
    &&& "助動詞"@ != "接頭辞"@
    &&& "助動詞"@ != "接頭詞"@
    &&& "助動詞"@ != "接尾辞"@
    &&& "助動詞"@ != "空白"@
    &&& "助動詞"@ != "フィラー"@
    &&& "助動詞"@ != "BOS/EOS"@
    &&& "接続詞"@ != "記号"@
    &&& "接続詞"@ != "補助記号"@
    &&& "接続詞"@ != "感動詞"@
    &&& "接続詞"@ != "連体詞"@
    &&& "接続詞"@ != "接頭辞"@
    &&& "接続詞"@ != "接頭詞"@
    &&& "接続詞"@ != "接尾辞"@
    &&& "接続詞"@ != "空白"@
    &&& "接続詞"@ != "フィラー"@
    &&& "接続詞"@ != "BOS/EOS"@
    &&& "記号"@ != "補助記号"@
    &&& "記号"@ != "感動詞"@
    &&& "記号"@ != "連体詞"@
    &&& "記号"@ != "接頭辞"@
    &&& "記号"@ != "接頭詞"@
    &&& "記号"@ != "接尾辞"@
    &&& "記号"@ != "空白"@
    &&& "記号"@ != "フィラー"@
    &&& "記号"@ != "BOS/EOS"@
    &&& "補助記号"@ != "感動詞"@
    &&& "補助記号"@ != "連体詞"@
    &&& "補助記号"@ != "接頭辞"@
    &&& "補助記号"@ != "接頭詞"@
    &&& "補助記号"@ != "接尾辞"@
    &&& "補助記号"@ != "空白"@
    &&& "補助記号"@ != "フィラー"@
    &&& "補助記号"@ != "BOS/EOS"@
    &&& "感動詞"@ != "連体詞"@
    &&& "感動詞"@ != "接頭辞"@
    &&& "感動詞"@ != "接頭詞"@
    &&& "感動詞"@ != "接尾辞"@
    &&& "感動詞"@ != "空白"@
    &&& "感動詞"@ != "フィラー"@
    &&& "感動詞"@ != "BOS/EOS"@
    &&& "連体詞"@ != "接頭辞"@
    &&& "連体詞"@ != "接頭詞"@
    &&& "連体詞"@ != "接尾辞"@
    &&& "連体詞"@ != "空白"@
    &&& "連体詞"@ != "フィラー"@
    &&& "連体詞"@ != "BOS/EOS"@
    &&& "接頭辞"@ != "接頭詞"@
    &&& "接頭辞"@ != "接尾辞"@
    &&& "接頭辞"@ != "空白"@
    &&& "接頭辞"@ != "フィラー"@
    &&& "接頭辞"@ != "BOS/EOS"@
    &&& "接頭詞"@ != "接尾辞"@
    &&& "接頭詞"@ != "空白"@
    &&& "接頭詞"@ != "フィラー"@
    &&& "接頭詞"@ != "BOS/EOS"@
    &&& "接尾辞"@ != "空白"@
    &&& "接尾辞"@ != "フィラー"@
    &&& "接尾辞"@ != "BOS/EOS"@
    &&& "空白"@ != "フィラー"@
    &&& "空白"@ != "BOS/EOS"@
    &&& "フィラー"@ != "BOS/EOS"@
}

spec fn pos_categories_distinct() -> bool {
    &&& "Noun"@ != "Pronoun"@
    &&& "Noun"@ != "Verb"@
    &&& "Noun"@ != "Adjective"@
    &&& "Noun"@ != "Adjectival_Noun"@
    &&& "Noun"@ != "Adverb"@
    &&& "Noun"@ != "Particle"@
    &&& "Noun"@ != "Auxiliary"@
    &&& "Noun"@ != "Conjunction"@
    &&& "Noun"@ != "Symbol"@
    &&& "Noun"@ != "Interjection"@
    &&& "Noun"@ != "Adnominal"@
    &&& "Noun"@ != "Prefix"@
    &&& "Noun"@ != "Suffix"@
    &&& "Noun"@ != "Whitespace"@
    &&& "Noun"@ != "Filler"@
    &&& "Noun"@ != "BOS/EOS"@
    &&& "Noun"@ != "Other"@
    &&& "Pronoun"@ != "Verb"@
    &&& "Pronoun"@ != "Adjective"@
    &&& "Pronoun"@ != "Adjectival_Noun"@
    &&& "Pronoun"@ != "Adverb"@
    &&& "Pronoun"@ != "Particle"@
    &&& "Pronoun"@ != "Auxiliary"@
    &&& "Pronoun"@ != "Conjunction"@
    &&& "Pronoun"@ != "Symbol"@
    &&& "Pronoun"@ != "Interjection"@
    &&& "Pronoun"@ != "Adnominal"@
    &&& "Pronoun"@ != "Prefix"@
    &&& "Pronoun"@ != "Suffix"@
    &&& "Pronoun"@ != "Whitespace"@
    &&& "Pronoun"@ != "Filler"@
    &&& "Pronoun"@ != "BOS/EOS"@
    &&& "Pronoun"@ != "Other"@
    &&& "Verb"@ != "Adjective"@
    &&& "Verb"@ != "Adjectival_Noun"@
    &&& "Verb"@ != "Adverb"@
    &&& "Verb"@ != "Particle"@
    &&& "Verb"@ != "Auxiliary"@
    &&& "Verb"@ != "Conjunction"@
    &&& "Verb"@ != "Symbol"@
    &&& "Verb"@ != "Interjection"@
    &&& "Verb"@ != "Adnominal"@
    &&& "Verb"@ != "Prefix"@
    &&& "Verb"@ != "Suffix"@
    &&& "Verb"@ != "Whitespace"@
    &&& "Verb"@ != "Filler"@
    &&& "Verb"@ != "BOS/EOS"@
    &&& "Verb"@ != "Other"@
    &&& "Adjective"@ != "Adjectival_Noun"@
    &&& "Adjective"@ != "Adverb"@
    &&& "Adjective"@ != "Particle"@
    &&& "Adjective"@ != "Auxiliary"@
    &&& "Adjective"@ != "Conjunction"@
    &&& "Adjective"@ != "Symbol"@
    &&& "Adjective"@ != "Interjection"@
    &&& "Adjective"@ != "Adnominal"@
    &&& "Adjective"@ != "Prefix"@
    &&& "Adjective"@ != "Suffix"@
    &&& "Adjective"@ != "Whitespace"@
    &&& "Adjective"@ != "Filler"@
    &&& "Adjective"@ != "BOS/EOS"@
    &&& "Adjective"@ != "Other"@
    &&& "Adjectival_Noun"@ != "Adverb"@
    &&& "Adjectival_Noun"@ != "Particle"@
    &&& "Adjectival_Noun"@ != "Auxiliary"@
    &&& "Adjectival_Noun"@ != "Conjunction"@
    &&& "Adjectival_Noun"@ != "Symbol"@
    &&& "Adjectival_Noun"@ != "Interjection"@
    &&& "Adjectival_Noun"@ != "Adnominal"@
    &&& "Adjectival_Noun"@ != "Prefix"@
    &&& "Adjectival_Noun"@ != "Suffix"@
    &&& "Adjectival_Noun"@ != "Whitespace"@
    &&& "Adjectival_Noun"@ != "Filler"@
    &&& "Adjectival_Noun"@ != "BOS/EOS"@
    &&& "Adjectival_Noun"@ != "Other"@
    &&& "Adverb"@ != "Particle"@
    &&& "Adverb"@ != "Auxiliary"@
    &&& "Adverb"@ != "Conjunction"@
    &&& "Adverb"@ != "Symbol"@
    &&& "Adverb"@ != "Interjection"@
    &&& "Adverb"@ != "Adnominal"@
    &&& "Adverb"@ != "Prefix"@
    &&& "Adverb"@ != "Suffix"@
    &&& "Adverb"@ != "Whitespace"@
    &&& "Adverb"@ != "Filler"@
    &&& "Adverb"@ != "BOS/EOS"@
    &&& "Adverb"@ != "Other"@
    &&& "Particle"@ != "Auxiliary"@
    &&& "Particle"@ != "Conjunction"@
    &&& "Particle"@ != "Symbol"@
    &&& "Particle"@ != "Interjection"@
    &&& "Particle"@ != "Adnominal"@
    &&& "Particle"@ != "Prefix"@
    &&& "Particle"@ != "Suffix"@
    &&& "Particle"@ != "Whitespace"@
    &&& "Particle"@ != "Filler"@
    &&& "Particle"@ != "BOS/EOS"@
    &&& "Particle"@ != "Other"@
    &&& "Auxiliary"@ != "Conjunction"@
    &&& "Auxiliary"@ != "Symbol"@
    &&& "Auxiliary"@ != "Interjection"@
    &&& "Auxiliary"@ != "Adnominal"@
    &&& "Auxiliary"@ != "Prefix"@
    &&& "Auxiliary"@ != "Suffix"@
    &&& "Auxiliary"@ != "Whitespace"@
    &&& "Auxiliary"@ != "Filler"@
    &&& "Auxiliary"@ != "BOS/EOS"@
    &&& "Auxiliary"@ != "Other"@
    &&& "Conjunction"@ != "Symbol"@
    &&& "Conjunction"@ != "Interjection"@
    &&& "Conjunction"@ != "Adnominal"@
    &&& "Conjunction"@ != "Prefix"@
    &&& "Conjunction"@ != "Suffix"@
    &&& "Conjunction"@ != "Whitespace"@
    &&& "Conjunction"@ != "Filler"@
    &&& "Conjunction"@ != "BOS/EOS"@
    &&& "Conjunction"@ != "Other"@
    &&& "Symbol"@ != "Interjection"@
    &&& "Symbol"@ != "Adnominal"@
    &&& "Symbol"@ != "Prefix"@
    &&& "Symbol"@ != "Suffix"@
    &&& "Symbol"@ != "Whitespace"@
    &&& "Symbol"@ != "Filler"@
    &&& "Symbol"@ != "BOS/EOS"@
    &&& "Symbol"@ != "Other"@
    &&& "Interjection"@ != "Adnominal"@
    &&& "Interjection"@ != "Prefix"@
    &&& "Interjection"@ != "Suffix"@
    &&& "Interjection"@ != "Whitespace"@
    &&& "Interjection"@ != "Filler"@
    &&& "Interjection"@ != "BOS/EOS"@
    &&& "Interjection"@ != "Other"@
    &&& "Adnominal"@ != "Prefix"@
    &&& "Adnominal"@ != "Suffix"@
    &&& "Adnominal"@ != "Whitespace"@
    &&& "Adnominal"@ != "Filler"@
    &&& "Adnominal"@ != "BOS/EOS"@
    &&& "Adnominal"@ != "Other"@
    &&& "Prefix"@ != "Suffix"@
    &&& "Prefix"@ != "Whitespace"@
    &&& "Prefix"@ != "Filler"@
    &&& "Prefix"@ != "BOS/EOS"@
    &&& "Prefix"@ != "Other"@
    &&& "Suffix"@ != "Whitespace"@
    &&& "Suffix"@ != "Filler"@
    &&& "Suffix"@ != "BOS/EOS"@
    &&& "Suffix"@ != "Other"@
    &&& "Whitespace"@ != "Filler"@
    &&& "Whitespace"@ != "BOS/EOS"@
    &&& "Whitespace"@ != "Other"@
    &&& "Filler"@ != "BOS/EOS"@
    &&& "Filler"@ != "Other"@
    &&& "BOS/EOS"@ != "Other"@
}

/// The UniDic major tags of the table are pairwise distinct.
proof fn lemma_pos_tags_distinct()
    ensures
        pos_tags_distinct(),
{
    reveal_strlit("名詞");
    reveal_strlit("代名詞");
    reveal_strlit("動詞");
    reveal_strlit("形容詞");
    reveal_strlit("形状詞");
    reveal_strlit("副詞");
    reveal_strlit("助詞");
    reveal_strlit("助動詞");
    reveal_strlit("接続詞");
    reveal_strlit("記号");
    reveal_strlit("補助記号");
    reveal_strlit("感動詞");
    reveal_strlit("連体詞");
    reveal_strlit("接頭辞");
    reveal_strlit("接頭詞");
    reveal_strlit("接尾辞");
    reveal_strlit("空白");
    reveal_strlit("フィラー");
    reveal_strlit("BOS/EOS");
    assert("名詞"@.len() != "代名詞"@.len());
    assert("名詞"@[0] != "動詞"@[0]);
    assert("名詞"@.len() != "形容詞"@.len());
    assert("名詞"@.len() != "形状詞"@.len());
    assert("名詞"@[0] != "副詞"@[0]);
    assert("名詞"@[0] != "助詞"@[0]);
    assert("名詞"@.len() != "助動詞"@.len());
    assert("名詞"@.len() != "接続詞"@.len());
    assert("名詞"@[0] != "記号"@[0]);
    assert("名詞"@.len() != "補助記号"@.len());
    assert("名詞"@.len() != "感動詞"@.len());
    assert("名詞"@.len() != "連体詞"@.len());
    assert("名詞"@.len() != "接頭辞"@.len());
    assert("名詞"@.len() != "接頭詞"@.len());
    assert("名詞"@.len() != "接尾辞"@.len());
    assert("名詞"@[0] != "空白"@[0]);
    assert("名詞"@.len() != "フィラー"@.len());
    assert("名詞"@.len() != "BOS/EOS"@.len());
    assert("代名詞"@.len() != "動詞"@.len());
    assert("代名詞"@[0] != "形容詞"@[0]);
    assert("代名詞"@[0] != "形状詞"@[0]);
    assert("代名詞"@.len() != "副詞"@.len());
    assert("代名詞"@.len() != "助詞"@.len());
    assert("代名詞"@[0] != "助動詞"@[0]);
    assert("代名詞"@[0] != "接続詞"@[0]);
    assert("代名詞"@.len() != "記号"@.len());
    assert("代名詞"@.len() != "補助記号"@.len());
    assert("代名詞"@[0] != "感動詞"@[0]);
    assert("代名詞"@[0] != "連体詞"@[0]);
    assert("代名詞"@[0] != "接頭辞"@[0]);
    assert("代名詞"@[0] != "接頭詞"@[0]);
    assert("代名詞"@[0] != "接尾辞"@[0]);
    assert("代名詞"@.len() != "空白"@.len());
    assert("代名詞"@.len() != "フィラー"@.len());
    assert("代名詞"@.len() != "BOS/EOS"@.len());
    assert("動詞"@.len() != "形容詞"@.len());
    assert("動詞"@.len() != "形状詞"@.len());
    assert("動詞"@[0] != "副詞"@[0]);
    assert("動詞"@[0] != "助詞"@[0]);
    assert("動詞"@.len() != "助動詞"@.len());
    assert("動詞"@.len() != "接続詞"@.len());
    assert("動詞"@[0] != "記号"@[0]);
    assert("動詞"@.len() != "補助記号"@.len());
    assert("動詞"@.len() != "感動詞"@.len());
    assert("動詞"@.len() != "連体詞"@.len());
    assert("動詞"@.len() != "接頭辞"@.len());
    assert("動詞"@.len() != "接頭詞"@.len());
    assert("動詞"@.len() != "接尾辞"@.len());
    assert("動詞"@[0] != "空白"@[0]);
    assert("動詞"@.len() != "フィラー"@.len());
    assert("動詞"@.len() != "BOS/EOS"@.len());
    assert("形容詞"@[1] != "形状詞"@[1]);
    assert("形容詞"@.len() != "副詞"@.len());
    assert("形容詞"@.len() != "助詞"@.len());
    assert("形容詞"@[0] != "助動詞"@[0]);
    assert("形容詞"@[0] != "接続詞"@[0]);
    assert("形容詞"@.len() != "記号"@.len());
    assert("形容詞"@.len() != "補助記号"@.len());
    assert("形容詞"@[0] != "感動詞"@[0]);
    assert("形容詞"@[0] != "連体詞"@[0]);
    assert("形容詞"@[0] != "接頭辞"@[0]);
    assert("形容詞"@[0] != "接頭詞"@[0]);
    assert("形容詞"@[0] != "接尾辞"@[0]);
    assert("形容詞"@.len() != "空白"@.len());
    assert("形容詞"@.len() != "フィラー"@.len());
    assert("形容詞"@.len() != "BOS/EOS"@.len());
    assert("形状詞"@.len() != "副詞"@.len());
    assert("形状詞"@.len() != "助詞"@.len());
    assert("形状詞"@[0] != "助動詞"@[0]);
    assert("形状詞"@[0] != "接続詞"@[0]);
    assert("形状詞"@.len() != "記号"@.len());
    assert("形状詞"@.len() != "補助記号"@.len());
    assert("形状詞"@[0] != "感動詞"@[0]);
    assert("形状詞"@[0] != "連体詞"@[0]);
    assert("形状詞"@[0] != "接頭辞"@[0]);
    assert("形状詞"@[0] != "接頭詞"@[0]);
    assert("形状詞"@[0] != "接尾辞"@[0]);
    assert("形状詞"@.len() != "空白"@.len());
    assert("形状詞"@.len() != "フィラー"@.len());
    assert("形状詞"@.len() != "BOS/EOS"@.len());
    assert("副詞"@[0] != "助詞"@[0]);
    assert("副詞"@.len() != "助動詞"@.len());
    assert("副詞"@.len() != "接続詞"@.len());
    assert("副詞"@[0] != "記号"@[0]);
    assert("副詞"@.len() != "補助記号"@.len());
    assert("副詞"@.len() != "感動詞"@.len());
    assert("副詞"@.len() != "連体詞"@.len());
    assert("副詞"@.len() != "接頭辞"@.len());
    assert("副詞"@.len() != "接頭詞"@.len());
    assert("副詞"@.len() != "接尾辞"@.len());
    assert("副詞"@[0] != "空白"@[0]);
    assert("副詞"@.len() != "フィラー"@.len());
    assert("副詞"@.len() != "BOS/EOS"@.len());
    assert("助詞"@.len() != "助動詞"@.len());
    assert("助詞"@.len() != "接続詞"@.len());
    assert("助詞"@[0] != "記号"@[0]);
    assert("助詞"@.len() != "補助記号"@.len());
    assert("助詞"@.len() != "感動詞"@.len());
    assert("助詞"@.len() != "連体詞"@.len());
    assert("助詞"@.len() != "接頭辞"@.len());
    assert("助詞"@.len() != "接頭詞"@.len());
    assert("助詞"@.len() != "接尾辞"@.len());
    assert("助詞"@[0] != "空白"@[0]);
    assert("助詞"@.len() != "フィラー"@.len());
    assert("助詞"@.len() != "BOS/EOS"@.len());
    assert("助動詞"@[0] != "接続詞"@[0]);
    assert("助動詞"@.len() != "記号"@.len());
    assert("助動詞"@.len() != "補助記号"@.len());
    assert("助動詞"@[0] != "感動詞"@[0]);
    assert("助動詞"@[0] != "連体詞"@[0]);
    assert("助動詞"@[0] != "接頭辞"@[0]);
    assert("助動詞"@[0] != "接頭詞"@[0]);
    assert("助動詞"@[0] != "接尾辞"@[0]);
    assert("助動詞"@.len() != "空白"@.len());
    assert("助動詞"@.len() != "フィラー"@.len());
    assert("助動詞"@.len() != "BOS/EOS"@.len());
    assert("接続詞"@.len() != "記号"@.len());
    assert("接続詞"@.len() != "補助記号"@.len());
    assert("接続詞"@[0] != "感動詞"@[0]);
    assert("接続詞"@[0] != "連体詞"@[0]);
    assert("接続詞"@[1] != "接頭辞"@[1]);
    assert("接続詞"@[1] != "接頭詞"@[1]);
    assert("接続詞"@[1] != "接尾辞"@[1]);
    assert("接続詞"@.len() != "空白"@.len());
    assert("接続詞"@.len() != "フィラー"@.len());
    assert("接続詞"@.len() != "BOS/EOS"@.len());
    assert("記号"@.len() != "補助記号"@.len());
    assert("記号"@.len() != "感動詞"@.len());
    assert("記号"@.len() != "連体詞"@.len());
    assert("記号"@.len() != "接頭辞"@.len());
    assert("記号"@.len() != "接頭詞"@.len());
    assert("記号"@.len() != "接尾辞"@.len());
    assert("記号"@[0] != "空白"@[0]);
    assert("記号"@.len() != "フィラー"@.len());
    assert("記号"@.len() != "BOS/EOS"@.len());
    assert("補助記号"@.len() != "感動詞"@.len());
    assert("補助記号"@.len() != "連体詞"@.len());
    assert("補助記号"@.len() != "接頭辞"@.len());
    assert("補助記号"@.len() != "接頭詞"@.len());
    assert("補助記号"@.len() != "接尾辞"@.len());
    assert("補助記号"@.len() != "空白"@.len());
    assert("補助記号"@[0] != "フィラー"@[0]);
    assert("補助記号"@.len() != "BOS/EOS"@.len());
    assert("感動詞"@[0] != "連体詞"@[0]);
    assert("感動詞"@[0] != "接頭辞"@[0]);
    assert("感動詞"@[0] != "接頭詞"@[0]);
    assert("感動詞"@[0] != "接尾辞"@[0]);
    assert("感動詞"@.len() != "空白"@.len());
    assert("感動詞"@.len() != "フィラー"@.len());
    assert("感動詞"@.len() != "BOS/EOS"@.len());
    assert("連体詞"@[0] != "接頭辞"@[0]);
    assert("連体詞"@[0] != "接頭詞"@[0]);
    assert("連体詞"@[0] != "接尾辞"@[0]);
    assert("連体詞"@.len() != "空白"@.len());
    assert("連体詞"@.len() != "フィラー"@.len());
    assert("連体詞"@.len() != "BOS/EOS"@.len());
    assert("接頭辞"@[2] != "接頭詞"@[2]);
    assert("接頭辞"@[1] != "接尾辞"@[1]);
    assert("接頭辞"@.len() != "空白"@.len());
    assert("接頭辞"@.len() != "フィラー"@.len());
    assert("接頭辞"@.len() != "BOS/EOS"@.len());
    assert("接頭詞"@[1] != "接尾辞"@[1]);
    assert("接頭詞"@.len() != "空白"@.len());
    assert("接頭詞"@.len() != "フィラー"@.len());
    assert("接頭詞"@.len() != "BOS/EOS"@.len());
    assert("接尾辞"@.len() != "空白"@.len());
    assert("接尾辞"@.len() != "フィラー"@.len());
    assert("接尾辞"@.len() != "BOS/EOS"@.len());
    assert("空白"@.len() != "フィラー"@.len());
    assert("空白"@.len() != "BOS/EOS"@.len());
    assert("フィラー"@.len() != "BOS/EOS"@.len());
}

/// The categories of the table are pairwise distinct.
proof fn lemma_pos_categories_distinct()
    ensures
        pos_categories_distinct(),
{
    reveal_strlit("BOS/EOS");
    reveal_strlit("Noun");
    reveal_strlit("Pronoun");
    reveal_strlit("Verb");
    reveal_strlit("Adjective");
    reveal_strlit("Adjectival_Noun");
    reveal_strlit("Adverb");
    reveal_strlit("Particle");
    reveal_strlit("Auxiliary");
    reveal_strlit("Conjunction");
    reveal_strlit("Symbol");
    reveal_strlit("Interjection");
    reveal_strlit("Adnominal");
    reveal_strlit("Prefix");
    reveal_strlit("Suffix");
    reveal_strlit("Whitespace");
    reveal_strlit("Filler");
    reveal_strlit("Other");
    assert("Noun"@.len() != "Pronoun"@.len());
    assert("Noun"@[0] != "Verb"@[0]);
    assert("Noun"@.len() != "Adjective"@.len());
    assert("Noun"@.len() != "Adjectival_Noun"@.len());
    assert("Noun"@.len() != "Adverb"@.len());
    assert("Noun"@.len() != "Particle"@.len());
    assert("Noun"@.len() != "Auxiliary"@.len());
    assert("Noun"@.len() != "Conjunction"@.len());
    assert("Noun"@.len() != "Symbol"@.len());
    assert("Noun"@.len() != "Interjection"@.len());
    assert("Noun"@.len() != "Adnominal"@.len());
    assert("Noun"@.len() != "Prefix"@.len());
    assert("Noun"@.len() != "Suffix"@.len());
    assert("Noun"@.len() != "Whitespace"@.len());
    assert("Noun"@.len() != "Filler"@.len());
    assert("Noun"@.len() != "BOS/EOS"@.len());
    assert("Noun"@.len() != "Other"@.len());
    assert("Pronoun"@.len() != "Verb"@.len());
    assert("Pronoun"@.len() != "Adjective"@.len());
    assert("Pronoun"@.len() != "Adjectival_Noun"@.len());
    assert("Pronoun"@.len() != "Adverb"@.len());
    assert("Pronoun"@.len() != "Particle"@.len());
    assert("Pronoun"@.len() != "Auxiliary"@.len());
    assert("Pronoun"@.len() != "Conjunction"@.len());
    assert("Pronoun"@.len() != "Symbol"@.len());
    assert("Pronoun"@.len() != "Interjection"@.len());
    assert("Pronoun"@.len() != "Adnominal"@.len());
    assert("Pronoun"@.len() != "Prefix"@.len());
    assert("Pronoun"@.len() != "Suffix"@.len());
    assert("Pronoun"@.len() != "Whitespace"@.len());
    assert("Pronoun"@.len() != "Filler"@.len());
    assert("Pronoun"@[0] != "BOS/EOS"@[0]);
    assert("Pronoun"@.len() != "Other"@.len());
    assert("Verb"@.len() != "Adjective"@.len());
    assert("Verb"@.len() != "Adjectival_Noun"@.len());
    assert("Verb"@.len() != "Adverb"@.len());
    assert("Verb"@.len() != "Particle"@.len());
    assert("Verb"@.len() != "Auxiliary"@.len());
    assert("Verb"@.len() != "Conjunction"@.len());
    assert("Verb"@.len() != "Symbol"@.len());
    assert("Verb"@.len() != "Interjection"@.len());
    assert("Verb"@.len() != "Adnominal"@.len());
    assert("Verb"@.len() != "Prefix"@.len());
    assert("Verb"@.len() != "Suffix"@.len());
    assert("Verb"@.len() != "Whitespace"@.len());
    assert("Verb"@.len() != "Filler"@.len());
    assert("Verb"@.len() != "BOS/EOS"@.len());
    assert("Verb"@.len() != "Other"@.len());
    assert("Adjective"@.len() != "Adjectival_Noun"@.len());
    assert("Adjective"@.len() != "Adverb"@.len());
    assert("Adjective"@.len() != "Particle"@.len());
    assert("Adjective"@[1] != "Auxiliary"@[1]);
    assert("Adjective"@.len() != "Conjunction"@.len());
    assert("Adjective"@.len() != "Symbol"@.len());
    assert("Adjective"@.len() != "Interjection"@.len());
    assert("Adjective"@[2] != "Adnominal"@[2]);
    assert("Adjective"@.len() != "Prefix"@.len());
    assert("Adjective"@.len() != "Suffix"@.len());
    assert("Adjective"@.len() != "Whitespace"@.len());
    assert("Adjective"@.len() != "Filler"@.len());
    assert("Adjective"@.len() != "BOS/EOS"@.len());
    assert("Adjective"@.len() != "Other"@.len());
    assert("Adjectival_Noun"@.len() != "Adverb"@.len());
    assert("Adjectival_Noun"@.len() != "Particle"@.len());
    assert("Adjectival_Noun"@.len() != "Auxiliary"@.len());
    assert("Adjectival_Noun"@.len() != "Conjunction"@.len());
    assert("Adjectival_Noun"@.len() != "Symbol"@.len());
    assert("Adjectival_Noun"@.len() != "Interjection"@.len());
    assert("Adjectival_Noun"@.len() != "Adnominal"@.len());
    assert("Adjectival_Noun"@.len() != "Prefix"@.len());
    assert("Adjectival_Noun"@.len() != "Suffix"@.len());
    assert("Adjectival_Noun"@.len() != "Whitespace"@.len());
    assert("Adjectival_Noun"@.len() != "Filler"@.len());
    assert("Adjectival_Noun"@.len() != "BOS/EOS"@.len());
    assert("Adjectival_Noun"@.len() != "Other"@.len());
    assert("Adverb"@.len() != "Particle"@.len());
    assert("Adverb"@.len() != "Auxiliary"@.len());
    assert("Adverb"@.len() != "Conjunction"@.len());
    assert("Adverb"@[0] != "Symbol"@[0]);
    assert("Adverb"@.len() != "Interjection"@.len());
    assert("Adverb"@.len() != "Adnominal"@.len());
    assert("Adverb"@[0] != "Prefix"@[0]);
    assert("Adverb"@[0] != "Suffix"@[0]);
    assert("Adverb"@.len() != "Whitespace"@.len());
    assert("Adverb"@[0] != "Filler"@[0]);
    assert("Adverb"@.len() != "BOS/EOS"@.len());
    assert("Adverb"@.len() != "Other"@.len());
    assert("Particle"@.len() != "Auxiliary"@.len());
    assert("Particle"@.len() != "Conjunction"@.len());
    assert("Particle"@.len() != "Symbol"@.len());
    assert("Particle"@.len() != "Interjection"@.len());
    assert("Particle"@.len() != "Adnominal"@.len());
    assert("Particle"@.len() != "Prefix"@.len());
    assert("Particle"@.len() != "Suffix"@.len());
    assert("Particle"@.len() != "Whitespace"@.len());
    assert("Particle"@.len() != "Filler"@.len());
    assert("Particle"@.len() != "BOS/EOS"@.len());
    assert("Particle"@.len() != "Other"@.len());
    assert("Auxiliary"@.len() != "Conjunction"@.len());
    assert("Auxiliary"@.len() != "Symbol"@.len());
    assert("Auxiliary"@.len() != "Interjection"@.len());
    assert("Auxiliary"@[1] != "Adnominal"@[1]);
    assert("Auxiliary"@.len() != "Prefix"@.len());
    assert("Auxiliary"@.len() != "Suffix"@.len());
    assert("Auxiliary"@.len() != "Whitespace"@.len());
    assert("Auxiliary"@.len() != "Filler"@.len());
    assert("Auxiliary"@.len() != "BOS/EOS"@.len());
    assert("Auxiliary"@.len() != "Other"@.len());
    assert("Conjunction"@.len() != "Symbol"@.len());
    assert("Conjunction"@.len() != "Interjection"@.len());
    assert("Conjunction"@.len() != "Adnominal"@.len());
    assert("Conjunction"@.len() != "Prefix"@.len());
    assert("Conjunction"@.len() != "Suffix"@.len());
    assert("Conjunction"@.len() != "Whitespace"@.len());
    assert("Conjunction"@.len() != "Filler"@.len());
    assert("Conjunction"@.len() != "BOS/EOS"@.len());
    assert("Conjunction"@.len() != "Other"@.len());
    assert("Symbol"@.len() != "Interjection"@.len());
    assert("Symbol"@.len() != "Adnominal"@.len());
    assert("Symbol"@[0] != "Prefix"@[0]);
    assert("Symbol"@[1] != "Suffix"@[1]);
    assert("Symbol"@.len() != "Whitespace"@.len());
    assert("Symbol"@[0] != "Filler"@[0]);
    assert("Symbol"@.len() != "BOS/EOS"@.len());
    assert("Symbol"@.len() != "Other"@.len());
    assert("Interjection"@.len() != "Adnominal"@.len());
    assert("Interjection"@.len() != "Prefix"@.len());
    assert("Interjection"@.len() != "Suffix"@.len());
    assert("Interjection"@.len() != "Whitespace"@.len());
    assert("Interjection"@.len() != "Filler"@.len());
    assert("Interjection"@.len() != "BOS/EOS"@.len());
    assert("Interjection"@.len() != "Other"@.len());
    assert("Adnominal"@.len() != "Prefix"@.len());
    assert("Adnominal"@.len() != "Suffix"@.len());
    assert("Adnominal"@.len() != "Whitespace"@.len());
    assert("Adnominal"@.len() != "Filler"@.len());
    assert("Adnominal"@.len() != "BOS/EOS"@.len());
    assert("Adnominal"@.len() != "Other"@.len());
    assert("Prefix"@[0] != "Suffix"@[0]);
    assert("Prefix"@.len() != "Whitespace"@.len());
    assert("Prefix"@[0] != "Filler"@[0]);
    assert("Prefix"@.len() != "BOS/EOS"@.len());
    assert("Prefix"@.len() != "Other"@.len());
    assert("Suffix"@.len() != "Whitespace"@.len());
    assert("Suffix"@[0] != "Filler"@[0]);
    assert("Suffix"@.len() != "BOS/EOS"@.len());
    assert("Suffix"@.len() != "Other"@.len());
    assert("Whitespace"@.len() != "Filler"@.len());
    assert("Whitespace"@.len() != "BOS/EOS"@.len());
    assert("Whitespace"@.len() != "Other"@.len());
    assert("Filler"@.len() != "BOS/EOS"@.len());
    assert("Filler"@.len() != "Other"@.len());
    assert("BOS/EOS"@.len() != "Other"@.len());
}

/// The table of UniDic major part-of-speech tags: each category comes from
/// exactly the tags listed beside it (auxiliary verbs, 助動詞, are not verbs,
/// 動詞), and every tag not listed is Other.
pub proof fn law_pos_category_table(p: Seq<char>)
    ensures
        (pos_category(p) == "Noun"@) <==> (p == "名詞"@),
        (pos_category(p) == "Pronoun"@) <==> (p == "代名詞"@),
        (pos_category(p) == "Verb"@) <==> (p == "動詞"@),
        (pos_category(p) == "Adjective"@) <==> (p == "形容詞"@),
        (pos_category(p) == "Adjectival_Noun"@) <==> (p == "形状詞"@),
        (pos_category(p) == "Adverb"@) <==> (p == "副詞"@),
        (pos_category(p) == "Particle"@) <==> (p == "助詞"@),
        (pos_category(p) == "Auxiliary"@) <==> (p == "助動詞"@),
        (pos_category(p) == "Conjunction"@) <==> (p == "接続詞"@),
        (pos_category(p) == "Symbol"@) <==> (p == "記号"@ || p == "補助記号"@),
        (pos_category(p) == "Interjection"@) <==> (p == "感動詞"@),
        (pos_category(p) == "Adnominal"@) <==> (p == "連体詞"@),
        (pos_category(p) == "Prefix"@) <==> (p == "接頭辞"@ || p == "接頭詞"@),
        (pos_category(p) == "Suffix"@) <==> (p == "接尾辞"@),
        (pos_category(p) == "Whitespace"@) <==> (p == "空白"@),
        (pos_category(p) == "Filler"@) <==> (p == "フィラー"@),
        (pos_category(p) == "BOS/EOS"@) <==> (p == "BOS/EOS"@),
        (pos_category(p) == "Other"@) <==> (p != "名詞"@ && p != "代名詞"@ && p != "動詞"@ && p != "形容詞"@ && p != "形状詞"@ && p != "副詞"@ && p != "助詞"@ && p != "助動詞"@ && p != "接続詞"@ && p != "記号"@ && p != "補助記号"@ && p != "感動詞"@ && p != "連体詞"@ && p != "接頭辞"@ && p != "接頭詞"@ && p != "接尾辞"@ && p != "空白"@ && p != "フィラー"@ && p != "BOS/EOS"@),
{
    lemma_pos_tags_distinct();
    lemma_pos_categories_distinct();
    reveal_strlit("名詞");
    reveal_strlit("代名詞");
    reveal_strlit("動詞");
    reveal_strlit("形容詞");
    reveal_strlit("形状詞");
    reveal_strlit("副詞");
    reveal_strlit("助詞");
    reveal_strlit("助動詞");
    reveal_strlit("接続詞");
    reveal_strlit("記号");
    reveal_strlit("補助記号");
    reveal_strlit("感動詞");
    reveal_strlit("連体詞");
    reveal_strlit("接頭辞");
    reveal_strlit("接頭詞");
    reveal_strlit("接尾辞");
    reveal_strlit("空白");
    reveal_strlit("フィラー");
    reveal_strlit("BOS/EOS");
    reveal_strlit("Noun");
    reveal_strlit("Pronoun");
    reveal_strlit("Verb");
    reveal_strlit("Adjective");
    reveal_strlit("Adjectival_Noun");
    reveal_strlit("Adverb");
    reveal_strlit("Particle");
    reveal_strlit("Auxiliary");
    reveal_strlit("Conjunction");
    reveal_strlit("Symbol");
    reveal_strlit("Interjection");
    reveal_strlit("Adnominal");
    reveal_strlit("Prefix");
    reveal_strlit("Suffix");
    reveal_strlit("Whitespace");
    reveal_strlit("Filler");
    reveal_strlit("Other");
}

/// Map UniDic major POS tags to simplified categories.
/// UniDic uses the same Japanese POS names as IPADIC but with slightly
/// different sub-categories. The major categories are identical.
pub fn map_pos(major_pos: &str) -> (r: &'static str)
    ensures
        r@ == pos_category(major_pos@),
{
    if str_eq(major_pos, "名詞") {
        "Noun"
    } else if str_eq(major_pos, "代名詞") {
        "Pronoun"
    } else if str_eq(major_pos, "動詞") {
        "Verb"
    } else if str_eq(major_pos, "形容詞") {
        "Adjective"
    } else if str_eq(major_pos, "形状詞") {
        "Adjectival_Noun"
    } else if str_eq(major_pos, "副詞") {
        "Adverb"
    } else if str_eq(major_pos, "助詞") {
        "Particle"
    } else if str_eq(major_pos, "助動詞") {
        "Auxiliary"
    } else if str_eq(major_pos, "接続詞") {
        "Conjunction"
    } else if str_eq(major_pos, "記号") {
        "Symbol"
    } else if str_eq(major_pos, "補助記号") {
        "Symbol"
    } else if str_eq(major_pos, "感動詞") {
        "Interjection"
    } else if str_eq(major_pos, "連体詞") {
        "Adnominal"
    } else if str_eq(major_pos, "接頭辞") {
        "Prefix"
    } else if str_eq(major_pos, "接頭詞") {
        "Prefix"
    } else if str_eq(major_pos, "接尾辞") {
        "Suffix"
    } else if str_eq(major_pos, "空白") {
        "Whitespace"
    } else if str_eq(major_pos, "フィラー") {
        "Filler"
    } else if str_eq(major_pos, "BOS/EOS") {
        "BOS/EOS"
    } else {
        "Other"
    }
}

/// Katakana letters (U+30A1..=U+30F6) and their hiragana counterparts, 0x60 below.
pub open spec fn is_katakana(c: char) -> bool {
    0x30A1 <= (c as u32) && (c as u32) <= 0x30F6
}

pub open spec fn kata_to_hira_char(c: char) -> char {
    if is_katakana(c) {
        ((c as u32) - 0x60) as char
    } else {
        c
    }
}

pub open spec fn kata_to_hira(s: Seq<char>) -> Seq<char> {
    s.map_values(|c: char| kata_to_hira_char(c))
}

/// Hiragana counterpart of one character (identity outside katakana).
pub fn katakana_char_to_hiragana(c: char) -> (r: char)
    ensures
        r == kata_to_hira_char(c),
{
    let code = c as u32;
    if 0x30A1 <= code && code <= 0x30F6 {
        match char::from_u32(code - 0x60) {
            Some(h) => h,
            None => c,
        }
    } else {
        c
    }
}

/// Converts the katakana of `v` to hiragana.
pub fn katakana_chars_to_hiragana(v: &[char]) -> (r: String)
    ensures
        r@ == kata_to_hira(v@),
{
    let mut out = String::new();
    let mut i: usize = 0;
    while i < v.len()
        invariant
            i <= v@.len(),
            out@ == kata_to_hira(v@.take(i as int)),
        decreases v.len() - i,
    {
        out.push(katakana_char_to_hiragana(v[i]));
        i += 1;
        assert(kata_to_hira(v@.take(i as int)) == kata_to_hira(v@.take(i - 1)).push(
            kata_to_hira_char(v@[i - 1]),
        ));
    }
    assert(v@.take(v@.len() as int) == v@);
    out
}

/// Convert katakana string to hiragana.
pub fn katakana_to_hiragana(kata: &str) -> (r: String)
    ensures
        r@ == kata_to_hira(kata@),
{
    let v = to_chars(kata);
    katakana_chars_to_hiragana(&v)
}

} // verus!

verus! {

/// Whether the string contains an ASCII letter.
pub open spec fn has_ascii_alpha(s: Seq<char>) -> bool {
    exists|i: int| 0 <= i < s.len() && is_ascii_alpha(#[trigger] s[i])
}

/// A reading typed by the user, normalized for comparison.
pub open spec fn normalized_reading(s: Seq<char>) -> Seq<char> {
    let t = trim(s);
    if has_ascii_alpha(t) {
        kata_to_hira(romaji_conv(lowercase_of(t)))
    } else {
        kata_to_hira(t)
    }
}

/// Normalize user input for reading comparison.
/// Converts romaji to hiragana, katakana to hiragana, and lowercases.
/// If the input is already hiragana/kanji, it passes through unchanged.
pub fn normalize_reading_input(input: &str) -> (r: String)
    ensures
        r@ == normalized_reading(input@),
        crate::text::all_ascii(trim(input@)) ==> r@ == (if has_ascii_alpha(trim(input@)) {
            kata_to_hira(romaji_conv(ascii_lower(trim(input@))))
        } else {
            kata_to_hira(trim(input@))
        }),
{
    let trimmed = trim_str(input);
    let v = to_chars(trimmed.as_str());
    let mut has_ascii = false;
    let mut i: usize = 0;
    while i < v.len()
        invariant
            i <= v@.len(),
            v@ == trim(input@),
            has_ascii == exists|k: int| 0 <= k < i && is_ascii_alpha(#[trigger] v@[k]),
        decreases v.len() - i,
    {
        let c = v[i];
        if ('a' <= c && c <= 'z') || ('A' <= c && c <= 'Z') {
            has_ascii = true;
        }
        i += 1;
    }
    if has_ascii {
        let converted = romaji_to_hiragana(trimmed.as_str());
        katakana_to_hiragana(converted.as_str())
    } else {
        katakana_chars_to_hiragana(&v)
    }
}

/// The trimmed, non-empty pieces among `pieces`.
pub open spec fn nonblank_trimmed(pieces: Seq<Seq<char>>) -> Seq<Seq<char>>
    decreases pieces.len(),
{
    if pieces.len() == 0 {
        Seq::empty()
    } else {
        let r = nonblank_trimmed(pieces.drop_last());
        let t = trim(pieces.last());
        if t.len() > 0 {
            r.push(t)
        } else {
            r
        }
    }
}

pub open spec fn paragraph_sep() -> Seq<char> {
    seq!['\n', '\n']
}

/// Paragraphs of a text: the trimmed non-empty pieces between blank lines.
pub open spec fn paragraphs(text: Seq<char>) -> Seq<Seq<char>> {
    nonblank_trimmed(split_str(text, paragraph_sep()))
}

/// Pushes the trimmed characters `v[a..b]` when they are not blank.
fn push_trimmed_piece(out: &mut Vec<String>, v: &[char], a: usize, b: usize)
    requires
        a <= b <= v@.len(),
    ensures
        strings_view(final(out)@) == if trim(v@.subrange(a as int, b as int)).len() > 0 {
            strings_view(old(out)@).push(trim(v@.subrange(a as int, b as int)))
        } else {
            strings_view(old(out)@)
        },
{
    let piece = string_of_range(v, a, b);
    let pv = to_chars(piece.as_str());
    let t = trim_chars(&pv);
    if t.len() > 0 {
        let s = string_of(&t);
        let ghost prev = out@;
        out.push(s);
        assert(strings_view(out@) == strings_view(prev).push(s@));
    }
}

/// Split text into paragraphs (by double newlines or single newlines with content).
pub fn split_paragraphs(text: &str) -> (r: Vec<String>)
    ensures
        strings_view(r@) == paragraphs(text@),
{
    let v = to_chars(text);
    let mut sep: Vec<char> = Vec::new();
    sep.push('\n');
    sep.push('\n');
    assert(sep@ == paragraph_sep());
    let mut out: Vec<String> = Vec::new();
    let mut from: usize = 0;
    let ghost mut pieces: Seq<Seq<char>> = Seq::empty();
    loop
        invariant_except_break
            from <= v@.len(),
            split_str(v@, sep@) == pieces + split_from(v@, sep@, from as int),
            strings_view(out@) == nonblank_trimmed(pieces),
        invariant
            sep@ == paragraph_sep(),
        ensures
            strings_view(out@) == paragraphs(v@),
        decreases v@.len() - from,
    {
        let k = find_from_exec(&v, &sep, from);
        if k < from || k > v.len() || 2 > v.len() - k {
            proof {
                assert(split_from(v@, sep@, from as int) == seq![v@.subrange(from as int, v@.len() as int)]);
            }
            push_trimmed_piece(&mut out, &v, from, v.len());
            proof {
                let last = v@.subrange(from as int, v@.len() as int);
                assert(pieces.push(last).drop_last() == pieces);
                pieces = pieces.push(last);
                assert(split_str(v@, sep@) == pieces);
                assert(strings_view(out@) == nonblank_trimmed(pieces));
            }
            break;
        }
        proof {
            let piece = v@.subrange(from as int, k as int);
            assert(split_from(v@, sep@, from as int) == seq![piece] + split_from(v@, sep@, k + 2));
            assert(pieces.push(piece).drop_last() == pieces);
        }
        push_trimmed_piece(&mut out, &v, from, k);
        proof {
            let piece = v@.subrange(from as int, k as int);
            assert(pieces + (seq![piece] + split_from(v@, sep@, k + 2)) == pieces.push(piece)
                + split_from(v@, sep@, k + 2));
            pieces = pieces.push(piece);
        }
        from = k + 2;
    }
    out
}

} // verus!

verus! {

/// Opening brackets and quotes that suspend sentence splitting.
pub open spec fn is_open_bracket(c: char) -> bool {
    c == '「' || c == '『' || c == '（' || c == '〈' || c == '《' || c == '【' || c == '｛' || c == '('
}

/// Closing brackets and quotes.
pub open spec fn is_close_bracket(c: char) -> bool {
    c == '」' || c == '』' || c == '）' || c == '〉' || c == '》' || c == '】' || c == '｝' || c == ')'
}

pub open spec fn is_sentence_end(c: char) -> bool {
    c == '。' || c == '！' || c == '？' || c == '\n'
}

fn open_bracket(c: char) -> (r: bool)
    ensures
        r == is_open_bracket(c),
{
    c == '「' || c == '『' || c == '（' || c == '〈' || c == '《' || c == '【' || c == '｛' || c == '('
}

fn close_bracket(c: char) -> (r: bool)
    ensures
        r == is_close_bracket(c),
{
    c == '」' || c == '』' || c == '）' || c == '〉' || c == '》' || c == '】' || c == '｝' || c == ')'
}

/// Bracket depth after reading `c` at depth `d`.
pub open spec fn depth_after(d: nat, c: char) -> nat {
    if is_open_bracket(c) {
        d + 1
    } else if is_close_bracket(c) {
        if d > 0 {
            (d - 1) as nat
        } else {
            0
        }
    } else {
        d
    }
}

/// Number of closing brackets in `ch[j..]` that do not close a bracket opened
/// within `ch[j..]` itself (`close` and `open` are the running counts).
pub open spec fn unmatched_closes(ch: Seq<char>, j: int, close: nat, open: nat) -> nat
    decreases ch.len() - j,
{
    if j < 0 || j >= ch.len() {
        close
    } else {
        let c = ch[j];
        let open1 = if is_open_bracket(c) {
            open + 1
        } else {
            open
        };
        if is_close_bracket(c) {
            if close < open1 {
                unmatched_closes(ch, j + 1, close, (open1 - 1) as nat)
            } else {
                unmatched_closes(ch, j + 1, close + 1, open1)
            }
        } else {
            unmatched_closes(ch, j + 1, close, open1)
        }
    }
}

/// Whether the sentence ends at position `i`, where the bracket depth after
/// reading `ch[i]` is `d`.
pub open spec fn splits_at(ch: Seq<char>, i: int, d: nat) -> bool {
    let c = ch[i];
    if !is_sentence_end(c) {
        false
    } else if d == 0 {
        true
    } else if c == '。' || c == '\n' {
        unmatched_closes(ch, i + 1, 0, 0) < d
    } else {
        false
    }
}

/// Last index of the run of closing brackets that directly follows `i`.
pub open spec fn absorb_end(ch: Seq<char>, i: int) -> int
    decreases ch.len() - i,
{
    if 0 <= i && i + 1 < ch.len() && is_close_bracket(ch[i + 1]) {
        absorb_end(ch, i + 1)
    } else {
        i
    }
}

pub proof fn lemma_absorb_end(ch: Seq<char>, i: int)
    requires
        0 <= i < ch.len(),
    ensures
        i <= absorb_end(ch, i) < ch.len(),
        forall|k: int| i < k <= absorb_end(ch, i) ==> is_close_bracket(#[trigger] ch[k]),
    decreases ch.len() - i,
{
    if i + 1 < ch.len() && is_close_bracket(ch[i + 1]) {
        lemma_absorb_end(ch, i + 1);
    }
}

/// The sentence built so far, trimmed, when it is not blank.
pub open spec fn flush(cur: Seq<char>) -> Seq<Seq<char>> {
    if trim(cur).len() > 0 {
        seq![trim(cur)]
    } else {
        Seq::empty()
    }
}

/// Sentences of `ch[i..]`, given the characters `cur` of the sentence in
/// progress and the bracket depth `d`.
pub open spec fn sentences_from(ch: Seq<char>, i: int, cur: Seq<char>, d: nat) -> Seq<Seq<char>>
    decreases ch.len() - i,
{
    if i < 0 || i >= ch.len() {
        flush(cur)
    } else {
        let c = ch[i];
        let cur1 = cur.push(c);
        let d1 = depth_after(d, c);
        if splits_at(ch, i, d1) {
            let e = absorb_end(ch, i);
            if e < i || e >= ch.len() {
                Seq::empty()
            } else {
                let cur2 = cur1 + ch.subrange(i + 1, e + 1);
                let d2: nat = if d1 >= e - i {
                    (d1 - (e - i)) as nat
                } else {
                    0
                };
                flush(cur2) + sentences_from(ch, e + 1, Seq::empty(), d2)
            }
        } else {
            sentences_from(ch, i + 1, cur1, d1)
        }
    }
}

/// The sentences of a paragraph.
pub open spec fn sentences(p: Seq<char>) -> Seq<Seq<char>> {
    sentences_from(p, 0, Seq::empty(), 0)
}

proof fn lemma_sentences_without_ends(ch: Seq<char>, i: int, cur: Seq<char>, d: nat)
    requires
        0 <= i <= ch.len(),
        forall|k: int| i <= k < ch.len() ==> !is_sentence_end(#[trigger] ch[k]),
    ensures
        sentences_from(ch, i, cur, d) == flush(cur + ch.subrange(i, ch.len() as int)),
    decreases ch.len() - i,
{
    if i < ch.len() {
        lemma_sentences_without_ends(ch, i + 1, cur.push(ch[i]), depth_after(d, ch[i]));
        assert(cur.push(ch[i]) + ch.subrange(i + 1, ch.len() as int) =~= cur + ch.subrange(i, ch.len() as int));
    } else {
        assert(cur + ch.subrange(i, ch.len() as int) =~= cur);
    }
}

/// The characters of `s` other than whitespace, in order.
pub open spec fn without_ws(s: Seq<char>) -> Seq<char>
    decreases s.len(),
{
    if s.len() == 0 {
        Seq::empty()
    } else if crate::text::is_ws(s.last()) {
        without_ws(s.drop_last())
    } else {
        without_ws(s.drop_last()).push(s.last())
    }
}

proof fn lemma_without_ws_add(a: Seq<char>, b: Seq<char>)
    ensures
        without_ws(a + b) == without_ws(a) + without_ws(b),
    decreases b.len(),
{
    if b.len() == 0 {
        assert(a + b =~= a);
        assert(without_ws(a) + without_ws(b) =~= without_ws(a));
    } else {
        lemma_without_ws_add(a, b.drop_last());
        assert((a + b).drop_last() =~= a + b.drop_last());
        assert((a + b).last() == b.last());
        if !crate::text::is_ws(b.last()) {
            assert(without_ws(a) + without_ws(b.drop_last()).push(b.last()) =~= (without_ws(a) + without_ws(
                b.drop_last(),
            )).push(b.last()));
        }
    }
}

proof fn lemma_without_ws_trim_start(s: Seq<char>)
    ensures
        without_ws(crate::text::trim_start(s)) == without_ws(s),
    decreases s.len(),
{
    if s.len() > 0 && crate::text::is_ws(s[0]) {
        lemma_without_ws_trim_start(s.drop_first());
        lemma_without_ws_add(seq![s[0]], s.drop_first());
        assert(seq![s[0]] + s.drop_first() =~= s);
        let one = seq![s[0]];
        assert(one.drop_last() =~= Seq::<char>::empty());
        assert(one.last() == s[0]);
        assert(without_ws(Seq::<char>::empty()) =~= Seq::<char>::empty());
        assert(without_ws(one) == without_ws(one.drop_last()));
        assert(without_ws(one) =~= Seq::<char>::empty());
        assert(Seq::<char>::empty() + without_ws(s.drop_first()) =~= without_ws(s.drop_first()));
    }
}

proof fn lemma_without_ws_trim_end(s: Seq<char>)
    ensures
        without_ws(crate::text::trim_end(s)) == without_ws(s),
    decreases s.len(),
{
    if s.len() > 0 && crate::text::is_ws(s.last()) {
        lemma_without_ws_trim_end(s.drop_last());
    }
}

proof fn lemma_without_ws_flush(x: Seq<char>)
    ensures
        without_ws(crate::text::concat(flush(x))) == without_ws(x),
{
    lemma_without_ws_trim_start(x);
    lemma_without_ws_trim_end(crate::text::trim_start(x));
    if trim(x).len() > 0 {
        let f = flush(x);
        assert(f == seq![trim(x)]);
        assert(f.drop_last() =~= Seq::<Seq<char>>::empty());
        assert(f.last() == trim(x));
        assert(crate::text::concat(Seq::<Seq<char>>::empty()) =~= Seq::<char>::empty());
        assert(crate::text::concat(f) == crate::text::concat(f.drop_last()) + f.last());
        assert(crate::text::concat(f) =~= trim(x));
    } else {
        assert(crate::text::concat(flush(x)) =~= Seq::<char>::empty());
        assert(without_ws(trim(x)) =~= Seq::<char>::empty());
    }
}

proof fn lemma_concat_add(a: Seq<Seq<char>>, b: Seq<Seq<char>>)
    ensures
        crate::text::concat(a + b) == crate::text::concat(a) + crate::text::concat(b),
    decreases b.len(),
{
    if b.len() == 0 {
        assert(a + b =~= a);
        assert(crate::text::concat(a) + crate::text::concat(b) =~= crate::text::concat(a));
    } else {
        lemma_concat_add(a, b.drop_last());
        assert((a + b).drop_last() =~= a + b.drop_last());
        assert((a + b).last() == b.last());
        assert(crate::text::concat(a) + (crate::text::concat(b.drop_last()) + b.last()) =~= (crate::text::concat(a)
            + crate::text::concat(b.drop_last())) + b.last());
    }
}

proof fn lemma_sentences_keep_characters(ch: Seq<char>, i: int, cur: Seq<char>, d: nat)
    requires
        0 <= i <= ch.len(),
    ensures
        without_ws(crate::text::concat(sentences_from(ch, i, cur, d))) == without_ws(cur + ch.subrange(
            i,
            ch.len() as int,
        )),
    decreases ch.len() - i,
{
    if i >= ch.len() {
        lemma_without_ws_flush(cur);
        assert(cur + ch.subrange(i, ch.len() as int) =~= cur);
    } else {
        let c = ch[i];
        let cur1 = cur.push(c);
        let d1 = depth_after(d, c);
        assert(cur1 + ch.subrange(i + 1, ch.len() as int) =~= cur + ch.subrange(i, ch.len() as int));
        if splits_at(ch, i, d1) {
            lemma_absorb_end(ch, i);
            let e = absorb_end(ch, i);
            let cur2 = cur1 + ch.subrange(i + 1, e + 1);
            let d2: nat = if d1 >= e - i {
                (d1 - (e - i)) as nat
            } else {
                0
            };
            lemma_sentences_keep_characters(ch, e + 1, Seq::empty(), d2);
            let rest = sentences_from(ch, e + 1, Seq::empty(), d2);
            lemma_concat_add(flush(cur2), rest);
            lemma_without_ws_add(crate::text::concat(flush(cur2)), crate::text::concat(rest));
            lemma_without_ws_flush(cur2);
            assert(Seq::<char>::empty() + ch.subrange(e + 1, ch.len() as int) =~= ch.subrange(e + 1, ch.len() as int));
            lemma_without_ws_add(cur2, ch.subrange(e + 1, ch.len() as int));
            assert(cur2 + ch.subrange(e + 1, ch.len() as int) =~= cur1 + ch.subrange(i + 1, ch.len() as int));
        } else {
            lemma_sentences_keep_characters(ch, i + 1, cur1, d1);
        }
    }
}

/// Splitting a paragraph into sentences loses, adds and reorders no
/// character other than whitespace: the sentences run together hold the
/// paragraph's other characters, in order.
pub proof fn law_sentences_keep_the_paragraphs_characters(p: Seq<char>)
    ensures
        without_ws(crate::text::concat(sentences(p))) == without_ws(p),
{
    lemma_sentences_keep_characters(p, 0, Seq::empty(), 0);
    assert(Seq::<char>::empty() + p.subrange(0, p.len() as int) =~= p);
}

/// A paragraph without a sentence end (no `。`, `！`, `？` or line break) is
/// one sentence: the paragraph trimmed, or none when it is blank.
pub proof fn law_paragraph_without_sentence_ends_is_one_sentence(p: Seq<char>)
    requires
        forall|k: int| 0 <= k < p.len() ==> !is_sentence_end(#[trigger] p[k]),
    ensures
        sentences(p) == flush(p),
{
    lemma_sentences_without_ends(p, 0, Seq::empty(), 0);
    assert(Seq::<char>::empty() + p.subrange(0, p.len() as int) =~= p);
}

proof fn lemma_sentences_plain_run(ch: Seq<char>, i: int, j: int, cur: Seq<char>)
    requires
        0 <= i <= j <= ch.len(),
        forall|k: int|
            i <= k < j ==> !is_sentence_end(#[trigger] ch[k]) && !is_open_bracket(ch[k])
                && !is_close_bracket(ch[k]),
    ensures
        sentences_from(ch, i, cur, 0) == sentences_from(ch, j, cur + ch.subrange(i, j), 0),
    decreases j - i,
{
    if i < j {
        lemma_sentences_plain_run(ch, i + 1, j, cur.push(ch[i]));
        assert(cur.push(ch[i]) + ch.subrange(i + 1, j) =~= cur + ch.subrange(i, j));
    } else {
        assert(cur + ch.subrange(i, i) =~= cur);
    }
}

proof fn lemma_absorb_run(ch: Seq<char>, i: int, k: int)
    requires
        0 <= i <= k < ch.len(),
        forall|t: int| i < t <= k ==> is_close_bracket(#[trigger] ch[t]),
        k + 1 < ch.len() ==> !is_close_bracket(ch[k + 1]),
    ensures
        absorb_end(ch, i) == k,
    decreases k - i,
{
    if i < k {
        lemma_absorb_run(ch, i + 1, k);
    }
}

/// A full stop, exclamation mark, question mark (`。`, `！`, `？`) or line
/// break outside brackets ends a sentence, together with the closing
/// brackets right after it: a paragraph made of a run `a` without brackets
/// or sentence ends, the end mark `e`, closing brackets `cs`, and a run `b`
/// like `a`, is the two sentences `a` + `e` + `cs` and `b`, each trimmed.
pub proof fn law_sentence_end_outside_brackets_cuts(
    a: Seq<char>,
    e: char,
    cs: Seq<char>,
    b: Seq<char>,
)
    requires
        e == '。' || e == '！' || e == '？' || e == '\n',
        forall|k: int|
            0 <= k < a.len() ==> !is_sentence_end(#[trigger] a[k]) && !is_open_bracket(a[k])
                && !is_close_bracket(a[k]),
        forall|k: int| 0 <= k < cs.len() ==> is_close_bracket(#[trigger] cs[k]),
        forall|k: int|
            0 <= k < b.len() ==> !is_sentence_end(#[trigger] b[k]) && !is_open_bracket(b[k])
                && !is_close_bracket(b[k]),
        trim(a.push(e) + cs).len() > 0,
        trim(b).len() > 0,
    ensures
        sentences(a.push(e) + cs + b) == seq![trim(a.push(e) + cs), trim(b)],
{
    let ch = a.push(e) + cs + b;
    let n = a.len() as int;
    let m = cs.len() as int;
    assert forall|k: int|
        0 <= k < n implies !is_sentence_end(#[trigger] ch[k]) && !is_open_bracket(ch[k])
            && !is_close_bracket(ch[k]) by {
        assert(ch[k] == a[k]);
    }
    lemma_sentences_plain_run(ch, 0, n, Seq::empty());
    assert(Seq::<char>::empty() + ch.subrange(0, n) =~= a);
    assert(ch[n] == e);
    assert(is_sentence_end(e));
    assert(depth_after(0, e) == 0);
    assert(splits_at(ch, n, 0));
    assert forall|t: int| n < t <= n + m implies is_close_bracket(#[trigger] ch[t]) by {
        assert(ch[t] == cs[t - n - 1]);
    }
    if n + m + 1 < ch.len() {
        assert(ch[n + m + 1] == b[0]);
    }
    lemma_absorb_run(ch, n, n + m);
    assert(a.push(e) + ch.subrange(n + 1, n + m + 1) =~= a.push(e) + cs);
    assert(sentences_from(ch, 0, Seq::empty(), 0) == flush(a.push(e) + cs) + sentences_from(
        ch,
        n + m + 1,
        Seq::empty(),
        0,
    ));
    assert forall|k: int| n + m + 1 <= k < ch.len() implies !is_sentence_end(#[trigger] ch[k]) by {
        assert(ch[k] == b[k - n - m - 1]);
    }
    lemma_sentences_without_ends(ch, n + m + 1, Seq::empty(), 0);
    assert(Seq::<char>::empty() + ch.subrange(n + m + 1, ch.len() as int) =~= b);
    assert(flush(a.push(e) + cs) + flush(b) =~= seq![trim(a.push(e) + cs), trim(b)]);
}

proof fn lemma_sentences_quiet_run(ch: Seq<char>, i: int, j: int, cur: Seq<char>, d: nat)
    requires
        0 <= i <= j <= ch.len(),
        forall|k: int|
            i <= k < j ==> !is_open_bracket(#[trigger] ch[k]) && !is_close_bracket(ch[k])
                && !splits_at(ch, k, d),
    ensures
        sentences_from(ch, i, cur, d) == sentences_from(ch, j, cur + ch.subrange(i, j), d),
    decreases j - i,
{
    if i < j {
        lemma_sentences_quiet_run(ch, i + 1, j, cur.push(ch[i]), d);
        assert(cur.push(ch[i]) + ch.subrange(i + 1, j) =~= cur + ch.subrange(i, j));
    } else {
        assert(cur + ch.subrange(i, i) =~= cur);
    }
}

proof fn lemma_unmatched_plain(ch: Seq<char>, j: int, k: int, close: nat, open: nat)
    requires
        0 <= j <= k <= ch.len(),
        forall|t: int| j <= t < k ==> !is_open_bracket(#[trigger] ch[t]) && !is_close_bracket(ch[t]),
    ensures
        unmatched_closes(ch, j, close, open) == unmatched_closes(ch, k, close, open),
    decreases k - j,
{
    if j < k {
        lemma_unmatched_plain(ch, j + 1, k, close, open);
    }
}

/// Sentence ends inside a pair of brackets or quotes do not cut the
/// sentence: a paragraph made of a run `a` without brackets or sentence
/// ends, an opening bracket `o`, any text `m` without brackets (full stops,
/// exclamation and question marks and line breaks included), a closing
/// bracket `cl` and a run `b` like `a`, is one sentence, the paragraph trimmed.
pub proof fn law_sentence_ends_inside_brackets_do_not_cut(
    a: Seq<char>,
    o: char,
    m: Seq<char>,
    cl: char,
    b: Seq<char>,
)
    requires
        o == '「' || o == '『' || o == '（' || o == '〈' || o == '《' || o == '【' || o == '｛' || o == '(',
        cl == '」' || cl == '』' || cl == '）' || cl == '〉' || cl == '》' || cl == '】' || cl == '｝'
            || cl == ')',
        forall|k: int|
            0 <= k < a.len() ==> !is_sentence_end(#[trigger] a[k]) && !is_open_bracket(a[k])
                && !is_close_bracket(a[k]),
        forall|k: int| 0 <= k < m.len() ==> !is_open_bracket(#[trigger] m[k]) && !is_close_bracket(m[k]),
        forall|k: int|
            0 <= k < b.len() ==> !is_sentence_end(#[trigger] b[k]) && !is_open_bracket(b[k])
                && !is_close_bracket(b[k]),
    ensures
        sentences(a.push(o) + m.push(cl) + b) == seq![trim(a.push(o) + m.push(cl) + b)],
{
    let ch = a.push(o) + m.push(cl) + b;
    let n = a.len() as int;
    let q = n + 1 + m.len();
    assert forall|k: int|
        0 <= k < n implies !is_sentence_end(#[trigger] ch[k]) && !is_open_bracket(ch[k])
            && !is_close_bracket(ch[k]) by {
        assert(ch[k] == a[k]);
    }
    lemma_sentences_plain_run(ch, 0, n, Seq::empty());
    assert(Seq::<char>::empty() + ch.subrange(0, n) =~= a);
    assert(ch[n] == o);
    assert(depth_after(0, o) == 1);
    assert(!splits_at(ch, n, 1));
    assert(sentences_from(ch, n, a, 0) == sentences_from(ch, n + 1, a.push(o), 1));
    assert(ch[q] == cl);
    assert forall|t: int| q + 1 <= t < ch.len() implies !is_open_bracket(#[trigger] ch[t])
        && !is_close_bracket(ch[t]) by {
        assert(ch[t] == b[t - q - 1]);
    }
    lemma_unmatched_plain(ch, q + 1, ch.len() as int, 1, 0);
    assert(unmatched_closes(ch, q, 0, 0) == 1);
    assert forall|k: int| n + 1 <= k < q implies !is_open_bracket(#[trigger] ch[k])
        && !is_close_bracket(ch[k]) && !splits_at(ch, k, 1) by {
        assert(ch[k] == m[k - n - 1]);
        assert forall|t: int| k + 1 <= t < q implies !is_open_bracket(#[trigger] ch[t])
            && !is_close_bracket(ch[t]) by {
            assert(ch[t] == m[t - n - 1]);
        }
        lemma_unmatched_plain(ch, k + 1, q, 0, 0);
    }
    lemma_sentences_quiet_run(ch, n + 1, q, a.push(o), 1);
    let cur = a.push(o) + ch.subrange(n + 1, q);
    assert(depth_after(1, cl) == 0);
    assert(!splits_at(ch, q, 0));
    assert(sentences_from(ch, q, cur, 1) == sentences_from(ch, q + 1, cur.push(cl), 0));
    assert forall|k: int| q + 1 <= k < ch.len() implies !is_sentence_end(#[trigger] ch[k]) by {
        assert(ch[k] == b[k - q - 1]);
    }
    lemma_sentences_without_ends(ch, q + 1, cur.push(cl), 0);
    assert(cur.push(cl) + ch.subrange(q + 1, ch.len() as int) =~= ch);
    lemma_trim_keeps_non_ws(ch, n);
}

/// Inside a bracket that is never closed, a full stop or line break still
/// ends the sentence: a run `a` without brackets or sentence ends, an
/// opening bracket `o`, a run `m` like `a`, the mark `e`, and a run `b` like
/// `a`, are the two sentences `a` + `o` + `m` + `e` and `b`, each trimmed.
pub proof fn law_full_stop_in_unclosed_bracket_cuts(
    a: Seq<char>,
    o: char,
    m: Seq<char>,
    e: char,
    b: Seq<char>,
)
    requires
        o == '「' || o == '『' || o == '（' || o == '〈' || o == '《' || o == '【' || o == '｛' || o == '(',
        e == '。' || e == '\n',
        forall|k: int|
            0 <= k < a.len() ==> !is_sentence_end(#[trigger] a[k]) && !is_open_bracket(a[k])
                && !is_close_bracket(a[k]),
        forall|k: int|
            0 <= k < m.len() ==> !is_sentence_end(#[trigger] m[k]) && !is_open_bracket(m[k])
                && !is_close_bracket(m[k]),
        forall|k: int|
            0 <= k < b.len() ==> !is_sentence_end(#[trigger] b[k]) && !is_open_bracket(b[k])
                && !is_close_bracket(b[k]),
        trim(b).len() > 0,
    ensures
        sentences(a.push(o) + m.push(e) + b) == seq![trim(a.push(o) + m.push(e)), trim(b)],
{
    let ch = a.push(o) + m.push(e) + b;
    let n = a.len() as int;
    let q = n + 1 + m.len();
    assert forall|k: int|
        0 <= k < n implies !is_sentence_end(#[trigger] ch[k]) && !is_open_bracket(ch[k])
            && !is_close_bracket(ch[k]) by {
        assert(ch[k] == a[k]);
    }
    lemma_sentences_plain_run(ch, 0, n, Seq::empty());
    assert(Seq::<char>::empty() + ch.subrange(0, n) =~= a);
    assert(ch[n] == o);
    assert(depth_after(0, o) == 1);
    assert(!splits_at(ch, n, 1));
    assert(sentences_from(ch, n, a, 0) == sentences_from(ch, n + 1, a.push(o), 1));
    assert forall|k: int| n + 1 <= k < q implies !is_open_bracket(#[trigger] ch[k])
        && !is_close_bracket(ch[k]) && !splits_at(ch, k, 1) by {
        assert(ch[k] == m[k - n - 1]);
    }
    lemma_sentences_quiet_run(ch, n + 1, q, a.push(o), 1);
    let cur = a.push(o) + ch.subrange(n + 1, q);
    assert(cur.push(e) =~= a.push(o) + m.push(e));
    assert(ch[q] == e);
    assert forall|t: int| q + 1 <= t < ch.len() implies !is_open_bracket(#[trigger] ch[t])
        && !is_close_bracket(ch[t]) by {
        assert(ch[t] == b[t - q - 1]);
    }
    lemma_unmatched_plain(ch, q + 1, ch.len() as int, 0, 0);
    assert(depth_after(1, e) == 1);
    assert(splits_at(ch, q, 1));
    if q + 1 < ch.len() {
        assert(ch[q + 1] == b[0]);
    }
    assert(absorb_end(ch, q) == q);
    assert(cur.push(e) + ch.subrange(q + 1, q + 1) =~= cur.push(e));
    assert(sentences_from(ch, q, cur, 1) == flush(cur.push(e)) + sentences_from(
        ch,
        q + 1,
        Seq::empty(),
        1,
    ));
    assert forall|k: int| q + 1 <= k < ch.len() implies !is_sentence_end(#[trigger] ch[k]) by {
        assert(ch[k] == b[k - q - 1]);
    }
    lemma_sentences_without_ends(ch, q + 1, Seq::empty(), 1);
    assert(Seq::<char>::empty() + ch.subrange(q + 1, ch.len() as int) =~= b);
    lemma_trim_keeps_non_ws(a.push(o) + m.push(e), n);
    assert(flush(cur.push(e)) + flush(b) =~= seq![trim(a.push(o) + m.push(e)), trim(b)]);
}

/// Whether the bracket opened before `i + 1` stays open: `unmatched_closes(ch, i + 1, 0, 0) < d`.
fn bracket_stays_open(ch: &Vec<char>, i: usize, d: usize) -> (r: bool)
    requires
        i < ch.len(),
    ensures
        r == (unmatched_closes(ch@, i + 1, 0, 0) < d),
{
    let mut close_count: usize = 0;
    let mut open_count: usize = 0;
    let mut j: usize = i + 1;
    while j < ch.len()
        invariant
            i + 1 <= j <= ch@.len(),
            close_count + open_count <= j - (i + 1),
            unmatched_closes(ch@, i + 1, 0, 0) == unmatched_closes(
                ch@,
                j as int,
                close_count as nat,
                open_count as nat,
            ),
        decreases ch.len() - j,
    {
        let ahead = ch[j];
        if open_bracket(ahead) {
            open_count += 1;
        }
        if close_bracket(ahead) {
            if close_count < open_count {
                open_count -= 1;
            } else {
                close_count += 1;
            }
        }
        j += 1;
    }
    close_count < d
}

/// Pushes the trimmed sentence `cur` when it is not blank.
fn flush_into(out: &mut Vec<String>, cur: &Vec<char>)
    ensures
        strings_view(final(out)@) == strings_view(old(out)@) + flush(cur@),
{
    let t = trim_chars(cur);
    if t.len() > 0 {
        let s = string_of(&t);
        let ghost prev = out@;
        out.push(s);
        assert(strings_view(out@) == strings_view(prev).push(s@));
        assert(strings_view(prev) + flush(cur@) == strings_view(prev).push(t@));
    } else {
        assert(strings_view(out@) + flush(cur@) == strings_view(out@));
    }
}

proof fn lemma_subrange_push(s: Seq<char>, a: int, b: int)
    requires
        0 <= a <= b < s.len(),
    ensures
        s.subrange(a, b + 1) == s.subrange(a, b).push(s[b]),
{
    assert(s.subrange(a, b + 1) =~= s.subrange(a, b).push(s[b]));
}

/// Split a paragraph into sentences.
/// Splits on Japanese sentence-ending punctuation: 。！？ and newlines,
/// but NOT when inside quotation marks 「」『』 or parentheses （）〈〉.
/// Closing brackets/quotes immediately after a sentence-ender are absorbed
/// into the same sentence (e.g. `！？）` stays together).
pub fn split_sentences(paragraph: &str) -> (r: Vec<String>)
    ensures
        strings_view(r@) == sentences(paragraph@),
{
    let mut sentences_out: Vec<String> = Vec::new();
    let mut current: Vec<char> = Vec::new();
    let mut depth: usize = 0;
    let chars = to_chars(paragraph);
    let len = chars.len();
    let mut i: usize = 0;
    while i < len
        invariant
            len == chars@.len(),
            i <= len,
            depth <= i,
            sentences(chars@) == strings_view(sentences_out@) + sentences_from(
                chars@,
                i as int,
                current@,
                depth as nat,
            ),
        decreases len - i,
    {
        let c = chars[i];
        let ghost cur0 = current@;
        let ghost d0 = depth as nat;
        let ghost i0 = i as int;
        current.push(c);
        if open_bracket(c) {
            depth += 1;
        } else if close_bracket(c) {
            depth = if depth > 0 {
                depth - 1
            } else {
                0
            };
        }
        assert(depth as nat == depth_after(d0, c));
        let is_end = c == '。' || c == '！' || c == '？' || c == '\n';
        let should_split = if !is_end {
            false
        } else if depth == 0 {
            true
        } else if c == '。' || c == '\n' {
            bracket_stays_open(&chars, i, depth)
        } else {
            false
        };
        assert(should_split == splits_at(chars@, i0, depth as nat));
        if should_split {
            let ghost d1 = depth as nat;
            let ghost cur1 = current@;
            proof {
                lemma_absorb_end(chars@, i0);
                assert(chars@.subrange(i0 + 1, i0 + 1) == Seq::<char>::empty());
                assert(current@ == cur1 + chars@.subrange(i0 + 1, i + 1));
            }
            while i + 1 < len && close_bracket(chars[i + 1])
                invariant
                    len == chars@.len(),
                    0 <= i0 <= i < len,
                    depth <= i,
                    absorb_end(chars@, i0) == absorb_end(chars@, i as int),
                    current@ == cur1 + chars@.subrange(i0 + 1, i + 1),
                    depth as nat == (if d1 >= i - i0 {
                        (d1 - (i - i0)) as nat
                    } else {
                        0nat
                    }),
                decreases len - i,
            {
                i += 1;
                let ghost before = current@;
                current.push(chars[i]);
                depth = if depth > 0 {
                    depth - 1
                } else {
                    0
                };
                proof {
                    lemma_subrange_push(chars@, i0 + 1, i as int);
                }
                assert(current@ == cur1 + chars@.subrange(i0 + 1, i + 1));
            }
            assert(absorb_end(chars@, i as int) == i);
            flush_into(&mut sentences_out, &current);
            current = Vec::new();
            assert(sentences_from(chars@, i0, cur0, d0) == flush(cur1 + chars@.subrange(i0 + 1, i + 1)) + sentences_from(chars@, i + 1, Seq::empty(), depth as nat));
        }
        i += 1;
    }
    flush_into(&mut sentences_out, &current);
    sentences_out
}

} // verus!

verus! {

#[verifier::external_type_specification]
#[verifier::external_body]
pub struct ExDictionary(lindera::dictionary::Dictionary);

#[verifier::external_type_specification]
#[verifier::external_body]
pub struct ExSegmenter(lindera::segmenter::Segmenter);

/// Abstract value of a [`TokenInfo`].
pub struct TokenInfoView {
    pub surface: Seq<char>,
    pub base_form: Seq<char>,
    pub reading: Seq<char>,
    pub surface_reading: Seq<char>,
    pub pos: Seq<char>,
    pub conjugation_form: Seq<char>,
    pub conjugation_type: Seq<char>,
}

impl View for TokenInfo {
    type V = TokenInfoView;

    open spec fn view(&self) -> TokenInfoView {
        TokenInfoView {
            surface: self.surface@,
            base_form: self.base_form@,
            reading: self.reading@,
            surface_reading: self.surface_reading@,
            pos: self.pos@,
            conjugation_form: self.conjugation_form@,
            conjugation_type: self.conjugation_type@,
        }
    }
}

/// A token as the morphological analyzer produces it: its surface text and
/// the dictionary's detail fields.
pub struct SegmentedToken {
    pub surface: String,
    pub details: Vec<String>,
}

/// UniDic detail `i` (0-based), `*` when absent.
///
/// UniDic detail indices: 0 part of speech, 4 conjugation type, 5 conjugation
/// form, 6 lemma reading (katakana), 7 lexeme, 9 surface pronunciation,
/// 10 orthographic base form.
pub open spec fn detail_at(d: Seq<Seq<char>>, i: int) -> Seq<char> {
    if 0 <= i < d.len() {
        d[i]
    } else {
        "*"@
    }
}

/// The written base form: orthographic base form, else lexeme, else surface.
pub open spec fn base_form_of(surface: Seq<char>, d: Seq<Seq<char>>) -> Seq<char> {
    if detail_at(d, 10) != "*"@ {
        detail_at(d, 10)
    } else if detail_at(d, 7) != "*"@ {
        detail_at(d, 7)
    } else {
        surface
    }
}

/// A katakana reading in hiragana, empty when the dictionary has none.
pub open spec fn reading_of(kata: Seq<char>) -> Seq<char> {
    let r = kata_to_hira(kata);
    if r == "*"@ {
        Seq::empty()
    } else {
        r
    }
}

/// The token information derived from a segmented token.
pub open spec fn token_info_of(surface: Seq<char>, d: Seq<Seq<char>>) -> TokenInfoView {
    TokenInfoView {
        surface: surface,
        base_form: base_form_of(surface, d),
        reading: reading_of(detail_at(d, 6)),
        surface_reading: reading_of(detail_at(d, 9)),
        pos: pos_category(detail_at(d, 0)),
        conjugation_form: star_to_empty(detail_at(d, 5)),
        conjugation_type: star_to_empty(detail_at(d, 4)),
    }
}

fn detail<'a>(d: &'a Vec<String>, i: usize) -> (r: &'a str)
    ensures
        r@ == detail_at(strings_view(d@), i as int),
{
    if i < d.len() {
        d[i].as_str()
    } else {
        "*"
    }
}

fn reading_from(kata: &str) -> (r: String)
    ensures
        r@ == reading_of(kata@),
{
    let reading = katakana_to_hiragana(kata);
    if str_eq(reading.as_str(), "*") {
        String::new()
    } else {
        reading
    }
}

/// Builds the token information of one segmented token.
pub fn token_info_from_segment(tok: &SegmentedToken) -> (r: TokenInfo)
    ensures
        r@ == token_info_of(tok.surface@, strings_view(tok.details@)),
{
    let d = &tok.details;
    let ortho = detail(d, 10);
    let base_form = if !str_eq(ortho, "*") {
        String::from_str(ortho)
    } else {
        let lexeme = detail(d, 7);
        if !str_eq(lexeme, "*") {
            String::from_str(lexeme)
        } else {
            tok.surface.clone()
        }
    };
    TokenInfo {
        surface: tok.surface.clone(),
        base_form,
        reading: reading_from(detail(d, 6)),
        surface_reading: reading_from(detail(d, 9)),
        pos: String::from_str(map_pos(detail(d, 0))),
        conjugation_form: normalize_star(detail(d, 5)),
        conjugation_type: normalize_star(detail(d, 4)),
    }
}

pub open spec fn token_views(v: Seq<TokenInfo>) -> Seq<TokenInfoView> {
    v.map_values(|t: TokenInfo| t@)
}

/// A segmented token as plain values: its surface and its detail fields.
pub open spec fn segment_view(t: SegmentedToken) -> (Seq<char>, Seq<Seq<char>>) {
    (t.surface@, strings_view(t.details@))
}

/// The token information of each segment, given as surface and details.
pub open spec fn infos_of(segs: Seq<(Seq<char>, Seq<Seq<char>>)>) -> Seq<TokenInfoView> {
    segs.map_values(|p: (Seq<char>, Seq<Seq<char>>)| token_info_of(p.0, p.1))
}

pub open spec fn infos_of_segments(raw: Seq<SegmentedToken>) -> Seq<TokenInfoView> {
    infos_of(raw.map_values(|t: SegmentedToken| segment_view(t)))
}

/// The token information of each segmented token, in order.
pub fn tokens_from_segments(raw: &Vec<SegmentedToken>) -> (r: Vec<TokenInfo>)
    ensures
        token_views(r@) == infos_of_segments(raw@),
{
    let mut out: Vec<TokenInfo> = Vec::new();
    let mut i: usize = 0;
    while i < raw.len()
        invariant
            i <= raw@.len(),
            token_views(out@) == infos_of_segments(raw@.take(i as int)),
        decreases raw.len() - i,
    {
        let t = token_info_from_segment(&raw[i]);
        let ghost prev = out@;
        out.push(t);
        i += 1;
        assert(token_views(out@) == token_views(prev).push(t@));
        assert(infos_of_segments(raw@.take(i as int)) == infos_of_segments(raw@.take(i - 1)).push(
            token_info_of(raw@[i - 1].surface@, strings_view(raw@[i - 1].details@)),
        ));
    }
    assert(raw@.take(raw@.len() as int) == raw@);
    out
}

/// Calls `lindera::dictionary::load_dictionary`; the error is rendered as text.
/// Whether the dictionary can be loaded depends on how lindera was built, so
/// nothing is stated of the result.
#[verifier::external_body]
fn load_dictionary(uri: &str) -> (r: Result<lindera::dictionary::Dictionary, String>) {
    lindera::dictionary::load_dictionary(uri).map_err(|e| format!("{}", e))
}

/// Calls `lindera::segmenter::Segmenter::new` in normal mode without a user
/// dictionary.
#[verifier::external_body]
fn new_segmenter(dictionary: lindera::dictionary::Dictionary) -> (r: lindera::segmenter::Segmenter) {
    lindera::segmenter::Segmenter::new(lindera::mode::Mode::Normal, dictionary, None)
}

/// A morphological analyzer over the UniDic dictionary that lindera embeds,
/// in normal mode and without a user dictionary. Only [`create_tokenizer`]
/// makes one.
pub struct UnidicTokenizer {
    segmenter: lindera::segmenter::Segmenter,
}

/// What lindera's segmenter over its embedded UniDic dictionary, in normal
/// mode and without a user dictionary, makes of a text: for each token, its
/// surface text and the dictionary's detail fields, in order.
pub uninterp spec fn unidic_segments(text: Seq<char>) -> Seq<(Seq<char>, Seq<Seq<char>>)>;

/// Calls `lindera::segmenter::Segmenter::segment` and hands out, for each
/// token, its surface text and detail fields; the error is rendered as text.
/// The analyzer is always the embedded UniDic one, so a successful result is
/// [`unidic_segments`] of the text; when the call fails is not stated.
#[verifier::external_body]
fn segment(tok: &UnidicTokenizer, text: &str) -> (r: Result<Vec<SegmentedToken>, String>)
    ensures
        r matches Ok(v) ==> v@.map_values(|t: SegmentedToken| segment_view(t)) == unidic_segments(text@),
{
    let tokens = tok.segmenter.segment(std::borrow::Cow::Borrowed(text)).map_err(|e| format!("{}", e))?;
    Ok(tokens
        .into_iter()
        .map(|mut t| SegmentedToken {
            surface: t.surface.to_string(),
            details: t.details().iter().map(|s| s.to_string()).collect(),
        })
        .collect())
}

/// The message of a dictionary that failed to load: this prefix, followed
/// by the loader's own message.
pub open spec fn load_failure(e: Seq<char>) -> bool {
    crate::text::starts_with(e, "Failed to load UniDic dictionary: "@)
}

/// The message of a sentence that the analyzer failed on: this prefix,
/// followed by the analyzer's own message.
pub open spec fn tokenize_failure(e: Seq<char>) -> bool {
    crate::text::starts_with(e, "Tokenization failed: "@)
}

/// Initialize a morphological analyzer with the bundled UniDic dictionary.
/// Creating one is expensive (loads dictionary data), so callers processing
/// multiple sentences should create one and reuse it with `tokenize_with()`.
pub fn create_tokenizer() -> (r: Result<UnidicTokenizer, String>)
    ensures
        r matches Err(e) ==> load_failure(e@),
{
    match load_dictionary("embedded://unidic") {
        Ok(dictionary) => Ok(UnidicTokenizer { segmenter: new_segmenter(dictionary) }),
        Err(e) => {
            let mut msg = String::from_str("Failed to load UniDic dictionary: ");
            let ghost head = msg@;
            crate::text::push_str(&mut msg, e.as_str());
            assert(msg@.subrange(0, head.len() as int) =~= head);
            Err(msg)
        },
    }
}

/// Tokenize a sentence using an existing analyzer instance.
/// This avoids the cost of re-loading the dictionary for every sentence.
pub fn tokenize_with(tokenizer: &UnidicTokenizer, text: &str) -> (r: Result<Vec<TokenInfo>, String>)
    ensures
        r matches Ok(v) ==> token_views(v@) == infos_of(unidic_segments(text@)),
        r matches Err(e) ==> tokenize_failure(e@),
{
    match segment(tokenizer, text) {
        Ok(raw) => {
            let v = tokens_from_segments(&raw);
            Ok(v)
        },
        Err(e) => {
            let mut msg = String::from_str("Tokenization failed: ");
            let ghost head = msg@;
            crate::text::push_str(&mut msg, e.as_str());
            assert(msg@.subrange(0, head.len() as int) =~= head);
            Err(msg)
        },
    }
}

/// Tokenize a sentence into morphological tokens.
/// Creates a new analyzer each call — for batch processing, use
/// `create_tokenizer()` + `tokenize_with()` instead.
pub fn tokenize_sentence(text: &str) -> (r: Result<Vec<TokenInfo>, String>)
    ensures
        r matches Ok(v) ==> token_views(v@) == infos_of(unidic_segments(text@)),
        r matches Err(e) ==> load_failure(e@) || tokenize_failure(e@),
{
    let tokenizer = create_tokenizer()?;
    tokenize_with(&tokenizer, text)
}

} // verus!

verus! {

/// Converting katakana to hiragana keeps the length and leaves no katakana letter behind.
pub proof fn law_katakana_to_hiragana_leaves_no_katakana(s: Seq<char>)
    ensures
        kata_to_hira(s).len() == s.len(),
        forall|i: int| 0 <= i < s.len() ==> !is_katakana(#[trigger] kata_to_hira(s)[i]),
{
    assert forall|i: int| 0 <= i < s.len() implies !is_katakana(#[trigger] kata_to_hira(s)[i]) by {
        let c = s[i];
        if is_katakana(c) {
            let x: u32 = ((c as u32) - 0x60) as u32;
            assert(0x3041 <= x <= 0x3096);
            assert(((x as char) as u32) == x);
        }
    }
}

/// Converting katakana to hiragana twice is the same as converting once.
pub proof fn law_katakana_to_hiragana_idempotent(s: Seq<char>)
    ensures
        kata_to_hira(kata_to_hira(s)) == kata_to_hira(s),
{
    law_katakana_to_hiragana_leaves_no_katakana(s);
    assert(kata_to_hira(kata_to_hira(s)) =~= kata_to_hira(s));
}

/// Text without katakana is left unchanged by the katakana conversion.
pub proof fn law_katakana_to_hiragana_identity_without_katakana(s: Seq<char>)
    requires
        forall|i: int| 0 <= i < s.len() ==> !is_katakana(#[trigger] s[i]),
    ensures
        kata_to_hira(s) == s,
{
    assert(kata_to_hira(s) =~= s);
}

/// Input that is already hiragana or kanji (no ASCII letters, no katakana)
/// passes through reading normalization unchanged, apart from trimming.
pub proof fn law_reading_input_passthrough(s: Seq<char>)
    requires
        !has_ascii_alpha(trim(s)),
        forall|i: int| 0 <= i < s.len() ==> !is_katakana(#[trigger] s[i]),
    ensures
        normalized_reading(s) == trim(s),
{
    lemma_trim_is_infix(s);
    let t = trim(s);
    let a = choose|a: int| 0 <= a && a + t.len() <= s.len() && #[trigger] s.subrange(a, a + t.len()) == t;
    assert forall|i: int| 0 <= i < t.len() implies !is_katakana(#[trigger] t[i]) by {
        assert(t[i] == s[a + i]);
    }
    law_katakana_to_hiragana_identity_without_katakana(t);
}

proof fn lemma_nonblank_trimmed_shape(pieces: Seq<Seq<char>>)
    ensures
        forall|k: int|
            0 <= k < nonblank_trimmed(pieces).len() ==> (#[trigger] nonblank_trimmed(pieces)[k]).len()
                > 0 && trim(nonblank_trimmed(pieces)[k]) == nonblank_trimmed(pieces)[k],
    decreases pieces.len(),
{
    if pieces.len() > 0 {
        lemma_nonblank_trimmed_shape(pieces.drop_last());
        lemma_trim_idempotent(pieces.last());
        let r = nonblank_trimmed(pieces.drop_last());
        let t = trim(pieces.last());
        if t.len() > 0 {
            assert forall|k: int| 0 <= k < r.push(t).len() implies (#[trigger] r.push(t)[k]).len()
                > 0 && trim(r.push(t)[k]) == r.push(t)[k] by {
                if k < r.len() {
                    assert(r.push(t)[k] == r[k]);
                }
            }
        }
    }
}

/// Every paragraph is non-empty and has no surrounding whitespace.
pub proof fn law_paragraphs_are_trimmed_and_nonempty(text: Seq<char>)
    ensures
        forall|k: int|
            0 <= k < paragraphs(text).len() ==> (#[trigger] paragraphs(text)[k]).len() > 0 && trim(
                paragraphs(text)[k],
            ) == paragraphs(text)[k],
{
    lemma_nonblank_trimmed_shape(split_str(text, paragraph_sep()));
}

proof fn lemma_nonblank_trimmed_lacks(pieces: Seq<Seq<char>>, p: Seq<char>)
    requires
        forall|k: int| 0 <= k < pieces.len() ==> !contains_seq(#[trigger] pieces[k], p),
    ensures
        forall|k: int|
            0 <= k < nonblank_trimmed(pieces).len() ==> !contains_seq(
                #[trigger] nonblank_trimmed(pieces)[k],
                p,
            ),
    decreases pieces.len(),
{
    if pieces.len() > 0 {
        let init = pieces.drop_last();
        assert forall|k: int| 0 <= k < init.len() implies !contains_seq(#[trigger] init[k], p) by {
            assert(init[k] == pieces[k]);
        }
        lemma_nonblank_trimmed_lacks(init, p);
        let s = pieces.last();
        let t = trim(s);
        lemma_trim_is_infix(s);
        let a = choose|a: int| 0 <= a && a + t.len() <= s.len() && #[trigger] s.subrange(a, a + t.len()) == t;
        assert(!contains_seq(s, p));
        lemma_part_lacks(s, p, a, a + t.len());
        let r = nonblank_trimmed(init);
        if t.len() > 0 {
            assert forall|k: int| 0 <= k < r.push(t).len() implies !contains_seq(
                #[trigger] r.push(t)[k],
                p,
            ) by {
                if k < r.len() {
                    assert(r.push(t)[k] == r[k]);
                }
            }
        }
    }
}

/// No paragraph holds a blank-line separator: the text is split at every
/// `"\n\n"`.
pub proof fn law_paragraphs_hold_no_blank_line(text: Seq<char>)
    ensures
        forall|k: int|
            0 <= k < paragraphs(text).len() ==> !contains_seq(
                #[trigger] paragraphs(text)[k],
                paragraph_sep(),
            ),
{
    lemma_split_pieces_lack_sep(text, paragraph_sep(), 0);
    lemma_nonblank_trimmed_lacks(split_str(text, paragraph_sep()), paragraph_sep());
}

proof fn lemma_sentences_from_shape(ch: Seq<char>, i: int, cur: Seq<char>, d: nat)
    ensures
        forall|k: int|
            0 <= k < sentences_from(ch, i, cur, d).len() ==> (#[trigger] sentences_from(
                ch,
                i,
                cur,
                d,
            )[k]).len() > 0 && trim(sentences_from(ch, i, cur, d)[k]) == sentences_from(
                ch,
                i,
                cur,
                d,
            )[k],
    decreases ch.len() - i,
{
    if i < 0 || i >= ch.len() {
        lemma_trim_idempotent(cur);
        assert(sentences_from(ch, i, cur, d) == flush(cur));
    } else {
        let c = ch[i];
        let cur1 = cur.push(c);
        let d1 = depth_after(d, c);
        if splits_at(ch, i, d1) {
            let e = absorb_end(ch, i);
            if !(e < i || e >= ch.len()) {
                let cur2 = cur1 + ch.subrange(i + 1, e + 1);
                let d2: nat = if d1 >= e - i {
                    (d1 - (e - i)) as nat
                } else {
                    0
                };
                lemma_trim_idempotent(cur2);
                lemma_sentences_from_shape(ch, e + 1, Seq::empty(), d2);
                let r = sentences_from(ch, e + 1, Seq::empty(), d2);
                assert(sentences_from(ch, i, cur, d) == flush(cur2) + r);
                assert forall|k: int| 0 <= k < (flush(cur2) + r).len() implies (#[trigger] (flush(
                    cur2,
                ) + r)[k]).len() > 0 && trim((flush(cur2) + r)[k]) == (flush(cur2) + r)[k] by {
                    if k >= flush(cur2).len() {
                        assert((flush(cur2) + r)[k] == r[k - flush(cur2).len()]);
                    }
                }
            }
        } else {
            lemma_sentences_from_shape(ch, i + 1, cur1, d1);
            assert(sentences_from(ch, i, cur, d) == sentences_from(ch, i + 1, cur1, d1));
        }
    }
}

/// Every sentence is non-empty and has no surrounding whitespace.
pub proof fn law_sentences_are_trimmed_and_nonempty(p: Seq<char>)
    ensures
        forall|k: int|
            0 <= k < sentences(p).len() ==> (#[trigger] sentences(p)[k]).len() > 0 && trim(
                sentences(p)[k],
            ) == sentences(p)[k],
{
    lemma_sentences_from_shape(p, 0, Seq::empty(), 0);
}

} // verus!

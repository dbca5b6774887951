//! Importing plain text: splitting it into paragraphs and sentences and
//! tokenizing them before anything is stored, and what storing a token does
//! to the vocabulary.
use vstd::prelude::*;
use crate::text::{trim, str_eq};
use crate::tokenizer::{
    TokenInfo, TokenInfoView, SegmentedToken, create_tokenizer, tokenize_with, split_paragraphs, infos_of, unidic_segments,
    split_sentences, paragraphs, sentences, strings_view, token_views, infos_of_segments,
    numeric_str, ascii_only_str, token_is_trivial, is_numeric, is_ascii_only, load_failure, tokenize_failure,
};

verus! {

/// Pre-tokenized paragraph data for two-phase import.
pub struct PreTokenizedParagraph {
    pub position: i32,
    pub content: String,
    pub sentences: Vec<PreTokenizedSentence>,
}

/// Pre-tokenized sentence data.
pub struct PreTokenizedSentence {
    pub sentence_index: i32,
    pub tokens: Vec<TokenInfo>,
}

/// The tokens of a sentence are the token information of what the UniDic
/// analyzer makes of the sentence.
pub open spec fn tokenized(tokens: Seq<TokenInfo>, sentence: Seq<char>) -> bool {
    token_views(tokens) == infos_of(unidic_segments(sentence))
}

/// A pre-tokenized paragraph at position `i` of a text: its content is the
/// text's `i`th paragraph, and its sentences are that paragraph's sentences,
/// numbered in order, each holding the tokens of that sentence.
pub open spec fn pretokenized_paragraph(p: PreTokenizedParagraph, i: int, text: Seq<char>) -> bool {
    let par = paragraphs(text)[i];
    &&& p.position == i as i32
    &&& p.content@ == par
    &&& p.sentences@.len() == sentences(par).len()
    &&& forall|j: int|
        0 <= j < p.sentences@.len() ==> (#[trigger] p.sentences@[j]).sentence_index == j as i32
            && tokenized(p.sentences@[j].tokens@, sentences(par)[j])
}

/// A text split into its paragraphs and sentences, each sentence tokenized.
pub open spec fn pretokenized_text(v: Seq<PreTokenizedParagraph>, text: Seq<char>) -> bool {
    &&& v.len() == paragraphs(text).len()
    &&& forall|i: int| 0 <= i < v.len() ==> pretokenized_paragraph(#[trigger] v[i], i, text)
}

/// Phase 1: Tokenize text in memory without any database access.
/// Returns pre-tokenized data that can be written to the database later.
pub fn pretokenize_text(content: &str) -> (r: Result<Vec<PreTokenizedParagraph>, String>)
    ensures
        r matches Ok(v) ==> pretokenized_text(v@, content@),
        r matches Err(e) ==> load_failure(e@) || tokenize_failure(e@),
{
    let no_progress = |done: usize, total: usize| {};
    pretokenize_text_with_progress(content, &no_progress)
}

/// Phase 1 with progress callback: `on_progress(paragraphs_done, paragraphs_total)`
/// is called after each paragraph.
pub fn pretokenize_text_with_progress<F: Fn(usize, usize)>(content: &str, on_progress: &F) -> (r: Result<
    Vec<PreTokenizedParagraph>,
    String,
>)
    requires
        forall|done: usize, total: usize| call_requires(*on_progress, (done, total)),
    ensures
        r matches Ok(v) ==> pretokenized_text(v@, content@),
        r matches Err(e) ==> load_failure(e@) || tokenize_failure(e@),
{
    let tok = create_tokenizer()?;
    let paras = split_paragraphs(content);
    let total = paras.len();
    let mut result: Vec<PreTokenizedParagraph> = Vec::new();
    let mut p: usize = 0;
    while p < total
        invariant
            total == paras@.len(),
            p <= total,
            strings_view(paras@) == paragraphs(content@),
            result@.len() == p,
            forall|done: usize, t: usize| call_requires(*on_progress, (done, t)),
            forall|i: int| 0 <= i < p ==> pretokenized_paragraph(#[trigger] result@[i], i, content@),
        decreases total - p,
    {
        let sents = split_sentences(paras[p].as_str());
        let mut sentences: Vec<PreTokenizedSentence> = Vec::new();
        let mut j: usize = 0;
        while j < sents.len()
            invariant
                j <= sents@.len(),
                sentences@.len() == j,
                strings_view(sents@) == crate::tokenizer::sentences(paras@[p as int]@),
                forall|k: int|
                    0 <= k < j ==> (#[trigger] sentences@[k]).sentence_index == k as i32 && tokenized(
                        sentences@[k].tokens@,
                        sents@[k]@,
                    ),
            decreases sents.len() - j,
        {
            let tokens = tokenize_with(&tok, sents[j].as_str())?;
            assert(strings_view(sents@)[j as int] == sents@[j as int]@);
            sentences.push(PreTokenizedSentence { sentence_index: j as i32, tokens });
            j += 1;
        }
        assert(strings_view(paras@)[p as int] == paras@[p as int]@);
        assert forall|k: int| 0 <= k < sentences@.len() implies tokenized(
            sentences@[k].tokens@,
            crate::tokenizer::sentences(paras@[p as int]@)[k],
        ) by {
            assert(strings_view(sents@)[k] == sents@[k]@);
        }
        let par = PreTokenizedParagraph {
            position: p as i32,
            content: paras[p].clone(),
            sentences,
        };
        assert(pretokenized_paragraph(par, p as int, content@));
        result.push(par);
        on_progress(p + 1, total);
        p += 1;
        assert forall|i: int| 0 <= i < p implies pretokenized_paragraph(#[trigger] result@[i], i, content@) by {
            if i < p - 1 {
            }
        }
    }
    Ok(result)
}

// ─── Storing tokens ─────────────────────────────────────────────────

/// Parts of speech whose words are ignored as soon as they are stored.
pub open spec fn auto_ignored_pos(pos: Seq<char>) -> bool {
    pos == "Particle"@ || pos == "Auxiliary"@ || pos == "Conjunction"@ || pos == "Prefix"@
}

/// A stored word is ignored from the start when it is a particle,
/// auxiliary, conjunction or prefix, or its surface is numeric or ASCII.
pub open spec fn auto_ignored(pos: Seq<char>, surface: Seq<char>) -> bool {
    auto_ignored_pos(pos) || numeric_str(surface) || ascii_only_str(surface)
}

/// What storing a token does to the vocabulary.
pub struct TokenStorePlan {
    /// The token's word (base form, reading, part of speech) is recorded as vocabulary.
    pub record_vocabulary: bool,
    /// The word is set to Ignored when it is still New.
    pub auto_ignore: bool,
    /// The token's surface is recorded as a conjugation of the word.
    pub record_conjugation: bool,
}

/// What storing `token` does: non-trivial tokens with a base form are
/// recorded as vocabulary; of those, particles, auxiliaries, conjunctions,
/// prefixes, numbers and ASCII text are ignored from the start, and those
/// whose surface differs from their base form record a conjugation.
pub fn token_store_plan(token: &TokenInfo) -> (r: TokenStorePlan)
    ensures
        r.record_vocabulary == (!token_is_trivial(token.pos@, token.surface@) && token.base_form@.len() > 0),
        r.auto_ignore == (r.record_vocabulary && auto_ignored(token.pos@, token.surface@)),
        r.record_conjugation == (r.record_vocabulary && token.surface@ != token.base_form@),
{
    let record = !token.is_trivial() && !token.base_form.as_str().is_empty();
    if !record {
        return TokenStorePlan { record_vocabulary: false, auto_ignore: false, record_conjugation: false };
    }
    let pos = token.pos.as_str();
    let ignore = str_eq(pos, "Particle") || str_eq(pos, "Auxiliary") || str_eq(pos, "Conjunction")
        || str_eq(pos, "Prefix") || is_numeric(token.surface.as_str()) || is_ascii_only(
        token.surface.as_str(),
    );
    let conj = !str_eq(token.surface.as_str(), token.base_form.as_str());
    TokenStorePlan { record_vocabulary: true, auto_ignore: ignore, record_conjugation: conj }
}

} // verus!

//! Tokenizer file formats and batch tokenization results.

use vstd::prelude::*;
use crate::messaging::filters::string_views;
use crate::messaging::types::strings_contain;
use crate::ml::error::MLError;
use crate::text::{chars_of, has_suffix, opt_view, vec_has_suffix};

verus! {

/// Supported tokenizer formats that can be auto-detected.
#[derive(Debug, Clone, PartialEq, Eq)]
pub enum TokenizerFormat {
    /// Modern tokenizer.json format (preferred)
    Modern { tokenizer_file: String, config_file: Option<String>, special_tokens_file: Option<String> },
    /// Legacy BERT-style format with vocab.txt
    BertLegacy { vocab_file: String, config_file: Option<String>, special_tokens_file: Option<String> },
    /// SentencePiece format
    SentencePiece { model_file: String, config_file: Option<String>, special_tokens_file: Option<String> },
    /// BPE format with vocab.json and merges.txt
    Bpe {
        vocab_file: String,
        merges_file: String,
        config_file: Option<String>,
        special_tokens_file: Option<String>,
    },
}

/// A tokenizer format with its file names as character sequences.
pub enum TokenizerFormatView {
    Modern { tokenizer_file: Seq<char>, config_file: Option<Seq<char>>, special_tokens_file: Option<Seq<char>> },
    BertLegacy { vocab_file: Seq<char>, config_file: Option<Seq<char>>, special_tokens_file: Option<Seq<char>> },
    SentencePiece { model_file: Seq<char>, config_file: Option<Seq<char>>, special_tokens_file: Option<Seq<char>> },
    Bpe {
        vocab_file: Seq<char>,
        merges_file: Seq<char>,
        config_file: Option<Seq<char>>,
        special_tokens_file: Option<Seq<char>>,
    },
}

impl View for TokenizerFormat {
    type V = TokenizerFormatView;

    open spec fn view(&self) -> TokenizerFormatView {
        match self {
            TokenizerFormat::Modern { tokenizer_file, config_file, special_tokens_file } => TokenizerFormatView::Modern {
                tokenizer_file: tokenizer_file@,
                config_file: opt_view(*config_file),
                special_tokens_file: opt_view(*special_tokens_file),
            },
            TokenizerFormat::BertLegacy { vocab_file, config_file, special_tokens_file } => TokenizerFormatView::BertLegacy {
                vocab_file: vocab_file@,
                config_file: opt_view(*config_file),
                special_tokens_file: opt_view(*special_tokens_file),
            },
            TokenizerFormat::SentencePiece { model_file, config_file, special_tokens_file } => TokenizerFormatView::SentencePiece {
                model_file: model_file@,
                config_file: opt_view(*config_file),
                special_tokens_file: opt_view(*special_tokens_file),
            },
            TokenizerFormat::Bpe { vocab_file, merges_file, config_file, special_tokens_file } => TokenizerFormatView::Bpe {
                vocab_file: vocab_file@,
                merges_file: merges_file@,
                config_file: opt_view(*config_file),
                special_tokens_file: opt_view(*special_tokens_file),
            },
        }
    }
}

/// `name` if the repository holds a file of that name.
pub open spec fn optional_file(files: Seq<Seq<char>>, name: Seq<char>) -> Option<Seq<char>> {
    if files.contains(name) {
        Some(name)
    } else {
        None
    }
}

/// Whether a file name is that of a SentencePiece model.
pub open spec fn is_sentencepiece_model(f: Seq<char>) -> bool {
    has_suffix(f, ".model"@) || f == "sentencepiece.bpe.model"@
}

/// Whether `i` is the position of the first SentencePiece model among `files`.
pub open spec fn first_sentencepiece_at(files: Seq<Seq<char>>, i: int) -> bool {
    &&& 0 <= i < files.len()
    &&& is_sentencepiece_model(files[i])
    &&& forall|j: int| 0 <= j < i ==> !is_sentencepiece_model(#[trigger] files[j])
}

/// The tokenizer format that a repository holding `files` is read in, by
/// preference: `tokenizer.json`; `vocab.json` with `merges.txt`; the first
/// SentencePiece model; `vocab.txt`. Each names the configuration and
/// special-tokens files when they are present. `None` when none of these is
/// there.
pub open spec fn detected_format(files: Seq<Seq<char>>) -> Option<TokenizerFormatView> {
    let config_file = optional_file(files, "tokenizer_config.json"@);
    let special_tokens_file = optional_file(files, "special_tokens_map.json"@);
    if files.contains("tokenizer.json"@) {
        Some(TokenizerFormatView::Modern { tokenizer_file: "tokenizer.json"@, config_file, special_tokens_file })
    } else if files.contains("vocab.json"@) && files.contains("merges.txt"@) {
        Some(TokenizerFormatView::Bpe {
            vocab_file: "vocab.json"@,
            merges_file: "merges.txt"@,
            config_file,
            special_tokens_file,
        })
    } else if exists|i: int| first_sentencepiece_at(files, i) {
        Some(TokenizerFormatView::SentencePiece {
            model_file: files[choose|i: int| first_sentencepiece_at(files, i)],
            config_file,
            special_tokens_file,
        })
    } else if files.contains("vocab.txt"@) {
        Some(TokenizerFormatView::BertLegacy { vocab_file: "vocab.txt"@, config_file, special_tokens_file })
    } else {
        None
    }
}

/// What `format!("{:?}", ..)` renders a list of strings as (std's `Debug`
/// for slices and strings).
pub uninterp spec fn debug_listing(items: Seq<Seq<char>>) -> Seq<char>;

/// Renders a list of strings with std's `Debug` impl for slices of strings.
/// Trusted: the text is named, as a function of the strings alone.
#[verifier::external_body]
fn debug_strings(items: &Vec<String>) -> (s: String)
    ensures
        s@ == debug_listing(string_views(items@)),
{
    format!("{:?}", items)
}

/// The message of the error for a repository whose tokenizer format is not
/// recognised.
pub open spec fn undetected_format_message(model_id: Seq<char>, files: Seq<Seq<char>>) -> Seq<char> {
    "Could not detect tokenizer format for model: "@ + model_id + ". Available files: "@ + debug_listing(files)
        + ". Supported formats: tokenizer.json (modern), vocab.json+merges.txt (BPE), *.model (SentencePiece), vocab.txt (BERT legacy)"@
}

/// `Some(name)` if the repository holds a file of that name.
fn optional_file_of(files: &Vec<String>, name: &str) -> (r: Option<String>)
    ensures
        opt_view(r) == optional_file(string_views(files@), name@),
{
    if strings_contain(files, name) {
        Some(String::from_str(name))
    } else {
        None
    }
}

/// Whether a file name is that of a SentencePiece model.
fn is_sentencepiece_file(f: &str) -> (r: bool)
    ensures
        r == is_sentencepiece_model(f@),
{
    let chars = chars_of(f);
    let suffix = chars_of(".model");
    vec_has_suffix(&chars, &suffix) || crate::text::str_eq(f, "sentencepiece.bpe.model")
}

/// Detect the tokenizer format of model `model_id` from the names of the files
/// its repository holds. A repository without a recognised format gives a
/// tokenization error naming the model and listing the files.
pub fn detect_tokenizer_format(model_id: &str, files: &Vec<String>) -> (r: Result<TokenizerFormat, MLError>)
    ensures
        match r {
            Ok(f) => detected_format(string_views(files@)) == Some(f@),
            Err(e) => detected_format(string_views(files@)) is None
                && (e matches MLError::Tokenization(m) && m@ == undetected_format_message(model_id@, string_views(files@))),
        },
{
    let ghost fv = string_views(files@);
    let config_file = optional_file_of(files, "tokenizer_config.json");
    let special_tokens_file = optional_file_of(files, "special_tokens_map.json");
    if strings_contain(files, "tokenizer.json") {
        return Ok(TokenizerFormat::Modern {
            tokenizer_file: String::from_str("tokenizer.json"),
            config_file,
            special_tokens_file,
        });
    }
    if strings_contain(files, "vocab.json") && strings_contain(files, "merges.txt") {
        return Ok(TokenizerFormat::Bpe {
            vocab_file: String::from_str("vocab.json"),
            merges_file: String::from_str("merges.txt"),
            config_file,
            special_tokens_file,
        });
    }
    let mut i: usize = 0;
    while i < files.len()
        invariant
            i <= files@.len(),
            fv == string_views(files@),
            !fv.contains("tokenizer.json"@),
            !(fv.contains("vocab.json"@) && fv.contains("merges.txt"@)),
            opt_view(config_file) == optional_file(fv, "tokenizer_config.json"@),
            opt_view(special_tokens_file) == optional_file(fv, "special_tokens_map.json"@),
            forall|j: int| 0 <= j < i ==> !is_sentencepiece_model(#[trigger] fv[j]),
        decreases files.len() - i,
    {
        if is_sentencepiece_file(files[i].as_str()) {
            proof {
                assert(first_sentencepiece_at(fv, i as int));
                let c = choose|k: int| first_sentencepiece_at(fv, k);
                assert(c == i) by {
                    if c < i {
                        assert(!is_sentencepiece_model(fv[c]));
                    } else if c > i {
                        assert(!is_sentencepiece_model(fv[i as int]));
                    }
                }
            }
            return Ok(TokenizerFormat::SentencePiece {
                model_file: String::from_str(files[i].as_str()),
                config_file,
                special_tokens_file,
            });
        }
        i += 1;
    }
    assert(!exists|k: int| first_sentencepiece_at(fv, k));
    if strings_contain(files, "vocab.txt") {
        return Ok(TokenizerFormat::BertLegacy {
            vocab_file: String::from_str("vocab.txt"),
            config_file,
            special_tokens_file,
        });
    }
    let listing = debug_strings(files);
    let message = String::from_str("Could not detect tokenizer format for model: ")
        .concat(model_id)
        .concat(". Available files: ")
        .concat(listing.as_str())
        .concat(". Supported formats: tokenizer.json (modern), vocab.json+merges.txt (BPE), *.model (SentencePiece), vocab.txt (BERT legacy)");
    Err(MLError::Tokenization(message))
}

/// The results of tokenizing a batch: token IDs and attention mask for each
/// input.
#[derive(Debug, Clone, PartialEq, Eq)]
pub struct TokenizeResult {
    /// Token IDs for each input
    pub token_ids: Vec<Vec<u32>>,
    /// Attention mask for each input
    pub attention_mask: Vec<Vec<u32>>,
}

impl Default for TokenizeResult {
    fn default() -> (r: Self)
        ensures
            r.token_ids@.len() == 0,
            r.attention_mask@.len() == 0,
    {
        TokenizeResult { token_ids: Vec::new(), attention_mask: Vec::new() }
    }
}

/// The number views of a sequence of vectors of numbers.
pub open spec fn u32_views(v: Seq<Vec<u32>>) -> Seq<Seq<u32>> {
    v.map_values(|x: Vec<u32>| x@)
}

/// The length of the longest of `seqs` (0 when there is none).
pub open spec fn longest(seqs: Seq<Seq<u32>>) -> nat
    decreases seqs.len(),
{
    if seqs.len() == 0 {
        0
    } else {
        let rest = longest(seqs.drop_last());
        if seqs.last().len() > rest {
            seqs.last().len()
        } else {
            rest
        }
    }
}

/// `v` cut or extended with copies of `x` to length `n` (what `Vec::resize`
/// does).
pub open spec fn resized(v: Seq<u32>, n: nat, x: u32) -> Seq<u32> {
    if v.len() >= n {
        v.take(n as int)
    } else {
        v + Seq::new((n - v.len()) as nat, |_i: int| x)
    }
}

/// No sequence is longer than `longest`, and when there is one, one is that
/// long.
pub proof fn lemma_longest_bounds(seqs: Seq<Seq<u32>>)
    ensures
        forall|i: int| 0 <= i < seqs.len() ==> (#[trigger] seqs[i]).len() <= longest(seqs),
        seqs.len() > 0 ==> exists|i: int| 0 <= i < seqs.len() && (#[trigger] seqs[i]).len() == longest(seqs),
    decreases seqs.len(),
{
    if seqs.len() > 0 {
        let rest = seqs.drop_last();
        lemma_longest_bounds(rest);
        assert forall|i: int| 0 <= i < seqs.len() implies (#[trigger] seqs[i]).len() <= longest(seqs) by {
            if i < seqs.len() - 1 {
                assert(seqs[i] == rest[i]);
            }
        }
        if seqs.last().len() > longest(rest) {
            assert(seqs[seqs.len() - 1].len() == longest(seqs));
        } else if rest.len() > 0 {
            let k = choose|k: int| 0 <= k < rest.len() && (#[trigger] rest[k]).len() == longest(rest);
            assert(seqs[k] == rest[k]);
        } else {
            assert(seqs[0].len() == longest(seqs));
        }
    }
}

/// A copy of `v` cut or extended with copies of `x` to length `n`.
fn resize_copy(v: &Vec<u32>, n: usize, x: u32) -> (r: Vec<u32>)
    ensures
        r@ == resized(v@, n as nat, x),
{
    let mut out: Vec<u32> = Vec::new();
    let mut i: usize = 0;
    while i < n && i < v.len()
        invariant
            i <= n,
            i <= v.len(),
            out@ == v@.take(i as int),
        decreases n - i,
    {
        out.push(v[i]);
        i += 1;
        assert(out@ =~= v@.take(i as int));
    }
    let ghost kept = out@;
    while i < n
        invariant
            i <= n,
            v.len() <= n ==> kept == v@,
            v.len() > n ==> i == n,
            kept.len() <= i,
            out@ == kept + Seq::new((i - kept.len()) as nat, |_j: int| x),
        decreases n - i,
    {
        out.push(x);
        i += 1;
        assert(out@ =~= kept + Seq::new((i - kept.len()) as nat, |_j: int| x));
    }
    proof {
        if v@.len() >= n {
            assert(out@ =~= v@.take(n as int));
        } else {
            assert(kept == v@.take(v@.len() as int));
            assert(kept =~= v@);
            assert(out@ =~= resized(v@, n as nat, x));
        }
    }
    out
}

/// Bring every sequence of a batch to the length of the longest: token IDs
/// are extended with the padding token (`pad_id`, or 0 when the tokenizer has
/// none), and the attention mask of each extended sequence is resized to that
/// length with zeros. Sequences that are already that long keep their mask.
pub fn pad_to_longest(token_ids: Vec<Vec<u32>>, attention_mask: Vec<Vec<u32>>, pad_id: Option<u32>) -> (r: TokenizeResult)
    ensures
        ({
            let ids = u32_views(token_ids@);
            let masks = u32_views(attention_mask@);
            let n = longest(ids);
            let pad = match pad_id { Some(p) => p, None => 0u32 };
            &&& u32_views(r.token_ids@) == Seq::new(ids.len(), |i: int| resized(ids[i], n, pad))
            &&& u32_views(r.attention_mask@) == Seq::new(masks.len(), |i: int|
                    if i < ids.len() && ids[i].len() < n { resized(masks[i], n, 0) } else { masks[i] })
        }),
{
    let ghost ids = u32_views(token_ids@);
    let ghost masks = u32_views(attention_mask@);
    let pad: u32 = match pad_id {
        Some(p) => p,
        None => 0,
    };
    let mut n: usize = 0;
    let mut i: usize = 0;
    while i < token_ids.len()
        invariant
            i <= token_ids@.len(),
            ids == u32_views(token_ids@),
            n == longest(ids.take(i as int)),
        decreases token_ids.len() - i,
    {
        assert(ids.take(i + 1).drop_last() =~= ids.take(i as int));
        if token_ids[i].len() > n {
            n = token_ids[i].len();
        }
        i += 1;
    }
    assert(ids.take(ids.len() as int) =~= ids);
    proof {
        lemma_longest_bounds(ids);
    }
    let mut out_ids: Vec<Vec<u32>> = Vec::new();
    let mut j: usize = 0;
    while j < token_ids.len()
        invariant
            j <= token_ids@.len(),
            ids == u32_views(token_ids@),
            out_ids@.len() == j,
            forall|q: int| 0 <= q < j ==> (#[trigger] out_ids@[q])@ == resized(ids[q], n as nat, pad),
        decreases token_ids.len() - j,
    {
        let v = resize_copy(&token_ids[j], n, pad);
        assert(ids[j as int] == token_ids@[j as int]@);
        out_ids.push(v);
        j += 1;
    }
    let mut out_masks: Vec<Vec<u32>> = Vec::new();
    let mut k: usize = 0;
    while k < attention_mask.len()
        invariant
            k <= attention_mask@.len(),
            ids == u32_views(token_ids@),
            masks == u32_views(attention_mask@),
            out_masks@.len() == k,
            forall|q: int| 0 <= q < k ==> (#[trigger] out_masks@[q])@ == (
                if q < ids.len() && ids[q].len() < n { resized(masks[q], n as nat, 0) } else { masks[q] }),
        decreases attention_mask.len() - k,
    {
        let v = if k < token_ids.len() && token_ids[k].len() < n {
            resize_copy(&attention_mask[k], n, 0)
        } else {
            resize_copy(&attention_mask[k], attention_mask[k].len(), 0)
        };
        proof {
            let m = masks[k as int];
            assert(m == attention_mask@[k as int]@);
            assert(resized(m, m.len(), 0) =~= m);
            if k < ids.len() {
                assert(ids[k as int] == token_ids@[k as int]@);
            }
        }
        out_masks.push(v);
        k += 1;
    }
    assert(u32_views(out_ids@) =~= Seq::new(ids.len(), |q: int| resized(ids[q], n as nat, pad)));
    assert(u32_views(out_masks@) =~= Seq::new(masks.len(), |q: int|
        if q < ids.len() && ids[q].len() < n { resized(masks[q], n as nat, 0) } else { masks[q] }));
    TokenizeResult { token_ids: out_ids, attention_mask: out_masks }
}

/// The most tokens a combined encoding keeps.
pub const COMBINED_MAX_TOKENS: usize = 512;

/// `s` cut to at most `COMBINED_MAX_TOKENS` items.
pub open spec fn cut_to_limit(s: Seq<u32>) -> Seq<u32> {
    if s.len() > COMBINED_MAX_TOKENS {
        s.take(COMBINED_MAX_TOKENS as int)
    } else {
        s
    }
}

/// Combine the encodings of several texts into one: nothing for no text, the
/// single encoding unchanged for one text, and otherwise the token IDs of all
/// texts in order, and their attention masks in order, cut to
/// `COMBINED_MAX_TOKENS` items each when the token IDs run longer.
pub fn combine_encodings(token_ids: Vec<Vec<u32>>, attention_mask: Vec<Vec<u32>>) -> (r: TokenizeResult)
    requires
        token_ids@.len() == attention_mask@.len(),
    ensures
        ({
            let ids = u32_views(token_ids@);
            let masks = u32_views(attention_mask@);
            &&& ids.len() == 0 ==> r.token_ids@.len() == 0 && r.attention_mask@.len() == 0
            &&& ids.len() == 1 ==> u32_views(r.token_ids@) == ids && u32_views(r.attention_mask@) == masks
            &&& ids.len() > 1 ==> {
                &&& u32_views(r.token_ids@) == seq![cut_to_limit(ids.flatten())]
                &&& u32_views(r.attention_mask@) == seq![
                    if ids.flatten().len() > COMBINED_MAX_TOKENS { cut_to_limit(masks.flatten()) } else { masks.flatten() }
                ]
            }
        }),
{
    let ghost ids = u32_views(token_ids@);
    let ghost masks = u32_views(attention_mask@);
    if token_ids.len() == 0 {
        return TokenizeResult { token_ids: Vec::new(), attention_mask: Vec::new() };
    }
    if token_ids.len() == 1 {
        assert(u32_views(token_ids@) =~= ids);
        return TokenizeResult { token_ids, attention_mask };
    }
    let mut all_ids: Vec<u32> = Vec::new();
    let mut all_masks: Vec<u32> = Vec::new();
    let mut i: usize = 0;
    while i < token_ids.len()
        invariant
            i <= token_ids@.len(),
            token_ids@.len() == attention_mask@.len(),
            ids == u32_views(token_ids@),
            masks == u32_views(attention_mask@),
            all_ids@ == ids.take(i as int).flatten(),
            all_masks@ == masks.take(i as int).flatten(),
        decreases token_ids.len() - i,
    {
        let mut t = resize_copy(&token_ids[i], token_ids[i].len(), 0);
        let mut m = resize_copy(&attention_mask[i], attention_mask[i].len(), 0);
        proof {
            assert(resized(ids[i as int], ids[i as int].len(), 0) =~= ids[i as int]);
            assert(resized(masks[i as int], masks[i as int].len(), 0) =~= masks[i as int]);
            assert(ids.take(i + 1) =~= ids.take(i as int).push(ids[i as int]));
            assert(masks.take(i + 1) =~= masks.take(i as int).push(masks[i as int]));
            ids.take(i as int).lemma_flatten_push(ids[i as int]);
            masks.take(i as int).lemma_flatten_push(masks[i as int]);
        }
        all_ids.append(&mut t);
        all_masks.append(&mut m);
        i += 1;
    }
    assert(ids.take(ids.len() as int) =~= ids);
    assert(masks.take(masks.len() as int) =~= masks);
    assert(all_ids@ == ids.flatten());
    assert(all_masks@ == masks.flatten());
    if all_ids.len() > COMBINED_MAX_TOKENS {
        all_ids.truncate(COMBINED_MAX_TOKENS);
        all_masks.truncate(COMBINED_MAX_TOKENS);
        assert(all_ids@ =~= cut_to_limit(ids.flatten()));
        assert(all_masks@ =~= cut_to_limit(masks.flatten()));
    }
    let ghost final_ids = all_ids@;
    let ghost final_masks = all_masks@;
    assert(final_ids == cut_to_limit(ids.flatten()));
    assert(final_masks == (if ids.flatten().len() > COMBINED_MAX_TOKENS { cut_to_limit(masks.flatten()) } else { masks.flatten() }));
    let mut out_ids: Vec<Vec<u32>> = Vec::new();
    let mut out_masks: Vec<Vec<u32>> = Vec::new();
    out_ids.push(all_ids);
    out_masks.push(all_masks);
    assert(u32_views(out_ids@) =~= seq![final_ids]);
    assert(u32_views(out_masks@) =~= seq![final_masks]);
    TokenizeResult { token_ids: out_ids, attention_mask: out_masks }
}

} // verus!

//! The dictionary loader and the target selector.
//!
//! The loader turns a plain text block — one candidate word per line,
//! arbitrary case, arbitrary surrounding whitespace — into the ordered list
//! of normalized (trimmed, uppercased) non-empty words. The selector filters
//! that list down to the words of the configured length and picks one of
//! them; the caller supplies the random draw, so selection itself is a pure,
//! deterministic function and can be tested with a seeded draw.

use vstd::prelude::*;

use crate::game::GameConfig;
use vstd::string::StrSliceExecFns;

verus! {

/// The word list of one line of input, as `str::lines` splits the text:
/// one element per line, line terminators removed.
pub uninterp spec fn line_seqs(text: Seq<char>) -> Seq<Seq<char>>;

/// A word with its leading and trailing whitespace removed, as `str::trim`
/// removes it.
pub uninterp spec fn trimmed(w: Seq<char>) -> Seq<char>;

/// The uppercase form of a word, as `str::to_uppercase` maps it.
pub uninterp spec fn uppercased(w: Seq<char>) -> Seq<char>;

/// Relies on `str::lines`: splits the text at line breaks, one element per
/// line, without the terminators; an empty text has no lines.
#[verifier::external_body]
fn split_lines(text: &str) -> (lines: Vec<String>)
    ensures
        lines.deep_view() == line_seqs(text@),
        text@.len() == 0 ==> lines@.len() == 0,
{
    text.lines().map(|l| l.to_string()).collect()
}

/// Relies on `str::trim`: removes leading and trailing whitespace; an empty
/// word stays empty.
#[verifier::external_body]
fn trim_word(w: &str) -> (r: &str)
    ensures
        r@ == trimmed(w@),
        w@.len() == 0 ==> r@.len() == 0,
{
    w.trim()
}

/// Relies on `str::to_uppercase`: the result depends on the characters
/// alone; an empty word stays empty.
#[verifier::external_body]
fn uppercase_word(w: &str) -> (r: String)
    ensures
        r@ == uppercased(w@),
        w@.len() == 0 ==> r@.len() == 0,
{
    w.to_uppercase()
}

/// The normalized form of one line of input.
pub open spec fn normalized(w: Seq<char>) -> Seq<char> {
    uppercased(trimmed(w))
}

/// The normalized forms of the given lines, in order, empty results
/// dropped.
pub open spec fn kept_words(lines: Seq<Seq<char>>) -> Seq<Seq<char>>
    decreases lines.len(),
{
    if lines.len() == 0 {
        Seq::empty()
    } else {
        kept_words(lines.drop_last()) + if normalized(lines.last()).len() > 0 {
            seq![normalized(lines.last())]
        } else {
            Seq::empty()
        }
    }
}

/// What loading a word list from a block of text yields.
pub open spec fn loaded_words(text: Seq<char>) -> Seq<Seq<char>> {
    kept_words(line_seqs(text))
}

/// Parses a static word list: one candidate per line; each line is trimmed
/// of surrounding whitespace and uppercased, and empty results are dropped.
/// Order is kept and duplicates are permitted. Malformed or empty input
/// yields an empty list, never a failure.
pub fn load_words(text: &str) -> (words: Vec<String>)
    ensures
        words.deep_view() == loaded_words(text@),
{
    let lines = split_lines(text);
    let mut words: Vec<String> = Vec::new();
    let mut i: usize = 0;
    while i < lines.len()
        invariant
            i <= lines@.len(),
            lines.deep_view() == line_seqs(text@),
            words.deep_view() == kept_words(lines.deep_view().take(i as int)),
        decreases lines@.len() - i,
    {
        let t = trim_word(lines[i].as_str());
        let u = uppercase_word(t);
        if !u.as_str().is_empty() {
            words.push(u);
        }
        proof {
            let dv = lines.deep_view();
            assert(dv.take(i + 1).drop_last() =~= dv.take(i as int));
            assert(dv.take(i + 1).last() == dv[i as int]);
            assert(words.deep_view() =~= kept_words(dv.take(i + 1)));
        }
        i = i + 1;
    }
    proof {
        assert(lines.deep_view().take(lines@.len() as int) =~= lines.deep_view());
    }
    words
}

/// The setup failures that abort session creation.
#[derive(Clone, Copy, PartialEq, Eq, Structural, Debug)]
pub enum SetupError {
    /// The dictionary holds no word of the configured length, so there is
    /// no valid target to choose.
    NoWordOfRequiredLength,
}

/// The words of `ws` whose length is exactly `len`, in order.
pub open spec fn eligible(ws: Seq<Seq<char>>, len: nat) -> Seq<Seq<char>>
    decreases ws.len(),
{
    if ws.len() == 0 {
        Seq::empty()
    } else {
        eligible(ws.drop_last(), len) + if ws.last().len() == len {
            seq![ws.last()]
        } else {
            Seq::empty()
        }
    }
}

/// Every word that `eligible` keeps has the required length.
pub proof fn lemma_eligible_lens(ws: Seq<Seq<char>>, len: nat)
    ensures
        forall|k: int| 0 <= k < eligible(ws, len).len() ==> (#[trigger] eligible(ws, len)[k]).len()
            == len,
    decreases ws.len(),
{
    if ws.len() > 0 {
        lemma_eligible_lens(ws.drop_last(), len);
        let pre = eligible(ws.drop_last(), len);
        assert forall|k: int| 0 <= k < eligible(ws, len).len() implies (#[trigger] eligible(
            ws,
            len,
        )[k]).len() == len by {
            if k < pre.len() {
                assert(eligible(ws, len)[k] == pre[k]);
            } else {
                assert(eligible(ws, len)[k] == ws.last());
            }
        }
    }
}

/// How many words of the dictionary are eligible as targets: exactly those
/// whose length equals the configured word length. The caller draws its
/// random index below this count.
pub fn candidate_count(words: &Vec<String>, config: &GameConfig) -> (n: usize)
    ensures
        n == eligible(words.deep_view(), config.word_len as nat).len(),
{
    let mut n: usize = 0;
    let mut i: usize = 0;
    while i < words.len()
        invariant
            i <= words@.len(),
            n == eligible(words.deep_view().take(i as int), config.word_len as nat).len(),
            n <= i,
        decreases words@.len() - i,
    {
        let ghost dv = words.deep_view();
        if words[i].as_str().unicode_len() == config.word_len {
            n = n + 1;
        }
        proof {
            assert(dv.take(i + 1).drop_last() =~= dv.take(i as int));
            assert(dv.take(i + 1).last() == dv[i as int]);
        }
        i = i + 1;
    }
    proof {
        assert(words.deep_view().take(words@.len() as int) =~= words.deep_view());
    }
    n
}

/// Picks the target word: filters the dictionary down to the words of the
/// configured length and returns the one at `draw` modulo their number, so
/// a draw taken uniformly below [`candidate_count`] picks uniformly among
/// all candidates. Fails, before any game state exists, when no word of the
/// configured length is available: that is an unrecoverable setup error,
/// never silently substituted.
pub fn choose_target(words: &Vec<String>, config: &GameConfig, draw: usize) -> (r: Result<
    String,
    SetupError,
>)
    ensures
        ({
            let cands = eligible(words.deep_view(), config.word_len as nat);
            &&& r is Err <==> cands.len() == 0
            &&& r is Err ==> r->Err_0 == SetupError::NoWordOfRequiredLength
            &&& r is Ok ==> r->Ok_0@ == cands[draw as int % cands.len() as int]
            &&& r is Ok ==> r->Ok_0@.len() == config.word_len
        }),
{
    let mut cands: Vec<String> = Vec::new();
    let mut i: usize = 0;
    while i < words.len()
        invariant
            i <= words@.len(),
            cands.deep_view() == eligible(
                words.deep_view().take(i as int),
                config.word_len as nat,
            ),
        decreases words@.len() - i,
    {
        let ghost dv = words.deep_view();
        if words[i].as_str().unicode_len() == config.word_len {
            cands.push(words[i].clone());
        }
        proof {
            assert(dv.take(i + 1).drop_last() =~= dv.take(i as int));
            assert(dv.take(i + 1).last() == dv[i as int]);
            assert(cands.deep_view() =~= eligible(dv.take(i + 1), config.word_len as nat));
        }
        i = i + 1;
    }
    proof {
        assert(words.deep_view().take(words@.len() as int) =~= words.deep_view());
    }
    if cands.len() == 0 {
        return Err(SetupError::NoWordOfRequiredLength);
    }
    let idx = draw % cands.len();
    proof {
        lemma_eligible_lens(words.deep_view(), config.word_len as nat);
        assert(cands.deep_view()[idx as int] == cands@[idx as int]@);
    }
    Ok(cands[idx].clone())
}

} // verus!

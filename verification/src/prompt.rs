//! The fields of a prompt that the matcher index, the picker search, the
//! tray menu and the hotkey table read.

use crate::text::{chars_of, is_whitespace, spec_is_whitespace, to_lowercase, lowercase_of};
use crate::matcher::{TriggerEntry, TriggerView};
use vstd::prelude::*;

verus! {

#[derive(Debug, Clone)]
pub struct Prompt {
    pub id: String,
    pub name: String,
    pub description: String,
    /// Trigger phrases, as written.
    pub triggers: Vec<String>,
    pub tags: Vec<String>,
    pub body: String,
    pub commit_char: char,
    /// Per-prompt global hotkey, as written.
    pub hotkey: Option<String>,
    pub enabled: bool,
    /// Shown in the tray menu.
    pub pinned: bool,
}

/// Number of whitespace-separated words in `s` (`split_whitespace().count()`):
/// the positions where a non-whitespace run starts.
pub open spec fn word_count(s: Seq<char>) -> nat
    decreases s.len(),
{
    if s.len() == 0 {
        0
    } else {
        let prev = word_count(s.drop_last());
        let starts = !spec_is_whitespace(s.last()) && (s.len() == 1 || spec_is_whitespace(
            s[s.len() - 2],
        ));
        if starts {
            prev + 1
        } else {
            prev
        }
    }
}

proof fn lemma_word_count_le(s: Seq<char>)
    ensures
        word_count(s) <= s.len(),
    decreases s.len(),
{
    if s.len() > 0 {
        lemma_word_count_le(s.drop_last());
    }
}

/// Number of whitespace-separated words in `s`.
pub fn count_words(s: &str) -> (r: usize)
    ensures
        r == word_count(s@),
{
    let cs = chars_of(s);
    let mut n: usize = 0;
    let mut i: usize = 0;
    while i < cs.len()
        invariant
            i <= cs@.len(),
            cs@ == s@,
            n == word_count(cs@.take(i as int)),
            n <= i,
        decreases cs@.len() - i,
    {
        let ghost t = cs@.take(i + 1);
        assert(t.drop_last() =~= cs@.take(i as int));
        assert(t.last() == cs@[i as int]);
        if i > 0 {
            assert(t[t.len() - 2] == cs@[i - 1]);
        }
        let starts = !is_whitespace(cs[i]) && (i == 0 || is_whitespace(cs[i - 1]));
        if starts {
            n = n + 1;
        }
        i = i + 1;
    }
    assert(cs@.take(i as int) =~= cs@);
    n
}

/// The index entries of a prompt list: one per trigger of every enabled
/// prompt, keyed by the trigger lowercased. A disabled prompt is not indexed,
/// or it would eat the user's commit char mid-demo and expand nothing.
pub open spec fn spec_trigger_entries(prompts: Seq<Prompt>) -> Seq<TriggerView>
    decreases prompts.len(),
{
    if prompts.len() == 0 {
        Seq::empty()
    } else {
        let p = prompts.last();
        let prev = spec_trigger_entries(prompts.drop_last());
        if p.enabled {
            prev + p.triggers@.map_values(
                |t: String|
                    TriggerView {
                        canonical: lowercase_of(t@),
                        prompt_id: p.id@,
                        word_count: word_count(t@) as usize,
                        commit_char: p.commit_char,
                    },
            )
        } else {
            prev
        }
    }
}

/// Build the trigger entries for the matcher index from a prompt list.
pub fn trigger_entries(prompts: &[Prompt]) -> (r: Vec<TriggerEntry>)
    ensures
        r@.map_values(|t: TriggerEntry| t@) == spec_trigger_entries(prompts@),
{
    let mut out: Vec<TriggerEntry> = Vec::new();
    let mut i: usize = 0;
    while i < prompts.len()
        invariant
            i <= prompts@.len(),
            out@.map_values(|t: TriggerEntry| t@) == spec_trigger_entries(prompts@.take(i as int)),
        decreases prompts@.len() - i,
    {
        let p = &prompts[i];
        assert(prompts@.take(i + 1).drop_last() =~= prompts@.take(i as int));
        assert(prompts@.take(i + 1).last() == prompts@[i as int]);
        if p.enabled {
            let ghost before = out@.map_values(|t: TriggerEntry| t@);
            let ghost added = p.triggers@.map_values(
                |t: String|
                    TriggerView {
                        canonical: lowercase_of(t@),
                        prompt_id: p.id@,
                        word_count: word_count(t@) as usize,
                        commit_char: p.commit_char,
                    },
            );
            let mut j: usize = 0;
            while j < p.triggers.len()
                invariant
                    j <= p.triggers@.len(),
                    added == p.triggers@.map_values(
                        |t: String|
                            TriggerView {
                                canonical: lowercase_of(t@),
                                prompt_id: p.id@,
                                word_count: word_count(t@) as usize,
                                commit_char: p.commit_char,
                            },
                    ),
                    out@.map_values(|t: TriggerEntry| t@) == before + added.take(j as int),
                decreases p.triggers@.len() - j,
            {
                let t = &p.triggers[j];
                let entry = TriggerEntry {
                    canonical: to_lowercase(t.as_str()),
                    prompt_id: p.id.clone(),
                    word_count: count_words(t.as_str()),
                    commit_char: p.commit_char,
                };
                let ghost prev = out@.map_values(|t: TriggerEntry| t@);
                out.push(entry);
                assert(out@.map_values(|t: TriggerEntry| t@) =~= prev.push(added[j as int]));
                assert(added.take(j + 1) =~= added.take(j as int).push(added[j as int]));
                j = j + 1;
            }
            assert(added.take(j as int) =~= added);
        }
        i = i + 1;
    }
    assert(prompts@.take(i as int) =~= prompts@);
    out
}

} // verus!

//! Filter chain: composable per-prompt transformations applied at fire time.
//!
//! Built-ins: lowercase, uppercase, capitalize, trim, strip-thinking-blocks,
//! markdown-to-plain, inject-typos, regex-replace. A spec is `name` or
//! `name: arg`; an unknown name leaves the text untouched.

use crate::hotkey::{trim, trim_chars};
use crate::text::{
    slice_chars,
    chars_of, string_of, str_eq, owned, lowercase_of, uppercase_of, to_lowercase, to_uppercase,
    char_uppercase_of, char_to_uppercase,
};
use pulldown_cmark::{Event, Parser, TagEnd};
use vstd::prelude::*;

verus! {

#[verifier::external_type_specification]
#[verifier::external_body]
pub struct ExRegex(regex::Regex);

/// `regex::Regex::new(pattern)` succeeds.
pub uninterp spec fn regex_compiles(pattern: Seq<char>) -> bool;

/// `Regex::replace_all` of the regex compiled from `pattern` on `text`, with
/// `rep` expanded for `$name` / `$n` capture references.
pub uninterp spec fn regex_replaced_all(pattern: Seq<char>, text: Seq<char>, rep: Seq<char>) -> Seq<
    char,
>;

/// `Regex::replace` (first match only) of the regex compiled from `pattern`.
pub uninterp spec fn regex_replaced_first(
    pattern: Seq<char>,
    text: Seq<char>,
    rep: Seq<char>,
) -> Seq<char>;

/// A compiled regex together with the pattern it was compiled from.
pub struct CompiledRegex {
    re: regex::Regex,
    source: Ghost<Seq<char>>,
}

impl CompiledRegex {
    pub closed spec fn source(&self) -> Seq<char> {
        self.source@
    }
}

/// Calls `regex::Regex::new`. `Some` exactly when the pattern compiles; the
/// result remembers its pattern.
#[verifier::external_body]
fn regex_new(pattern: &str) -> (r: Option<CompiledRegex>)
    ensures
        r is Some == regex_compiles(pattern@),
        r matches Some(c) ==> c.source() == pattern@,
{
    match regex::Regex::new(pattern) {
        Ok(re) => Some(CompiledRegex { re, source: Ghost(pattern@) }),
        Err(_) => None,
    }
}

/// Calls `regex::Regex::replace_all` with a `&str` replacement.
#[verifier::external_body]
fn regex_replace_all(re: &CompiledRegex, text: &str, rep: &str) -> (r: String)
    ensures
        r@ == regex_replaced_all(re.source(), text@, rep@),
{
    re.re.replace_all(text, rep).into_owned()
}

/// Calls `regex::Regex::replace` (first match) with a `&str` replacement.
#[verifier::external_body]
fn regex_replace_first(re: &CompiledRegex, text: &str, rep: &str) -> (r: String)
    ensures
        r@ == regex_replaced_first(re.source(), text@, rep@),
{
    re.re.replace(text, rep).into_owned()
}

/// The markdown events this library reads; everything else is `Other`.
#[derive(Debug, Clone)]
pub enum MdEvent {
    Text(String),
    Code(String),
    SoftBreak,
    HardBreak,
    EndParagraph,
    EndHeading,
    Other,
}

pub enum MdEventView {
    Text(Seq<char>),
    Code(Seq<char>),
    SoftBreak,
    HardBreak,
    EndParagraph,
    EndHeading,
    Other,
}

impl View for MdEvent {
    type V = MdEventView;

    open spec fn view(&self) -> MdEventView {
        match self {
            MdEvent::Text(t) => MdEventView::Text(t@),
            MdEvent::Code(t) => MdEventView::Code(t@),
            MdEvent::SoftBreak => MdEventView::SoftBreak,
            MdEvent::HardBreak => MdEventView::HardBreak,
            MdEvent::EndParagraph => MdEventView::EndParagraph,
            MdEvent::EndHeading => MdEventView::EndHeading,
            MdEvent::Other => MdEventView::Other,
        }
    }
}

/// The CommonMark event stream `pulldown_cmark::Parser::new` yields for `text`.
pub uninterp spec fn markdown_events_of(text: Seq<char>) -> Seq<MdEventView>;

/// Calls `pulldown_cmark::Parser::new` and collects its events.
#[verifier::external_body]
fn markdown_events(text: &str) -> (r: Vec<MdEvent>)
    ensures
        r@.map_values(|e: MdEvent| e@) == markdown_events_of(text@),
{
    Parser::new(text).map(|ev| match ev {
        Event::Text(t) => MdEvent::Text(t.to_string()),
        Event::Code(t) => MdEvent::Code(t.to_string()),
        Event::SoftBreak => MdEvent::SoftBreak,
        Event::HardBreak => MdEvent::HardBreak,
        Event::End(TagEnd::Paragraph) => MdEvent::EndParagraph,
        Event::End(TagEnd::Heading(_)) => MdEvent::EndHeading,
        _ => MdEvent::Other,
    }).collect()
}

/// Plain text of an event stream: text and code kept, line breaks as `\n`,
/// a blank line after each paragraph and heading.
pub open spec fn plain_of(events: Seq<MdEventView>) -> Seq<char>
    decreases events.len(),
{
    if events.len() == 0 {
        Seq::empty()
    } else {
        let prev = plain_of(events.drop_last());
        match events.last() {
            MdEventView::Text(t) => prev + t,
            MdEventView::Code(t) => prev + t,
            MdEventView::SoftBreak => prev.push('\n'),
            MdEventView::HardBreak => prev.push('\n'),
            MdEventView::EndParagraph => prev + seq!['\n', '\n'],
            MdEventView::EndHeading => prev + seq!['\n', '\n'],
            MdEventView::Other => prev,
        }
    }
}

pub open spec fn spec_markdown_to_plain(text: Seq<char>) -> Seq<char> {
    trim(plain_of(markdown_events_of(text)))
}

/// The end of a heading is followed by a blank line, just as the end of a
/// paragraph is: closing a block the one way or the other gives the same
/// plain text, two newlines after what came before.
pub proof fn lemma_heading_ends_like_a_paragraph(events: Seq<MdEventView>)
    ensures
        plain_of(events.push(MdEventView::EndHeading)) == plain_of(events.push(MdEventView::EndParagraph)),
        plain_of(events.push(MdEventView::EndHeading)) == plain_of(events) + seq!['\n', '\n'],
{
    assert(events.push(MdEventView::EndHeading).drop_last() =~= events);
    assert(events.push(MdEventView::EndParagraph).drop_last() =~= events);
}

/// A heading's text is never glued to the text after it: a heading's text,
/// its end and the next text read as the heading, a blank line, then the
/// text.
pub proof fn lemma_heading_text_is_set_apart(events: Seq<MdEventView>, heading: Seq<char>, next: Seq<char>)
    ensures
        plain_of(
            events.push(MdEventView::Text(heading)).push(MdEventView::EndHeading).push(MdEventView::Text(next)),
        ) == plain_of(events) + heading + seq!['\n', '\n'] + next,
{
    let e1 = events.push(MdEventView::Text(heading));
    let e2 = e1.push(MdEventView::EndHeading);
    let e3 = e2.push(MdEventView::Text(next));
    assert(e1.drop_last() =~= events);
    assert(e2.drop_last() =~= e1);
    assert(e3.drop_last() =~= e2);
    assert(plain_of(e1) == plain_of(events) + heading);
    assert(plain_of(e2) == plain_of(e1) + seq!['\n', '\n']);
    assert(plain_of(e3) == plain_of(e2) + next);
    assert(plain_of(e3) =~= plain_of(events) + heading + seq!['\n', '\n'] + next);
}

/// The pattern that matches `<thinking>…</thinking>` and `<think>…</think>`.
pub open spec fn think_pattern() -> Seq<char> {
    "(?is)<think(?:ing)?>.*?</think(?:ing)?>"@
}

pub open spec fn spec_strip_thinking(text: Seq<char>) -> Seq<char> {
    if regex_compiles(think_pattern()) {
        trim(regex_replaced_all(think_pattern(), text, Seq::empty()))
    } else {
        text
    }
}

pub open spec fn spec_capitalize(s: Seq<char>) -> Seq<char> {
    if s.len() == 0 {
        s
    } else {
        char_uppercase_of(s[0]) + s.drop_first()
    }
}

/// Position of the first `c` in `s`.
pub open spec fn first_index_of(s: Seq<char>, c: char) -> Option<int>
    decreases s.len(),
{
    if s.len() == 0 {
        None
    } else if s[0] == c {
        Some(0)
    } else {
        match first_index_of(s.drop_first(), c) {
            Some(i) => Some(i + 1),
            None => None,
        }
    }
}

pub proof fn lemma_first_index_of(s: Seq<char>, c: char)
    ensures
        match first_index_of(s, c) {
            Some(i) => 0 <= i < s.len() && s[i] == c && forall|j: int| 0 <= j < i ==> s[j] != c,
            None => forall|j: int| 0 <= j < s.len() ==> s[j] != c,
        },
    decreases s.len(),
{
    if s.len() > 0 && s[0] != c {
        lemma_first_index_of(s.drop_first(), c);
        match first_index_of(s.drop_first(), c) {
            Some(i) => {
                assert forall|j: int| 0 <= j < i + 1 implies s[j] != c by {
                    if j > 0 {
                        assert(s[j] == s.drop_first()[j - 1]);
                    }
                }
            },
            None => {
                assert forall|j: int| 0 <= j < s.len() implies s[j] != c by {
                    if j > 0 {
                        assert(s[j] == s.drop_first()[j - 1]);
                    }
                }
            },
        }
    }
}

fn index_of(s: &Vec<char>, c: char) -> (r: Option<usize>)
    ensures
        match r {
            Some(i) => i < s@.len() && s@[i as int] == c && first_index_of(s@, c) == Some(i as int),
            None => first_index_of(s@, c) is None,
        },
{
    let mut i: usize = 0;
    while i < s.len()
        invariant
            i <= s@.len(),
            forall|j: int| 0 <= j < i ==> s@[j] != c,
        decreases s@.len() - i,
    {
        if s[i] == c {
            proof {
                lemma_first_index_of(s@, c);
            }
            return Some(i);
        }
        i = i + 1;
    }
    proof {
        lemma_first_index_of(s@, c);
    }
    None
}

/// `s` split at `/` into at most `n` pieces (`str::splitn`).
pub open spec fn splitn_slash(s: Seq<char>, n: nat) -> Seq<Seq<char>>
    decreases n,
{
    if n <= 1 {
        seq![s]
    } else {
        match first_index_of(s, '/') {
            Some(i) => seq![s.take(i)] + splitn_slash(s.skip(i + 1), (n - 1) as nat),
            None => seq![s],
        }
    }
}

/// Whether `s` contains `c`.
pub open spec fn has_char(s: Seq<char>, c: char) -> bool {
    exists|i: int| 0 <= i < s.len() && s[i] == c
}

/// `s/pattern/replacement/flags`: `g` replaces every match, `i` ignores case.
/// A malformed spec, a missing argument or a pattern that does not compile
/// leaves the text untouched.
pub open spec fn spec_regex_replace(text: Seq<char>, arg: Option<Seq<char>>) -> Seq<char> {
    match arg {
        None => text,
        Some(spec) => {
            let parts = splitn_slash(spec, 4);
            if parts.len() < 3 || parts[0] != "s"@ {
                text
            } else {
                let flags = if parts.len() > 3 {
                    parts[3]
                } else {
                    Seq::empty()
                };
                let pattern = if has_char(flags, 'i') {
                    "(?i)"@ + parts[1]
                } else {
                    parts[1]
                };
                if !regex_compiles(pattern) {
                    text
                } else if has_char(flags, 'g') {
                    regex_replaced_all(pattern, text, parts[2])
                } else {
                    regex_replaced_first(pattern, text, parts[2])
                }
            }
        },
    }
}

/// Name and optional argument of a filter spec: `name` or `name: arg`, each
/// side trimmed.
pub open spec fn spec_name_arg(spec: Seq<char>) -> (Seq<char>, Option<Seq<char>>) {
    let t = trim(spec);
    match first_index_of(t, ':') {
        Some(i) => (trim(t.take(i)), Some(trim(t.skip(i + 1)))),
        None => (t, None),
    }
}

/// One filter applied to `text`.
pub open spec fn spec_apply_one(text: Seq<char>, spec: Seq<char>) -> Seq<char> {
    let (name, arg) = spec_name_arg(spec);
    if name == "lowercase"@ {
        lowercase_of(text)
    } else if name == "uppercase"@ {
        uppercase_of(text)
    } else if name == "capitalize"@ {
        spec_capitalize(text)
    } else if name == "trim"@ {
        trim(text)
    } else if name == "strip-thinking-blocks"@ {
        spec_strip_thinking(text)
    } else if name == "markdown-to-plain"@ {
        spec_markdown_to_plain(text)
    } else if name == "inject-typos"@ {
        text
    } else if name == "regex-replace"@ {
        spec_regex_replace(text, arg)
    } else {
        text
    }
}

/// The chain applied left to right.
pub open spec fn spec_apply_chain(text: Seq<char>, specs: Seq<Seq<char>>) -> Seq<char>
    decreases specs.len(),
{
    if specs.len() == 0 {
        text
    } else {
        spec_apply_one(spec_apply_chain(text, specs.drop_last()), specs.last())
    }
}


/// Filters compose left to right: running one chain and then another is
/// running the two chains joined.
pub proof fn lemma_chain_composes(text: Seq<char>, a: Seq<Seq<char>>, b: Seq<Seq<char>>)
    ensures
        spec_apply_chain(text, a + b) == spec_apply_chain(spec_apply_chain(text, a), b),
    decreases b.len(),
{
    if b.len() == 0 {
        assert(a + b =~= a);
    } else {
        lemma_chain_composes(text, a, b.drop_last());
        assert((a + b).drop_last() =~= a + b.drop_last());
        assert((a + b).last() == b.last());
    }
}

/// An empty chain leaves the text as it is.
pub proof fn lemma_empty_chain_is_identity(text: Seq<char>)
    ensures
        spec_apply_chain(text, Seq::empty()) == text,
{
}

/// Apply a chain of filter specs (the `filters:` strings) to `text`, in order.
pub fn apply_chain(text: &str, specs: &[String]) -> (r: String)
    ensures
        r@ == spec_apply_chain(text@, specs@.map_values(|s: String| s@)),
{
    let ghost sv = specs@.map_values(|s: String| s@);
    let mut current = owned(text);
    let mut i: usize = 0;
    while i < specs.len()
        invariant
            i <= specs@.len(),
            sv == specs@.map_values(|s: String| s@),
            current@ == spec_apply_chain(text@, sv.take(i as int)),
        decreases specs@.len() - i,
    {
        assert(sv.take(i + 1).drop_last() =~= sv.take(i as int));
        assert(sv.take(i + 1).last() == specs@[i as int]@);
        current = apply_one(current.as_str(), specs[i].as_str());
        i = i + 1;
    }
    assert(sv.take(i as int) =~= sv);
    current
}


/// One filter.
pub fn apply_one(text: &str, spec: &str) -> (r: String)
    ensures
        r@ == spec_apply_one(text@, spec@),
{
    let t = trim_chars(&chars_of(spec));
    let (name, arg): (Vec<char>, Option<Vec<char>>) = match index_of(&t, ':') {
        Some(i) => {
            assert(t@.take(i as int) =~= t@.subrange(0, i as int));
            assert(t@.skip(i + 1) =~= t@.subrange(i + 1, t@.len() as int));
            (trim_chars(&slice_chars(&t, 0, i)), Some(trim_chars(&slice_chars(&t, i + 1, t.len()))))
        },
        None => (t, None),
    };
    let name_s = string_of(&name);
    let n = name_s.as_str();
    if str_eq(n, "lowercase") {
        to_lowercase(text)
    } else if str_eq(n, "uppercase") {
        to_uppercase(text)
    } else if str_eq(n, "capitalize") {
        capitalize(text)
    } else if str_eq(n, "trim") {
        string_of(&trim_chars(&chars_of(text)))
    } else if str_eq(n, "strip-thinking-blocks") {
        strip_thinking_blocks(text)
    } else if str_eq(n, "markdown-to-plain") {
        markdown_to_plain(text)
    } else if str_eq(n, "inject-typos") {
        inject_typos(text)
    } else if str_eq(n, "regex-replace") {
        match arg {
            Some(a) => {
                let a_s = string_of(&a);
                regex_replace(text, Some(a_s.as_str()))
            },
            None => regex_replace(text, None),
        }
    } else {
        owned(text)
    }
}

/// First char uppercased (Unicode), the rest untouched.
pub fn capitalize(s: &str) -> (r: String)
    ensures
        r@ == spec_capitalize(s@),
{
    let cs = chars_of(s);
    if cs.len() == 0 {
        return String::new();
    }
    let first = char_to_uppercase(cs[0]);
    let mut out = chars_of(first.as_str());
    let ghost head = out@;
    let mut k: usize = 1;
    while k < cs.len()
        invariant
            1 <= k <= cs@.len(),
            out@ == head + cs@.subrange(1, k as int),
        decreases cs@.len() - k,
    {
        out.push(cs[k]);
        k = k + 1;
        assert(out@ =~= head + cs@.subrange(1, k as int));
    }
    assert(cs@.subrange(1, k as int) =~= cs@.drop_first());
    string_of(&out)
}

/// Remove `<thinking>…</thinking>` and `<think>…</think>` blocks, then trim.
pub fn strip_thinking_blocks(text: &str) -> (r: String)
    ensures
        r@ == spec_strip_thinking(text@),
{
    match regex_new("(?is)<think(?:ing)?>.*?</think(?:ing)?>") {
        Some(re) => {
            let empty = "";
            proof {
                reveal_strlit("");
                assert(empty@ =~= Seq::<char>::empty());
            }
            let replaced = regex_replace_all(&re, text, empty);
            string_of(&trim_chars(&chars_of(replaced.as_str())))
        },
        None => owned(text),
    }
}

/// Markdown rendered as plain text.
pub fn markdown_to_plain(text: &str) -> (r: String)
    ensures
        r@ == spec_markdown_to_plain(text@),
{
    let events = markdown_events(text);
    let ghost ev = events@.map_values(|e: MdEvent| e@);
    let mut out: Vec<char> = Vec::new();
    let mut i: usize = 0;
    while i < events.len()
        invariant
            i <= events@.len(),
            ev == events@.map_values(|e: MdEvent| e@),
            out@ == plain_of(ev.take(i as int)),
        decreases events@.len() - i,
    {
        assert(ev.take(i + 1).drop_last() =~= ev.take(i as int));
        assert(ev.take(i + 1).last() == events@[i as int]@);
        let ghost prev = out@;
        match &events[i] {
            MdEvent::Text(t) | MdEvent::Code(t) => {
                let tc = chars_of(t.as_str());
                let mut k: usize = 0;
                while k < tc.len()
                    invariant
                        k <= tc@.len(),
                        out@ == prev + tc@.take(k as int),
                    decreases tc@.len() - k,
                {
                    out.push(tc[k]);
                    k = k + 1;
                    assert(out@ =~= prev + tc@.take(k as int));
                }
                assert(tc@.take(k as int) =~= tc@);
            },
            MdEvent::SoftBreak | MdEvent::HardBreak => {
                out.push('\n');
            },
            MdEvent::EndParagraph | MdEvent::EndHeading => {
                out.push('\n');
                out.push('\n');
                assert(out@ =~= prev + seq!['\n', '\n']);
            },
            MdEvent::Other => {},
        }
        i = i + 1;
    }
    assert(ev.take(i as int) =~= ev);
    string_of(&trim_chars(&out))
}

/// Typo injection happens when the keystroke schedule is built; as a filter
/// it leaves the text as it is.
pub fn inject_typos(text: &str) -> (r: String)
    ensures
        r@ == text@,
{
    owned(text)
}

/// `s/pattern/replacement/flags`.
pub fn regex_replace(text: &str, arg: Option<&str>) -> (r: String)
    ensures
        r@ == spec_regex_replace(
            text@,
            match arg {
                Some(a) => Some(a@),
                None => None,
            },
        ),
{
    let spec = match arg {
        None => {
            return owned(text);
        },
        Some(a) => a,
    };
    let cs = chars_of(spec);
    // splitn(4, '/')
    let mut parts: Vec<Vec<char>> = Vec::new();
    let mut rest = cs;
    let mut n: usize = 4;
    let ghost full = spec@;
    while n > 1
        invariant
            1 <= n <= 4,
            parts@.map_values(|v: Vec<char>| v@) + splitn_slash(rest@, n as nat) == splitn_slash(
                full,
                4,
            ),
            parts@.len() + n <= 4,
        decreases n,
    {
        let ghost before = parts@.map_values(|v: Vec<char>| v@);
        match index_of(&rest, '/') {
            Some(i) => {
                assert(i < rest.len());
                let head = slice_chars(&rest, 0, i);
                let tail = slice_chars(&rest, i + 1, rest.len());
                assert(head@ =~= rest@.take(i as int));
                assert(tail@ =~= rest@.skip(i + 1));
                parts.push(head);
                assert(parts@.map_values(|v: Vec<char>| v@) =~= before.push(rest@.take(i as int)));
                assert(before + splitn_slash(rest@, n as nat) =~= before.push(rest@.take(i as int))
                    + splitn_slash(tail@, (n - 1) as nat));
                rest = tail;
                n = n - 1;
            },
            None => {
                assert(splitn_slash(rest@, n as nat) == seq![rest@]);
                assert(splitn_slash(rest@, 1) == seq![rest@]);
                n = 1;
            },
        }
    }
    let ghost rest_view = rest@;
    let ghost before = parts@.map_values(|v: Vec<char>| v@);
    parts.push(rest);
    proof {
        if n <= 1 {
            assert(splitn_slash(rest_view, n as nat) == seq![rest_view]);
        }
        assert(parts@.map_values(|v: Vec<char>| v@) =~= before.push(rest_view));
        assert(before.push(rest_view) =~= before + seq![rest_view]);
    }
    let ghost pv = parts@.map_values(|v: Vec<char>| v@);
    assert(pv == splitn_slash(full, 4));
    if parts.len() < 3 {
        return owned(text);
    }
    let p0 = string_of(&parts[0]);
    if !str_eq(p0.as_str(), "s") {
        assert(pv[0] == parts@[0]@);
        return owned(text);
    }
    assert(pv[1] == parts@[1]@ && pv[2] == parts@[2]@);
    let flags: Vec<char> = if parts.len() > 3 {
        assert(pv[3] == parts@[3]@);
        slice_chars(&parts[3], 0, parts[3].len())
    } else {
        Vec::new()
    };
    assert(flags@ =~= (if pv.len() > 3 { pv[3] } else { Seq::<char>::empty() }));
    let has_i = match index_of(&flags, 'i') {
        Some(_) => true,
        None => false,
    };
    let has_g = match index_of(&flags, 'g') {
        Some(_) => true,
        None => false,
    };
    proof {
        lemma_first_index_of(flags@, 'i');
        lemma_first_index_of(flags@, 'g');
    }
    assert(has_i == has_char(flags@, 'i'));
    assert(has_g == has_char(flags@, 'g'));
    let mut re_str: Vec<char> = if has_i {
        chars_of("(?i)")
    } else {
        Vec::new()
    };
    let ghost head = re_str@;
    let mut k: usize = 0;
    while k < parts[1].len()
        invariant
            k <= parts@[1]@.len(),
            parts@.len() >= 3,
            re_str@ == head + parts@[1]@.take(k as int),
        decreases parts@[1]@.len() - k,
    {
        re_str.push(parts[1][k]);
        k = k + 1;
        assert(re_str@ =~= head + parts@[1]@.take(k as int));
    }
    assert(parts@[1]@.take(k as int) =~= parts@[1]@);
    assert(re_str@ =~= (if has_i { "(?i)"@ + pv[1] } else { pv[1] }));
    let pattern = string_of(&re_str);
    let replacement = string_of(&parts[2]);
    match regex_new(pattern.as_str()) {
        None => owned(text),
        Some(re) => {
            if has_g {
                regex_replace_all(&re, text, replacement.as_str())
            } else {
                regex_replace_first(&re, text, replacement.as_str())
            }
        },
    }
}

} // verus!

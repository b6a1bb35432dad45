//! Hotkey string normalization.
//!
//! Accepts user-authored forms (`cmd+shift+1`, `Cmd+Shift+1`, `⌘⇧1`,
//! `⌘+⇧+1`, `option+space`) and normalizes them to the canonical shortcut
//! form (`CmdOrCtrl+Shift+Digit1`).

use crate::text::{
    chars_of, spec_is_whitespace, is_whitespace, lowercase_of, to_lowercase, string_of, str_eq,
    spec_is_ascii_alpha, is_ascii_alpha, spec_is_ascii_digit, spec_ascii_upper, ascii_upper,
    char_uppercase_of, char_to_uppercase,
};
use vstd::prelude::*;

verus! {

/// `s` without leading whitespace.
pub open spec fn trim_start(s: Seq<char>) -> Seq<char>
    decreases s.len(),
{
    if s.len() > 0 && spec_is_whitespace(s[0]) {
        trim_start(s.drop_first())
    } else {
        s
    }
}

/// `s` without trailing whitespace.
pub open spec fn trim_end(s: Seq<char>) -> Seq<char>
    decreases s.len(),
{
    if s.len() > 0 && spec_is_whitespace(s.last()) {
        trim_end(s.drop_last())
    } else {
        s
    }
}

/// `s` without leading or trailing whitespace (`str::trim`).
pub open spec fn trim(s: Seq<char>) -> Seq<char> {
    trim_start(trim_end(s))
}

pub proof fn lemma_trim_end_is_prefix(s: Seq<char>)
    ensures
        trim_end(s).len() <= s.len(),
        trim_end(s) == s.take(trim_end(s).len() as int),
    decreases s.len(),
{
    if s.len() > 0 && spec_is_whitespace(s.last()) {
        lemma_trim_end_is_prefix(s.drop_last());
        assert(s.drop_last().take(trim_end(s).len() as int) =~= s.take(trim_end(s).len() as int));
    } else {
        assert(s.take(s.len() as int) =~= s);
    }
}

pub proof fn lemma_trim_start_is_suffix(s: Seq<char>)
    ensures
        trim_start(s).len() <= s.len(),
        trim_start(s) == s.skip(s.len() - trim_start(s).len()),
    decreases s.len(),
{
    if s.len() > 0 && spec_is_whitespace(s[0]) {
        lemma_trim_start_is_suffix(s.drop_first());
        assert(s.drop_first().skip(s.len() - 1 - trim_start(s).len()) =~= s.skip(
            s.len() - trim_start(s).len(),
        ));
    } else {
        assert(s.skip(0) =~= s);
    }
}

/// `str::trim` on a char vector.
pub fn trim_chars(s: &Vec<char>) -> (r: Vec<char>)
    ensures
        r@ == trim(s@),
{
    let mut end = s.len();
    assert(s@.take(end as int) =~= s@);
    while end > 0 && is_whitespace(s[end - 1])
        invariant
            end <= s@.len(),
            trim_end(s@.take(end as int)) == trim_end(s@),
        decreases end,
    {
        assert(s@.take(end as int).drop_last() =~= s@.take(end - 1));
        end = end - 1;
    }
    let mut start: usize = 0;
    while start < end && is_whitespace(s[start])
        invariant
            start <= end,
            end <= s@.len(),
            trim_end(s@.take(end as int)) == trim_end(s@),
            trim_end(s@.take(end as int)) == s@.take(end as int),
            trim_start(s@.subrange(start as int, end as int)) == trim(s@),
        decreases end - start,
    {
        assert(s@.subrange(start as int, end as int).drop_first() =~= s@.subrange(
            start + 1,
            end as int,
        ));
        start = start + 1;
    }
    let mut out: Vec<char> = Vec::new();
    let mut k = start;
    while k < end
        invariant
            start <= k <= end,
            end <= s@.len(),
            out@ == s@.subrange(start as int, k as int),
        decreases end - k,
    {
        out.push(s[k]);
        k = k + 1;
        assert(out@ =~= s@.subrange(start as int, k as int));
    }
    assert(trim_start(s@.subrange(start as int, end as int)) == s@.subrange(
        start as int,
        end as int,
    ));
    out
}

/// Pieces of `s` between `+` and `-` separators, empty pieces included
/// (`str::split` with both chars as separators).
pub open spec fn split_parts(s: Seq<char>) -> Seq<Seq<char>>
    decreases s.len(),
{
    if s.len() == 0 {
        seq![Seq::empty()]
    } else {
        let p = split_parts(s.drop_last());
        if s.last() == '+' || s.last() == '-' {
            p.push(Seq::empty())
        } else {
            p.update(p.len() - 1, p.last().push(s.last()))
        }
    }
}

pub proof fn lemma_split_parts_nonempty(s: Seq<char>)
    ensures
        split_parts(s).len() >= 1,
    decreases s.len(),
{
    if s.len() > 0 {
        lemma_split_parts_nonempty(s.drop_last());
    }
}

/// Named aliases: modifiers, digits, special keys and punctuation.
pub open spec fn alias_of(p: Seq<char>) -> Option<Seq<char>> {
    if p == "cmd"@ || p == "command"@ || p == seq!['⌘'] || p == "meta"@ || p == "super"@ || p
        == "win"@ || p == "windows"@ {
        Some("CmdOrCtrl"@)
    } else if p == "ctrl"@ || p == "control"@ || p == seq!['⌃'] {
        Some("Control"@)
    } else if p == "shift"@ || p == seq!['⇧'] {
        Some("Shift"@)
    } else if p == "alt"@ || p == "option"@ || p == "opt"@ || p == seq!['⌥'] {
        Some("Alt"@)
    } else if p.len() == 1 && spec_is_ascii_digit(p[0]) {
        Some("Digit"@ + p)
    } else if p == "esc"@ || p == "escape"@ {
        Some("Escape"@)
    } else if p == "enter"@ || p == "return"@ {
        Some("Enter"@)
    } else if p == "space"@ || p == "spacebar"@ {
        Some("Space"@)
    } else if p == "tab"@ {
        Some("Tab"@)
    } else if p == "backspace"@ {
        Some("Backspace"@)
    } else if p == "up"@ || p == "arrowup"@ {
        Some("ArrowUp"@)
    } else if p == "down"@ || p == "arrowdown"@ {
        Some("ArrowDown"@)
    } else if p == "left"@ || p == "arrowleft"@ {
        Some("ArrowLeft"@)
    } else if p == "right"@ || p == "arrowright"@ {
        Some("ArrowRight"@)
    } else if p == "\\"@ {
        Some("Backslash"@)
    } else if p == "/"@ {
        Some("Slash"@)
    } else if p == ","@ {
        Some("Comma"@)
    } else if p == "."@ {
        Some("Period"@)
    } else if p == ";"@ {
        Some("Semicolon"@)
    } else if p == "'"@ {
        Some("Quote"@)
    } else if p == "`"@ {
        Some("Backquote"@)
    } else {
        None
    }
}

/// The canonical name of one lowercased piece.
pub open spec fn map_part(p: Seq<char>) -> Seq<char> {
    match alias_of(p) {
        Some(a) => a,
        None => if p.len() == 1 && spec_is_ascii_alpha(p[0]) {
            "Key"@.push(spec_ascii_upper(p[0]))
        } else if p.len() == 0 {
            p
        } else {
            char_uppercase_of(p[0]) + p.drop_first()
        },
    }
}

/// Pieces joined by `+`.
pub open spec fn join_plus(parts: Seq<Seq<char>>) -> Seq<char>
    decreases parts.len(),
{
    if parts.len() == 0 {
        Seq::empty()
    } else if parts.len() == 1 {
        parts[0]
    } else {
        join_plus(parts.drop_last()) + seq!['+'] + parts.last()
    }
}

/// The macOS modifier glyphs: ⌘ ⌃ ⇧ ⌥.
pub open spec fn is_modifier_glyph(c: char) -> bool {
    c == '⌘' || c == '⌃' || c == '⇧' || c == '⌥'
}

/// One lowercased piece as the parts it stands for: modifier glyphs written
/// together with what follows (`⌘⇧1`) are each a part of their own, so they
/// read like `⌘+⇧+1`; any other piece is one part.
pub open spec fn glyph_parts(t: Seq<char>) -> Seq<Seq<char>>
    decreases t.len(),
{
    if t.len() > 1 && is_modifier_glyph(t[0]) {
        seq![seq![t[0]]] + glyph_parts(t.drop_first())
    } else {
        seq![t]
    }
}

/// The parts of all pieces, in order.
pub open spec fn flat_parts(ps: Seq<Seq<Seq<char>>>) -> Seq<Seq<char>>
    decreases ps.len(),
{
    if ps.len() == 0 {
        Seq::empty()
    } else {
        flat_parts(ps.drop_last()) + ps.last()
    }
}

/// The normalized form of pieces that are already trimmed and lowercased:
/// each piece split into its parts, each part given its canonical name, all
/// joined by `+`.
pub open spec fn spec_normalize_lowered(pieces: Seq<Seq<char>>) -> Seq<char> {
    join_plus(
        flat_parts(pieces.map_values(|t: Seq<char>| glyph_parts(t))).map_values(
            |p: Seq<char>| map_part(p),
        ),
    )
}

/// The normalized form of `input`: its `+`/`-` pieces, trimmed and
/// lowercased, then normalized.
pub open spec fn spec_normalize(input: Seq<char>) -> Seq<char> {
    spec_normalize_lowered(split_parts(input).map_values(|p: Seq<char>| lowercase_of(trim(p))))
}

/// Each arrow key has its own name: `up`, `down`, `left` and `right`, bare
/// or with an `arrow` prefix, name `ArrowUp`, `ArrowDown`, `ArrowLeft` and
/// `ArrowRight`, and no two different arrow keys share a name.
pub proof fn lemma_arrow_keys_have_their_own_names()
    ensures
        map_part("up"@) == "ArrowUp"@,
        map_part("arrowup"@) == "ArrowUp"@,
        map_part("down"@) == "ArrowDown"@,
        map_part("arrowdown"@) == "ArrowDown"@,
        map_part("left"@) == "ArrowLeft"@,
        map_part("arrowleft"@) == "ArrowLeft"@,
        map_part("right"@) == "ArrowRight"@,
        map_part("arrowright"@) == "ArrowRight"@,
        map_part("up"@) != map_part("down"@),
        map_part("up"@) != map_part("left"@),
        map_part("up"@) != map_part("right"@),
        map_part("down"@) != map_part("left"@),
        map_part("down"@) != map_part("right"@),
        map_part("left"@) != map_part("right"@),
{
    reveal_strlit("ArrowDown");
    reveal_strlit("ArrowLeft");
    reveal_strlit("ArrowRight");
    reveal_strlit("ArrowUp");
    reveal_strlit("alt");
    reveal_strlit("arrowdown");
    reveal_strlit("arrowleft");
    reveal_strlit("arrowright");
    reveal_strlit("arrowup");
    reveal_strlit("backspace");
    reveal_strlit("cmd");
    reveal_strlit("command");
    reveal_strlit("control");
    reveal_strlit("ctrl");
    reveal_strlit("down");
    reveal_strlit("enter");
    reveal_strlit("esc");
    reveal_strlit("escape");
    reveal_strlit("left");
    reveal_strlit("meta");
    reveal_strlit("opt");
    reveal_strlit("option");
    reveal_strlit("return");
    reveal_strlit("right");
    reveal_strlit("shift");
    reveal_strlit("space");
    reveal_strlit("spacebar");
    reveal_strlit("super");
    reveal_strlit("tab");
    reveal_strlit("up");
    reveal_strlit("win");
    reveal_strlit("windows");
    assert("ArrowDown"@.len() == 9);
    assert("ArrowLeft"@.len() == 9);
    assert("ArrowRight"@.len() == 10);
    assert("ArrowUp"@.len() == 7);
    assert("alt"@.len() == 3);
    assert("arrowdown"@.len() == 9);
    assert("arrowleft"@.len() == 9);
    assert("arrowright"@.len() == 10);
    assert("arrowup"@.len() == 7);
    assert("backspace"@.len() == 9);
    assert("cmd"@.len() == 3);
    assert("command"@.len() == 7);
    assert("control"@.len() == 7);
    assert("ctrl"@.len() == 4);
    assert("down"@.len() == 4);
    assert("enter"@.len() == 5);
    assert("esc"@.len() == 3);
    assert("escape"@.len() == 6);
    assert("left"@.len() == 4);
    assert("meta"@.len() == 4);
    assert("opt"@.len() == 3);
    assert("option"@.len() == 6);
    assert("return"@.len() == 6);
    assert("right"@.len() == 5);
    assert("shift"@.len() == 5);
    assert("space"@.len() == 5);
    assert("spacebar"@.len() == 8);
    assert("super"@.len() == 5);
    assert("tab"@.len() == 3);
    assert("up"@.len() == 2);
    assert("win"@.len() == 3);
    assert("windows"@.len() == 7);
    assert("arrowup"@[0] != "command"@[0]);
    assert("arrowup"@[0] != "windows"@[0]);
    assert("arrowup"@[0] != "control"@[0]);
    assert("down"@[0] != "meta"@[0]);
    assert("down"@[0] != "ctrl"@[0]);
    assert("arrowdown"@[0] != "backspace"@[0]);
    assert("left"@[0] != "meta"@[0]);
    assert("left"@[0] != "ctrl"@[0]);
    assert("left"@[0] != "down"@[0]);
    assert("arrowleft"@[0] != "backspace"@[0]);
    assert("arrowleft"@[5] != "arrowdown"@[5]);
    assert("right"@[0] != "super"@[0]);
    assert("right"@[0] != "shift"@[0]);
    assert("right"@[0] != "enter"@[0]);
    assert("right"@[0] != "space"@[0]);
    assert("ArrowDown"@[5] != "ArrowLeft"@[5]);
}

fn alias_exec(p: &str) -> (r: Option<String>)
    ensures
        match r {
            Some(s) => alias_of(p@) == Some(s@),
            None => alias_of(p@) is None,
        },
{
    let lit: &str;
    let cs = chars_of(p);
    let one = cs.len() == 1;
    assert(cs@.len() == 1 ==> cs@ =~= seq![cs@[0]]);
    if str_eq(p, "cmd") || str_eq(p, "command") || (one && cs[0] == '⌘') || str_eq(p, "meta") || str_eq(
        p,
        "super",
    ) || str_eq(p, "win") || str_eq(p, "windows") {
        lit = "CmdOrCtrl";
    } else if str_eq(p, "ctrl") || str_eq(p, "control") || (one && cs[0] == '⌃') {
        lit = "Control";
    } else if str_eq(p, "shift") || (one && cs[0] == '⇧') {
        lit = "Shift";
    } else if str_eq(p, "alt") || str_eq(p, "option") || str_eq(p, "opt") || (one && cs[0] == '⌥') {
        lit = "Alt";
    } else {
        if cs.len() == 1 && '0' <= cs[0] && cs[0] <= '9' {
            let mut out = chars_of("Digit");
            out.push(cs[0]);
            assert(out@ =~= "Digit"@ + p@);
            return Some(string_of(&out));
        }
        if str_eq(p, "esc") || str_eq(p, "escape") {
            lit = "Escape";
        } else if str_eq(p, "enter") || str_eq(p, "return") {
            lit = "Enter";
        } else if str_eq(p, "space") || str_eq(p, "spacebar") {
            lit = "Space";
        } else if str_eq(p, "tab") {
            lit = "Tab";
        } else if str_eq(p, "backspace") {
            lit = "Backspace";
        } else if str_eq(p, "up") || str_eq(p, "arrowup") {
            lit = "ArrowUp";
        } else if str_eq(p, "down") || str_eq(p, "arrowdown") {
            lit = "ArrowDown";
        } else if str_eq(p, "left") || str_eq(p, "arrowleft") {
            lit = "ArrowLeft";
        } else if str_eq(p, "right") || str_eq(p, "arrowright") {
            lit = "ArrowRight";
        } else if str_eq(p, "\\") {
            lit = "Backslash";
        } else if str_eq(p, "/") {
            lit = "Slash";
        } else if str_eq(p, ",") {
            lit = "Comma";
        } else if str_eq(p, ".") {
            lit = "Period";
        } else if str_eq(p, ";") {
            lit = "Semicolon";
        } else if str_eq(p, "'") {
            lit = "Quote";
        } else if str_eq(p, "`") {
            lit = "Backquote";
        } else {
            return None;
        }
    }
    Some(lit.to_owned())
}

/// The canonical name of one lowercased piece.
fn map_part_exec(p: &str) -> (r: String)
    ensures
        r@ == map_part(p@),
{
    match alias_exec(p) {
        Some(a) => a,
        None => {
            let cs = chars_of(p);
            if cs.len() == 1 && is_ascii_alpha(cs[0]) {
                let mut out = chars_of("Key");
                out.push(ascii_upper(cs[0]));
                string_of(&out)
            } else if cs.len() == 0 {
                String::new()
            } else {
                let first = char_to_uppercase(cs[0]);
                let mut out = chars_of(first.as_str());
                let ghost head = out@;
                let mut k: usize = 1;
                while k < cs.len()
                    invariant
                        1 <= k <= cs@.len(),
                        out@ == head + cs@.subrange(1, k as int),
                    decreases cs@.len() - k,
                {
                    out.push(cs[k]);
                    k = k + 1;
                    assert(out@ =~= head + cs@.subrange(1, k as int));
                }
                assert(cs@.subrange(1, k as int) =~= cs@.drop_first());
                string_of(&out)
            }
        },
    }
}

fn push_parts_of(tokens: &mut Vec<Vec<char>>, t: &Vec<char>)
    ensures
        final(tokens)@.map_values(|v: Vec<char>| v@) == old(tokens)@.map_values(|v: Vec<char>| v@)
            + glyph_parts(t@),
{
    let ghost base = tokens@.map_values(|v: Vec<char>| v@);
    let mut k: usize = 0;
    assert(t@.skip(0) =~= t@);
    while k < t.len() && t.len() - k > 1 && (t[k] == '⌘' || t[k] == '⌃' || t[k] == '⇧' || t[k] == '⌥')
        invariant
            k <= t@.len(),
            tokens@.map_values(|v: Vec<char>| v@) + glyph_parts(t@.skip(k as int)) == base
                + glyph_parts(t@),
        decreases t@.len() - k,
    {
        let ghost before = tokens@.map_values(|v: Vec<char>| v@);
        let mut one: Vec<char> = Vec::new();
        one.push(t[k]);
        tokens.push(one);
        assert(t@.skip(k as int).drop_first() =~= t@.skip(k + 1));
        assert(t@.skip(k as int)[0] == t@[k as int]);
        assert(tokens@.map_values(|v: Vec<char>| v@) =~= before.push(seq![t@[k as int]]));
        assert(glyph_parts(t@.skip(k as int)) =~= seq![seq![t@[k as int]]] + glyph_parts(
            t@.skip(k + 1),
        ));
        assert(before.push(seq![t@[k as int]]) + glyph_parts(t@.skip(k + 1)) =~= before
            + glyph_parts(t@.skip(k as int)));
        k = k + 1;
    }
    let rest = crate::text::slice_chars(t, k, t.len());
    assert(rest@ =~= t@.skip(k as int));
    assert(glyph_parts(t@.skip(k as int)) =~= seq![t@.skip(k as int)]);
    let ghost before = tokens@.map_values(|v: Vec<char>| v@);
    tokens.push(rest);
    assert(tokens@.map_values(|v: Vec<char>| v@) =~= before.push(t@.skip(k as int)));
}

/// Normalize pieces that are already trimmed and lowercased: modifier
/// glyphs written together become parts of their own, each part gets its
/// canonical name, and the parts are joined by `+`.
pub fn normalize_lowered(pieces: &[String]) -> (r: String)
    ensures
        r@ == spec_normalize_lowered(pieces@.map_values(|s: String| s@)),
{
    let ghost pv = pieces@.map_values(|s: String| s@);
    let ghost gp = pv.map_values(|t: Seq<char>| glyph_parts(t));
    let mut tokens: Vec<Vec<char>> = Vec::new();
    let mut j: usize = 0;
    while j < pieces.len()
        invariant
            j <= pieces@.len(),
            pv == pieces@.map_values(|s: String| s@),
            gp == pv.map_values(|t: Seq<char>| glyph_parts(t)),
            tokens@.map_values(|v: Vec<char>| v@) == flat_parts(gp.take(j as int)),
        decreases pieces@.len() - j,
    {
        let cs = chars_of(pieces[j].as_str());
        push_parts_of(&mut tokens, &cs);
        assert(gp.take(j + 1).drop_last() =~= gp.take(j as int));
        assert(gp.take(j + 1).last() == glyph_parts(cs@));
        j = j + 1;
    }
    assert(gp.take(j as int) =~= gp);
    let ghost parts = flat_parts(gp);
    let ghost mapped = parts.map_values(|p: Seq<char>| map_part(p));
    let mut out: Vec<char> = Vec::new();
    let mut j: usize = 0;
    while j < tokens.len()
        invariant
            j <= tokens@.len(),
            tokens@.map_values(|v: Vec<char>| v@) == parts,
            mapped == parts.map_values(|p: Seq<char>| map_part(p)),
            out@ == join_plus(mapped.take(j as int)),
        decreases tokens@.len() - j,
    {
        let ts = string_of(&tokens[j]);
        let m = map_part_exec(ts.as_str());
        assert(parts[j as int] == tokens@[j as int]@);
        assert(m@ == mapped[j as int]);
        let ghost prev = out@;
        if j > 0 {
            out.push('+');
        }
        let mc = chars_of(m.as_str());
        let mut k: usize = 0;
        let ghost mid = out@;
        while k < mc.len()
            invariant
                k <= mc@.len(),
                out@ == mid + mc@.take(k as int),
            decreases mc@.len() - k,
        {
            out.push(mc[k]);
            k = k + 1;
            assert(out@ =~= mid + mc@.take(k as int));
        }
        assert(mc@.take(k as int) =~= mc@);
        assert(mapped.take(j + 1).drop_last() =~= mapped.take(j as int));
        assert(mapped.take(j + 1).last() == mapped[j as int]);
        if j == 0 {
            assert(mapped.take(1) =~= seq![mapped[0]]);
            assert(out@ =~= join_plus(mapped.take(1)));
        } else {
            assert(out@ =~= prev + seq!['+'] + mapped[j as int]);
        }
        j = j + 1;
    }
    assert(mapped.take(j as int) =~= mapped);
    string_of(&out)
}

/// Normalize a user-authored hotkey string to the canonical shortcut form.
///
/// Modifier aliases: `cmd | command | ⌘ | meta | super | win | windows` →
/// `CmdOrCtrl`; `ctrl | control | ⌃` → `Control`; `shift | ⇧` → `Shift`;
/// `alt | option | opt | ⌥` → `Alt`. The glyphs may also be written
/// together without separators (`⌘⇧1`). Single letters become
/// `Key{LETTER}`, digits `Digit{N}`; `esc`, `enter`, `space`, `tab`,
/// `backspace`, the arrows and common punctuation have names. Anything else
/// has its first char uppercased and passes through (`f1` → `F1`).
pub fn normalize(input: &str) -> (r: String)
    ensures
        r@ == spec_normalize(input@),
{
    let cs = chars_of(input);
    let ghost s = cs@;
    let mut done: Vec<Vec<char>> = Vec::new();
    let mut cur: Vec<char> = Vec::new();
    let mut i: usize = 0;
    while i < cs.len()
        invariant
            i <= s.len(),
            s == cs@,
            done@.map_values(|v: Vec<char>| v@).push(cur@) == split_parts(s.take(i as int)),
        decreases s.len() - i,
    {
        let ghost before = done@.map_values(|v: Vec<char>| v@).push(cur@);
        assert(s.take(i + 1).drop_last() =~= s.take(i as int));
        assert(s.take(i + 1).last() == s[i as int]);
        let c = cs[i];
        if c == '+' || c == '-' {
            let finished = cur;
            done.push(finished);
            cur = Vec::new();
            assert(done@.map_values(|v: Vec<char>| v@).push(cur@) =~= before.push(Seq::empty()));
        } else {
            cur.push(c);
            assert(done@.map_values(|v: Vec<char>| v@).push(cur@) =~= before.update(
                before.len() - 1,
                before.last().push(c),
            ));
        }
        i = i + 1;
    }
    assert(s.take(i as int) =~= s);
    let ghost parts = split_parts(s);
    done.push(cur);
    assert(done@.map_values(|v: Vec<char>| v@) =~= parts);
    let ghost lowered = parts.map_values(|p: Seq<char>| lowercase_of(trim(p)));
    let mut pieces: Vec<String> = Vec::new();
    let mut j: usize = 0;
    while j < done.len()
        invariant
            j <= done@.len(),
            done@.map_values(|v: Vec<char>| v@) == parts,
            lowered == parts.map_values(|p: Seq<char>| lowercase_of(trim(p))),
            pieces@.map_values(|s: String| s@) == lowered.take(j as int),
        decreases done@.len() - j,
    {
        let t = trim_chars(&done[j]);
        let ts = string_of(&t);
        let low = to_lowercase(ts.as_str());
        assert(parts[j as int] == done@[j as int]@);
        let ghost prev = pieces@.map_values(|s: String| s@);
        pieces.push(low);
        assert(pieces@.map_values(|s: String| s@) =~= prev.push(lowered[j as int]));
        assert(lowered.take(j + 1) =~= lowered.take(j as int).push(lowered[j as int]));
        j = j + 1;
    }
    assert(lowered.take(j as int) =~= lowered);
    normalize_lowered(pieces.as_slice())
}


} // verus!

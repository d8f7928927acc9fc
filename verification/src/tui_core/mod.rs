//! Shared TUI vocabulary: flash messages, the color themes, and the text of
//! the header, description and footer chrome around every screen.

use vstd::prelude::*;

use crate::text;

pub mod theme;

verus! {

/// The kind of a transient status message.
#[derive(Debug, Clone, Copy, PartialEq, Eq)]
pub enum FlashKind {
    Success,
    Error,
    Info,
}

/// The horizontal rule character the chrome is drawn with.
pub const RULE: char = '\u{2500}';

/// ` v{version} `, as the header shows it.
pub open spec fn version_tag(version: Seq<char>) -> Seq<char> {
    seq![' ', 'v'] + version + seq![' ']
}

/// Column where the version tag starts: near the right edge, but never over
/// the title.
pub open spec fn version_start(w: nat, title: Seq<char>, version: Seq<char>) -> int {
    let right = w - (text::byte_len(version_tag(version)) + 2);
    let after_title = 4 + text::byte_len(title) + 1;
    let right0 = if right < 0 { 0 } else { right };
    if right0 < after_title { after_title as int } else { right0 }
}

/// The header line of a `w`-column screen: a rule with `title` from column 4
/// and, when `version` is not empty, its version tag near the right edge
/// (over the title where they meet). Columns past `w` are cut.
pub open spec fn header_spec(w: nat, title: Seq<char>, version: Seq<char>) -> Seq<char> {
    let ver = version_tag(version);
    let start = version_start(w, title, version);
    Seq::new(
        w,
        |p: int|
            if version.len() > 0 && start <= p < start + ver.len() {
                ver[p - start]
            } else if 4 <= p < 4 + title.len() {
                title[p - 4]
            } else {
                RULE
            },
    )
}

/// The header line for a screen `width` columns wide.
pub fn header_line(width: u16, title: &str, version: &str) -> (r: String)
    requires
        text::byte_len(title@) + 5 <= usize::MAX,
        text::byte_len(version@) + 5 <= usize::MAX,
    ensures
        r@ == header_spec(width as nat, title@, version@),
{
    let w = width as usize;
    let mut chars: Vec<char> = Vec::new();
    while chars.len() < w
        invariant
            chars@.len() <= w,
            forall|p: int| 0 <= p < chars@.len() ==> chars@[p] == RULE,
        decreases w - chars.len(),
    {
        chars.push(RULE);
    }
    let t = text::chars_of(title);
    let mut i: usize = 0;
    while i < t.len() && w >= 4 && i < w - 4
        invariant
            chars@.len() == w,
            t@ == title@,
            i <= t@.len(),
            forall|p: int|
                0 <= p < w ==> chars@[p] == (if 4 <= p < 4 + i { t@[p - 4] } else { RULE }),
        decreases t.len() - i,
    {
        chars.set(i + 4, t[i]);
        i += 1;
    }
    assert forall|p: int| 0 <= p < w implies chars@[p] == (if 4 <= p < 4 + title@.len() {
        title@[p - 4]
    } else {
        RULE
    }) by {}
    if version.len() > 0 {
        let mut ver = String::new();
        text::push_char(&mut ver, ' ');
        text::push_char(&mut ver, 'v');
        text::push_str(&mut ver, version);
        text::push_char(&mut ver, ' ');
        assert(ver@ =~= version_tag(version@));
        proof {
            text::lemma_byte_len_concat(seq![' ', 'v'], version@);
            text::lemma_byte_len_concat(seq![' ', 'v'] + version@, seq![' ']);
            text::lemma_byte_len_concat(seq![' '], seq!['v']);
            assert(seq![' ', 'v'] =~= seq![' '] + seq!['v']);
            text::lemma_byte_len_ascii(' ');
            text::lemma_byte_len_ascii('v');
        }
        let vb = ver.as_str().len();
        let right = w.saturating_sub(vb + 2);
        let after = 4 + title.len() + 1;
        let start = if right < after { after } else { right };
        assert(start == version_start(w as nat, title@, version@));
        let vc = text::chars_of(ver.as_str());
        let mut j: usize = 0;
        while j < vc.len() && start < w && j < w - start
            invariant
                chars@.len() == w,
                vc@ == version_tag(version@),
                j <= vc@.len(),
                forall|p: int|
                    0 <= p < w ==> chars@[p] == (if start <= p < start + j {
                        vc@[p - start]
                    } else if 4 <= p < 4 + title@.len() {
                        title@[p - 4]
                    } else {
                        RULE
                    }),
            decreases vc.len() - j,
        {
            chars.set(start + j, vc[j]);
            j += 1;
        }
        assert(version@.len() > 0);
    }
    let r = text::string_of(&chars);
    assert(r@ =~= header_spec(width as nat, title@, version@));
    r
}

/// The description bar: a flash message when there is one, indented two
/// columns; otherwise `text` after a `›` marker.
pub open spec fn desc_spec(text: Seq<char>, flash: Option<Seq<char>>) -> Seq<char> {
    match flash {
        Some(m) => seq![' ', ' '] + m,
        None => seq![' ', ' ', '\u{203a}', ' '] + text,
    }
}

/// The text of the description bar.
pub fn desc_line(text: &str, flash: &Option<(String, FlashKind)>) -> (r: String)
    ensures
        r@ == desc_spec(text@, match flash {
            Some(f) => Some(f.0@),
            None => None,
        }),
{
    let mut out = String::new();
    text::push_char(&mut out, ' ');
    text::push_char(&mut out, ' ');
    match flash {
        Some(f) => {
            text::push_str(&mut out, f.0.as_str());
        },
        None => {
            text::push_char(&mut out, '\u{203a}');
            text::push_char(&mut out, ' ');
            text::push_str(&mut out, text);
        },
    }
    proof {
        match flash {
            Some(f) => assert(out@ =~= seq![' ', ' '] + f.0@),
            None => assert(out@ =~= seq![' ', ' ', '\u{203a}', ' '] + text@),
        }
    }
    out
}

/// A rule `w` columns wide, as the footer draws above its hint.
pub fn rule_line(w: u16) -> (r: String)
    ensures
        r@ == Seq::new(w as nat, |p: int| RULE),
{
    let mut out = String::new();
    let mut i: u16 = 0;
    while i < w
        invariant
            i <= w,
            out@ == Seq::new(i as nat, |p: int| RULE),
        decreases w - i,
    {
        text::push_char(&mut out, RULE);
        assert(out@ =~= Seq::new((i + 1) as nat, |p: int| RULE));
        i += 1;
    }
    out
}

} // verus!

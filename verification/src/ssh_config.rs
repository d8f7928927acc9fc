//! Import sessions from an OpenSSH `~/.ssh/config` file.
//!
//! ssm shells out to `ssh`, so it can lean on the config a user already
//! maintains. The parser walks the text line by line and turns each concrete
//! `Host` block into a [`Session`], carrying across `HostName`, `Port`, `User`
//! and `ProxyJump`. Wildcard blocks (`Host *`, `Host web-*`) are patterns
//! rather than hosts, so they are skipped.

use vstd::prelude::*;


use crate::paths;
use crate::storage::{Session, SessionView};
use crate::text::{self, CharClass};

verus! {

/// A `Host` token is a glob pattern rather than a concrete host when it holds
/// `*` or `?`, or starts with a `!` negation.
pub open spec fn is_pattern_spec(t: Seq<char>) -> bool {
    t.contains('*') || t.contains('?') || (t.len() > 0 && t[0] == '!')
}

/// `Key Value` or `Key = Value`: the key runs up to the first space, tab or
/// `=`; the value is what follows once separators and white space are
/// dropped. A line without a separator, key or value is no directive.
pub open spec fn directive(line: Seq<char>) -> Option<(Seq<char>, Seq<char>)> {
    let ke = text::first_index(line, CharClass::KeySep, true);
    if ke >= line.len() {
        None
    } else {
        let key = text::trimmed(line.subrange(0, ke));
        let value = text::trimmed(
            text::trim_start_by(line.subrange(ke, line.len() as int), CharClass::KeySep),
        );
        if key.len() == 0 || value.len() == 0 {
            None
        } else {
            Some((key, value))
        }
    }
}

/// A directive line reads the same whichever separator stands between key and
/// value — a space, a tab or `=`: for a key and a value without white space
/// (the key without `=`, the value not starting with one), `key SEP value`
/// is the directive `(key, value)`.
pub proof fn lemma_directive_separators(k: Seq<char>, v: Seq<char>, sep: char)
    requires
        k.len() > 0,
        v.len() > 0,
        forall|i: int| 0 <= i < k.len() ==> !text::is_ws(#[trigger] k[i]) && k[i] != '=',
        forall|i: int| 0 <= i < v.len() ==> !text::is_ws(#[trigger] v[i]),
        v[0] != '=',
        sep == ' ' || sep == '\t' || sep == '=',
    ensures
        directive(k + seq![sep] + v) == Some((k, v)),
{
    let line = k + seq![sep] + v;
    assert forall|j: int| 0 <= j < k.len() implies !text::in_class(CharClass::KeySep, #[trigger] line[j]) by {
        assert(line[j] == k[j]);
        assert(!text::is_ws(k[j]));
        assert(k[j] != '=');
    }
    assert(line[k.len() as int] == sep);
    text::lemma_first_index_at(line, CharClass::KeySep, true, k.len() as int);
    assert(line.subrange(0, k.len() as int) =~= k);
    text::lemma_trimmed_id(k);
    let rest = line.subrange(k.len() as int, line.len() as int);
    assert(rest =~= seq![sep] + v);
    assert(rest[0] == sep);
    assert(rest[1] == v[0]);
    assert(!text::is_ws(v[0]));
    text::lemma_first_index_at(rest, CharClass::KeySep, false, 1);
    assert(text::trim_start_by(rest, CharClass::KeySep) =~= v);
    text::lemma_trimmed_id(v);
}

/// The first non-empty, wildcard-free word.
pub open spec fn first_alias(words: Seq<Seq<char>>) -> Option<Seq<char>>
    decreases words.len(),
{
    if words.len() == 0 {
        None
    } else if words[0].len() > 0 && !is_pattern_spec(words[0]) {
        Some(words[0])
    } else {
        first_alias(words.drop_first())
    }
}

pub open spec fn opt_session_view(o: Option<Session>) -> Option<SessionView> {
    match o {
        Some(s) => Some(s@),
        None => None,
    }
}

/// Closing a block: a `Host` without `HostName` connects to its alias, and
/// a block with a name joins the list.
pub open spec fn flush(done: Seq<SessionView>, cur: Option<SessionView>) -> Seq<SessionView> {
    match cur {
        None => done,
        Some(s) => {
            let s2 = if s.host.len() == 0 {
                SessionView { host: s.name, ..s }
            } else {
                s
            };
            if s2.name.len() > 0 {
                done.push(s2)
            } else {
                done
            }
        },
    }
}

pub open spec fn kw_host() -> Seq<char> {
    seq!['h', 'o', 's', 't']
}

pub open spec fn kw_hostname() -> Seq<char> {
    seq!['h', 'o', 's', 't', 'n', 'a', 'm', 'e']
}

pub open spec fn kw_port() -> Seq<char> {
    seq!['p', 'o', 'r', 't']
}

pub open spec fn kw_user() -> Seq<char> {
    seq!['u', 's', 'e', 'r']
}

pub open spec fn kw_proxyjump() -> Seq<char> {
    seq!['p', 'r', 'o', 'x', 'y', 'j', 'u', 'm', 'p']
}

pub open spec fn kw_none() -> Seq<char> {
    seq!['n', 'o', 'n', 'e']
}

/// What a `HostName`, `Port`, `User` or `ProxyJump` directive does to the
/// block being read; any other directive leaves it alone.
pub open spec fn update_field(s: SessionView, lkey: Seq<char>, value: Seq<char>) -> SessionView {
    if lkey == kw_hostname() {
        SessionView { host: value, ..s }
    } else if lkey == kw_port() {
        match text::parse_u16_spec(value) {
            Some(p) => SessionView { port: p, ..s },
            None => s,
        }
    } else if lkey == kw_user() {
        SessionView { user: value, ..s }
    } else if lkey == kw_proxyjump() {
        if text::eq_ignore_ascii_case(value, kw_none()) {
            SessionView { proxy_jump: None, ..s }
        } else {
            SessionView { proxy_jump: Some(value), ..s }
        }
    } else {
        s
    }
}

/// One directive, with its key already lowercased: `Host` closes the current
/// block and opens one named by its first concrete alias (none when every
/// alias is a pattern); the others update the open block, if any.
pub open spec fn apply_directive_spec(
    done: Seq<SessionView>,
    cur: Option<SessionView>,
    lkey: Seq<char>,
    value: Seq<char>,
) -> (Seq<SessionView>, Option<SessionView>) {
    if lkey == kw_host() {
        (
            flush(done, cur),
            match first_alias(text::split_by(value, CharClass::Space)) {
                Some(a) => Some(SessionView { name: a, ..SessionView::blank() }),
                None => None,
            },
        )
    } else {
        (
            done,
            match cur {
                Some(s) => Some(update_field(s, lkey, value)),
                None => None,
            },
        )
    }
}

/// One line: blank lines and `#` comments are skipped, as are lines that
/// hold no directive.
pub open spec fn step(st: (Seq<SessionView>, Option<SessionView>), line: Seq<char>) -> (
    Seq<SessionView>,
    Option<SessionView>,
) {
    let l = text::trimmed(line);
    if l.len() == 0 || l[0] == '#' {
        st
    } else {
        match directive(l) {
            None => st,
            Some(kv) => apply_directive_spec(st.0, st.1, text::lowercase(kv.0), kv.1),
        }
    }
}

pub open spec fn run(
    lines: Seq<Seq<char>>,
    st: (Seq<SessionView>, Option<SessionView>),
) -> (Seq<SessionView>, Option<SessionView>)
    decreases lines.len(),
{
    if lines.len() == 0 {
        st
    } else {
        run(lines.drop_first(), step(st, lines[0]))
    }
}

/// The sessions that ssh_config text describes, in file order.
pub open spec fn parse_spec(t: Seq<char>) -> Seq<SessionView> {
    let st = run(text::split_by(t, CharClass::Newline), (Seq::empty(), None));
    flush(st.0, st.1)
}

/// Default location of the user's SSH client config, `~/.ssh/config`.
pub fn default_ssh_config_path() -> (r: String)
    ensures
        exists|h: Option<Seq<char>>|
            paths::found_home(h) && r@ == paths::join_spec(paths::home_or_tmp(h), ".ssh/config"@),
{
    let h = paths::home_dir();
    let r = paths::under_home(h, ".ssh/config");
    assert(paths::found_home(crate::storage::opt_chars(h)) && r@ == paths::join_spec(
        paths::home_or_tmp(crate::storage::opt_chars(h)),
        ".ssh/config"@,
    ));
    r
}

/// Whether a `Host` token is a pattern (`*`, `?`, or a leading `!`).
pub fn is_pattern(token: &Vec<char>) -> (r: bool)
    ensures
        r == is_pattern_spec(token@),
{
    let mut i: usize = 0;
    while i < token.len()
        invariant
            0 <= i <= token.len(),
            forall|j: int| 0 <= j < i ==> token@[j] != '*' && token@[j] != '?',
        decreases token.len() - i,
    {
        if token[i] == '*' || token[i] == '?' {
            assert(token@.contains(token@[i as int]));
            return true;
        }
        i += 1;
    }
    token.len() > 0 && token[0] == '!'
}

/// Split an ssh_config directive line into `(key, value)`, tolerating both
/// `Key Value` and `Key = Value` forms. Returns `None` for value-less lines.
pub fn split_directive(line: &Vec<char>) -> (r: Option<(Vec<char>, Vec<char>)>)
    ensures
        match r {
            Some(kv) => directive(line@) == Some((kv.0@, kv.1@)),
            None => directive(line@) is None,
        },
{
    let ke = text::find_from(line, 0, CharClass::KeySep, true);
    assert(line@.subrange(0, line@.len() as int) =~= line@);
    if ke >= line.len() {
        return None;
    }
    let head = text::slice_chars(line, 0, ke);
    let key = text::trim_chars(&head);
    let tail = text::slice_chars(line, ke, line.len());
    let vs = text::find_from(&tail, 0, CharClass::KeySep, false);
    assert(tail@.subrange(0, tail@.len() as int) =~= tail@);
    let rest = text::slice_chars(&tail, vs, tail.len());
    let value = text::trim_chars(&rest);
    if key.len() == 0 || value.len() == 0 {
        return None;
    }
    Some((key, value))
}

/// The first concrete alias of a `Host` line's value.
fn first_concrete_alias(value: &Vec<char>) -> (r: Option<Vec<char>>)
    ensures
        match r {
            Some(a) => first_alias(text::split_by(value@, CharClass::Space)) == Some(a@),
            None => first_alias(text::split_by(value@, CharClass::Space)) is None,
        },
{
    let words = text::split_chars(value, CharClass::Space);
    let ghost ws = text::views(words@);
    assert(ws.subrange(0, ws.len() as int) =~= ws);
    let mut i: usize = 0;
    while i < words.len()
        invariant
            0 <= i <= words.len(),
            ws == text::views(words@),
            ws == text::split_by(value@, CharClass::Space),
            first_alias(ws) == first_alias(ws.subrange(i as int, ws.len() as int)),
        decreases words.len() - i,
    {
        let w = &words[i];
        let ghost tail = ws.subrange(i as int, ws.len() as int);
        assert(tail[0] == w@);
        assert(tail.drop_first() =~= ws.subrange(i + 1, ws.len() as int));
        if w.len() > 0 && !is_pattern(w) {
            return Some(text::slice_chars(w, 0, w.len()));
        }
        i += 1;
    }
    assert(ws.subrange(i as int, ws.len() as int) =~= Seq::<Seq<char>>::empty());
    None
}

/// Closes the block in `current`: fills in a missing host from the alias and
/// appends it to `sessions` when it has a name.
fn flush_block(sessions: &mut Vec<Session>, current: Option<Session>)
    ensures
        crate::storage::sessions_view(final(sessions)@) == flush(
            crate::storage::sessions_view(old(sessions)@),
            opt_session_view(current),
        ),
{
    if let Some(mut s) = current {
        if s.host.as_str().is_empty() {
            s.host = s.name.clone();
        }
        if !s.name.as_str().is_empty() {
            sessions.push(s);
            assert(crate::storage::sessions_view(sessions@) =~= crate::storage::sessions_view(
                old(sessions)@,
            ).push(s@));
        }
    }
}

/// Applies one directive whose key is already lowercased (`key_lower`) to the
/// sessions read so far and the block being read.
pub fn apply_directive(
    sessions: &mut Vec<Session>,
    current: &mut Option<Session>,
    key_lower: &str,
    value: &str,
)
    ensures
        (crate::storage::sessions_view(final(sessions)@), opt_session_view(*final(current)))
            == apply_directive_spec(
            crate::storage::sessions_view(old(sessions)@),
            opt_session_view(*old(current)),
            key_lower@,
            value@,
        ),
{
    let k = text::chars_of(key_lower);
    let v = text::chars_of(value);
    let cur = current.take();
    if text::chars_eq(&k, &vec!['h', 'o', 's', 't']) {
        flush_block(sessions, cur);
        *current = match first_concrete_alias(&v) {
            Some(a) => {
                let mut s = Session::default();
                s.name = text::string_of(&a);
                Some(s)
            },
            None => None,
        };
        return ;
    }
    *current = match cur {
        None => None,
        Some(mut s) => {
            if text::chars_eq(&k, &vec!['h', 'o', 's', 't', 'n', 'a', 'm', 'e']) {
                s.host = text::to_owned_string(value);
            } else if text::chars_eq(&k, &vec!['p', 'o', 'r', 't']) {
                if let Some(p) = text::parse_u16(&v) {
                    s.port = p;
                }
            } else if text::chars_eq(&k, &vec!['u', 's', 'e', 'r']) {
                s.user = text::to_owned_string(value);
            } else if text::chars_eq(&k, &vec!['p', 'r', 'o', 'x', 'y', 'j', 'u', 'm', 'p']) {
                if text::chars_eq_ignore_ascii_case(&v, &vec!['n', 'o', 'n', 'e']) {
                    s.proxy_jump = None;
                } else {
                    s.proxy_jump = Some(text::to_owned_string(value));
                }
            }
            Some(s)
        },
    };
}

/// Parse ssh_config text into sessions, in file order.
pub fn parse_ssh_config_str(t: &str) -> (r: Vec<Session>)
    ensures
        crate::storage::sessions_view(r@) == parse_spec(t@),
{
    let chars = text::chars_of(t);
    let lines = text::split_chars(&chars, CharClass::Newline);
    let ghost ls = text::views(lines@);
    let mut sessions: Vec<Session> = Vec::new();
    let mut current: Option<Session> = None;
    let mut i: usize = 0;
    assert(ls.subrange(0, ls.len() as int) =~= ls);
    assert(crate::storage::sessions_view(sessions@) =~= Seq::<SessionView>::empty());
    while i < lines.len()
        invariant
            0 <= i <= lines.len(),
            ls == text::views(lines@),
            ls == text::split_by(t@, CharClass::Newline),
            run(ls, (Seq::empty(), None)) == run(
                ls.subrange(i as int, ls.len() as int),
                (crate::storage::sessions_view(sessions@), opt_session_view(current)),
            ),
        decreases lines.len() - i,
    {
        let ghost st = (crate::storage::sessions_view(sessions@), opt_session_view(current));
        proof {
            let tail = ls.subrange(i as int, ls.len() as int);
            assert(tail[0] == lines@[i as int]@);
            assert(tail.drop_first() =~= ls.subrange(i + 1, ls.len() as int));
        }
        let line = text::trim_chars(&lines[i]);
        if line.len() > 0 && line[0] != '#' {
            if let Some((key, value)) = split_directive(&line) {
                let ks = text::string_of(&key);
                let lowered = text::to_lowercase(ks.as_str());
                let vs = text::string_of(&value);
                apply_directive(&mut sessions, &mut current, lowered.as_str(), vs.as_str());
            }
        }
        i += 1;
    }
    flush_block(&mut sessions, current);
    sessions
}

/// Some session of `list` is called `name`.
pub open spec fn has_name(list: Seq<SessionView>, name: Seq<char>) -> bool {
    exists|i: int| 0 <= i < list.len() && #[trigger] list[i].name == name
}

/// `existing` followed by each imported session whose name is not yet taken
/// (names taken by earlier imports included), in import order.
pub open spec fn merge_spec(existing: Seq<SessionView>, imported: Seq<SessionView>) -> Seq<
    SessionView,
>
    decreases imported.len(),
{
    if imported.len() == 0 {
        existing
    } else {
        let next = if has_name(existing, imported[0].name) {
            existing
        } else {
            existing.push(imported[0])
        };
        merge_spec(next, imported.drop_first())
    }
}

/// Whether some session of `list` is called `name`.
pub(crate) fn contains_name(list: &Vec<Session>, name: &String) -> (r: bool)
    ensures
        r == has_name(crate::storage::sessions_view(list@), name@),
{
    let ghost lv = crate::storage::sessions_view(list@);
    let mut i: usize = 0;
    while i < list.len()
        invariant
            0 <= i <= list.len(),
            lv == crate::storage::sessions_view(list@),
            forall|j: int| 0 <= j < i ==> #[trigger] lv[j].name != name@,
        decreases list.len() - i,
    {
        if list[i].name == *name {
            assert(lv[i as int].name == name@);
            return true;
        }
        i += 1;
    }
    false
}

/// Merge freshly parsed sessions into an existing list, skipping any whose name
/// already exists. Returns the number actually added.
pub fn merge_new(existing: &mut Vec<Session>, imported: Vec<Session>) -> (added: usize)
    ensures
        crate::storage::sessions_view(final(existing)@) == merge_spec(
            crate::storage::sessions_view(old(existing)@),
            crate::storage::sessions_view(imported@),
        ),
        added == final(existing)@.len() - old(existing)@.len(),
{
    let ghost im = crate::storage::sessions_view(imported@);
    let ghost start = crate::storage::sessions_view(existing@);
    let mut added: usize = 0;
    let mut i: usize = 0;
    assert(im.subrange(0, im.len() as int) =~= im);
    while i < imported.len()
        invariant
            0 <= i <= imported.len(),
            im == crate::storage::sessions_view(imported@),
            merge_spec(start, im) == merge_spec(
                crate::storage::sessions_view(existing@),
                im.subrange(i as int, im.len() as int),
            ),
            existing@.len() == start.len() + added,
            added <= i,
        decreases imported.len() - i,
    {
        let s = &imported[i];
        let ghost tail = im.subrange(i as int, im.len() as int);
        let ghost before = crate::storage::sessions_view(existing@);
        assert(tail[0] == s@);
        assert(tail.drop_first() =~= im.subrange(i + 1, im.len() as int));
        if !contains_name(existing, &s.name) {
            existing.push(s.duplicate());
            assert(crate::storage::sessions_view(existing@) =~= before.push(s@));
            added += 1;
        }
        i += 1;
    }
    added
}

/// Merging keeps the sessions that were already there, in place.
pub proof fn lemma_merge_keeps_existing(existing: Seq<SessionView>, imported: Seq<SessionView>)
    ensures
        merge_spec(existing, imported).len() >= existing.len(),
        merge_spec(existing, imported).subrange(0, existing.len() as int) == existing,
    decreases imported.len(),
{
    if imported.len() > 0 {
        let next = if has_name(existing, imported[0].name) {
            existing
        } else {
            existing.push(imported[0])
        };
        lemma_merge_keeps_existing(next, imported.drop_first());
        assert(next.subrange(0, existing.len() as int) =~= existing);
        assert(merge_spec(existing, imported).subrange(0, existing.len() as int) =~= merge_spec(
            next,
            imported.drop_first(),
        ).subrange(0, next.len() as int).subrange(0, existing.len() as int));
    } else {
        assert(existing.subrange(0, existing.len() as int) =~= existing);
    }
}

/// A name that is present stays present through a merge.
pub proof fn lemma_merge_keeps_names(
    existing: Seq<SessionView>,
    imported: Seq<SessionView>,
    name: Seq<char>,
)
    requires
        has_name(existing, name),
    ensures
        has_name(merge_spec(existing, imported), name),
{
    lemma_merge_keeps_existing(existing, imported);
    let m = merge_spec(existing, imported);
    let i = choose|i: int| 0 <= i < existing.len() && #[trigger] existing[i].name == name;
    assert(m.subrange(0, existing.len() as int)[i] == m[i]);
    assert(m[i].name == name);
}

/// After a merge, every imported name is in the list.
pub proof fn lemma_merge_covers_imported(existing: Seq<SessionView>, imported: Seq<SessionView>)
    ensures
        forall|j: int|
            0 <= j < imported.len() ==> has_name(
                merge_spec(existing, imported),
                #[trigger] imported[j].name,
            ),
    decreases imported.len(),
{
    if imported.len() > 0 {
        let next = if has_name(existing, imported[0].name) {
            existing
        } else {
            existing.push(imported[0])
        };
        assert(has_name(next, imported[0].name)) by {
            if !has_name(existing, imported[0].name) {
                assert(next[existing.len() as int].name == imported[0].name);
            }
        }
        lemma_merge_covers_imported(next, imported.drop_first());
        lemma_merge_keeps_names(next, imported.drop_first(), imported[0].name);
        assert forall|j: int| 0 <= j < imported.len() implies has_name(
            merge_spec(existing, imported),
            #[trigger] imported[j].name,
        ) by {
            if j > 0 {
                assert(imported[j] == imported.drop_first()[j - 1]);
            }
        }
    }
}

/// No two sessions of `list` share a name.
pub open spec fn names_unique(list: Seq<SessionView>) -> bool {
    forall|i: int, j: int|
        0 <= i < list.len() && 0 <= j < list.len() && i != j ==> #[trigger] list[i].name
            != #[trigger] list[j].name
}

/// Importing never introduces a duplicate name into a list without any.
pub proof fn lemma_merge_keeps_names_unique(
    existing: Seq<SessionView>,
    imported: Seq<SessionView>,
)
    requires
        names_unique(existing),
    ensures
        names_unique(merge_spec(existing, imported)),
    decreases imported.len(),
{
    if imported.len() > 0 {
        let next = if has_name(existing, imported[0].name) {
            existing
        } else {
            existing.push(imported[0])
        };
        assert(names_unique(next)) by {
            if !has_name(existing, imported[0].name) {
                assert forall|i: int, j: int|
                    0 <= i < next.len() && 0 <= j < next.len() && i != j implies #[trigger] next[i].name
                    != #[trigger] next[j].name by {
                    if i == existing.len() {
                        assert(next[j] == existing[j]);
                    } else if j == existing.len() {
                        assert(next[i] == existing[i]);
                    } else {
                        assert(next[i] == existing[i]);
                        assert(next[j] == existing[j]);
                    }
                }
            }
        }
        lemma_merge_keeps_names_unique(next, imported.drop_first());
    }
}

/// Importing the same sessions a second time adds nothing.
pub proof fn lemma_merge_idempotent(existing: Seq<SessionView>, imported: Seq<SessionView>)
    ensures
        merge_spec(merge_spec(existing, imported), imported) == merge_spec(existing, imported),
{
    lemma_merge_covers_imported(existing, imported);
    lemma_merge_skips_present(merge_spec(existing, imported), imported);
}

/// Importing sessions whose names are all present changes nothing.
pub proof fn lemma_merge_skips_present(existing: Seq<SessionView>, imported: Seq<SessionView>)
    requires
        forall|j: int| 0 <= j < imported.len() ==> has_name(existing, #[trigger] imported[j].name),
    ensures
        merge_spec(existing, imported) == existing,
    decreases imported.len(),
{
    if imported.len() > 0 {
        assert(has_name(existing, imported[0].name));
        assert forall|j: int| 0 <= j < imported.drop_first().len() implies has_name(
            existing,
            #[trigger] imported.drop_first()[j].name,
        ) by {
            assert(imported.drop_first()[j] == imported[j + 1]);
        }
        lemma_merge_skips_present(existing, imported.drop_first());
    }
}

/// A session an import may produce: a concrete (non-pattern) name and a host
/// to connect to.
pub open spec fn importable(s: SessionView) -> bool {
    s.name.len() > 0 && !is_pattern_spec(s.name) && s.host.len() > 0
}

pub open spec fn state_ok(st: (Seq<SessionView>, Option<SessionView>)) -> bool {
    &&& forall|i: int| 0 <= i < st.0.len() ==> importable(#[trigger] st.0[i])
    &&& match st.1 {
        Some(c) => c.name.len() > 0 && !is_pattern_spec(c.name),
        None => true,
    }
}

proof fn lemma_first_alias_concrete(words: Seq<Seq<char>>)
    ensures
        first_alias(words) matches Some(a) ==> a.len() > 0 && !is_pattern_spec(a),
    decreases words.len(),
{
    if words.len() > 0 && !(words[0].len() > 0 && !is_pattern_spec(words[0])) {
        lemma_first_alias_concrete(words.drop_first());
    }
}

proof fn lemma_flush_ok(st: (Seq<SessionView>, Option<SessionView>))
    requires
        state_ok(st),
    ensures
        forall|i: int| 0 <= i < flush(st.0, st.1).len() ==> importable(#[trigger] flush(st.0, st.1)[i]),
{
    let f = flush(st.0, st.1);
    assert forall|i: int| 0 <= i < f.len() implies importable(#[trigger] f[i]) by {
        if i < st.0.len() {
            assert(f[i] == st.0[i]);
        }
    }
}

proof fn lemma_run_ok(lines: Seq<Seq<char>>, st: (Seq<SessionView>, Option<SessionView>))
    requires
        state_ok(st),
    ensures
        state_ok(run(lines, st)),
    decreases lines.len(),
{
    if lines.len() > 0 {
        let next = step(st, lines[0]);
        assert(state_ok(next)) by {
            let l = text::trimmed(lines[0]);
            if !(l.len() == 0 || l[0] == '#') {
                if let Some(kv) = directive(l) {
                    let lk = text::lowercase(kv.0);
                    if lk == kw_host() {
                        lemma_flush_ok(st);
                        lemma_first_alias_concrete(text::split_by(kv.1, CharClass::Space));
                    }
                }
            }
        }
        lemma_run_ok(lines.drop_first(), next);
    }
}

/// Every imported session has a concrete, non-pattern name and a non-empty
/// host: wildcard blocks never become sessions, and a `Host` without
/// `HostName` connects to its alias.
pub proof fn lemma_parse_importable(t: Seq<char>)
    ensures
        forall|i: int| 0 <= i < parse_spec(t).len() ==> importable(#[trigger] parse_spec(t)[i]),
{
    let st = run(text::split_by(t, CharClass::Newline), (Seq::empty(), None));
    lemma_run_ok(text::split_by(t, CharClass::Newline), (Seq::empty(), None));
    lemma_flush_ok(st);
}

} // verus!

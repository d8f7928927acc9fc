//! The session list, the add/edit form, search, tag groups and the which-key
//! menus: the state behind the terminal interface and how each key changes
//! it.
//!
//! Work that needs the outside world (saving, reloading, the clipboard, the
//! keychain) is not done here: a key handler changes the state and returns an
//! [`Effect`]; the caller performs it and reports back through the matching
//! `finish_*` method.

use vstd::prelude::*;

use crate::connect::ConnectConfig;
use crate::storage::{Session, SessionView};
use crate::text::{self, CharClass};
use crate::tui_core::FlashKind;

verus! {

// ── form ──────────────────────────────────────────────────────────────────────

/// Whether the form adds a new session or edits an existing one.
#[derive(Debug, Clone, Copy, PartialEq, Eq)]
pub enum FormMode {
    Add,
    Edit,
}

/// Number of form fields: Name, Host, User, Port, ProxyJump, Tags, Password.
pub const FIELD_COUNT: usize = 7;

pub const F_NAME: usize = 0;

pub const F_HOST: usize = 1;

pub const F_USER: usize = 2;

pub const F_PORT: usize = 3;

pub const F_JUMP: usize = 4;

pub const F_TAGS: usize = 5;

pub const F_PASS: usize = 6;

/// The add/edit form.
#[derive(Debug, Clone)]
pub struct FormState {
    /// One text per field, in [`FIELD_COUNT`] order.
    pub fields: Vec<String>,
    pub cursor: usize,
    pub mode: FormMode,
    pub edit_idx: Option<usize>,
    /// When true the selected field has keyboard focus and captures text
    /// input; when false j/k move between fields.
    pub focused: bool,
}

impl FormState {
    /// The form has one text per field and its cursor on one of them.
    pub open spec fn wf(&self) -> bool {
        self.fields.len() == FIELD_COUNT && self.cursor < FIELD_COUNT
    }

    pub open spec fn texts(&self) -> Seq<Seq<char>> {
        crate::storage::strings_view(self.fields@)
    }
}

/// Tags joined by `", "`.
pub open spec fn join_tags(tags: Seq<Seq<char>>) -> Seq<char>
    decreases tags.len(),
{
    if tags.len() == 0 {
        Seq::empty()
    } else if tags.len() == 1 {
        tags[0]
    } else {
        join_tags(tags.drop_last()) + seq![',', ' '] + tags.last()
    }
}

/// `tags.join(", ")`.
pub fn join_tag_strings(tags: &Vec<String>) -> (r: String)
    ensures
        r@ == join_tags(crate::storage::strings_view(tags@)),
{
    let ghost tv = crate::storage::strings_view(tags@);
    let mut out = String::new();
    let mut i: usize = 0;
    while i < tags.len()
        invariant
            0 <= i <= tags.len(),
            tv == crate::storage::strings_view(tags@),
            out@ == join_tags(tv.subrange(0, i as int)),
        decreases tags.len() - i,
    {
        let ghost pre = tv.subrange(0, i + 1);
        assert(pre.drop_last() =~= tv.subrange(0, i as int));
        assert(pre.last() == tags@[i as int]@);
        if i > 0 {
            text::push_char(&mut out, ',');
            text::push_char(&mut out, ' ');
            assert(out@ =~= join_tags(tv.subrange(0, i as int)) + seq![',', ' ']);
        } else {
            assert(join_tags(tv.subrange(0, i as int)) =~= Seq::<char>::empty());
        }
        text::push_str(&mut out, tags[i].as_str());
        i += 1;
    }
    assert(tv.subrange(0, tv.len() as int) =~= tv);
    out
}

/// Adds each trimmed piece that is non-empty and not yet present.
pub open spec fn tags_fold(pieces: Seq<Seq<char>>, out: Seq<Seq<char>>) -> Seq<Seq<char>>
    decreases pieces.len(),
{
    if pieces.len() == 0 {
        out
    } else {
        let t = text::trimmed(pieces[0]);
        let next = if t.len() > 0 && !out.contains(t) {
            out.push(t)
        } else {
            out
        };
        tags_fold(pieces.drop_first(), next)
    }
}

/// The tags written in `raw`: pieces between commas, spaces and tabs,
/// trimmed, empty ones dropped, each kept once at its first position.
pub open spec fn parse_tags_spec(raw: Seq<char>) -> Seq<Seq<char>> {
    tags_fold(text::split_by(raw, CharClass::TagSep), Seq::empty())
}

/// Whether `list` holds a string equal to `t`.
pub(crate) fn strings_contain(list: &Vec<String>, t: &Vec<char>) -> (r: bool)
    ensures
        r == crate::storage::strings_view(list@).contains(t@),
{
    let ghost lv = crate::storage::strings_view(list@);
    let mut i: usize = 0;
    while i < list.len()
        invariant
            0 <= i <= list.len(),
            lv == crate::storage::strings_view(list@),
            forall|j: int| 0 <= j < i ==> lv[j] != t@,
        decreases list.len() - i,
    {
        let e = text::chars_of(list[i].as_str());
        if text::chars_eq(&e, t) {
            assert(lv[i as int] == t@);
            return true;
        }
        i += 1;
    }
    false
}

/// Split a comma/whitespace-separated tag string into normalized,
/// de-duplicated tags.
pub fn parse_tags(raw: &str) -> (r: Vec<String>)
    ensures
        crate::storage::strings_view(r@) == parse_tags_spec(raw@),
{
    let chars = text::chars_of(raw);
    let pieces = text::split_chars(&chars, CharClass::TagSep);
    let ghost ps = text::views(pieces@);
    let mut out: Vec<String> = Vec::new();
    let mut i: usize = 0;
    assert(ps.subrange(0, ps.len() as int) =~= ps);
    assert(crate::storage::strings_view(out@) =~= Seq::<Seq<char>>::empty());
    while i < pieces.len()
        invariant
            0 <= i <= pieces.len(),
            ps == text::views(pieces@),
            ps == text::split_by(raw@, CharClass::TagSep),
            parse_tags_spec(raw@) == tags_fold(
                ps.subrange(i as int, ps.len() as int),
                crate::storage::strings_view(out@),
            ),
        decreases pieces.len() - i,
    {
        let ghost tail = ps.subrange(i as int, ps.len() as int);
        assert(tail[0] == pieces@[i as int]@);
        assert(tail.drop_first() =~= ps.subrange(i + 1, ps.len() as int));
        let t = text::trim_chars(&pieces[i]);
        if t.len() > 0 && !strings_contain(&out, &t) {
            let ghost before = crate::storage::strings_view(out@);
            out.push(text::string_of(&t));
            assert(crate::storage::strings_view(out@) =~= before.push(t@));
        }
        i += 1;
    }
    out
}

/// The session a form describes, when its name, host and user are non-blank
/// and its port parses: texts are trimmed (the password is kept as typed), a
/// blank jump host means none, and the tags are parsed from their text.
pub open spec fn form_session_spec(f: Seq<Seq<char>>) -> Option<SessionView> {
    let name = text::trimmed(f[F_NAME as int]);
    let host = text::trimmed(f[F_HOST as int]);
    let user = text::trimmed(f[F_USER as int]);
    if name.len() == 0 || host.len() == 0 || user.len() == 0 {
        None
    } else {
        match text::parse_u16_spec(text::trimmed(f[F_PORT as int])) {
            None => None,
            Some(port) => {
                let jump = text::trimmed(f[F_JUMP as int]);
                Some(
                    SessionView {
                        name: name,
                        host: host,
                        user: user,
                        port: port,
                        proxy_jump: if jump.len() == 0 {
                            None
                        } else {
                            Some(jump)
                        },
                        tags: parse_tags_spec(f[F_TAGS as int]),
                        password: f[F_PASS as int],
                    },
                )
            },
        }
    }
}

/// Why a form cannot be saved: the first blank required field, then a bad
/// port; `None` when it can.
pub open spec fn form_error_spec(f: Seq<Seq<char>>) -> Option<Seq<char>> {
    if text::trimmed(f[F_NAME as int]).len() == 0 {
        Some("Name is required"@)
    } else if text::trimmed(f[F_HOST as int]).len() == 0 {
        Some("Host is required"@)
    } else if text::trimmed(f[F_USER as int]).len() == 0 {
        Some("User is required"@)
    } else if text::parse_u16_spec(text::trimmed(f[F_PORT as int])) is None {
        Some("Port must be 1-65535"@)
    } else {
        None
    }
}

/// The texts a form shows for session `s`.
pub open spec fn session_fields(s: SessionView) -> Seq<Seq<char>> {
    seq![
        s.name,
        s.host,
        s.user,
        text::decimal(s.port as nat),
        match s.proxy_jump {
            Some(j) => j,
            None => Seq::empty(),
        },
        join_tags(s.tags),
        s.password,
    ]
}

/// The texts of an empty add form: all blank but the port, "22".
pub open spec fn blank_fields() -> Seq<Seq<char>> {
    seq![
        Seq::empty(),
        Seq::empty(),
        Seq::empty(),
        seq!['2', '2'],
        Seq::empty(),
        Seq::empty(),
        Seq::empty(),
    ]
}

fn trimmed_field(fields: &Vec<String>, i: usize) -> (r: Vec<char>)
    requires
        i < fields.len(),
    ensures
        r@ == text::trimmed(fields@[i as int]@),
{
    let v = text::chars_of(fields[i].as_str());
    text::trim_chars(&v)
}

impl FormState {
    /// An empty add form.
    pub fn new_add() -> (f: FormState)
        ensures
            f.wf(),
            f.texts() == blank_fields(),
            f.cursor == 0,
            f.mode == FormMode::Add,
            f.edit_idx is None,
            !f.focused,
    {
        let mut fields: Vec<String> = Vec::new();
        fields.push(String::new());
        fields.push(String::new());
        fields.push(String::new());
        let mut port = String::new();
        text::push_char(&mut port, '2');
        text::push_char(&mut port, '2');
        assert(port@ =~= seq!['2', '2']);
        fields.push(port);
        fields.push(String::new());
        fields.push(String::new());
        fields.push(String::new());
        let f = FormState { fields, cursor: 0, mode: FormMode::Add, edit_idx: None, focused: false };
        assert(f.texts() =~= blank_fields());
        f
    }

    /// An edit form for session `s`, which sits at `idx` in the session list.
    pub fn from_session(s: &Session, idx: usize) -> (f: FormState)
        ensures
            f.wf(),
            f.texts() == session_fields(s@),
            f.cursor == 0,
            f.mode == FormMode::Edit,
            f.edit_idx == Some(idx),
            !f.focused,
    {
        let mut fields: Vec<String> = Vec::new();
        fields.push(s.name.clone());
        fields.push(s.host.clone());
        fields.push(s.user.clone());
        fields.push(text::u16_to_string(s.port));
        fields.push(
            match &s.proxy_jump {
                Some(j) => j.clone(),
                None => String::new(),
            },
        );
        fields.push(join_tag_strings(&s.tags));
        fields.push(s.password.clone());
        let f = FormState {
            fields,
            cursor: 0,
            mode: FormMode::Edit,
            edit_idx: Some(idx),
            focused: false,
        };
        assert(f.texts() =~= session_fields(s@));
        f
    }

    /// The session the form describes, if its required fields are filled in
    /// and its port parses.
    pub fn to_session(&self) -> (r: Option<Session>)
        requires
            self.wf(),
        ensures
            match r {
                Some(s) => form_session_spec(self.texts()) == Some(s@),
                None => form_session_spec(self.texts()) is None,
            },
    {
        let name = trimmed_field(&self.fields, F_NAME);
        let host = trimmed_field(&self.fields, F_HOST);
        let user = trimmed_field(&self.fields, F_USER);
        if name.len() == 0 || host.len() == 0 || user.len() == 0 {
            return None;
        }
        let port_text = trimmed_field(&self.fields, F_PORT);
        let port = match text::parse_u16(&port_text) {
            Some(p) => p,
            None => {
                return None;
            },
        };
        let jump = trimmed_field(&self.fields, F_JUMP);
        let proxy_jump = if jump.len() == 0 {
            None
        } else {
            Some(text::string_of(&jump))
        };
        let s = Session {
            name: text::string_of(&name),
            host: text::string_of(&host),
            user: text::string_of(&user),
            port,
            tags: parse_tags(self.fields[F_TAGS].as_str()),
            proxy_jump,
            password: self.fields[F_PASS].clone(),
        };
        Some(s)
    }

    /// The message explaining why the form cannot be saved, if it cannot.
    pub fn validate(&self) -> (r: Option<String>)
        requires
            self.wf(),
        ensures
            match r {
                Some(m) => form_error_spec(self.texts()) == Some(m@),
                None => form_error_spec(self.texts()) is None,
            },
    {
        if trimmed_field(&self.fields, F_NAME).len() == 0 {
            return Some(text::to_owned_string("Name is required"));
        }
        if trimmed_field(&self.fields, F_HOST).len() == 0 {
            return Some(text::to_owned_string("Host is required"));
        }
        if trimmed_field(&self.fields, F_USER).len() == 0 {
            return Some(text::to_owned_string("User is required"));
        }
        let port_text = trimmed_field(&self.fields, F_PORT);
        if text::parse_u16(&port_text).is_none() {
            return Some(text::to_owned_string("Port must be 1-65535"));
        }
        None
    }
}

/// A form can be saved exactly when it describes a session.
pub proof fn lemma_validate_agrees(f: Seq<Seq<char>>)
    requires
        f.len() == FIELD_COUNT,
    ensures
        form_error_spec(f) is None <==> form_session_spec(f) is Some,
{
}

/// A tag as the form writes it back: non-empty, with no separator inside
/// and no white space at its ends.
pub open spec fn tag_ok(t: Seq<char>) -> bool {
    &&& t.len() > 0
    &&& text::trimmed(t) == t
    &&& forall|i: int| 0 <= i < t.len() ==> !text::in_class(CharClass::TagSep, #[trigger] t[i])
}

/// Text that the form writes back unchanged: non-blank and trimmed.
pub open spec fn field_ok(t: Seq<char>) -> bool {
    t.len() > 0 && text::trimmed(t) == t
}

/// A session that survives a trip through the edit form unchanged.
pub open spec fn form_ready(s: SessionView) -> bool {
    &&& field_ok(s.name)
    &&& field_ok(s.host)
    &&& field_ok(s.user)
    &&& match s.proxy_jump {
        Some(j) => field_ok(j),
        None => true,
    }
    &&& forall|i: int| 0 <= i < s.tags.len() ==> tag_ok(#[trigger] s.tags[i])
    &&& s.tags.no_duplicates()
}

proof fn lemma_join_front(ts: Seq<Seq<char>>)
    requires
        ts.len() >= 2,
    ensures
        join_tags(ts) == ts[0] + seq![',', ' '] + join_tags(ts.drop_first()),
    decreases ts.len(),
{
    if ts.len() == 2 {
        assert(ts.drop_last() =~= seq![ts[0]]);
        assert(ts.drop_first() =~= seq![ts[1]]);
        assert(join_tags(ts.drop_last()) == ts[0]);
        assert(join_tags(ts.drop_first()) == ts[1]);
        assert(join_tags(ts) == join_tags(ts.drop_last()) + seq![',', ' '] + ts.last());
    } else {
        let dl = ts.drop_last();
        let df = ts.drop_first();
        lemma_join_front(dl);
        assert(dl.drop_first() =~= df.drop_last());
        assert(df.last() == ts.last());
        assert(dl[0] == ts[0]);
        assert(join_tags(ts) == join_tags(dl) + seq![',', ' '] + ts.last());
        assert(join_tags(dl) == dl[0] + seq![',', ' '] + join_tags(dl.drop_first()));
        assert(join_tags(df) == join_tags(df.drop_last()) + seq![',', ' '] + df.last());
        assert(join_tags(ts) =~= ts[0] + seq![',', ' '] + join_tags(df));
    }
}

proof fn lemma_fold_joined(tags: Seq<Seq<char>>, out: Seq<Seq<char>>)
    requires
        tags.len() > 0,
        forall|i: int| 0 <= i < tags.len() ==> tag_ok(#[trigger] tags[i]),
        tags.no_duplicates(),
        forall|i: int| 0 <= i < tags.len() ==> !out.contains(#[trigger] tags[i]),
    ensures
        tags_fold(text::split_by(join_tags(tags), CharClass::TagSep), out) == out + tags,
    decreases tags.len(),
{
    let t0 = tags[0];
    assert(tag_ok(t0));
    assert(!out.contains(tags[0]));
    if tags.len() == 1 {
        assert(join_tags(tags) == t0);
        text::lemma_split_none(t0, CharClass::TagSep);
        let ps = seq![t0];
        assert(ps.drop_first() =~= Seq::<Seq<char>>::empty());
        assert(tags_fold(ps, out) == tags_fold(ps.drop_first(), out.push(t0)));
        assert(tags_fold(Seq::<Seq<char>>::empty(), out.push(t0)) == out.push(t0));
        assert(out.push(t0) =~= out + tags);
    } else {
        lemma_join_front(tags);
        let rest = tags.drop_first();
        let j = join_tags(rest);
        text::lemma_split_cons(t0, ',', seq![' '] + j, CharClass::TagSep);
        assert(t0 + seq![','] + (seq![' '] + j) =~= t0 + seq![',', ' '] + j);
        text::lemma_split_cons(Seq::<char>::empty(), ' ', j, CharClass::TagSep);
        assert(Seq::<char>::empty() + seq![' '] + j =~= seq![' '] + j);
        let ps = seq![t0] + (seq![Seq::<char>::empty()] + text::split_by(j, CharClass::TagSep));
        assert(text::split_by(join_tags(tags), CharClass::TagSep) == ps);
        assert(ps[0] == t0);
        assert(ps.drop_first()[0] == Seq::<char>::empty());
        assert(ps.drop_first().drop_first() =~= text::split_by(j, CharClass::TagSep));
        reveal_strlit("");
        assert(text::trimmed(Seq::<char>::empty()) =~= Seq::<char>::empty());
        let out1 = out.push(t0);
        assert(tags_fold(ps, out) == tags_fold(ps.drop_first(), out1));
        assert(tags_fold(ps.drop_first(), out1) == tags_fold(ps.drop_first().drop_first(), out1));
        assert forall|i: int| 0 <= i < rest.len() implies !out1.contains(#[trigger] rest[i]) by {
            assert(rest[i] == tags[i + 1]);
            if out1.contains(rest[i]) {
                let k = choose|k: int| 0 <= k < out1.len() && out1[k] == rest[i];
                if k == out.len() {
                    assert(tags[0] == tags[i + 1]);
                } else {
                    assert(out[k] == rest[i]);
                    assert(out.contains(tags[i + 1]));
                }
            }
        }
        assert forall|i: int| 0 <= i < rest.len() implies tag_ok(#[trigger] rest[i]) by {
            assert(rest[i] == tags[i + 1]);
        }
        assert(rest.no_duplicates()) by {
            assert forall|a: int, b: int| 0 <= a < rest.len() && 0 <= b < rest.len() && a != b implies rest[a] != rest[b] by {
                assert(rest[a] == tags[a + 1] && rest[b] == tags[b + 1]);
            }
        }
        lemma_fold_joined(rest, out1);
        assert(out1 + rest =~= out + tags);
    }
}

/// Parsing the joined tags of a list of well-formed, distinct tags gives the
/// list back.
pub proof fn lemma_tags_roundtrip(tags: Seq<Seq<char>>)
    requires
        forall|i: int| 0 <= i < tags.len() ==> tag_ok(#[trigger] tags[i]),
        tags.no_duplicates(),
    ensures
        parse_tags_spec(join_tags(tags)) == tags,
{
    if tags.len() == 0 {
        assert(join_tags(tags) == Seq::<char>::empty());
        assert(text::split_by(Seq::<char>::empty(), CharClass::TagSep) == seq![Seq::<char>::empty()])
            by {
            text::lemma_split_none(Seq::<char>::empty(), CharClass::TagSep);
        }
        assert(text::trimmed(Seq::<char>::empty()) =~= Seq::<char>::empty());
        let ps = seq![Seq::<char>::empty()];
        assert(ps.drop_first() =~= Seq::<Seq<char>>::empty());
        assert(tags_fold(ps, Seq::empty()) == tags_fold(ps.drop_first(), Seq::empty()));
        assert(tags =~= Seq::<Seq<char>>::empty());
    } else {
        lemma_fold_joined(tags, Seq::empty());
        assert(Seq::<Seq<char>>::empty() + tags =~= tags);
    }
}

/// Opening a session in the edit form and saving it without changes gives
/// the same session back, for any session whose texts are trimmed and whose
/// tags are distinct and separator-free.
pub proof fn lemma_form_roundtrip(s: SessionView)
    requires
        form_ready(s),
    ensures
        form_session_spec(session_fields(s)) == Some(s),
{
    let f = session_fields(s);
    text::lemma_decimal_trimmed(s.port as nat);
    text::lemma_decimal_parses(s.port);
    lemma_tags_roundtrip(s.tags);
    assert(text::trimmed(Seq::<char>::empty()) =~= Seq::<char>::empty());
    let got = form_session_spec(f).unwrap();
    assert(got.proxy_jump == s.proxy_jump);
}

// ── app state ─────────────────────────────────────────────────────────────────

/// The screen the list area shows.
#[derive(Debug, Clone, Copy, PartialEq, Eq)]
pub enum SsmScreen {
    List,
    Form,
    Search,
    Help,
    ConfirmDelete,
    TagPick,
}

/// A which-key popup: a transient menu opened from the list.
#[derive(Debug, Clone, Copy, PartialEq, Eq)]
pub enum WhichKey {
    /// Top-level actions (opened with space): delete, yank, tags, import,
    /// settings, help.
    Actions,
    /// Settings submenu, reachable from Actions via `s`.
    Settings,
    /// Theme picker, reachable from Settings via `t`.
    Theme,
}

/// A key, as far as the interface tells keys apart.
#[derive(Debug, Clone, Copy, PartialEq, Eq)]
pub enum Key {
    Char(char),
    Enter,
    Esc,
    Tab,
    BackTab,
    Backspace,
    Up,
    Down,
    Other,
}

/// A key press: the key and whether Control was held.
#[derive(Debug, Clone, Copy, PartialEq, Eq)]
pub struct KeyInput {
    pub code: Key,
    pub ctrl: bool,
}

/// The mathematical form of a [`FormState`].
pub struct FormView {
    pub fields: Seq<Seq<char>>,
    pub cursor: usize,
    pub mode: FormMode,
    pub edit_idx: Option<usize>,
    pub focused: bool,
}

impl View for FormState {
    type V = FormView;

    open spec fn view(&self) -> FormView {
        FormView {
            fields: crate::storage::strings_view(self.fields@),
            cursor: self.cursor,
            mode: self.mode,
            edit_idx: self.edit_idx,
            focused: self.focused,
        }
    }
}

pub open spec fn flash_view(f: Option<(String, FlashKind)>) -> Option<(Seq<char>, FlashKind)> {
    match f {
        Some(p) => Some((p.0@, p.1)),
        None => None,
    }
}

/// The mathematical form of an [`SsmApp`].
pub struct AppView {
    pub sessions: Seq<SessionView>,
    pub use_herdr: bool,
    pub idx: usize,
    pub screen: SsmScreen,
    pub menu: Option<WhichKey>,
    pub theme: Seq<char>,
    pub flash: Option<(Seq<char>, FlashKind)>,
    pub form: FormView,
    pub search_query: Seq<char>,
    pub filter_active: bool,
    pub tag_filter: Option<Seq<char>>,
    pub tag_idx: usize,
    pub visible: Seq<usize>,
    pub count_buf: Seq<char>,
    pub pending_g: bool,
    pub pending_d: bool,
    pub should_quit: bool,
    pub connect_target: Option<SessionView>,
    pub biometric: bool,
    pub probe_enabled: bool,
}

/// The interface's state: the sessions, what the list shows of them, the
/// cursor, the screen and popup, the form, and the preferences that the
/// settings menu toggles.
pub struct SsmApp {
    pub sessions: Vec<Session>,
    pub cfg: ConnectConfig,
    pub idx: usize,
    pub screen: SsmScreen,
    pub menu: Option<WhichKey>,
    pub theme: String,
    pub flash: Option<(String, FlashKind)>,
    pub form: FormState,
    pub search_query: String,
    pub filter_active: bool,
    /// Active tag filter (a "group" view); `None` shows all tags.
    pub tag_filter: Option<String>,
    /// Cursor for the tag-picker screen.
    pub tag_idx: usize,
    /// Positions in `sessions` of the rows the list shows, in order.
    pub visible: Vec<usize>,
    /// Numeric prefix typed before `j`/`k`.
    pub count_buf: String,
    pub pending_g: bool,
    /// A `d` was typed; a second `d` asks to delete the selected session.
    pub pending_d: bool,
    pub should_quit: bool,
    /// The session to connect to once the current key is handled.
    pub connect_target: Option<Session>,
    /// Require biometric verification before revealing a password.
    pub biometric: bool,
    pub probe_enabled: bool,
}

impl View for SsmApp {
    type V = AppView;

    open spec fn view(&self) -> AppView {
        AppView {
            sessions: crate::storage::sessions_view(self.sessions@),
            use_herdr: self.cfg.use_herdr,
            idx: self.idx,
            screen: self.screen,
            menu: self.menu,
            theme: self.theme@,
            flash: flash_view(self.flash),
            form: self.form@,
            search_query: self.search_query@,
            filter_active: self.filter_active,
            tag_filter: crate::storage::opt_chars(self.tag_filter),
            tag_idx: self.tag_idx,
            visible: self.visible@,
            count_buf: self.count_buf@,
            pending_g: self.pending_g,
            pending_d: self.pending_d,
            should_quit: self.should_quit,
            connect_target: crate::ssh_config::opt_session_view(self.connect_target),
            biometric: self.biometric,
            probe_enabled: self.probe_enabled,
        }
    }
}

/// Whether session `s` passes the tag filter and, when a lowercase search
/// `q` is active, whether its lowercased name, host, user or one of its tags
/// contains `q`.
pub open spec fn session_matches(s: SessionView, tag: Option<Seq<char>>, q: Option<Seq<char>>) -> bool {
    &&& match tag {
        Some(t) => s.tags.contains(t),
        None => true,
    }
    &&& match q {
        Some(q) => {
            ||| text::contains(text::lowercase(s.name), q)
            ||| text::contains(text::lowercase(s.host), q)
            ||| text::contains(text::lowercase(s.user), q)
            ||| exists|j: int| 0 <= j < s.tags.len() && text::contains(text::lowercase(#[trigger] s.tags[j]), q)
        },
        None => true,
    }
}

/// Positions, in order, of the sessions that match.
pub open spec fn visible_spec(s: Seq<SessionView>, tag: Option<Seq<char>>, q: Option<Seq<char>>) -> Seq<usize>
    decreases s.len(),
{
    if s.len() == 0 {
        Seq::empty()
    } else {
        let rest = visible_spec(s.drop_last(), tag, q);
        if session_matches(s.last(), tag, q) {
            rest.push((s.len() - 1) as usize)
        } else {
            rest
        }
    }
}

/// The lowercase search text, when a non-empty search is applied.
pub open spec fn search_lower(a: AppView) -> Option<Seq<char>> {
    if a.filter_active && a.search_query.len() > 0 {
        Some(text::lowercase(a.search_query))
    } else {
        None
    }
}

/// The rows the list shows in state `a`.
pub open spec fn visible_of(a: AppView) -> Seq<usize> {
    visible_spec(a.sessions, a.tag_filter, search_lower(a))
}

/// The cursor moved back onto a row: 0 for an empty list, else at most the
/// last row.
pub open spec fn clamped(idx: usize, len: nat) -> usize {
    if len == 0 {
        0
    } else if idx < len {
        idx
    } else {
        (len - 1) as usize
    }
}

/// The list state holds together: every shown row is a session, rows are in
/// order, the cursor is on a row (or 0), and the form has all its fields.
pub open spec fn app_wf(a: AppView) -> bool {
    &&& forall|i: int| 0 <= i < a.visible.len() ==> #[trigger] a.visible[i] < a.sessions.len()
    &&& forall|i: int, j: int| 0 <= i < j < a.visible.len() ==> #[trigger] a.visible[i] < #[trigger] a.visible[j]
    &&& (a.idx == 0 || a.idx < a.visible.len())
    &&& a.form.fields.len() == FIELD_COUNT
    &&& a.form.cursor < FIELD_COUNT
}

/// The list shows exactly the sessions that pass the tag filter and the
/// search — each once, in the order they are stored.
pub proof fn lemma_visible_exact(s: Seq<SessionView>, tag: Option<Seq<char>>, q: Option<Seq<char>>)
    requires
        s.len() <= usize::MAX,
    ensures
        forall|i: int|
            0 <= i < s.len() ==> (visible_spec(s, tag, q).contains(i as usize) <==> session_matches(
                #[trigger] s[i],
                tag,
                q,
            )),
        forall|k: int| 0 <= k < visible_spec(s, tag, q).len() ==> #[trigger] visible_spec(s, tag, q)[k] < s.len(),
        forall|k: int, l: int|
            0 <= k < l < visible_spec(s, tag, q).len() ==> #[trigger] visible_spec(s, tag, q)[k]
                < #[trigger] visible_spec(s, tag, q)[l],
    decreases s.len(),
{
    lemma_visible_ordered(s, tag, q);
    if s.len() > 0 {
        let p = s.drop_last();
        lemma_visible_exact(p, tag, q);
        let rest = visible_spec(p, tag, q);
        let v = visible_spec(s, tag, q);
        let last = (s.len() - 1) as usize;
        assert forall|i: int| 0 <= i < s.len() implies (v.contains(i as usize) <==> session_matches(
            #[trigger] s[i],
            tag,
            q,
        )) by {
            if i < s.len() - 1 {
                assert(s[i] == p[i]);
                if v.contains(i as usize) {
                    let k = choose|k: int| 0 <= k < v.len() && v[k] == i as usize;
                    if session_matches(s.last(), tag, q) && k == rest.len() {
                        assert(v[k] == last);
                    } else {
                        assert(v[k] == rest[k]);
                        assert(rest.contains(i as usize));
                    }
                }
                if rest.contains(i as usize) {
                    let k = choose|k: int| 0 <= k < rest.len() && rest[k] == i as usize;
                    assert(v[k] == rest[k]);
                    assert(v.contains(i as usize));
                }
            } else {
                if session_matches(s.last(), tag, q) {
                    assert(v[rest.len() as int] == last);
                    assert(v.contains(i as usize));
                } else {
                    if v.contains(i as usize) {
                        let k = choose|k: int| 0 <= k < v.len() && v[k] == i as usize;
                        assert(rest[k] < p.len());
                    }
                }
            }
        }
    }
}

/// What the list shows: with a search applied, session `i` is shown exactly
/// when it passes the tag filter and the lowercased query occurs in its
/// lowercased name, host, user or one of its tags; with no search applied,
/// exactly when it passes the tag filter.
pub proof fn lemma_search_fields(a: AppView, i: int)
    requires
        a.sessions.len() <= usize::MAX,
        0 <= i < a.sessions.len(),
    ensures
        a.filter_active && a.search_query.len() > 0 ==> (visible_of(a).contains(i as usize) <==> {
            let s = a.sessions[i];
            let q = text::lowercase(a.search_query);
            &&& (a.tag_filter is None || s.tags.contains(a.tag_filter->Some_0))
            &&& (text::contains(text::lowercase(s.name), q) || text::contains(text::lowercase(s.host), q)
                || text::contains(text::lowercase(s.user), q) || exists|j: int|
                0 <= j < s.tags.len() && text::contains(text::lowercase(#[trigger] s.tags[j]), q))
        }),
        !(a.filter_active && a.search_query.len() > 0) ==> (visible_of(a).contains(i as usize) <==> (
        a.tag_filter is None || a.sessions[i].tags.contains(a.tag_filter->Some_0))),
{
    lemma_visible_exact(a.sessions, a.tag_filter, search_lower(a));
    assert(session_matches(a.sessions[i], a.tag_filter, search_lower(a)) == session_matches(
        a.sessions[i],
        a.tag_filter,
        search_lower(a),
    ));
}

proof fn lemma_visible_ordered(s: Seq<SessionView>, tag: Option<Seq<char>>, q: Option<Seq<char>>)
    requires
        s.len() <= usize::MAX,
    ensures
        forall|i: int| 0 <= i < visible_spec(s, tag, q).len() ==> #[trigger] visible_spec(s, tag, q)[i] < s.len(),
        forall|i: int, j: int|
            0 <= i < j < visible_spec(s, tag, q).len() ==> #[trigger] visible_spec(s, tag, q)[i]
                < #[trigger] visible_spec(s, tag, q)[j],
    decreases s.len(),
{
    if s.len() > 0 {
        lemma_visible_ordered(s.drop_last(), tag, q);
        let rest = visible_spec(s.drop_last(), tag, q);
        let v = visible_spec(s, tag, q);
        if session_matches(s.last(), tag, q) {
            assert(v == rest.push((s.len() - 1) as usize));
            assert forall|i: int| 0 <= i < v.len() implies #[trigger] v[i] < s.len() by {
                if i < rest.len() {
                    assert(v[i] == rest[i]);
                }
            }
            assert forall|i: int, j: int| 0 <= i < j < v.len() implies #[trigger] v[i] < #[trigger] v[j] by {
                assert(v[i] == rest[i]);
                if j < rest.len() {
                    assert(v[j] == rest[j]);
                }
            }
        }
    }
}

/// A session matches the filter: `tag` is one of its tags and `q` (already
/// lowercased) occurs in its lowercased name, host, user or a tag.
pub fn matches_filter(s: &Session, tag: &Option<String>, q: &Option<Vec<char>>) -> (r: bool)
    ensures
        r == session_matches(
            s@,
            crate::storage::opt_chars(*tag),
            match q {
                Some(v) => Some(v@),
                None => None,
            },
        ),
{
    if let Some(t) = tag {
        let tv = text::chars_of(t.as_str());
        if !strings_contain(&s.tags, &tv) {
            return false;
        }
    }
    match q {
        None => true,
        Some(qv) => {
            if text::chars_contain(&text::lowercase_chars(&text::chars_of(s.name.as_str())), qv) {
                return true;
            }
            if text::chars_contain(&text::lowercase_chars(&text::chars_of(s.host.as_str())), qv) {
                return true;
            }
            if text::chars_contain(&text::lowercase_chars(&text::chars_of(s.user.as_str())), qv) {
                return true;
            }
            let ghost tv = crate::storage::strings_view(s.tags@);
            let mut j: usize = 0;
            while j < s.tags.len()
                invariant
                    0 <= j <= s.tags.len(),
                    tv == crate::storage::strings_view(s.tags@),
                    match q {
                        Some(v) => v@ == qv@,
                        None => false,
                    },
                    match crate::storage::opt_chars(*tag) {
                        Some(t) => s@.tags.contains(t),
                        None => true,
                    },
                    forall|k: int| 0 <= k < j ==> !text::contains(text::lowercase(#[trigger] tv[k]), qv@),
                decreases s.tags.len() - j,
            {
                let lt = text::lowercase_chars(&text::chars_of(s.tags[j].as_str()));
                if text::chars_contain(&lt, qv) {
                    assert(s@.tags[j as int] == tv[j as int]);
                    assert(text::contains(text::lowercase(s@.tags[j as int]), qv@));
                    return true;
                }
                j += 1;
            }
            false
        },
    }
}

impl SsmApp {
    /// A list showing `sessions` under the preferences in `cfg`.
    pub fn new(cfg: crate::config::SsmConfig, sessions: Vec<Session>) -> (app: SsmApp)
        ensures
            app@.sessions == crate::storage::sessions_view(sessions@),
            app@.use_herdr == cfg.use_herdr,
            app@.theme == cfg.theme@,
            app@.biometric == cfg.biometric_unlock,
            app@.probe_enabled == cfg.probe,
            app@.visible == visible_of(app@),
            app@.idx == 0,
            app@.screen == SsmScreen::List,
            app@.menu is None,
            app@.flash is None,
            app@.search_query.len() == 0,
            !app@.filter_active,
            app@.tag_filter is None,
            app@.connect_target is None,
            !app@.should_quit,
            app_wf(app@),
    {
        let mut app = SsmApp {
            sessions,
            cfg: ConnectConfig { use_herdr: cfg.use_herdr },
            idx: 0,
            screen: SsmScreen::List,
            menu: None,
            theme: cfg.theme,
            flash: None,
            form: FormState::new_add(),
            search_query: String::new(),
            filter_active: false,
            tag_filter: None,
            tag_idx: 0,
            visible: Vec::new(),
            count_buf: String::new(),
            pending_g: false,
            pending_d: false,
            should_quit: false,
            connect_target: None,
            biometric: cfg.biometric_unlock,
            probe_enabled: cfg.probe,
        };
        app.rebuild_visible();
        let n = app.sessions.len();
        proof {
            assert(app@.sessions.len() == app.sessions@.len());
            lemma_visible_ordered(app@.sessions, app@.tag_filter, search_lower(app@));
        }
        app
    }

    /// Recompute which sessions the list shows from the tag filter and the
    /// applied search.
    pub fn rebuild_visible(&mut self)
        ensures
            final(self)@ == (AppView { visible: visible_of(old(self)@), ..old(self)@ }),
    {
        let q: Option<Vec<char>> = if self.filter_active && !self.search_query.as_str().is_empty() {
            Some(text::lowercase_chars(&text::chars_of(self.search_query.as_str())))
        } else {
            None
        };
        let ghost sv = crate::storage::sessions_view(self.sessions@);
        let ghost tag = crate::storage::opt_chars(self.tag_filter);
        let ghost qv = search_lower(self@);
        let mut vis: Vec<usize> = Vec::new();
        let mut i: usize = 0;
        while i < self.sessions.len()
            invariant
                0 <= i <= self.sessions.len(),
                sv == crate::storage::sessions_view(self.sessions@),
                tag == crate::storage::opt_chars(self.tag_filter),
                qv == match q {
                    Some(v) => Some(v@),
                    None => None::<Seq<char>>,
                },
                vis@ == visible_spec(sv.subrange(0, i as int), tag, qv),
            decreases self.sessions.len() - i,
        {
            let ghost pre = sv.subrange(0, i + 1);
            assert(pre.drop_last() =~= sv.subrange(0, i as int));
            assert(pre.last() == self.sessions@[i as int]@);
            if matches_filter(&self.sessions[i], &self.tag_filter, &q) {
                vis.push(i);
            }
            i += 1;
        }
        assert(sv.subrange(0, sv.len() as int) =~= sv);
        self.visible = vis;
    }

    /// Number of rows the list shows.
    pub fn active_len(&self) -> (n: usize)
        ensures
            n == self@.visible.len(),
    {
        self.visible.len()
    }

    /// The session shown at row `display_idx`, if there is one.
    pub fn active_session(&self, display_idx: usize) -> (r: Option<&Session>)
        ensures
            match r {
                Some(s) => display_idx < self@.visible.len() && self@.visible[display_idx as int]
                    < self@.sessions.len() && s@ == self@.sessions[self@.visible[display_idx as int] as int],
                None => display_idx >= self@.visible.len() || self@.visible[display_idx as int]
                    >= self@.sessions.len(),
            },
    {
        if display_idx >= self.visible.len() {
            return None;
        }
        let raw = self.visible[display_idx];
        if raw >= self.sessions.len() {
            return None;
        }
        Some(&self.sessions[raw])
    }

    /// Move the cursor back onto a row.
    pub fn clamp_idx(&mut self)
        ensures
            final(self)@ == (AppView { idx: clamped(old(self)@.idx, old(self)@.visible.len()), ..old(self)@ }),
    {
        let n = self.active_len();
        if n == 0 {
            self.idx = 0;
        } else if self.idx >= n {
            self.idx = n - 1;
        }
    }

    /// The numeric prefix typed so far (1 when there is none or it does not
    /// parse), clearing it.
    pub fn take_count(&mut self) -> (n: usize)
        ensures
            n == match text::parse_usize_spec(text::trimmed(old(self)@.count_buf)) {
                Some(c) => c,
                None => 1,
            },
            final(self)@ == (AppView { count_buf: Seq::empty(), ..old(self)@ }),
    {
        let t = text::trim_chars(&text::chars_of(self.count_buf.as_str()));
        self.count_buf = String::new();
        match text::parse_usize(&t) {
            Some(c) => c,
            None => 1,
        }
    }

    /// Move the cursor up `n` rows, stopping at the first.
    pub fn move_up(&mut self, n: usize)
        ensures
            final(self)@ == (AppView { idx: if old(self)@.idx >= n { (old(self)@.idx - n) as usize } else { 0 }, ..old(self)@ }),
    {
        self.idx = self.idx.saturating_sub(n);
    }

    /// Move the cursor down `n` rows, stopping at the last.
    pub fn move_down(&mut self, n: usize)
        ensures
            final(self)@ == (AppView {
                idx: if old(self)@.idx + n < last_row(old(self)@) { (old(self)@.idx + n) as usize } else { last_row(old(self)@) },
                ..old(self)@
            }),
    {
        let max = self.active_len().saturating_sub(1);
        self.idx = if self.idx < max && n < max - self.idx { self.idx + n } else { max };
    }
}

/// The last row of the list (0 when it is empty).
pub open spec fn last_row(a: AppView) -> usize {
    if a.visible.len() == 0 {
        0
    } else {
        (a.visible.len() - 1) as usize
    }
}

/// Strictly increasing in string order (so also free of duplicates).
pub open spec fn strictly_sorted(v: Seq<Seq<char>>) -> bool {
    forall|i: int, j: int| 0 <= i < j < v.len() ==> text::lex_lt(#[trigger] v[i], #[trigger] v[j])
}

/// `t` is tag `b` of session `a`, for some position before `(i, j)` in
/// session-then-tag order.
pub open spec fn tag_seen(s: Seq<SessionView>, i: int, j: int, t: Seq<char>) -> bool {
    exists|a: int, b: int|
        0 <= a < s.len() && 0 <= b < s[a].tags.len() && (a < i || (a == i && b < j))
            && #[trigger] s[a].tags[b] == t
}

/// `t` is a tag of some session.
pub open spec fn has_tag(s: Seq<SessionView>, t: Seq<char>) -> bool {
    tag_seen(s, s.len() as int, 0, t)
}

/// Inserts `t` into the sorted list `out` unless it is there already.
fn insert_sorted(out: &mut Vec<String>, t: &String)
    requires
        strictly_sorted(crate::storage::strings_view(old(out)@)),
    ensures
        strictly_sorted(crate::storage::strings_view(final(out)@)),
        forall|x: Seq<char>|
            crate::storage::strings_view(final(out)@).contains(x) <==> (
            crate::storage::strings_view(old(out)@).contains(x) || x == t@),
{
    let ghost ov = crate::storage::strings_view(out@);
    let tv = text::chars_of(t.as_str());
    let mut p: usize = 0;
    while p < out.len() && text::chars_lt(&text::chars_of(out[p].as_str()), &tv)
        invariant
            0 <= p <= out.len(),
            ov == crate::storage::strings_view(out@),
            out@ == old(out)@,
            tv@ == t@,
            forall|k: int| 0 <= k < p ==> text::lex_lt(#[trigger] ov[k], t@),
        decreases out.len() - p,
    {
        p += 1;
    }
    if p < out.len() {
        let here = text::chars_of(out[p].as_str());
        if text::chars_eq(&here, &tv) {
            assert(ov.contains(t@)) by {
                assert(ov[p as int] == t@);
            }
            return ;
        }
        proof {
            text::lemma_lex_total(ov[p as int], t@);
        }
    }
    out.insert(p, t.clone());
    proof {
        let nv = crate::storage::strings_view(out@);
        assert(nv =~= ov.insert(p as int, t@));
        assert forall|i: int, j: int| 0 <= i < j < nv.len() implies text::lex_lt(#[trigger] nv[i], #[trigger] nv[j]) by {
            if j < p {
                assert(nv[i] == ov[i] && nv[j] == ov[j]);
            } else if j == p {
                assert(nv[i] == ov[i]);
            } else if i < p {
                assert(nv[i] == ov[i] && nv[j] == ov[j - 1]);
                text::lemma_lex_transitive(ov[i], t@, ov[p as int]);
                if j - 1 > p {
                    text::lemma_lex_transitive(ov[i], ov[p as int], ov[j - 1]);
                }
            } else if i == p {
                assert(nv[j] == ov[j - 1]);
                if j - 1 > p {
                    text::lemma_lex_transitive(t@, ov[p as int], ov[j - 1]);
                }
            } else {
                assert(nv[i] == ov[i - 1] && nv[j] == ov[j - 1]);
            }
        }
        assert forall|x: Seq<char>| nv.contains(x) <==> (ov.contains(x) || x == t@) by {
            if nv.contains(x) {
                let k = choose|k: int| 0 <= k < nv.len() && nv[k] == x;
                if k < p {
                    assert(ov[k] == x);
                } else if k > p {
                    assert(ov[k - 1] == x);
                }
            }
            if ov.contains(x) {
                let k = choose|k: int| 0 <= k < ov.len() && ov[k] == x;
                if k < p {
                    assert(nv[k] == x);
                } else {
                    assert(nv[k + 1] == x);
                }
            }
            if x == t@ {
                assert(nv[p as int] == x);
            }
        }
    }
}

/// The distinct tags of all sessions, in string order.
pub open spec fn sorted_tags(s: Seq<SessionView>) -> Seq<Seq<char>> {
    choose|v: Seq<Seq<char>>| strictly_sorted(v) && forall|t: Seq<char>| #[trigger] v.contains(t) <==> has_tag(s, t)
}

proof fn lemma_sorted_drop_first(v: Seq<Seq<char>>)
    requires
        strictly_sorted(v),
        v.len() > 0,
    ensures
        strictly_sorted(v.drop_first()),
        forall|t: Seq<char>| v.drop_first().contains(t) <==> (v.contains(t) && t != v[0]),
{
    let d = v.drop_first();
    assert forall|i: int, j: int| 0 <= i < j < d.len() implies text::lex_lt(#[trigger] d[i], #[trigger] d[j]) by {
        assert(d[i] == v[i + 1] && d[j] == v[j + 1]);
    }
    assert forall|t: Seq<char>| d.contains(t) <==> (v.contains(t) && t != v[0]) by {
        if d.contains(t) {
            let k = choose|k: int| 0 <= k < d.len() && d[k] == t;
            assert(v[k + 1] == t);
            assert(text::lex_lt(v[0], v[k + 1]));
            text::lemma_lex_irreflexive(v[0]);
        }
        if v.contains(t) && t != v[0] {
            let k = choose|k: int| 0 <= k < v.len() && v[k] == t;
            assert(d[k - 1] == t);
        }
    }
}

/// Two strictly sorted lists with the same members are the same list.
pub proof fn lemma_sorted_unique(v: Seq<Seq<char>>, w: Seq<Seq<char>>)
    requires
        strictly_sorted(v),
        strictly_sorted(w),
        forall|t: Seq<char>| v.contains(t) <==> w.contains(t),
    ensures
        v == w,
    decreases v.len(),
{
    if v.len() == 0 {
        if w.len() > 0 {
            assert(w.contains(w[0]));
        }
        assert(v =~= w);
    } else {
        assert(v.contains(v[0]));
        assert(w.contains(v[0]));
        assert(w.contains(w[0]));
        assert(v.contains(w[0]));
        if v[0] != w[0] {
            let k = choose|k: int| 0 <= k < w.len() && w[k] == v[0];
            let m = choose|m: int| 0 <= m < v.len() && v[m] == w[0];
            assert(text::lex_lt(w[0], w[k]));
            assert(text::lex_lt(v[0], v[m]));
            text::lemma_lex_transitive(v[0], w[0], v[0]);
            text::lemma_lex_irreflexive(v[0]);
        }
        lemma_sorted_drop_first(v);
        lemma_sorted_drop_first(w);
        assert forall|t: Seq<char>| v.drop_first().contains(t) <==> w.drop_first().contains(t) by {
            assert(v.contains(t) <==> w.contains(t));
        }
        lemma_sorted_unique(v.drop_first(), w.drop_first());
        assert(v =~= seq![v[0]] + v.drop_first());
        assert(w =~= seq![w[0]] + w.drop_first());
    }
}

impl SsmApp {
    /// Distinct tags across all sessions, sorted, for the tag picker.
    pub fn all_tags(&self) -> (r: Vec<String>)
        ensures
            strictly_sorted(crate::storage::strings_view(r@)),
            forall|t: Seq<char>|
                crate::storage::strings_view(r@).contains(t) <==> has_tag(self@.sessions, t),
            crate::storage::strings_view(r@) == sorted_tags(self@.sessions),
    {
        let ghost sv = self@.sessions;
        let mut out: Vec<String> = Vec::new();
        let mut i: usize = 0;
        assert(crate::storage::strings_view(out@) =~= Seq::<Seq<char>>::empty());
        while i < self.sessions.len()
            invariant
                0 <= i <= self.sessions.len(),
                sv == self@.sessions,
                strictly_sorted(crate::storage::strings_view(out@)),
                forall|t: Seq<char>|
                    crate::storage::strings_view(out@).contains(t) <==> tag_seen(sv, i as int, 0, t),
            decreases self.sessions.len() - i,
        {
            let tags = &self.sessions[i].tags;
            let mut j: usize = 0;
            assert forall|t: Seq<char>| tag_seen(sv, i as int, 0, t) == tag_seen(sv, i as int, j as int, t) by {}
            while j < tags.len()
                invariant
                    0 <= i < self.sessions.len(),
                    0 <= j <= tags.len(),
                    sv == self@.sessions,
                    tags == &self.sessions@[i as int].tags,
                    strictly_sorted(crate::storage::strings_view(out@)),
                    forall|t: Seq<char>|
                        crate::storage::strings_view(out@).contains(t) <==> tag_seen(sv, i as int, j as int, t),
                decreases tags.len() - j,
            {
                let ghost before = crate::storage::strings_view(out@);
                insert_sorted(&mut out, &tags[j]);
                proof {
                    assert(sv[i as int].tags[j as int] == tags@[j as int]@);
                    assert forall|t: Seq<char>|
                        crate::storage::strings_view(out@).contains(t) <==> tag_seen(sv, i as int, j + 1, t) by {
                        if t == tags@[j as int]@ {
                            assert(sv[i as int].tags[j as int] == t);
                        }
                        if tag_seen(sv, i as int, j + 1, t) {
                            let (a, b) = choose|a: int, b: int|
                                0 <= a < sv.len() && 0 <= b < sv[a].tags.len() && (a < i || (a == i && b < j + 1))
                                    && #[trigger] sv[a].tags[b] == t;
                            if !(a == i && b == j) {
                                assert(tag_seen(sv, i as int, j as int, t));
                            }
                        }
                    }
                }
                j += 1;
            }
            proof {
                assert forall|t: Seq<char>| tag_seen(sv, i as int, j as int, t) == tag_seen(sv, i + 1, 0, t) by {
                    if tag_seen(sv, i + 1, 0, t) {
                        let (a, b) = choose|a: int, b: int|
                            0 <= a < sv.len() && 0 <= b < sv[a].tags.len() && (a < i + 1 || (a == i + 1 && b < 0))
                                && #[trigger] sv[a].tags[b] == t;
                        assert(sv[i as int].tags.len() == tags@.len());
                    }
                }
            }
            i += 1;
        }
        proof {
            let rv = crate::storage::strings_view(out@);
            assert(strictly_sorted(rv) && forall|t: Seq<char>| #[trigger] rv.contains(t) <==> has_tag(sv, t));
            let c = sorted_tags(sv);
            lemma_sorted_unique(rv, c);
        }
        out
    }
}

// ── key handling ──────────────────────────────────────────────────────────────

/// Outside work a key asks for. The caller performs it and reports back:
/// `PersistConfig` → [`SsmApp::finish_persist`], `ReloadSessions` →
/// [`SsmApp::finish_reload`], `Yank` → [`SsmApp::finish_yank`], `SaveForm` →
/// [`SsmApp::finish_save_form`], `DeleteSession` (drop the keychain entry,
/// then save) → [`SsmApp::finish_delete`], `ImportSshConfig` (read and parse
/// `~/.ssh/config`) → [`SsmApp::finish_import`].
#[derive(Debug, Clone, PartialEq, Eq)]
pub enum Effect {
    Nothing,
    /// Save the preferences; the message is the flash for success.
    PersistConfig(String),
    ReloadSessions,
    /// Copy this text to the clipboard.
    Yank(String),
    SaveForm,
    /// The named session was removed from the list.
    DeleteSession(String),
    ImportSshConfig,
    /// Save the list after an import that added this many sessions.
    SaveImport(usize),
}

pub enum EffectView {
    Nothing,
    PersistConfig(Seq<char>),
    ReloadSessions,
    Yank(Seq<char>),
    SaveForm,
    DeleteSession(Seq<char>),
    ImportSshConfig,
    SaveImport(usize),
}

impl View for Effect {
    type V = EffectView;

    open spec fn view(&self) -> EffectView {
        match self {
            Effect::Nothing => EffectView::Nothing,
            Effect::PersistConfig(m) => EffectView::PersistConfig(m@),
            Effect::ReloadSessions => EffectView::ReloadSessions,
            Effect::Yank(t) => EffectView::Yank(t@),
            Effect::SaveForm => EffectView::SaveForm,
            Effect::DeleteSession(n) => EffectView::DeleteSession(n@),
            Effect::ImportSshConfig => EffectView::ImportSshConfig,
            Effect::SaveImport(n) => EffectView::SaveImport(*n),
        }
    }
}

pub open spec fn is_char(k: KeyInput, c: char) -> bool {
    k.code == Key::Char(c)
}

pub open spec fn rebuilt(a: AppView) -> AppView {
    AppView { visible: visible_of(a), ..a }
}

pub open spec fn clamp(a: AppView) -> AppView {
    AppView { idx: clamped(a.idx, a.visible.len()), ..a }
}

pub open spec fn with_flash(a: AppView, msg: Seq<char>, kind: FlashKind) -> AppView {
    AppView { flash: Some((msg, kind)), ..a }
}

pub open spec fn on_off(on: bool) -> Seq<char> {
    if on {
        "enabled"@
    } else {
        "disabled"@
    }
}

/// Some session carries a tag.
pub open spec fn any_tags(s: Seq<SessionView>) -> bool {
    exists|t: Seq<char>| has_tag(s, t)
}

/// Open the delete confirmation when there is something to delete.
pub open spec fn request_delete_spec(a: AppView) -> AppView {
    if a.sessions.len() > 0 {
        AppView { screen: SsmScreen::ConfirmDelete, ..a }
    } else {
        a
    }
}

/// Open the tag picker, or say there are no tags yet.
pub open spec fn open_tag_pick_spec(a: AppView) -> AppView {
    if !any_tags(a.sessions) {
        with_flash(a, "No tags yet \u{2014} add some when editing a session"@, FlashKind::Info)
    } else {
        AppView { tag_idx: 0, screen: SsmScreen::TagPick, ..a }
    }
}

/// Drop the tag filter and show every session the search allows.
pub open spec fn clear_tag_filter_spec(a: AppView) -> AppView {
    clamp(rebuilt(AppView { tag_filter: None, ..a }))
}

/// The session under the cursor, if any.
pub open spec fn selected(a: AppView) -> Option<SessionView> {
    if a.idx < a.visible.len() && a.visible[a.idx as int] < a.sessions.len() {
        Some(a.sessions[a.visible[a.idx as int] as int])
    } else {
        None
    }
}

/// Copy the selected session's `user@host`.
pub open spec fn yank_spec(a: AppView) -> EffectView {
    match selected(a) {
        Some(s) => EffectView::Yank(s.user + seq!['@'] + s.host),
        None => EffectView::Nothing,
    }
}

/// The numeric prefix as a count (1 when absent or unparsable).
pub open spec fn count_of(a: AppView) -> usize {
    match text::parse_usize_spec(text::trimmed(a.count_buf)) {
        Some(c) => c,
        None => 1,
    }
}

pub open spec fn moved_down(a: AppView, n: usize) -> AppView {
    AppView {
        idx: if a.idx + n < last_row(a) {
            (a.idx + n) as usize
        } else {
            last_row(a)
        },
        ..a
    }
}

pub open spec fn moved_up(a: AppView, n: usize) -> AppView {
    AppView {
        idx: if a.idx >= n {
            (a.idx - n) as usize
        } else {
            0
        },
        ..a
    }
}

/// What a key does on the session list.
pub open spec fn list_key_spec(a: AppView, k: KeyInput) -> (AppView, EffectView) {
    if is_char(k, 'd') && !k.ctrl {
        if a.pending_d {
            (request_delete_spec(AppView { pending_d: false, pending_g: false, ..a }), EffectView::Nothing)
        } else {
            (AppView { pending_d: true, pending_g: false, ..a }, EffectView::Nothing)
        }
    } else {
        list_key_other_spec(AppView { pending_d: false, ..a }, k)
    }
}

/// What a key other than a plain `d` does on the session list.
pub open spec fn list_key_other_spec(a: AppView, k: KeyInput) -> (AppView, EffectView) {
    let nothing = EffectView::Nothing;
    if is_char(k, 'q') {
        (AppView { should_quit: true, ..a }, nothing)
    } else if k.code == Key::Esc {
        if a.tag_filter is Some {
            (clear_tag_filter_spec(a), nothing)
        } else {
            (AppView { should_quit: true, ..a }, nothing)
        }
    } else if is_char(k, '?') || is_char(k, 'h') {
        (AppView { screen: SsmScreen::Help, ..a }, nothing)
    } else if is_char(k, 'T') {
        (open_tag_pick_spec(a), nothing)
    } else if is_char(k, 'j') || k.code == Key::Down {
        (moved_down(AppView { count_buf: Seq::empty(), ..a }, count_of(a)), nothing)
    } else if is_char(k, 'k') || k.code == Key::Up {
        (moved_up(AppView { count_buf: Seq::empty(), ..a }, count_of(a)), nothing)
    } else if is_char(k, 'g') {
        if a.pending_g {
            (AppView { idx: 0, pending_g: false, count_buf: Seq::empty(), ..a }, nothing)
        } else {
            (AppView { pending_g: true, ..a }, nothing)
        }
    } else if is_char(k, 'G') {
        (AppView { idx: last_row(a), pending_g: false, count_buf: Seq::empty(), ..a }, nothing)
    } else if is_char(k, 'd') && k.ctrl {
        (moved_down(a, 10), nothing)
    } else if is_char(k, 'u') && k.ctrl {
        (moved_up(a, 10), nothing)
    } else if is_char(k, 'f') && k.ctrl {
        (moved_down(a, 20), nothing)
    } else if is_char(k, 'b') && k.ctrl {
        (moved_up(a, 20), nothing)
    } else if is_char(k, 'u') {
        (a, EffectView::ReloadSessions)
    } else if k.code matches Key::Char(c) && text::is_digit(c) {
        (AppView { pending_g: false, count_buf: a.count_buf.push(k.code->Char_0), ..a }, nothing)
    } else if k.code == Key::Enter {
        match selected(a) {
            Some(s) => (AppView { connect_target: Some(s), ..a }, nothing),
            None => (a, nothing),
        }
    } else if is_char(k, 'a') {
        (
            AppView {
                form: FormView {
                    fields: blank_fields(),
                    cursor: 0,
                    mode: FormMode::Add,
                    edit_idx: None,
                    focused: false,
                },
                screen: SsmScreen::Form,
                flash: None,
                ..a
            },
            nothing,
        )
    } else if is_char(k, 'e') {
        match selected(a) {
            Some(s) => (
                AppView {
                    form: FormView {
                        fields: session_fields(s),
                        cursor: 0,
                        mode: FormMode::Edit,
                        edit_idx: Some(a.visible[a.idx as int]),
                        focused: false,
                    },
                    screen: SsmScreen::Form,
                    flash: None,
                    ..a
                },
                nothing,
            ),
            None => (a, nothing),
        }
    } else if is_char(k, ' ') {
        (AppView { menu: Some(WhichKey::Actions), flash: None, ..a }, nothing)
    } else if is_char(k, 'D') {
        (request_delete_spec(a), nothing)
    } else if is_char(k, 'y') {
        (a, yank_spec(a))
    } else if is_char(k, '/') {
        (AppView { screen: SsmScreen::Search, search_query: Seq::empty(), flash: None, ..a }, nothing)
    } else if is_char(k, 's') {
        (AppView { menu: Some(WhichKey::Settings), flash: None, ..a }, nothing)
    } else {
        (AppView { pending_g: false, ..a }, nothing)
    }
}

/// `a` followed by `b`.
fn concat2(a: &str, b: &str) -> (r: String)
    ensures
        r@ == a@ + b@,
{
    let mut s = text::to_owned_string(a);
    text::push_str(&mut s, b);
    s
}

/// Build a `String` from several pieces.
fn concat3(a: &str, b: &str, c: &str) -> (r: String)
    ensures
        r@ == a@ + b@ + c@,
{
    let mut s = text::to_owned_string(a);
    text::push_str(&mut s, b);
    text::push_str(&mut s, c);
    s
}

impl SsmApp {
    fn request_delete(&mut self)
        ensures
            final(self)@ == request_delete_spec(old(self)@),
    {
        if self.sessions.len() > 0 {
            self.screen = SsmScreen::ConfirmDelete;
        }
    }

    fn open_tag_pick(&mut self)
        ensures
            final(self)@ == open_tag_pick_spec(old(self)@),
    {
        let tags = self.all_tags();
        if tags.len() == 0 {
            proof {
                assert forall|t: Seq<char>| !has_tag(self@.sessions, t) by {
                    if has_tag(self@.sessions, t) {
                        assert(crate::storage::strings_view(tags@).contains(t));
                    }
                }
            }
            self.flash = Some(
                (
                    text::to_owned_string("No tags yet \u{2014} add some when editing a session"),
                    FlashKind::Info,
                ),
            );
            return ;
        }
        proof {
            let t = crate::storage::strings_view(tags@)[0];
            assert(crate::storage::strings_view(tags@).contains(t));
            assert(has_tag(self@.sessions, t));
        }
        self.tag_idx = 0;
        self.screen = SsmScreen::TagPick;
    }

    fn clear_tag_filter(&mut self)
        ensures
            final(self)@ == clear_tag_filter_spec(old(self)@),
    {
        self.tag_filter = None;
        self.rebuild_visible();
        self.clamp_idx();
    }

    fn selected_session(&self) -> (r: Option<Session>)
        ensures
            crate::ssh_config::opt_session_view(r) == selected(self@),
    {
        match self.active_session(self.idx) {
            Some(s) => Some(s.duplicate()),
            None => None,
        }
    }

    fn yank_selected(&self) -> (e: Effect)
        ensures
            e@ == yank_spec(self@),
    {
        match self.active_session(self.idx) {
            Some(s) => {
                let t = concat3(s.user.as_str(), "@", s.host.as_str());
                proof {
                    reveal_strlit("@");
                    assert("@"@ =~= seq!['@']);
                }
                Effect::Yank(t)
            },
            None => Effect::Nothing,
        }
    }

    /// Handle a key on the session list: `d` twice asks to delete the
    /// selected session; any other key disarms a pending `d`.
    pub fn handle_list_key(&mut self, key: KeyInput) -> (e: Effect)
        ensures
            (final(self)@, e@) == list_key_spec(old(self)@, key),
    {
        match key.code {
            Key::Char('d') if !key.ctrl => {
                self.pending_g = false;
                if self.pending_d {
                    self.pending_d = false;
                    self.request_delete();
                } else {
                    self.pending_d = true;
                }
                return Effect::Nothing;
            },
            _ => {},
        }
        self.pending_d = false;
        self.handle_list_other_key(key)
    }

    /// Handle a key other than a plain `d` on the session list.
    #[verifier::rlimit(60)]
    #[verifier::spinoff_prover]
    fn handle_list_other_key(&mut self, key: KeyInput) -> (e: Effect)
        ensures
            (final(self)@, e@) == list_key_other_spec(old(self)@, key),
    {
        match key.code {
            Key::Char('q') => {
                self.should_quit = true;
            },
            Key::Esc => {
                if self.tag_filter.is_some() {
                    self.clear_tag_filter();
                } else {
                    self.should_quit = true;
                }
            },
            Key::Char('?') | Key::Char('h') => {
                self.screen = SsmScreen::Help;
            },
            Key::Char('T') => self.open_tag_pick(),
            Key::Char('j') | Key::Down => {
                let n = self.take_count();
                self.move_down(n);
            },
            Key::Char('k') | Key::Up => {
                let n = self.take_count();
                self.move_up(n);
            },
            Key::Char('g') => {
                if self.pending_g {
                    self.idx = 0;
                    self.pending_g = false;
                    self.count_buf = String::new();
                } else {
                    self.pending_g = true;
                }
            },
            Key::Char('G') => {
                self.idx = self.active_len().saturating_sub(1);
                self.pending_g = false;
                self.count_buf = String::new();
            },
            Key::Char('d') if key.ctrl => self.move_down(10),
            Key::Char('u') if key.ctrl => self.move_up(10),
            Key::Char('f') if key.ctrl => self.move_down(20),
            Key::Char('b') if key.ctrl => self.move_up(20),
            Key::Char('u') => {
                return Effect::ReloadSessions;
            },
            Key::Char(c) if '0' <= c && c <= '9' => {
                self.pending_g = false;
                text::push_char(&mut self.count_buf, c);
            },
            Key::Enter => {
                let s = self.selected_session();
                if s.is_some() {
                    self.connect_target = s;
                }
            },
            Key::Char('a') => {
                self.form = FormState::new_add();
                self.screen = SsmScreen::Form;
                self.flash = None;
            },
            Key::Char('e') => {
                if let Some(s) = self.selected_session() {
                    let raw = self.visible[self.idx];
                    self.form = FormState::from_session(&s, raw);
                    self.screen = SsmScreen::Form;
                    self.flash = None;
                }
            },
            Key::Char(' ') => {
                self.menu = Some(WhichKey::Actions);
                self.flash = None;
            },
            Key::Char('D') => self.request_delete(),
            Key::Char('y') => {
                return self.yank_selected();
            },
            Key::Char('/') => {
                self.screen = SsmScreen::Search;
                self.search_query = String::new();
                self.flash = None;
            },
            Key::Char('s') => {
                self.menu = Some(WhichKey::Settings);
                self.flash = None;
            },
            _ => {
                self.pending_g = false;
            },
        }
        Effect::Nothing
    }
}

/// The first theme whose picker key starts with `c`, looking from theme `i`.
pub open spec fn theme_for_key_from(c: char, i: int) -> Option<int>
    decreases crate::tui_core::theme::THEME_COUNT - i,
{
    if i < 0 || i >= crate::tui_core::theme::THEME_COUNT {
        None
    } else if crate::tui_core::theme::theme_key(i).len() > 0 && crate::tui_core::theme::theme_key(i)[0] == c {
        Some(i)
    } else {
        theme_for_key_from(c, i + 1)
    }
}

/// What a key does while a which-key popup is open.
pub open spec fn which_key_spec(a: AppView, m: WhichKey, k: KeyInput) -> (AppView, EffectView) {
    let nothing = EffectView::Nothing;
    let closed = AppView { menu: None, ..a };
    match m {
        WhichKey::Actions => {
            if k.code == Key::Esc || is_char(k, 'q') {
                (closed, nothing)
            } else if is_char(k, 'd') {
                (request_delete_spec(closed), nothing)
            } else if is_char(k, 'y') {
                (closed, yank_spec(closed))
            } else if is_char(k, 'T') {
                (open_tag_pick_spec(closed), nothing)
            } else if is_char(k, 'i') {
                (closed, EffectView::ImportSshConfig)
            } else if is_char(k, 's') {
                (AppView { menu: Some(WhichKey::Settings), ..a }, nothing)
            } else if is_char(k, '?') {
                (AppView { screen: SsmScreen::Help, ..closed }, nothing)
            } else {
                (a, nothing)
            }
        },
        WhichKey::Settings => {
            if k.code == Key::Esc || is_char(k, 'q') {
                (closed, nothing)
            } else if is_char(k, 'h') {
                (
                    AppView { use_herdr: !a.use_herdr, ..closed },
                    EffectView::PersistConfig("\u{2713} herdr "@ + on_off(!a.use_herdr)),
                )
            } else if is_char(k, 'p') {
                (
                    AppView { probe_enabled: !a.probe_enabled, ..closed },
                    EffectView::PersistConfig("\u{2713} probing "@ + on_off(!a.probe_enabled)),
                )
            } else if is_char(k, 'b') {
                (
                    AppView { biometric: !a.biometric, ..closed },
                    EffectView::PersistConfig("\u{2713} biometric unlock "@ + on_off(!a.biometric)),
                )
            } else if is_char(k, 't') {
                (AppView { menu: Some(WhichKey::Theme), ..a }, nothing)
            } else {
                (a, nothing)
            }
        },
        WhichKey::Theme => {
            if k.code == Key::Esc || is_char(k, 'q') {
                (closed, nothing)
            } else if k.code is Char {
                match theme_for_key_from(k.code->Char_0, 0) {
                    Some(i) => (
                        AppView { theme: crate::tui_core::theme::theme_name(i), ..a },
                        EffectView::PersistConfig("\u{2713} theme: "@ + crate::tui_core::theme::theme_name(i)),
                    ),
                    None => (a, nothing),
                }
            } else {
                (a, nothing)
            }
        },
    }
}

impl SsmApp {
    fn theme_for_key(c: char) -> (r: Option<usize>)
        ensures
            match r {
                Some(i) => theme_for_key_from(c, 0) == Some(i as int) && i < crate::tui_core::theme::THEME_COUNT,
                None => theme_for_key_from(c, 0) is None,
            },
    {
        let mut i: usize = 0;
        while i < crate::tui_core::theme::THEME_COUNT
            invariant
                0 <= i <= crate::tui_core::theme::THEME_COUNT,
                theme_for_key_from(c, 0) == theme_for_key_from(c, i as int),
            decreases crate::tui_core::theme::THEME_COUNT - i,
        {
            let t = crate::tui_core::theme::theme_at(i);
            let k = text::chars_of(t.key);
            if k.len() > 0 && k[0] == c {
                return Some(i);
            }
            i += 1;
        }
        None
    }

    /// Handle a key while the which-key popup `m` is open.
    #[verifier::rlimit(60)]
    #[verifier::spinoff_prover]
    pub fn handle_which_key(&mut self, m: WhichKey, key: KeyInput) -> (e: Effect)
        ensures
            (final(self)@, e@) == which_key_spec(old(self)@, m, key),
    {
        match m {
            WhichKey::Actions => match key.code {
                Key::Esc | Key::Char('q') => {
                    self.menu = None;
                },
                Key::Char('d') => {
                    self.menu = None;
                    self.request_delete();
                },
                Key::Char('y') => {
                    self.menu = None;
                    return self.yank_selected();
                },
                Key::Char('T') => {
                    self.menu = None;
                    self.open_tag_pick();
                },
                Key::Char('i') => {
                    self.menu = None;
                    return Effect::ImportSshConfig;
                },
                Key::Char('s') => {
                    self.menu = Some(WhichKey::Settings);
                },
                Key::Char('?') => {
                    self.menu = None;
                    self.screen = SsmScreen::Help;
                },
                _ => {},
            },
            WhichKey::Settings => match key.code {
                Key::Esc | Key::Char('q') => {
                    self.menu = None;
                },
                Key::Char('h') => {
                    self.cfg.use_herdr = !self.cfg.use_herdr;
                    self.menu = None;
                    let w = if self.cfg.use_herdr { "enabled" } else { "disabled" };
                    return Effect::PersistConfig(concat2("\u{2713} herdr ", w));
                },
                Key::Char('p') => {
                    self.probe_enabled = !self.probe_enabled;
                    self.menu = None;
                    let w = if self.probe_enabled { "enabled" } else { "disabled" };
                    return Effect::PersistConfig(concat2("\u{2713} probing ", w));
                },
                Key::Char('b') => {
                    self.biometric = !self.biometric;
                    self.menu = None;
                    let w = if self.biometric { "enabled" } else { "disabled" };
                    return Effect::PersistConfig(concat2("\u{2713} biometric unlock ", w));
                },
                Key::Char('t') => {
                    self.menu = Some(WhichKey::Theme);
                },
                _ => {},
            },
            WhichKey::Theme => match key.code {
                Key::Esc | Key::Char('q') => {
                    self.menu = None;
                },
                Key::Char(c) => {
                    if let Some(i) = Self::theme_for_key(c) {
                        let t = crate::tui_core::theme::theme_at(i);
                        self.theme = text::to_owned_string(t.name);
                        return Effect::PersistConfig(concat2("\u{2713} theme: ", t.name));
                    }
                },
                _ => {},
            },
        }
        Effect::Nothing
    }
}

/// The settings menu's toggles: `h`, `p` and `b` each flip their own
/// preference — herdr, probing, biometric unlock — and no other, close the
/// menu, and ask to save the preferences with a message naming the new state.
pub proof fn lemma_settings_toggles(a: AppView, k: KeyInput)
    requires
        a.menu == Some(WhichKey::Settings),
    ensures
        ({
            let (r, e) = key_spec(a, k);
            &&& k.code == Key::Char('h') ==> {
                &&& r.use_herdr == !a.use_herdr
                &&& r.probe_enabled == a.probe_enabled
                &&& r.biometric == a.biometric
                &&& r.menu is None
                &&& e == EffectView::PersistConfig("\u{2713} herdr "@ + (if r.use_herdr { "enabled"@ } else { "disabled"@ }))
            }
            &&& k.code == Key::Char('p') ==> {
                &&& r.probe_enabled == !a.probe_enabled
                &&& r.use_herdr == a.use_herdr
                &&& r.biometric == a.biometric
                &&& r.menu is None
                &&& e == EffectView::PersistConfig("\u{2713} probing "@ + (if r.probe_enabled { "enabled"@ } else { "disabled"@ }))
            }
            &&& k.code == Key::Char('b') ==> {
                &&& r.biometric == !a.biometric
                &&& r.use_herdr == a.use_herdr
                &&& r.probe_enabled == a.probe_enabled
                &&& r.menu is None
                &&& e == EffectView::PersistConfig(
                    "\u{2713} biometric unlock "@ + (if r.biometric { "enabled"@ } else { "disabled"@ }),
                )
            }
            &&& (k.code == Key::Char('h') || k.code == Key::Char('p') || k.code == Key::Char('b')) ==> {
                &&& r.sessions == a.sessions
                &&& r.theme == a.theme
                &&& r.screen == a.screen
            }
        }),
{
}

pub open spec fn next_field(c: usize) -> usize {
    ((c + 1) % (FIELD_COUNT as int)) as usize
}

pub open spec fn prev_field(c: usize) -> usize {
    ((c + FIELD_COUNT - 1) % (FIELD_COUNT as int)) as usize
}

pub open spec fn with_form(a: AppView, f: FormView) -> AppView {
    AppView { form: f, ..a }
}

/// Saving the form: refused with the validation message when it is not
/// complete, refused when an added session's name is taken; otherwise an
/// added session is appended, or the edited one replaced in place (keeping
/// its stored password when the form's password is blank), and the list is
/// saved.
pub open spec fn save_form_spec(a: AppView) -> (AppView, EffectView) {
    match form_error_spec(a.form.fields) {
        Some(m) => (with_flash(a, m, FlashKind::Error), EffectView::Nothing),
        None => {
            let s = form_session_spec(a.form.fields)->Some_0;
            match a.form.mode {
                FormMode::Add => if crate::ssh_config::has_name(a.sessions, s.name) {
                    (
                        with_flash(a, "Name '"@ + s.name + "' already exists"@, FlashKind::Error),
                        EffectView::Nothing,
                    )
                } else {
                    (AppView { sessions: a.sessions.push(s), ..a }, EffectView::SaveForm)
                },
                FormMode::Edit => {
                    let sessions = match a.form.edit_idx {
                        Some(raw) => if raw < a.sessions.len() {
                            a.sessions.update(
                                raw as int,
                                if s.password.len() == 0 {
                                    SessionView { password: a.sessions[raw as int].password, ..s }
                                } else {
                                    s
                                },
                            )
                        } else {
                            a.sessions
                        },
                        None => a.sessions,
                    };
                    (AppView { sessions: sessions, ..a }, EffectView::SaveForm)
                },
            }
        },
    }
}

/// Saving an edit replaces the edited session in place: the list keeps its
/// length, position `i` holds the form's session (keeping the stored
/// password when the form's is blank), every other session is untouched, and
/// the list is saved. Saving an added session whose name is new appends it.
pub proof fn lemma_save_edit_in_place(a: AppView, k: KeyInput, s: SessionView)
    requires
        a.menu is None,
        a.screen == SsmScreen::Form,
        !a.form.focused,
        k.code == Key::Char('S'),
        a.form.fields.len() == FIELD_COUNT,
        form_session_spec(a.form.fields) == Some(s),
    ensures
        ({
            let (r, e) = key_spec(a, k);
            &&& a.form.mode == FormMode::Edit && a.form.edit_idx is Some && a.form.edit_idx->Some_0 < a.sessions.len() ==> {
                let i = a.form.edit_idx->Some_0 as int;
                &&& r.sessions.len() == a.sessions.len()
                &&& r.sessions[i].name == s.name
                &&& r.sessions[i].host == s.host
                &&& r.sessions[i].user == s.user
                &&& r.sessions[i].port == s.port
                &&& r.sessions[i].proxy_jump == s.proxy_jump
                &&& r.sessions[i].tags == s.tags
                &&& r.sessions[i].password == (if s.password.len() == 0 {
                    a.sessions[i].password
                } else {
                    s.password
                })
                &&& forall|j: int| 0 <= j < a.sessions.len() && j != i ==> r.sessions[j] == a.sessions[j]
                &&& e == EffectView::SaveForm
            }
            &&& a.form.mode == FormMode::Add && !(exists|j: int|
                0 <= j < a.sessions.len() && (#[trigger] a.sessions[j]).name == s.name) ==> {
                &&& r.sessions.len() == a.sessions.len() + 1
                &&& r.sessions[a.sessions.len() as int] == s
                &&& forall|j: int| 0 <= j < a.sessions.len() ==> r.sessions[j] == a.sessions[j]
                &&& e == EffectView::SaveForm
            }
        }),
{
    lemma_validate_agrees(a.form.fields);
}

/// What a key does in the form while no field has focus.
pub open spec fn form_nav_spec(a: AppView, k: KeyInput) -> (AppView, EffectView) {
    let f = a.form;
    if k.code == Key::Esc || is_char(k, 'q') {
        (AppView { screen: SsmScreen::List, flash: None, ..a }, EffectView::Nothing)
    } else if is_char(k, 'j') || k.code == Key::Down || k.code == Key::Tab {
        (with_form(a, FormView { cursor: next_field(f.cursor), ..f }), EffectView::Nothing)
    } else if is_char(k, 'k') || k.code == Key::Up || k.code == Key::BackTab {
        (with_form(a, FormView { cursor: prev_field(f.cursor), ..f }), EffectView::Nothing)
    } else if k.code == Key::Enter || is_char(k, 'i') {
        (with_form(a, FormView { focused: true, ..f }), EffectView::Nothing)
    } else if is_char(k, 'S') {
        save_form_spec(a)
    } else {
        (a, EffectView::Nothing)
    }
}

/// What a key does in the form while the selected field has focus.
pub open spec fn form_edit_spec(a: AppView, k: KeyInput) -> AppView {
    let f = a.form;
    let cur = f.fields[f.cursor as int];
    if k.code == Key::Enter || k.code == Key::Esc {
        with_form(a, FormView { focused: false, ..f })
    } else if k.code == Key::Tab {
        with_form(a, FormView { cursor: next_field(f.cursor), ..f })
    } else if k.code == Key::BackTab {
        with_form(a, FormView { cursor: prev_field(f.cursor), ..f })
    } else if k.code == Key::Backspace {
        with_form(
            a,
            FormView {
                fields: f.fields.update(
                    f.cursor as int,
                    if cur.len() > 0 {
                        cur.drop_last()
                    } else {
                        cur
                    },
                ),
                ..f
            },
        )
    } else if k.code is Char {
        with_form(a, FormView { fields: f.fields.update(f.cursor as int, cur.push(k.code->Char_0)), ..f })
    } else {
        a
    }
}

pub open spec fn form_key_spec(a: AppView, k: KeyInput) -> (AppView, EffectView) {
    if a.form.focused {
        (form_edit_spec(a, k), EffectView::Nothing)
    } else {
        form_nav_spec(a, k)
    }
}

impl SsmApp {
    /// Validate the form and apply it to the list; the list then has to be
    /// saved.
    pub fn save_form(&mut self) -> (e: Effect)
        requires
            old(self).form.wf(),
        ensures
            (final(self)@, e@) == save_form_spec(old(self)@),
            final(self).form == old(self).form,
    {
        if let Some(err) = self.form.validate() {
            self.flash = Some((err, FlashKind::Error));
            return Effect::Nothing;
        }
        proof {
            lemma_validate_agrees(self.form.texts());
        }
        let mut session = match self.form.to_session() {
            Some(s) => s,
            None => {
                return Effect::Nothing;
            },
        };
        match self.form.mode {
            FormMode::Add => {
                if crate::ssh_config::contains_name(&self.sessions, &session.name) {
                    self.flash = Some(
                        (concat3("Name '", session.name.as_str(), "' already exists"), FlashKind::Error),
                    );
                    return Effect::Nothing;
                }
                let ghost before = self@.sessions;
                self.sessions.push(session);
                assert(self@.sessions =~= before.push(session@));
            },
            FormMode::Edit => {
                if let Some(raw) = self.form.edit_idx {
                    if raw < self.sessions.len() {
                        if session.password.as_str().is_empty() {
                            session.password = self.sessions[raw].password.clone();
                        }
                        let ghost before = self@.sessions;
                        let ghost sv = session@;
                        self.sessions.set(raw, session);
                        assert(self@.sessions =~= before.update(raw as int, sv));
                    }
                }
            },
        }
        Effect::SaveForm
    }

    /// Handle a key on the form.
    #[verifier::rlimit(40)]
    pub fn handle_form_key(&mut self, key: KeyInput) -> (e: Effect)
        requires
            old(self).form.wf(),
        ensures
            (final(self)@, e@) == form_key_spec(old(self)@, key),
            final(self).form.wf(),
    {
        if self.form.focused {
            self.handle_form_edit_key(key);
            return Effect::Nothing;
        }
        match key.code {
            Key::Esc | Key::Char('q') => {
                self.screen = SsmScreen::List;
                self.flash = None;
            },
            Key::Char('j') | Key::Down | Key::Tab => {
                self.form.cursor = (self.form.cursor + 1) % FIELD_COUNT;
            },
            Key::Char('k') | Key::Up | Key::BackTab => {
                self.form.cursor = (self.form.cursor + FIELD_COUNT - 1) % FIELD_COUNT;
            },
            Key::Enter | Key::Char('i') => {
                self.form.focused = true;
            },
            Key::Char('S') => {
                return self.save_form();
            },
            _ => {},
        }
        Effect::Nothing
    }

    fn handle_form_edit_key(&mut self, key: KeyInput)
        requires
            old(self).form.wf(),
        ensures
            final(self)@ == form_edit_spec(old(self)@, key),
            final(self).form.wf(),
    {
        let c = self.form.cursor;
        match key.code {
            Key::Enter | Key::Esc => {
                self.form.focused = false;
            },
            Key::Tab => {
                self.form.cursor = (c + 1) % FIELD_COUNT;
            },
            Key::BackTab => {
                self.form.cursor = (c + FIELD_COUNT - 1) % FIELD_COUNT;
            },
            Key::Backspace => {
                let mut f = self.form.fields[c].clone();
                text::pop_char(&mut f);
                let ghost before = self.form.texts();
                self.form.fields.set(c, f);
                assert(self.form.texts() =~= before.update(c as int, f@));
            },
            Key::Char(ch) => {
                let mut f = self.form.fields[c].clone();
                text::push_char(&mut f, ch);
                let ghost before = self.form.texts();
                self.form.fields.set(c, f);
                assert(self.form.texts() =~= before.update(c as int, f@));
            },
            _ => {},
        }
    }
}

/// What a key does while typing a search: the query is edited and the list
/// follows it (once a search has been applied); Enter applies a non-empty
/// query and Esc drops it.
pub open spec fn search_key_spec(a: AppView, k: KeyInput) -> AppView {
    if k.code == Key::Esc {
        AppView {
            screen: SsmScreen::List,
            ..clamp(rebuilt(AppView { filter_active: false, search_query: Seq::empty(), ..a }))
        }
    } else if k.code == Key::Enter {
        AppView {
            idx: 0,
            screen: SsmScreen::List,
            ..rebuilt(AppView { filter_active: a.search_query.len() > 0, ..a })
        }
    } else if k.code == Key::Backspace {
        clamp(
            rebuilt(
                AppView {
                    search_query: if a.search_query.len() > 0 {
                        a.search_query.drop_last()
                    } else {
                        a.search_query
                    },
                    ..a
                },
            ),
        )
    } else if k.code is Char {
        clamp(rebuilt(AppView { search_query: a.search_query.push(k.code->Char_0), ..a }))
    } else {
        a
    }
}

/// What a key does on the help screen.
pub open spec fn help_key_spec(a: AppView, k: KeyInput) -> AppView {
    if is_char(k, 'q') || is_char(k, '?') || k.code == Key::Esc {
        AppView { screen: SsmScreen::List, ..a }
    } else {
        a
    }
}

/// What a key does on the delete confirmation: `y` removes the selected
/// session (its keychain entry and the saved list follow), `n`/Esc cancel.
pub open spec fn confirm_key_spec(a: AppView, k: KeyInput) -> (AppView, EffectView) {
    if is_char(k, 'y') {
        if a.idx < a.visible.len() {
            let raw = a.visible[a.idx as int];
            let name = a.sessions[raw as int].name;
            let removed = AppView { sessions: a.sessions.remove(raw as int), ..a };
            (AppView { screen: SsmScreen::List, ..clamp(rebuilt(removed)) }, EffectView::DeleteSession(name))
        } else {
            (AppView { screen: SsmScreen::List, ..a }, EffectView::Nothing)
        }
    } else if is_char(k, 'n') || k.code == Key::Esc {
        (AppView { screen: SsmScreen::List, flash: None, ..a }, EffectView::Nothing)
    } else {
        (a, EffectView::Nothing)
    }
}

/// Confirming a delete removes exactly the session under the cursor — the one
/// at `visible[idx]` — keeps every other session in order, and names the
/// removed session in the effect.
pub proof fn lemma_confirm_removes_selected(a: AppView, k: KeyInput)
    requires
        a.menu is None,
        a.screen == SsmScreen::ConfirmDelete,
        k.code == Key::Char('y'),
        app_wf(a),
        a.idx < a.visible.len(),
    ensures
        ({
            let (r, e) = key_spec(a, k);
            let raw = a.visible[a.idx as int] as int;
            &&& r.sessions.len() == a.sessions.len() - 1
            &&& forall|j: int| 0 <= j < raw ==> r.sessions[j] == a.sessions[j]
            &&& forall|j: int| raw <= j < r.sessions.len() ==> r.sessions[j] == a.sessions[j + 1]
            &&& e == EffectView::DeleteSession(a.sessions[raw].name)
            &&& r.screen == SsmScreen::List
        }),
{
    assert(a.visible[a.idx as int] < a.sessions.len());
}

/// What a key does in the tag picker: move over the sorted tags, apply one as
/// the list's filter, or clear the filter.
pub open spec fn tag_pick_key_spec(a: AppView, k: KeyInput) -> AppView {
    let tags = sorted_tags(a.sessions);
    if k.code == Key::Esc || is_char(k, 'q') {
        AppView { screen: SsmScreen::List, ..a }
    } else if is_char(k, 'c') {
        AppView { screen: SsmScreen::List, ..clear_tag_filter_spec(a) }
    } else if is_char(k, 'j') || k.code == Key::Down {
        if tags.len() > 0 {
            AppView {
                tag_idx: if a.tag_idx + 1 < tags.len() {
                    (a.tag_idx + 1) as usize
                } else {
                    (tags.len() - 1) as usize
                },
                ..a
            }
        } else {
            a
        }
    } else if is_char(k, 'k') || k.code == Key::Up {
        AppView { tag_idx: if a.tag_idx > 0 { (a.tag_idx - 1) as usize } else { 0 }, ..a }
    } else if k.code == Key::Enter {
        if a.tag_idx < tags.len() {
            let r = rebuilt(AppView { tag_filter: Some(tags[a.tag_idx as int]), ..a });
            AppView { screen: SsmScreen::List, ..clamp(AppView { idx: 0, ..r }) }
        } else {
            a
        }
    } else {
        a
    }
}

/// What a key does: a which-key popup takes every key while it is open;
/// otherwise the current screen decides.
pub open spec fn key_spec(a: AppView, k: KeyInput) -> (AppView, EffectView) {
    match a.menu {
        Some(m) => which_key_spec(a, m, k),
        None => match a.screen {
            SsmScreen::List => list_key_spec(a, k),
            SsmScreen::Form => form_key_spec(a, k),
            SsmScreen::Search => (search_key_spec(a, k), EffectView::Nothing),
            SsmScreen::Help => (help_key_spec(a, k), EffectView::Nothing),
            SsmScreen::ConfirmDelete => confirm_key_spec(a, k),
            SsmScreen::TagPick => (tag_pick_key_spec(a, k), EffectView::Nothing),
        },
    }
}

impl SsmApp {
    /// Handle a key while typing a search.
    pub fn handle_search_key(&mut self, key: KeyInput)
        ensures
            final(self)@ == search_key_spec(old(self)@, key),
    {
        match key.code {
            Key::Esc => {
                self.filter_active = false;
                self.search_query = String::new();
                self.rebuild_visible();
                self.clamp_idx();
                self.screen = SsmScreen::List;
            },
            Key::Enter => {
                self.filter_active = !self.search_query.as_str().is_empty();
                self.rebuild_visible();
                self.idx = 0;
                self.screen = SsmScreen::List;
            },
            Key::Backspace => {
                text::pop_char(&mut self.search_query);
                self.rebuild_visible();
                self.clamp_idx();
            },
            Key::Char(c) => {
                text::push_char(&mut self.search_query, c);
                self.rebuild_visible();
                self.clamp_idx();
            },
            _ => {},
        }
    }

    /// Handle a key on the help screen.
    pub fn handle_help_key(&mut self, key: KeyInput)
        ensures
            final(self)@ == help_key_spec(old(self)@, key),
    {
        match key.code {
            Key::Char('q') | Key::Char('?') | Key::Esc => {
                self.screen = SsmScreen::List;
            },
            _ => {},
        }
    }

    /// Handle a key on the delete confirmation.
    pub fn handle_confirm_key(&mut self, key: KeyInput) -> (e: Effect)
        requires
            app_wf(old(self)@),
        ensures
            (final(self)@, e@) == confirm_key_spec(old(self)@, key),
    {
        match key.code {
            Key::Char('y') => {
                if self.idx < self.visible.len() {
                    let raw = self.visible[self.idx];
                    let name = self.sessions[raw].name.clone();
                    let ghost before = self@.sessions;
                    self.sessions.remove(raw);
                    assert(self@.sessions =~= before.remove(raw as int));
                    self.rebuild_visible();
                    self.clamp_idx();
                    self.screen = SsmScreen::List;
                    return Effect::DeleteSession(name);
                }
                self.screen = SsmScreen::List;
            },
            Key::Char('n') | Key::Esc => {
                self.screen = SsmScreen::List;
                self.flash = None;
            },
            _ => {},
        }
        Effect::Nothing
    }

    /// Handle a key in the tag picker.
    #[verifier::spinoff_prover]
    pub fn handle_tag_pick_key(&mut self, key: KeyInput)
        ensures
            final(self)@ == tag_pick_key_spec(old(self)@, key),
    {
        let tags = self.all_tags();
        match key.code {
            Key::Esc | Key::Char('q') => {
                self.screen = SsmScreen::List;
            },
            Key::Char('c') => {
                self.clear_tag_filter();
                self.screen = SsmScreen::List;
            },
            Key::Char('j') | Key::Down => {
                if tags.len() > 0 {
                    self.tag_idx = if self.tag_idx < tags.len() - 1 {
                        self.tag_idx + 1
                    } else {
                        tags.len() - 1
                    };
                }
            },
            Key::Char('k') | Key::Up => {
                self.tag_idx = self.tag_idx.saturating_sub(1);
            },
            Key::Enter => {
                if self.tag_idx < tags.len() {
                    let tag = tags[self.tag_idx].clone();
                    self.tag_filter = Some(tag);
                    self.rebuild_visible();
                    self.idx = 0;
                    self.clamp_idx();
                    self.screen = SsmScreen::List;
                }
            },
            _ => {},
        }
    }

    /// Handle a key press.
    pub fn handle_key(&mut self, key: KeyInput) -> (e: Effect)
        requires
            app_wf(old(self)@),
        ensures
            (final(self)@, e@) == key_spec(old(self)@, key),
            app_wf(final(self)@),
    {
        let n0 = self.sessions.len();
        assert(self@.sessions.len() == n0);
        let e = self.dispatch_key(key);
        proof {
            lemma_key_keeps_wf(old(self)@, key);
        }
        e
    }

    fn dispatch_key(&mut self, key: KeyInput) -> (e: Effect)
        requires
            app_wf(old(self)@),
        ensures
            (final(self)@, e@) == key_spec(old(self)@, key),
    {
        if let Some(m) = self.menu {
            return self.handle_which_key(m, key);
        }
        match self.screen {
            SsmScreen::List => self.handle_list_key(key),
            SsmScreen::Form => self.handle_form_key(key),
            SsmScreen::Search => {
                self.handle_search_key(key);
                Effect::Nothing
            },
            SsmScreen::Help => {
                self.handle_help_key(key);
                Effect::Nothing
            },
            SsmScreen::ConfirmDelete => self.handle_confirm_key(key),
            SsmScreen::TagPick => {
                self.handle_tag_pick_key(key);
                Effect::Nothing
            },
        }
    }
}

pub open spec fn save_failed(e: Seq<char>) -> Seq<char> {
    "\u{2717} Save failed: "@ + e
}

/// Rows recomputed for a new session list, cursor kept on a row.
pub open spec fn with_sessions(a: AppView, s: Seq<SessionView>) -> AppView {
    clamp(rebuilt(AppView { sessions: s, ..a }))
}

/// The outcome of an import once `~/.ssh/config` was read: the parse error,
/// nothing to import, nothing new, or the merged list (to be saved).
pub open spec fn import_spec(a: AppView, parsed: Result<Seq<SessionView>, Seq<char>>) -> (AppView, EffectView) {
    match parsed {
        Err(e) => (with_flash(a, "\u{2717} Import failed: "@ + e, FlashKind::Error), EffectView::Nothing),
        Ok(v) => if v.len() == 0 {
            (with_flash(a, "No importable hosts in ~/.ssh/config"@, FlashKind::Info), EffectView::Nothing)
        } else {
            let merged = crate::ssh_config::merge_spec(a.sessions, v);
            let added = merged.len() - a.sessions.len();
            if added == 0 {
                (
                    with_flash(AppView { sessions: merged, ..a }, "All ssh_config hosts already present"@, FlashKind::Info),
                    EffectView::Nothing,
                )
            } else {
                (AppView { sessions: merged, ..a }, EffectView::SaveImport(added as usize))
            }
        },
    }
}

impl SsmApp {
    /// The preferences were saved (`err` is `None`) or not.
    pub fn finish_persist(&mut self, ok_message: String, err: Option<String>)
        ensures
            final(self)@ == match err {
                None => with_flash(old(self)@, ok_message@, FlashKind::Success),
                Some(e) => with_flash(old(self)@, save_failed(e@), FlashKind::Error),
            },
    {
        self.flash = Some(
            match err {
                None => (ok_message, FlashKind::Success),
                Some(e) => (concat2("\u{2717} Save failed: ", e.as_str()), FlashKind::Error),
            },
        );
    }

    /// Show a freshly loaded session list.
    pub fn replace_sessions(&mut self, sessions: Vec<Session>)
        ensures
            final(self)@ == with_sessions(old(self)@, crate::storage::sessions_view(sessions@)),
            app_wf(old(self)@) ==> app_wf(final(self)@),
    {
        self.sessions = sessions;
        self.rebuild_visible();
        self.clamp_idx();
        let n = self.sessions.len();
        proof {
            assert(self@.sessions.len() == n);
            lemma_visible_ordered(self@.sessions, self@.tag_filter, search_lower(self@));
        }
    }

    /// The list was reloaded from disk on request.
    pub fn finish_reload(&mut self, sessions: Vec<Session>)
        ensures
            final(self)@ == with_flash(
                with_sessions(old(self)@, crate::storage::sessions_view(sessions@)),
                "\u{2713} Reloaded"@,
                FlashKind::Success,
            ),
            app_wf(old(self)@) ==> app_wf(final(self)@),
    {
        self.replace_sessions(sessions);
        self.flash = Some((text::to_owned_string("\u{2713} Reloaded"), FlashKind::Success));
    }

    /// `text` was copied to the clipboard (`err` is `None`) or not.
    pub fn finish_yank(&mut self, copied: String, err: Option<String>)
        ensures
            final(self)@ == match err {
                None => with_flash(
                    old(self)@,
                    "\u{2713} Copied '"@ + copied@ + "' to clipboard"@,
                    FlashKind::Success,
                ),
                Some(e) => with_flash(old(self)@, "\u{2717} "@ + e@, FlashKind::Error),
            },
    {
        self.flash = Some(
            match err {
                None => (concat3("\u{2713} Copied '", copied.as_str(), "' to clipboard"), FlashKind::Success),
                Some(e) => (concat2("\u{2717} ", e.as_str()), FlashKind::Error),
            },
        );
    }

    /// The list was saved after the form was applied (`err` is `None`) or not;
    /// on success the form closes.
    pub fn finish_save_form(&mut self, err: Option<String>)
        ensures
            final(self)@ == match err {
                None => with_flash(
                    AppView { screen: SsmScreen::List, ..clamp(rebuilt(old(self)@)) },
                    "\u{2713} Saved"@,
                    FlashKind::Success,
                ),
                Some(e) => with_flash(old(self)@, save_failed(e@), FlashKind::Error),
            },
            app_wf(old(self)@) ==> app_wf(final(self)@),
    {
        match err {
            Some(e) => {
                self.flash = Some((concat2("\u{2717} Save failed: ", e.as_str()), FlashKind::Error));
            },
            None => {
                self.rebuild_visible();
                self.clamp_idx();
                self.screen = SsmScreen::List;
                self.flash = Some((text::to_owned_string("\u{2713} Saved"), FlashKind::Success));
                let n = self.sessions.len();
                proof {
                    assert(self@.sessions.len() == n);
                    lemma_visible_ordered(self@.sessions, self@.tag_filter, search_lower(self@));
                }
            },
        }
    }

    /// The session `name` was removed from the keychain and the list saved
    /// (`err` is `None`), or saving failed.
    pub fn finish_delete(&mut self, name: String, err: Option<String>)
        ensures
            final(self)@ == match err {
                None => with_flash(old(self)@, "\u{2713} Deleted '"@ + name@ + "'"@, FlashKind::Success),
                Some(e) => with_flash(old(self)@, save_failed(e@), FlashKind::Error),
            },
    {
        self.flash = Some(
            match err {
                None => (concat3("\u{2713} Deleted '", name.as_str(), "'"), FlashKind::Success),
                Some(e) => (concat2("\u{2717} Save failed: ", e.as_str()), FlashKind::Error),
            },
        );
    }

    /// `~/.ssh/config` was read: merge what it holds.
    pub fn finish_import(&mut self, parsed: Result<Vec<Session>, String>) -> (e: Effect)
        ensures
            (final(self)@, e@) == import_spec(
                old(self)@,
                match parsed {
                    Ok(v) => Ok(crate::storage::sessions_view(v@)),
                    Err(m) => Err(m@),
                },
            ),
            app_wf(old(self)@) ==> app_wf(final(self)@),
    {
        match parsed {
            Err(m) => {
                self.flash = Some((concat2("\u{2717} Import failed: ", m.as_str()), FlashKind::Error));
                Effect::Nothing
            },
            Ok(v) => {
                if v.len() == 0 {
                    self.flash = Some(
                        (text::to_owned_string("No importable hosts in ~/.ssh/config"), FlashKind::Info),
                    );
                    return Effect::Nothing;
                }
                let added = crate::ssh_config::merge_new(&mut self.sessions, v);
                if added == 0 {
                    self.flash = Some(
                        (text::to_owned_string("All ssh_config hosts already present"), FlashKind::Info),
                    );
                    return Effect::Nothing;
                }
                Effect::SaveImport(added)
            },
        }
    }

    /// The list was saved after an import that added `added` sessions
    /// (`err` is `None`), or saving failed.
    pub fn finish_import_save(&mut self, added: usize, err: Option<String>)
        ensures
            final(self)@ == match err {
                None => with_flash(
                    clamp(rebuilt(old(self)@)),
                    "\u{2713} Imported "@ + text::decimal(added as nat) + " host(s)"@,
                    FlashKind::Success,
                ),
                Some(e) => with_flash(old(self)@, save_failed(e@), FlashKind::Error),
            },
            app_wf(old(self)@) ==> app_wf(final(self)@),
    {
        match err {
            Some(e) => {
                self.flash = Some((concat2("\u{2717} Save failed: ", e.as_str()), FlashKind::Error));
            },
            None => {
                self.rebuild_visible();
                self.clamp_idx();
                let mut m = text::to_owned_string("\u{2713} Imported ");
                text::push_decimal_usize(&mut m, added);
                text::push_str(&mut m, " host(s)");
                self.flash = Some((m, FlashKind::Success));
                let n = self.sessions.len();
                proof {
                    assert(self@.sessions.len() == n);
                    lemma_visible_ordered(self@.sessions, self@.tag_filter, search_lower(self@));
                }
            },
        }
    }
}


/// Rows recomputed (and the cursor put back on one) leave a well-formed
/// state.
proof fn lemma_rebuilt_wf(a: AppView)
    requires
        a.sessions.len() <= usize::MAX,
        a.form.fields.len() == FIELD_COUNT,
        a.form.cursor < FIELD_COUNT,
    ensures
        app_wf(clamp(rebuilt(a))),
        app_wf(AppView { idx: 0, ..rebuilt(a) }),
{
    lemma_visible_ordered(a.sessions, a.tag_filter, search_lower(a));
}

proof fn lemma_which_key_wf(a: AppView, m: WhichKey, k: KeyInput)
    requires
        app_wf(a),
    ensures
        app_wf(which_key_spec(a, m, k).0),
{
}

#[verifier::rlimit(50)]
proof fn lemma_list_key_wf(a: AppView, k: KeyInput)
    requires
        app_wf(a),
        a.sessions.len() <= usize::MAX,
    ensures
        app_wf(list_key_spec(a, k).0),
{
    if is_char(k, 'd') && !k.ctrl {
    } else {
        lemma_list_other_key_wf(AppView { pending_d: false, ..a }, k);
    }
}

#[verifier::rlimit(50)]
proof fn lemma_list_other_key_wf(a: AppView, k: KeyInput)
    requires
        app_wf(a),
        a.sessions.len() <= usize::MAX,
    ensures
        app_wf(list_key_other_spec(a, k).0),
{
    let r = list_key_other_spec(a, k).0;
    if k.code == Key::Esc && a.tag_filter is Some {
        lemma_rebuilt_wf(AppView { tag_filter: None, ..a });
    } else if is_char(k, 'e') {
        if let Some(s) = selected(a) {
            assert(session_fields(s).len() == FIELD_COUNT);
        }
    } else if is_char(k, 'a') {
        assert(blank_fields().len() == FIELD_COUNT);
    } else {
        assert(r.sessions == a.sessions && r.visible == a.visible);
    }
}

proof fn lemma_form_key_wf(a: AppView, k: KeyInput)
    requires
        app_wf(a),
    ensures
        app_wf(form_key_spec(a, k).0),
{
    let r = form_key_spec(a, k).0;
    if !a.form.focused && is_char(k, 'S') {
        assert forall|i: int| 0 <= i < r.visible.len() implies #[trigger] r.visible[i] < r.sessions.len() by {
            assert(a.visible[i] < a.sessions.len());
        }
    }
}

proof fn lemma_search_key_wf(a: AppView, k: KeyInput)
    requires
        app_wf(a),
        a.sessions.len() <= usize::MAX,
    ensures
        app_wf(search_key_spec(a, k)),
{
    if k.code == Key::Esc {
        lemma_rebuilt_wf(AppView { filter_active: false, search_query: Seq::empty(), ..a });
    } else if k.code == Key::Enter {
        lemma_rebuilt_wf(AppView { filter_active: a.search_query.len() > 0, ..a });
    } else if k.code == Key::Backspace {
        lemma_rebuilt_wf(
            AppView {
                search_query: if a.search_query.len() > 0 {
                    a.search_query.drop_last()
                } else {
                    a.search_query
                },
                ..a
            },
        );
    } else if k.code is Char {
        lemma_rebuilt_wf(AppView { search_query: a.search_query.push(k.code->Char_0), ..a });
    }
}

proof fn lemma_confirm_key_wf(a: AppView, k: KeyInput)
    requires
        app_wf(a),
        a.sessions.len() <= usize::MAX,
    ensures
        app_wf(confirm_key_spec(a, k).0),
{
    if is_char(k, 'y') && a.idx < a.visible.len() {
        let raw = a.visible[a.idx as int];
        lemma_rebuilt_wf(AppView { sessions: a.sessions.remove(raw as int), ..a });
    }
}

proof fn lemma_tag_pick_key_wf(a: AppView, k: KeyInput)
    requires
        app_wf(a),
        a.sessions.len() <= usize::MAX,
    ensures
        app_wf(tag_pick_key_spec(a, k)),
{
    let tags = sorted_tags(a.sessions);
    if is_char(k, 'c') {
        lemma_rebuilt_wf(AppView { tag_filter: None, ..a });
    } else if k.code == Key::Enter && a.tag_idx < tags.len() {
        let t = AppView { tag_filter: Some(tags[a.tag_idx as int]), ..a };
        lemma_visible_ordered(t.sessions, t.tag_filter, search_lower(t));
    }
}

/// Every key keeps the list state well formed: shown rows name sessions, in
/// order, the cursor stays on a row, and the form keeps all its fields.
pub proof fn lemma_key_keeps_wf(a: AppView, k: KeyInput)
    requires
        app_wf(a),
        a.sessions.len() <= usize::MAX,
    ensures
        app_wf(key_spec(a, k).0),
{
    match a.menu {
        Some(m) => lemma_which_key_wf(a, m, k),
        None => match a.screen {
            SsmScreen::List => lemma_list_key_wf(a, k),
            SsmScreen::Form => lemma_form_key_wf(a, k),
            SsmScreen::Search => lemma_search_key_wf(a, k),
            SsmScreen::Help => {},
            SsmScreen::ConfirmDelete => lemma_confirm_key_wf(a, k),
            SsmScreen::TagPick => lemma_tag_pick_key_wf(a, k),
        },
    }
}

// ── which-key menus ───────────────────────────────────────────────────────────

/// One selectable line in a which-key popup.
#[derive(Debug, Clone)]
pub struct MenuRow {
    pub key: &'static str,
    pub desc: String,
}

pub open spec fn row_views(rows: Seq<MenuRow>) -> Seq<(Seq<char>, Seq<char>)> {
    rows.map_values(|r: MenuRow| (r.key@, r.desc@))
}

pub open spec fn title_spec(m: WhichKey) -> Seq<char> {
    match m {
        WhichKey::Actions => " actions "@,
        WhichKey::Settings => " settings "@,
        WhichKey::Theme => " theme "@,
    }
}

pub open spec fn on_word(on: bool) -> Seq<char> {
    if on {
        "on"@
    } else {
        "off"@
    }
}

/// The theme picker's rows: one per theme, its key and its name, the active
/// one marked with a dot.
pub open spec fn theme_rows(active: Seq<char>) -> Seq<(Seq<char>, Seq<char>)> {
    Seq::new(
        crate::tui_core::theme::THEME_COUNT as nat,
        |i: int|
            (
                crate::tui_core::theme::theme_key(i),
                crate::tui_core::theme::theme_name(i) + if crate::tui_core::theme::theme_name(i) == active {
                    " \u{25cf}"@
                } else {
                    Seq::<char>::empty()
                },
            ),
    )
}

/// The rows of popup `m` in state `a`.
pub open spec fn rows_spec(m: WhichKey, a: AppView) -> Seq<(Seq<char>, Seq<char>)> {
    match m {
        WhichKey::Actions => seq![
            ("d"@, "delete"@),
            ("y"@, "yank host"@),
            ("T"@, "filter by tag"@),
            ("i"@, "import ssh config"@),
            ("s"@, "settings \u{203a}"@),
            ("?"@, "help"@),
        ],
        WhichKey::Settings => seq![
            ("h"@, "herdr   "@ + on_word(a.use_herdr)),
            ("p"@, "probe   "@ + on_word(a.probe_enabled)),
            ("b"@, "biometric  "@ + on_word(a.biometric)),
            ("t"@, "theme \u{203a}"@),
        ],
        WhichKey::Theme => theme_rows(a.theme),
    }
}

fn menu_row(key: &'static str, desc: String) -> (r: MenuRow)
    ensures
        r.key == key,
        r.desc == desc,
{
    MenuRow { key, desc }
}

impl WhichKey {
    /// The popup's title.
    pub fn title(self) -> (t: &'static str)
        ensures
            t@ == title_spec(self),
    {
        match self {
            WhichKey::Actions => " actions ",
            WhichKey::Settings => " settings ",
            WhichKey::Theme => " theme ",
        }
    }

    /// The popup's rows for the state of `app`.
    pub fn rows(self, app: &SsmApp) -> (r: Vec<MenuRow>)
        ensures
            row_views(r@) == rows_spec(self, app@),
    {
        let mut v: Vec<MenuRow> = Vec::new();
        match self {
            WhichKey::Actions => {
                v.push(menu_row("d", text::to_owned_string("delete")));
                v.push(menu_row("y", text::to_owned_string("yank host")));
                v.push(menu_row("T", text::to_owned_string("filter by tag")));
                v.push(menu_row("i", text::to_owned_string("import ssh config")));
                v.push(menu_row("s", text::to_owned_string("settings \u{203a}")));
                v.push(menu_row("?", text::to_owned_string("help")));
                assert(row_views(v@) =~= rows_spec(self, app@));
            },
            WhichKey::Settings => {
                v.push(menu_row("h", concat2("herdr   ", if app.cfg.use_herdr { "on" } else { "off" })));
                v.push(menu_row("p", concat2("probe   ", if app.probe_enabled { "on" } else { "off" })));
                v.push(menu_row("b", concat2("biometric  ", if app.biometric { "on" } else { "off" })));
                v.push(menu_row("t", text::to_owned_string("theme \u{203a}")));
                assert(row_views(v@) =~= rows_spec(self, app@));
            },
            WhichKey::Theme => {
                let active = text::chars_of(app.theme.as_str());
                let mut i: usize = 0;
                while i < crate::tui_core::theme::THEME_COUNT
                    invariant
                        0 <= i <= crate::tui_core::theme::THEME_COUNT,
                        active@ == app@.theme,
                        row_views(v@) =~= theme_rows(app@.theme).subrange(0, i as int),
                    decreases crate::tui_core::theme::THEME_COUNT - i,
                {
                    let t = crate::tui_core::theme::theme_at(i);
                    let same = text::chars_eq(&text::chars_of(t.name), &active);
                    let desc = concat2(t.name, if same { " \u{25cf}" } else { "" });
                    proof {
                        reveal_strlit("");
                        assert(""@ =~= Seq::<char>::empty());
                    }
                    let ghost before = row_views(v@);
                    v.push(menu_row(t.key, desc));
                    assert(row_views(v@) =~= before.push((t.key@, desc@)));
                    i += 1;
                }
                assert(theme_rows(app@.theme).subrange(0, crate::tui_core::theme::THEME_COUNT as int) =~= theme_rows(app@.theme));
            },
        }
        v
    }
}

// ── text fitting ──────────────────────────────────────────────────────────────

/// `s` cut to its first `max` characters.
pub open spec fn truncate_spec(s: Seq<char>, max: nat) -> Seq<char> {
    if s.len() <= max {
        s
    } else {
        s.take(max as int)
    }
}

/// Truncate `s` to at most `max` chars (char-safe).
pub fn truncate(s: &str, max: usize) -> (r: String)
    ensures
        r@ == truncate_spec(s@, max as nat),
{
    let v = text::chars_of(s);
    if v.len() <= max {
        text::string_of(&v)
    } else {
        text::string_of_range(&v, 0, max)
    }
}

/// `s` fitted to `max` characters with its middle replaced by `...`, so both
/// ends stay readable; a plain cut when `max` leaves no room for the dots.
pub open spec fn truncate_middle_spec(s: Seq<char>, max: nat) -> Seq<char> {
    if s.len() <= max {
        s
    } else if max <= 3 {
        s.take(max as int)
    } else {
        let keep = max - 3;
        let front = (keep + 1) / 2;
        let back = keep - front;
        s.take(front) + seq!['.', '.', '.'] + s.skip(s.len() - back)
    }
}

/// Truncate `s` to at most `max` chars, collapsing the middle into "...".
pub fn truncate_middle(s: &str, max: usize) -> (r: String)
    ensures
        r@ == truncate_middle_spec(s@, max as nat),
        r@.len() == if s@.len() <= max { s@.len() } else { max as nat },
{
    let v = text::chars_of(s);
    let count = v.len();
    if count <= max {
        return text::string_of(&v);
    }
    if max <= 3 {
        return text::string_of_range(&v, 0, max);
    }
    let keep = max - 3;
    let front = keep / 2 + keep % 2;
    let back = keep - front;
    let mut out = text::string_of_range(&v, 0, front);
    text::push_char(&mut out, '.');
    text::push_char(&mut out, '.');
    text::push_char(&mut out, '.');
    let tail = text::string_of_range(&v, count - back, count);
    text::push_str(&mut out, tail.as_str());
    assert(out@ =~= truncate_middle_spec(s@, max as nat));
    out
}

} // verus!

//! What each screen shows, as text: the session rows and the scrolling window
//! over them, the form's rows, the tag picker's rows, the help table, and
//! where the which-key popup sits. Drawing these with colors is left to the
//! terminal front end.

use vstd::prelude::*;

use crate::storage::{Session, SessionView};
use crate::text;
use crate::tui::{FormMode, FormState, MenuRow, SsmApp, SsmScreen, FIELD_COUNT, F_PASS};

verus! {

// ── columns ───────────────────────────────────────────────────────────────────

/// Width of the NAME column.
pub const NAME_W: usize = 20;

/// Width of the HOST column.
pub const HOST_W: usize = 24;

/// Width of the PORT column.
pub const PORT_W: usize = 6;

/// The HOST column of a session: its ssh target with the middle cut to fit.
pub open spec fn host_column_spec(s: SessionView) -> Seq<char> {
    crate::tui::truncate_middle_spec(crate::connect::ssh_target_spec(s), HOST_W as nat)
}

/// The NAME, HOST and PORT columns of a session's row, each padded to its
/// width and followed by a space.
pub open spec fn row_text_spec(s: SessionView) -> Seq<char> {
    text::pad_spec(crate::tui::truncate_spec(s.name, NAME_W as nat), NAME_W as nat) + seq![' ']
        + text::pad_spec(host_column_spec(s), HOST_W as nat) + seq![' ']
        + text::pad_spec(text::decimal(s.port as nat), PORT_W as nat) + seq![' ']
}

/// The columns of one session row.
pub fn row_text(s: &Session) -> (r: String)
    ensures
        r@ == row_text_spec(s@),
{
    let name = crate::tui::truncate(s.name.as_str(), NAME_W);
    let target = crate::connect::ssh_target(s);
    let host = crate::tui::truncate_middle(target.as_str(), HOST_W);
    let port = text::u16_to_string(s.port);
    let mut out = text::pad_right(name.as_str(), NAME_W);
    text::push_char(&mut out, ' ');
    let h = text::pad_right(host.as_str(), HOST_W);
    text::push_str(&mut out, h.as_str());
    text::push_char(&mut out, ' ');
    let p = text::pad_right(port.as_str(), PORT_W);
    text::push_str(&mut out, p.as_str());
    text::push_char(&mut out, ' ');
    out
}

/// Tags separated by single spaces.
pub open spec fn chips_spec(tags: Seq<Seq<char>>) -> Seq<char>
    decreases tags.len(),
{
    if tags.len() == 0 {
        Seq::empty()
    } else if tags.len() == 1 {
        tags[0]
    } else {
        chips_spec(tags.drop_last()) + seq![' '] + tags.last()
    }
}

/// A session's tags as the list shows them (`tags.join(" ")`).
pub fn chips(tags: &Vec<String>) -> (r: String)
    ensures
        r@ == chips_spec(crate::storage::strings_view(tags@)),
{
    let ghost tv = crate::storage::strings_view(tags@);
    let mut out = String::new();
    let mut i: usize = 0;
    while i < tags.len()
        invariant
            0 <= i <= tags.len(),
            tv == crate::storage::strings_view(tags@),
            out@ == chips_spec(tv.subrange(0, i as int)),
        decreases tags.len() - i,
    {
        let ghost pre = tv.subrange(0, i + 1);
        assert(pre.drop_last() =~= tv.subrange(0, i as int));
        assert(pre.last() == tags@[i as int]@);
        if i > 0 {
            text::push_char(&mut out, ' ');
        }
        text::push_str(&mut out, tags[i].as_str());
        proof {
            if i == 0 {
                assert(out@ =~= pre[0]);
            } else {
                assert(out@ =~= chips_spec(pre.drop_last()) + seq![' '] + pre.last());
            }
        }
        i += 1;
    }
    assert(tv.subrange(0, tv.len() as int) =~= tv);
    out
}

// ── the session list ──────────────────────────────────────────────────────────

/// Screens narrower than this show only a "too small" notice.
pub const MIN_WIDTH: u16 = 50;

/// Screens shorter than this show only a "too small" notice.
pub const MIN_HEIGHT: u16 = 10;

/// Whether the screen is too small to draw anything but the notice.
pub fn too_small(width: u16, height: u16) -> (r: bool)
    ensures
        r == (width < MIN_WIDTH || height < MIN_HEIGHT),
{
    width < MIN_WIDTH || height < MIN_HEIGHT
}

/// Rows available to the list on a screen `height` lines tall: everything
/// but the header, column titles, and the description and footer lines.
pub open spec fn list_height(height: u16) -> nat {
    if height >= 7 {
        (height - 7) as nat
    } else {
        0
    }
}

/// First row shown: the list scrolls just far enough to keep the cursor on
/// screen.
pub open spec fn window_start(idx: nat, lh: nat) -> nat {
    if idx >= lh {
        (idx - lh + 1) as nat
    } else {
        0
    }
}

/// One past the last row shown, out of `n`.
pub open spec fn window_end(idx: nat, n: nat, lh: nat) -> nat {
    let start = window_start(idx, lh);
    if start + lh <= n {
        start + lh
    } else if start <= n {
        n
    } else {
        start
    }
}

/// The rows `[start, end)` of an `n`-row list that a screen `height` lines
/// tall shows with the cursor on row `idx`. A cursor on a row of the list is
/// always among them.
pub fn list_window(idx: usize, n: usize, height: u16) -> (r: (usize, usize))
    requires
        idx < usize::MAX,
    ensures
        r.0 == window_start(idx as nat, list_height(height)),
        r.1 == window_end(idx as nat, n as nat, list_height(height)),
        r.0 <= r.1,
        r.1 - r.0 <= list_height(height),
        r.1 <= n || r.0 == r.1,
        idx < n && list_height(height) > 0 ==> r.0 <= idx < r.1,
{
    let lh: usize = if height >= 7 {
        (height - 7) as usize
    } else {
        0
    };
    let start = if idx >= lh {
        idx - lh + 1
    } else {
        0
    };
    let end = if start <= n && n - start >= lh {
        start + lh
    } else if start <= n {
        n
    } else {
        start
    };
    (start, end)
}

/// One row of the session list: whether the cursor is on it, which session
/// it shows (an index into the session list), its columns and its tags.
#[derive(Debug, Clone)]
pub struct ListRow {
    pub selected: bool,
    pub session: usize,
    pub text: String,
    pub tags: String,
}

/// The rows the list shows on a screen `height` lines tall: the window around
/// the cursor, each visible session with its columns and tags.
pub fn list_rows(app: &SsmApp, height: u16) -> (r: Vec<ListRow>)
    requires
        crate::tui::app_wf(app@),
    ensures
        ({
            let a = app@;
            let start = window_start(a.idx as nat, list_height(height));
            let end = window_end(a.idx as nat, a.visible.len(), list_height(height));
            &&& r@.len() == end - start
            &&& forall|k: int|
                0 <= k < r@.len() ==> {
                    let raw = a.visible[start + k];
                    &&& (#[trigger] r@[k]).selected == (start + k == a.idx)
                    &&& r@[k].session == raw
                    &&& r@[k].text@ == row_text_spec(a.sessions[raw as int])
                    &&& r@[k].tags@ == chips_spec(a.sessions[raw as int].tags)
                }
        }),
{
    assert(app@.idx < usize::MAX) by {
        assert(app@.visible.len() == app.visible.len());
        if app@.idx != 0 {
            assert(app@.idx < app@.visible.len());
        }
    }
    let (start, end) = list_window(app.idx, app.visible.len(), height);
    let mut out: Vec<ListRow> = Vec::new();
    let mut row = start;
    while row < end
        invariant
            crate::tui::app_wf(app@),
            start <= row <= end,
            end <= app@.visible.len() || start == end,
            out@.len() == row - start,
            forall|k: int|
                0 <= k < out@.len() ==> {
                    let raw = app@.visible[start + k];
                    &&& (#[trigger] out@[k]).selected == (start + k == app@.idx)
                    &&& out@[k].session == raw
                    &&& out@[k].text@ == row_text_spec(app@.sessions[raw as int])
                    &&& out@[k].tags@ == chips_spec(app@.sessions[raw as int].tags)
                },
        decreases end - row,
    {
        let raw = app.visible[row];
        assert(app@.visible[row as int] < app@.sessions.len());
        let s = &app.sessions[raw];
        assert(s@ == app@.sessions[raw as int]);
        out.push(ListRow { selected: row == app.idx, session: raw, text: row_text(s), tags: chips(&s.tags) });
        row += 1;
    }
    out
}

/// What an empty list says: how to clear the tag filter when one hides
/// everything, else how to add a session.
pub fn empty_list_message(tag_filtered: bool) -> (r: &'static str)
    ensures
        r@ == (if tag_filtered {
            "No sessions match this tag. Press esc to clear the filter."@
        } else {
            "No sessions. Press 'a' to add one."@
        }),
{
    if tag_filtered {
        "No sessions match this tag. Press esc to clear the filter."
    } else {
        "No sessions. Press 'a' to add one."
    }
}

/// The list's description line: the active tag filter, if any.
pub open spec fn list_desc_spec(tag: Option<Seq<char>>) -> Seq<char> {
    match tag {
        Some(t) => seq!['t', 'a', 'g', ':', ' '] + t + seq![' ', ' ', '(', 'e', 's', 'c', ' ', 'c', 'l', 'e', 'a', 'r', 's', ')'],
        None => Seq::empty(),
    }
}

/// `tag: {tag}  (esc clears)` while a tag filter is on, else nothing.
pub fn list_desc(tag: &Option<String>) -> (r: String)
    ensures
        r@ == list_desc_spec(crate::storage::opt_chars(*tag)),
{
    match tag {
        Some(t) => {
            let mut out = String::new();
            text::push_str(&mut out, "tag: ");
            text::push_str(&mut out, t.as_str());
            text::push_str(&mut out, "  (esc clears)");
            proof {
                reveal_strlit("tag: ");
                reveal_strlit("  (esc clears)");
            }
            assert(out@ =~= list_desc_spec(crate::storage::opt_chars(*tag)));
            out
        },
        None => String::new(),
    }
}

/// The question asked before deleting the session named `name`.
pub open spec fn confirm_desc_spec(name: Seq<char>) -> Seq<char> {
    seq!['D', 'e', 'l', 'e', 't', 'e', ' ', '\''] + name + seq!['\'', '?', ' ', 'y', '/', 'n']
}

/// `Delete '{name}'? y/n`.
pub fn confirm_desc(name: &str) -> (r: String)
    ensures
        r@ == confirm_desc_spec(name@),
{
    let mut out = String::new();
    text::push_str(&mut out, "Delete '");
    text::push_str(&mut out, name);
    text::push_str(&mut out, "'? y/n");
    proof {
        reveal_strlit("Delete '");
        reveal_strlit("'? y/n");
    }
    assert(out@ =~= confirm_desc_spec(name@));
    out
}

// ── the form ──────────────────────────────────────────────────────────────────

/// Width of the label column of the form.
pub const LABEL_W: usize = 12;

/// The label of form field `i`.
pub open spec fn field_label_spec(i: int) -> Seq<char> {
    if i == 0 {
        "Name"@
    } else if i == 1 {
        "Host"@
    } else if i == 2 {
        "User"@
    } else if i == 3 {
        "Port"@
    } else if i == 4 {
        "ProxyJump"@
    } else if i == 5 {
        "Tags"@
    } else {
        "Password"@
    }
}

/// The label of form field `i`.
pub fn field_label(i: usize) -> (r: &'static str)
    requires
        i < FIELD_COUNT,
    ensures
        r@ == field_label_spec(i as int),
{
    if i == 0 {
        "Name"
    } else if i == 1 {
        "Host"
    } else if i == 2 {
        "User"
    } else if i == 3 {
        "Port"
    } else if i == 4 {
        "ProxyJump"
    } else if i == 5 {
        "Tags"
    } else {
        "Password"
    }
}

/// The header title of the form.
pub fn form_title(mode: FormMode) -> (r: &'static str)
    ensures
        r@ == (match mode {
            FormMode::Add => " add session "@,
            FormMode::Edit => " edit session "@,
        }),
{
    match mode {
        FormMode::Add => " add session ",
        FormMode::Edit => " edit session ",
    }
}

/// How a field's value is shown: a non-empty password as one `*` per byte,
/// anything else as typed.
pub open spec fn masked_spec(v: Seq<char>, password: bool) -> Seq<char> {
    if password && v.len() > 0 {
        Seq::new(text::byte_len(v), |i: int| '*')
    } else {
        v
    }
}

/// The caret drawn after the value of the field being edited.
pub const CARET: char = '\u{2588}';

/// Whether form row `i` fits on a screen `height` lines tall (rows are two
/// lines apart, below the header, above the description and footer).
pub open spec fn form_row_fits(i: int, height: u16) -> bool {
    2 * i + 6 < height
}

/// One line of the form: whether the cursor is on it, whether it is being
/// edited, its padded label and the value as shown (with the caret while
/// editing).
#[derive(Debug, Clone)]
pub struct FormRow {
    pub selected: bool,
    pub editing: bool,
    pub label: String,
    pub value: String,
}

/// What form row `i` shows.
pub open spec fn form_row_spec(f: crate::tui::FormView, i: int) -> (bool, bool, Seq<char>, Seq<char>) {
    let selected = i == f.cursor;
    let editing = selected && f.focused;
    let shown = masked_spec(f.fields[i], i == F_PASS);
    (
        selected,
        editing,
        text::pad_spec(field_label_spec(i), LABEL_W as nat),
        if editing { shown.push(CARET) } else { shown },
    )
}

/// The form's rows that fit on a screen `height` lines tall, in field order.
pub fn form_rows(form: &FormState, height: u16) -> (r: Vec<FormRow>)
    requires
        form.wf(),
    ensures
        r@.len() <= FIELD_COUNT,
        forall|k: int| 0 <= k < r@.len() ==> form_row_fits(k, height),
        r@.len() == FIELD_COUNT || !form_row_fits(r@.len() as int, height),
        forall|k: int|
            0 <= k < r@.len() ==> form_row_spec(form@, k) == (
                (#[trigger] r@[k]).selected,
                r@[k].editing,
                r@[k].label@,
                r@[k].value@,
            ),
{
    let mut out: Vec<FormRow> = Vec::new();
    let mut i: usize = 0;
    while i < FIELD_COUNT && 2 * (i as u32) + 6 < height as u32
        invariant
            form.wf(),
            0 <= i <= FIELD_COUNT,
            out@.len() == i,
            forall|k: int| 0 <= k < i ==> form_row_fits(k, height),
            forall|k: int|
                0 <= k < out@.len() ==> form_row_spec(form@, k) == (
                    (#[trigger] out@[k]).selected,
                    out@[k].editing,
                    out@[k].label@,
                    out@[k].value@,
                ),
        decreases FIELD_COUNT - i,
    {
        let selected = i == form.cursor;
        let editing = selected && form.focused;
        let v = &form.fields[i];
        assert(v@ == form@.fields[i as int]);
        let mut shown = if i == F_PASS && !v.as_str().is_empty() {
            let n = v.as_str().as_bytes().len();
            let mut stars = String::new();
            let mut j: usize = 0;
            while j < n
                invariant
                    j <= n,
                    stars@ == Seq::new(j as nat, |x: int| '*'),
                decreases n - j,
            {
                text::push_char(&mut stars, '*');
                assert(stars@ =~= Seq::new((j + 1) as nat, |x: int| '*'));
                j += 1;
            }
            stars
        } else {
            text::to_owned_string(v.as_str())
        };
        assert(shown@ =~= masked_spec(form@.fields[i as int], i == F_PASS));
        if editing {
            text::push_char(&mut shown, CARET);
        }
        let label = text::pad_right(field_label(i), LABEL_W);
        out.push(FormRow { selected, editing, label, value: shown });
        i += 1;
    }
    out
}

/// The description and footer hints of the form, which depend on whether a
/// field is being edited.
pub fn form_hints(focused: bool) -> (r: (&'static str, &'static str))
    ensures
        r.0@ == (if focused {
            "editing \u{2014} type to edit  tab next field  enter/esc leave field"@
        } else {
            "j/k \u{b7} \u{2191}/\u{2193} navigate  enter edit field  S save  esc cancel"@
        }),
        r.1@ == (if focused {
            " type to edit  tab/shift-tab next/prev  enter/esc leave field "@
        } else {
            " j/k move  enter edit field  S save  esc cancel "@
        }),
{
    if focused {
        (
            "editing \u{2014} type to edit  tab next field  enter/esc leave field",
            " type to edit  tab/shift-tab next/prev  enter/esc leave field ",
        )
    } else {
        (
            "j/k \u{b7} \u{2191}/\u{2193} navigate  enter edit field  S save  esc cancel",
            " j/k move  enter edit field  S save  esc cancel ",
        )
    }
}

/// The search prompt: `/ {query}_`.
pub fn search_prompt(query: &str) -> (r: String)
    ensures
        r@ == seq!['/', ' '] + query@ + seq!['_'],
{
    let mut out = String::new();
    text::push_char(&mut out, '/');
    text::push_char(&mut out, ' ');
    text::push_str(&mut out, query);
    text::push_char(&mut out, '_');
    assert(out@ =~= seq!['/', ' '] + query@ + seq!['_']);
    out
}

// ── chrome per screen ─────────────────────────────────────────────────────────

/// The header title of each screen (the form's depends on its mode).
pub fn screen_title(screen: SsmScreen, mode: FormMode) -> (r: &'static str)
    ensures
        r@ == (match screen {
            SsmScreen::List | SsmScreen::ConfirmDelete => " ssm "@,
            SsmScreen::Form => match mode {
                FormMode::Add => " add session "@,
                FormMode::Edit => " edit session "@,
            },
            SsmScreen::Search => " search sessions "@,
            SsmScreen::Help => " ssm help "@,
            SsmScreen::TagPick => " filter by tag "@,
        }),
{
    match screen {
        SsmScreen::List | SsmScreen::ConfirmDelete => " ssm ",
        SsmScreen::Form => form_title(mode),
        SsmScreen::Search => " search sessions ",
        SsmScreen::Help => " ssm help ",
        SsmScreen::TagPick => " filter by tag ",
    }
}

/// The footer hint of each screen (the form's depends on whether a field is
/// being edited).
pub fn footer_hint(screen: SsmScreen, editing: bool) -> (r: &'static str)
    ensures
        r@ == (match screen {
            SsmScreen::List => " j/k move  enter connect  a add  e edit  / search  T tags  space menu  q quit "@,
            SsmScreen::ConfirmDelete => " y confirm  n cancel "@,
            SsmScreen::Form => if editing {
                " type to edit  tab/shift-tab next/prev  enter/esc leave field "@
            } else {
                " j/k move  enter edit field  S save  esc cancel "@
            },
            SsmScreen::Search => " type to filter  enter apply  esc cancel "@,
            SsmScreen::Help => " q back "@,
            SsmScreen::TagPick => " j/k move  enter apply  c clear filter  esc back "@,
        }),
{
    match screen {
        SsmScreen::List => " j/k move  enter connect  a add  e edit  / search  T tags  space menu  q quit ",
        SsmScreen::ConfirmDelete => " y confirm  n cancel ",
        SsmScreen::Form => form_hints(editing).1,
        SsmScreen::Search => " type to filter  enter apply  esc cancel ",
        SsmScreen::Help => " q back ",
        SsmScreen::TagPick => " j/k move  enter apply  c clear filter  esc back ",
    }
}

// ── the tag picker ────────────────────────────────────────────────────────────

/// Width of the TAG column of the picker.
pub const TAG_W: usize = 20;

/// How many of `s` carry the tag `t`.
pub open spec fn tag_count(s: Seq<SessionView>, t: Seq<char>) -> nat
    decreases s.len(),
{
    if s.len() == 0 {
        0
    } else {
        tag_count(s.drop_last(), t) + if s.last().tags.contains(t) {
            1nat
        } else {
            0nat
        }
    }
}

/// The number of sessions carrying the tag `t`.
pub fn count_tagged(sessions: &Vec<Session>, t: &str) -> (r: usize)
    ensures
        r == tag_count(crate::storage::sessions_view(sessions@), t@),
{
    let ghost sv = crate::storage::sessions_view(sessions@);
    let tv = text::chars_of(t);
    let mut n: usize = 0;
    let mut i: usize = 0;
    while i < sessions.len()
        invariant
            0 <= i <= sessions.len(),
            tv@ == t@,
            sv == crate::storage::sessions_view(sessions@),
            n == tag_count(sv.subrange(0, i as int), t@),
            n <= i,
        decreases sessions.len() - i,
    {
        let ghost pre = sv.subrange(0, i + 1);
        assert(pre.drop_last() =~= sv.subrange(0, i as int));
        assert(pre.last() == sessions@[i as int]@);
        if crate::tui::strings_contain(&sessions[i].tags, &tv) {
            n += 1;
        }
        i += 1;
    }
    assert(sv.subrange(0, sv.len() as int) =~= sv);
    n
}

/// Whether tag row `i` fits on a screen `height` lines tall.
pub open spec fn tag_row_fits(i: int, height: u16) -> bool {
    i + 7 < height
}

/// One line of the tag picker: whether the cursor is on it, the padded tag,
/// and how many sessions carry it.
#[derive(Debug, Clone)]
pub struct TagRow {
    pub selected: bool,
    pub text: String,
    pub count: usize,
}

/// The picker's rows that fit on a screen `height` lines tall: the sorted
/// tags with their session counts.
pub fn tag_rows(app: &SsmApp, height: u16) -> (r: Vec<TagRow>)
    ensures
        ({
            let tags = crate::tui::sorted_tags(app@.sessions);
            &&& r@.len() <= tags.len()
            &&& forall|k: int| 0 <= k < r@.len() ==> tag_row_fits(k, height)
            &&& r@.len() == tags.len() || !tag_row_fits(r@.len() as int, height)
            &&& forall|k: int|
                0 <= k < r@.len() ==> {
                    &&& (#[trigger] r@[k]).selected == (k == app@.tag_idx)
                    &&& r@[k].text@ == text::pad_spec(tags[k], TAG_W as nat)
                    &&& r@[k].count == tag_count(app@.sessions, tags[k])
                }
        }),
{
    let tags = app.all_tags();
    let ghost tv = crate::storage::strings_view(tags@);
    let mut out: Vec<TagRow> = Vec::new();
    let mut i: usize = 0;
    while i < tags.len() && height > 7 && i < (height - 7) as usize
        invariant
            0 <= i <= tags.len(),
            tv == crate::storage::strings_view(tags@),
            tv == crate::tui::sorted_tags(app@.sessions),
            out@.len() == i,
            forall|k: int| 0 <= k < i ==> tag_row_fits(k, height),
            forall|k: int|
                0 <= k < out@.len() ==> {
                    &&& (#[trigger] out@[k]).selected == (k == app@.tag_idx)
                    &&& out@[k].text@ == text::pad_spec(tv[k], TAG_W as nat)
                    &&& out@[k].count == tag_count(app@.sessions, tv[k])
                },
        decreases tags.len() - i,
    {
        assert(tv[i as int] == tags@[i as int]@);
        let count = count_tagged(&app.sessions, tags[i].as_str());
        out.push(TagRow { selected: i == app.tag_idx, text: text::pad_right(tags[i].as_str(), TAG_W), count });
        i += 1;
    }
    out
}

// ── help ──────────────────────────────────────────────────────────────────────

/// The help screen's table: section headings (no description) and key
/// bindings; an empty key is a blank line.
pub open spec fn help_table() -> Seq<(Seq<char>, Seq<char>)> {
    seq![
        ("Navigation"@, ""@),
        ("  j / k"@, "move up/down"@),
        ("  gg / G"@, "go to first/last"@),
        ("  C-d / C-u"@, "half page down/up"@),
        ("  C-f / C-b"@, "full page down/up"@),
        (""@, ""@),
        ("Actions"@, ""@),
        ("  enter"@, "connect to session"@),
        ("  a"@, "add new session"@),
        ("  e"@, "edit selected session"@),
        ("  D"@, "delete session (prompts)"@),
        ("  d d"@, "delete session (prompts)"@),
        ("  y"@, "yank (copy) host to clipboard"@),
        ("  /"@, "search/filter (matches tags too)"@),
        ("  T"@, "filter by tag (group view)"@),
        ("  i"@, "import hosts from ~/.ssh/config"@),
        ("  s"@, "settings menu (h herdr, p probe, t theme)"@),
        ("  u"@, "reload sessions from disk"@),
        ("  ?"@, "this help screen"@),
        ("  q"@, "quit SSM"@),
        (""@, ""@),
        ("Reachability"@, ""@),
        ("  \u{25cf} green"@, "reachable, low latency"@),
        ("  \u{25cf} yellow"@, "reachable, higher latency"@),
        ("  \u{25cf} red"@, "unreachable"@),
        ("  \u{25cb} gray"@, "not probed yet"@),
    ]
}

/// The help table.
pub fn help_lines() -> (r: Vec<(&'static str, &'static str)>)
    ensures
        r@.len() == help_table().len(),
        forall|i: int| 0 <= i < r@.len() ==> ((#[trigger] r@[i]).0@, r@[i].1@) == help_table()[i],
{
    let v: Vec<(&'static str, &'static str)> = vec![
        ("Navigation", ""),
        ("  j / k", "move up/down"),
        ("  gg / G", "go to first/last"),
        ("  C-d / C-u", "half page down/up"),
        ("  C-f / C-b", "full page down/up"),
        ("", ""),
        ("Actions", ""),
        ("  enter", "connect to session"),
        ("  a", "add new session"),
        ("  e", "edit selected session"),
        ("  D", "delete session (prompts)"),
        ("  d d", "delete session (prompts)"),
        ("  y", "yank (copy) host to clipboard"),
        ("  /", "search/filter (matches tags too)"),
        ("  T", "filter by tag (group view)"),
        ("  i", "import hosts from ~/.ssh/config"),
        ("  s", "settings menu (h herdr, p probe, t theme)"),
        ("  u", "reload sessions from disk"),
        ("  ?", "this help screen"),
        ("  q", "quit SSM"),
        ("", ""),
        ("Reachability", ""),
        ("  \u{25cf} green", "reachable, low latency"),
        ("  \u{25cf} yellow", "reachable, higher latency"),
        ("  \u{25cf} red", "unreachable"),
        ("  \u{25cb} gray", "not probed yet"),
    ];
    v
}

/// Width of the key column of the help screen.
pub const HELP_KEY_W: usize = 26;

/// The help entries among the first `n` lines that are drawn (blank lines are
/// skipped): for each, its line number, padded key and description.
pub open spec fn help_rows_upto(n: int) -> Seq<(int, Seq<char>, Seq<char>)>
    decreases n,
{
    if n <= 0 {
        Seq::empty()
    } else {
        let prev = help_rows_upto(n - 1);
        let e = help_table()[n - 1];
        if e.0.len() == 0 {
            prev
        } else {
            prev.push((n - 1, text::pad_spec(e.0, HELP_KEY_W as nat), e.1))
        }
    }
}

/// How many help lines fit on a screen `height` lines tall.
pub open spec fn help_shown(height: u16) -> int {
    let room = height - 6;
    if room <= 0 {
        0
    } else if room < help_table().len() {
        room
    } else {
        help_table().len() as int
    }
}

/// One drawn line of help: its line number below the header, whether it is
/// a section heading, the padded key and the description.
#[derive(Debug, Clone)]
pub struct HelpRow {
    pub line: usize,
    pub heading: bool,
    pub key: String,
    pub desc: &'static str,
}

/// The help lines drawn on a screen `height` lines tall.
pub fn help_rows(height: u16) -> (r: Vec<HelpRow>)
    ensures
        r@.len() == help_rows_upto(help_shown(height)).len(),
        forall|k: int|
            0 <= k < r@.len() ==> {
                let e = help_rows_upto(help_shown(height))[k];
                &&& (#[trigger] r@[k]).line == e.0
                &&& r@[k].key@ == e.1
                &&& r@[k].desc@ == e.2
                &&& r@[k].heading == (e.2.len() == 0)
            },
{
    let lines = help_lines();
    let mut out: Vec<HelpRow> = Vec::new();
    let mut i: usize = 0;
    while i < lines.len() && (i as u64) + 6 < height as u64
        invariant
            0 <= i <= lines.len(),
            lines@.len() == help_table().len(),
            forall|j: int| 0 <= j < lines@.len() ==> ((#[trigger] lines@[j]).0@, lines@[j].1@) == help_table()[j],
            i <= help_shown(height),
            out@.len() == help_rows_upto(i as int).len(),
            forall|k: int|
                0 <= k < out@.len() ==> {
                    let e = help_rows_upto(i as int)[k];
                    &&& (#[trigger] out@[k]).line == e.0
                    &&& out@[k].key@ == e.1
                    &&& out@[k].desc@ == e.2
                    &&& out@[k].heading == (e.2.len() == 0)
                },
        decreases lines.len() - i,
    {
        let (key, desc) = lines[i];
        assert((key@, desc@) == help_table()[i as int]);
        if !key.is_empty() {
            out.push(HelpRow { line: i, heading: desc.is_empty(), key: text::pad_right(key, HELP_KEY_W), desc });
        }
        i += 1;
    }
    assert(i == help_shown(height));
    out
}

// ── the which-key popup ───────────────────────────────────────────────────────

/// A rectangle of the screen, in cells.
#[derive(Debug, Clone, Copy, PartialEq, Eq)]
pub struct Area {
    pub x: u16,
    pub y: u16,
    pub width: u16,
    pub height: u16,
}

/// The last line of every popup.
pub const ESC_HINT: &'static str = "esc  close";

/// The width a popup row needs: key, two spaces, description (in bytes).
pub open spec fn row_width(r: (Seq<char>, Seq<char>)) -> nat {
    text::byte_len(r.0) + 2 + text::byte_len(r.1)
}

/// The widest of `rows`, at least `floor`.
pub open spec fn widest(rows: Seq<(Seq<char>, Seq<char>)>, floor: nat) -> nat
    decreases rows.len(),
{
    if rows.len() == 0 {
        floor
    } else {
        let w = widest(rows.drop_last(), floor);
        if row_width(rows.last()) > w {
            row_width(rows.last())
        } else {
            w
        }
    }
}

/// The popup's inner width: its widest line among the rows, the esc hint and
/// the title.
pub open spec fn content_width(rows: Seq<(Seq<char>, Seq<char>)>, title: Seq<char>) -> nat {
    let w = widest(rows, text::byte_len(ESC_HINT@));
    if text::byte_len(title) > w {
        text::byte_len(title)
    } else {
        w
    }
}

/// Where a popup with `rows` under `title` sits in `area`: in the bottom
/// right, above the description and footer lines, two columns wider than
/// its content on each side (but never wider than the area allows), one line
/// per row plus the esc hint and the borders.
pub open spec fn popup_spec(area: Area, rows: Seq<(Seq<char>, Seq<char>)>, title: Seq<char>) -> Area {
    let cw: int = content_width(rows, title) as int + 4;
    let room: int = if area.width >= 2 { area.width - 2 } else { 0 };
    let w = if cw < room { cw } else { room };
    let h: int = rows.len() as int + 3;
    Area {
        x: (area.x + (if area.width >= w + 1 { area.width - (w + 1) } else { 0 })) as u16,
        y: (area.y + (if area.height >= h + 4 { area.height - (h + 4) } else { 0 })) as u16,
        width: w as u16,
        height: h as u16,
    }
}

/// The popup's frame for the which-key rows `rows` titled `title`.
pub fn popup_area(area: Area, rows: &Vec<MenuRow>, title: &str) -> (r: Area)
    requires
        area.x + area.width <= u16::MAX,
        area.y + area.height <= u16::MAX,
        content_width(crate::tui::row_views(rows@), title@) + 4 <= u16::MAX,
        rows@.len() + 7 <= u16::MAX,
    ensures
        r == popup_spec(area, crate::tui::row_views(rows@), title@),
        area.x <= r.x,
        r.x + r.width <= area.x + area.width,
        area.y <= r.y,
        r.height == rows@.len() + 3,
{
    let ghost rv = crate::tui::row_views(rows@);
    let mut w: usize = ESC_HINT.len();
    let mut i: usize = 0;
    proof {
        lemma_widest_grows(rv, text::byte_len(ESC_HINT@));
    }
    while i < rows.len()
        invariant
            0 <= i <= rows.len(),
            rv == crate::tui::row_views(rows@),
            w == widest(rv.subrange(0, i as int), text::byte_len(ESC_HINT@)),
            widest(rv, text::byte_len(ESC_HINT@)) + 4 <= u16::MAX,
            forall|j: int| 0 <= j <= rv.len() ==> widest(#[trigger] rv.subrange(0, j), text::byte_len(ESC_HINT@)) <= widest(rv, text::byte_len(ESC_HINT@)),
        decreases rows.len() - i,
    {
        let ghost pre = rv.subrange(0, i + 1);
        assert(pre.drop_last() =~= rv.subrange(0, i as int));
        assert(pre.last() == (rows@[i as int].key@, rows@[i as int].desc@));
        assert(widest(pre, text::byte_len(ESC_HINT@)) <= widest(rv, text::byte_len(ESC_HINT@)));
        let rw = rows[i].key.len() + 2 + rows[i].desc.as_str().len();
        if rw > w {
            w = rw;
        }
        i += 1;
    }
    assert(rv.subrange(0, rv.len() as int) =~= rv);
    let tl = title.len();
    let cw = if tl > w { tl } else { w };
    let room = area.width.saturating_sub(2);
    let bw: u16 = if (cw as u16) + 4 < room { (cw as u16) + 4 } else { room };
    let bh: u16 = rows.len() as u16 + 3;
    let x = area.x + area.width.saturating_sub(bw + 1);
    let y = area.y + area.height.saturating_sub(bh + 4);
    Area { x, y, width: bw, height: bh }
}

/// Every prefix of the rows is at most as wide as all of them.
proof fn lemma_widest_grows(rows: Seq<(Seq<char>, Seq<char>)>, floor: nat)
    ensures
        forall|j: int| 0 <= j <= rows.len() ==> widest(#[trigger] rows.subrange(0, j), floor) <= widest(rows, floor),
        widest(rows, floor) >= floor,
    decreases rows.len(),
{
    if rows.len() > 0 {
        lemma_widest_grows(rows.drop_last(), floor);
        assert forall|j: int| 0 <= j <= rows.len() implies widest(#[trigger] rows.subrange(0, j), floor) <= widest(rows, floor) by {
            if j < rows.len() {
                assert(rows.subrange(0, j) =~= rows.drop_last().subrange(0, j));
            } else {
                assert(rows.subrange(0, j) =~= rows);
            }
        }
    } else {
        assert forall|j: int| 0 <= j <= rows.len() implies widest(#[trigger] rows.subrange(0, j), floor) <= widest(rows, floor) by {
            assert(rows.subrange(0, j) =~= rows);
        }
    }
}

} // verus!

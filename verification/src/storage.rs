//! The saved-session model.
//!
//! A session is what the list shows and what a connection is made from.
//! Passwords live in the OS keychain under [`KEYCHAIN_SERVICE`], never in the
//! session file; this module decides which of them have to be written there.

use vstd::prelude::*;



verus! {

/// The keychain service name under which session passwords are stored.
pub const KEYCHAIN_SERVICE: &'static str = "dots-ssm";

/// The mathematical form of a [`Session`].
pub struct SessionView {
    pub name: Seq<char>,
    pub host: Seq<char>,
    pub user: Seq<char>,
    pub port: u16,
    pub proxy_jump: Option<Seq<char>>,
    pub tags: Seq<Seq<char>>,
    pub password: Seq<char>,
}

/// The characters held by an optional string.
pub open spec fn opt_chars(o: Option<String>) -> Option<Seq<char>> {
    match o {
        Some(s) => Some(s@),
        None => None,
    }
}

/// The character sequences held by a sequence of strings.
pub open spec fn strings_view(v: Seq<String>) -> Seq<Seq<char>> {
    v.map_values(|s: String| s@)
}

/// One saved SSH target.
#[derive(Debug, Clone)]
pub struct Session {
    pub name: String,
    pub host: String,
    pub user: String,
    pub port: u16,
    /// `ProxyJump` host passed to ssh as `-J`.
    pub proxy_jump: Option<String>,
    /// Free-form labels used for search and the tag filter.
    pub tags: Vec<String>,
    /// Held in memory only; persisted through the keychain.
    pub password: String,
}

impl View for Session {
    type V = SessionView;

    open spec fn view(&self) -> SessionView {
        SessionView {
            name: self.name@,
            host: self.host@,
            user: self.user@,
            port: self.port,
            proxy_jump: opt_chars(self.proxy_jump),
            tags: strings_view(self.tags@),
            password: self.password@,
        }
    }
}

impl SessionView {
    /// The session every form and import starts from: empty text, port 22.
    pub open spec fn blank() -> SessionView {
        SessionView {
            name: Seq::empty(),
            host: Seq::empty(),
            user: Seq::empty(),
            port: 22,
            proxy_jump: None,
            tags: Seq::empty(),
            password: Seq::empty(),
        }
    }
}

/// The views of a sequence of sessions.
pub open spec fn sessions_view(v: Seq<Session>) -> Seq<SessionView> {
    v.map_values(|s: Session| s@)
}

impl Default for Session {
    fn default() -> (s: Session)
        ensures
            s@ == SessionView::blank(),
    {
        let s = Session {
            name: String::new(),
            host: String::new(),
            user: String::new(),
            port: 22,
            proxy_jump: None,
            tags: Vec::new(),
            password: String::new(),
        };
        assert(strings_view(s.tags@) =~= Seq::<Seq<char>>::empty());
        s
    }
}

/// `sessions.json` in `dir_override` (the `DOTS_SSM_DIR` directory) when one
/// is given, else `~/.config/ssm/sessions.json`.
pub fn sessions_path(dir_override: Option<String>) -> (r: String)
    ensures
        exists|h: Option<Seq<char>>|
            crate::paths::found_home(h) && r@ == crate::paths::ssm_file_spec(
                opt_chars(dir_override),
                h,
                "sessions.json"@,
                ".config/ssm/sessions.json"@,
            ),
{
    crate::paths::ssm_file(dir_override, "sessions.json", ".config/ssm/sessions.json")
}

/// A copy of a list of strings.
pub fn copy_strings(v: &Vec<String>) -> (r: Vec<String>)
    ensures
        r@ == v@,
{
    let mut out: Vec<String> = Vec::new();
    let mut i: usize = 0;
    while i < v.len()
        invariant
            0 <= i <= v.len(),
            out@ == v@.subrange(0, i as int),
        decreases v.len() - i,
    {
        out.push(v[i].clone());
        assert(v@.subrange(0, i + 1) =~= v@.subrange(0, i as int).push(v@[i as int]));
        i += 1;
    }
    assert(v@.subrange(0, v@.len() as int) =~= v@);
    out
}

/// A copy of an optional string.
pub fn copy_opt_string(o: &Option<String>) -> (r: Option<String>)
    ensures
        r == *o,
{
    match o {
        Some(s) => Some(s.clone()),
        None => None,
    }
}

impl Session {
    /// A field-for-field copy.
    pub fn duplicate(&self) -> (r: Session)
        ensures
            r@ == self@,
    {
        Session {
            name: self.name.clone(),
            host: self.host.clone(),
            user: self.user.clone(),
            port: self.port,
            proxy_jump: copy_opt_string(&self.proxy_jump),
            tags: copy_strings(&self.tags),
            password: self.password.clone(),
        }
    }
}

/// The `(name, password)` pairs that saving must write to the keychain: every
/// session with a non-empty password, in list order.
pub open spec fn passwords_to_store(s: Seq<SessionView>) -> Seq<(Seq<char>, Seq<char>)>
    decreases s.len(),
{
    if s.len() == 0 {
        Seq::empty()
    } else {
        let rest = passwords_to_store(s.drop_last());
        if s.last().password.len() > 0 {
            rest.push((s.last().name, s.last().password))
        } else {
            rest
        }
    }
}

/// The keychain writes that saving `sessions` performs, one `(name,
/// password)` pair per session that carries a password.
pub fn keychain_writes(sessions: &Vec<Session>) -> (r: Vec<(String, String)>)
    ensures
        r@.map_values(|p: (String, String)| (p.0@, p.1@)) == passwords_to_store(
            sessions_view(sessions@),
        ),
{
    let mut out: Vec<(String, String)> = Vec::new();
    let mut i: usize = 0;
    while i < sessions.len()
        invariant
            0 <= i <= sessions.len(),
            out@.map_values(|p: (String, String)| (p.0@, p.1@)) == passwords_to_store(
                sessions_view(sessions@.subrange(0, i as int)),
            ),
        decreases sessions.len() - i,
    {
        let s = &sessions[i];
        let ghost before = out@;
        proof {
            let pre = sessions_view(sessions@.subrange(0, i + 1));
            assert(pre.drop_last() =~= sessions_view(sessions@.subrange(0, i as int)));
            assert(pre.last() == sessions@[i as int]@);
        }
        if !s.password.as_str().is_empty() {
            out.push((s.name.clone(), s.password.clone()));
            assert(out@.map_values(|p: (String, String)| (p.0@, p.1@)) =~= before.map_values(
                |p: (String, String)| (p.0@, p.1@),
            ).push((s.name@, s.password@)));
        }
        i += 1;
    }
    assert(sessions@.subrange(0, sessions@.len() as int) =~= sessions@);
    out
}

/// The keychain writes that moving passwords out of an older sessions file
/// takes: for each record `(name, password field)`, in order, one write when
/// the record still carries a non-empty plaintext password.
pub open spec fn legacy_writes_spec(r: Seq<(Seq<char>, Option<Seq<char>>)>) -> Seq<(Seq<char>, Seq<char>)>
    decreases r.len(),
{
    if r.len() == 0 {
        Seq::empty()
    } else {
        let rest = legacy_writes_spec(r.drop_last());
        match r.last().1 {
            Some(pw) => if pw.len() > 0 {
                rest.push((r.last().0, pw))
            } else {
                rest
            },
            None => rest,
        }
    }
}

/// The keychain writes for migrating plaintext passwords found in a sessions
/// file; the file has to be written again (without them) exactly when this
/// is not empty.
pub fn legacy_writes(records: &Vec<(String, Option<String>)>) -> (r: Vec<(String, String)>)
    ensures
        r@.map_values(|p: (String, String)| (p.0@, p.1@)) == legacy_writes_spec(
            records@.map_values(|x: (String, Option<String>)| (x.0@, opt_chars(x.1))),
        ),
{
    let ghost rv = records@.map_values(|x: (String, Option<String>)| (x.0@, opt_chars(x.1)));
    let mut out: Vec<(String, String)> = Vec::new();
    let mut i: usize = 0;
    while i < records.len()
        invariant
            0 <= i <= records.len(),
            rv == records@.map_values(|x: (String, Option<String>)| (x.0@, opt_chars(x.1))),
            out@.map_values(|p: (String, String)| (p.0@, p.1@)) == legacy_writes_spec(rv.subrange(0, i as int)),
        decreases records.len() - i,
    {
        let ghost pre = rv.subrange(0, i + 1);
        assert(pre.drop_last() =~= rv.subrange(0, i as int));
        assert(pre.last() == (records@[i as int].0@, opt_chars(records@[i as int].1)));
        let ghost before = out@;
        let (name, pw) = &records[i];
        match pw {
            Some(p) => {
                if !p.as_str().is_empty() {
                    out.push((name.clone(), p.clone()));
                    assert(out@.map_values(|p: (String, String)| (p.0@, p.1@)) =~= before.map_values(
                        |p: (String, String)| (p.0@, p.1@),
                    ).push((name@, p@)));
                }
            },
            None => {},
        }
        i += 1;
    }
    assert(rv.subrange(0, rv.len() as int) =~= rv);
    out
}

} // verus!

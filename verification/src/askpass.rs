//! The rules of the `SSH_ASKPASS` password hand-off.
//!
//! ssm points `$SSH_ASKPASS` at itself and serves a session's password over a
//! private socket guarded by a one-time nonce. Two behaviours matter: the
//! helper answers password prompts only (never key passphrases or the
//! host-key confirmation), and the password is served once — a retry after a
//! failed login gets nothing, so a wrong password fails fast.

use vstd::prelude::*;

use crate::text;

verus! {

/// Whether a prompt, already lowercased, asks for a password: it mentions
/// "password" and not "passphrase".
pub open spec fn password_prompt_lowered(p: Seq<char>) -> bool {
    text::contains(p, "password"@) && !text::contains(p, "passphrase"@)
}

/// The answer for a prompt already lowercased: only password prompts, never
/// key passphrases or host-key questions.
pub fn is_password_prompt_lowered(lowered: &str) -> (r: bool)
    ensures
        r == password_prompt_lowered(lowered@),
{
    let p = text::chars_of(lowered);
    text::chars_contain(&p, &text::chars_of("password")) && !text::chars_contain(
        &p,
        &text::chars_of("passphrase"),
    )
}

/// Should the helper answer this prompt? Only true password prompts — never
/// key passphrases or the host-key confirmation.
pub fn is_password_prompt(prompt: &str) -> (r: bool)
    ensures
        r == password_prompt_lowered(text::lowercase(prompt@)),
{
    let lowered = text::to_lowercase(prompt);
    is_password_prompt_lowered(lowered.as_str())
}

/// Lowercase hexadecimal digit for `n < 16`.
pub open spec fn hex_digit(n: nat) -> char {
    if n < 10 {
        text::digit_char(n)
    } else if n == 10 {
        'a'
    } else if n == 11 {
        'b'
    } else if n == 12 {
        'c'
    } else if n == 13 {
        'd'
    } else if n == 14 {
        'e'
    } else {
        'f'
    }
}

/// Two lowercase hex digits per byte, high nibble first.
pub open spec fn hex_spec(bytes: Seq<u8>) -> Seq<char>
    decreases bytes.len(),
{
    if bytes.len() == 0 {
        Seq::empty()
    } else {
        hex_spec(bytes.drop_last()) + seq![
            hex_digit((bytes.last() / 16) as nat),
            hex_digit((bytes.last() % 16) as nat),
        ]
    }
}

fn hex_digit_exec(n: u8) -> (c: char)
    requires
        n < 16,
    ensures
        c == hex_digit(n as nat),
{
    if n < 10 {
        if n == 0 { '0' } else if n == 1 { '1' } else if n == 2 { '2' } else if n == 3 { '3' }
        else if n == 4 { '4' } else if n == 5 { '5' } else if n == 6 { '6' } else if n == 7 { '7' }
        else if n == 8 { '8' } else { '9' }
    } else if n == 10 {
        'a'
    } else if n == 11 {
        'b'
    } else if n == 12 {
        'c'
    } else if n == 13 {
        'd'
    } else if n == 14 {
        'e'
    } else {
        'f'
    }
}

/// `bytes` as lowercase hex, two digits each.
pub fn to_hex(bytes: &[u8]) -> (r: String)
    ensures
        r@ == hex_spec(bytes@),
{
    let mut out = String::new();
    let mut i: usize = 0;
    while i < bytes.len()
        invariant
            0 <= i <= bytes.len(),
            out@ == hex_spec(bytes@.subrange(0, i as int)),
        decreases bytes.len() - i,
    {
        let b = bytes[i];
        let ghost pre = bytes@.subrange(0, i + 1);
        assert(pre.drop_last() =~= bytes@.subrange(0, i as int));
        assert(pre.last() == b);
        text::push_char(&mut out, hex_digit_exec(b / 16));
        text::push_char(&mut out, hex_digit_exec(b % 16));
        assert(out@ =~= hex_spec(pre));
        i += 1;
    }
    assert(bytes@.subrange(0, bytes@.len() as int) =~= bytes@);
    out
}

/// One request to the serving side: a wrong nonce gets nothing and changes
/// nothing; the right one gets the secret if it was not served yet, else an
/// empty answer, and marks it served.
pub open spec fn gate_answer(served: bool, got: Seq<char>, nonce: Seq<char>, secret: Seq<char>) -> (
    bool,
    Option<Seq<char>>,
) {
    if got != nonce {
        (served, None)
    } else if served {
        (true, Some(Seq::empty()))
    } else {
        (true, Some(secret))
    }
}

/// The serving side of the hand-off: whether the password was already given
/// out.
#[derive(Debug)]
pub struct AskpassGate {
    pub served: bool,
}

impl AskpassGate {
    /// A gate that has served nothing yet.
    pub fn new() -> (g: AskpassGate)
        ensures
            !g.served,
    {
        AskpassGate { served: false }
    }

    /// A client presented `got`; answer it.
    pub fn answer(&mut self, got: &str, nonce: &str, secret: &str) -> (r: Option<String>)
        ensures
            (final(self).served, match r {
                Some(s) => Some(s@),
                None => None,
            }) == gate_answer(old(self).served, got@, nonce@, secret@),
    {
        let g = text::chars_of(got);
        let n = text::chars_of(nonce);
        if !text::chars_eq(&g, &n) {
            return None;
        }
        let give = if self.served {
            String::new()
        } else {
            text::to_owned_string(secret)
        };
        self.served = true;
        Some(give)
    }
}

/// The password is served once: whatever requests came before, once the
/// right nonce has been answered, every later right-nonce request gets an
/// empty answer; and requests with a wrong nonce never use up the secret.
pub proof fn lemma_serves_once(served: bool, got: Seq<char>, nonce: Seq<char>, secret: Seq<char>, again: Seq<char>)
    requires
        got == nonce,
    ensures
        gate_answer(gate_answer(served, got, nonce, secret).0, nonce, nonce, secret).1 == Some(Seq::<char>::empty()),
        again != nonce ==> gate_answer(served, again, nonce, secret).0 == served,
{
}

/// The longest socket path used: the smaller (macOS) `sun_path` limit,
/// leaving room for the terminating NUL.
pub const MAX_SOCKET_PATH: usize = 100;

/// The first candidate directory in which `file` has a path of at most
/// [`MAX_SOCKET_PATH`] bytes, else `/tmp`.
pub open spec fn pick_socket_path_spec(candidates: Seq<Seq<char>>, file: Seq<char>) -> Seq<char>
    decreases candidates.len(),
{
    if candidates.len() == 0 {
        crate::paths::join_spec("/tmp"@, file)
    } else {
        let p = crate::paths::join_spec(candidates[0], file);
        if vstd::utf8::encode_utf8(p).len() <= MAX_SOCKET_PATH {
            p
        } else {
            pick_socket_path_spec(candidates.drop_first(), file)
        }
    }
}

/// Choose where the askpass socket lives: the first of `candidates` (in
/// order: `$XDG_RUNTIME_DIR`, the temp dir, `/tmp`) whose path for `file`
/// fits the kernel's socket-path limit, falling back to `/tmp`.
pub fn pick_socket_path(candidates: &Vec<String>, file: &str) -> (r: String)
    ensures
        r@ == pick_socket_path_spec(crate::storage::strings_view(candidates@), file@),
{
    let ghost cs = crate::storage::strings_view(candidates@);
    let mut i: usize = 0;
    assert(cs.subrange(0, cs.len() as int) =~= cs);
    while i < candidates.len()
        invariant
            0 <= i <= candidates.len(),
            cs == crate::storage::strings_view(candidates@),
            pick_socket_path_spec(cs, file@) == pick_socket_path_spec(cs.subrange(i as int, cs.len() as int), file@),
        decreases candidates.len() - i,
    {
        let ghost tail = cs.subrange(i as int, cs.len() as int);
        assert(tail[0] == candidates@[i as int]@);
        assert(tail.drop_first() =~= cs.subrange(i + 1, cs.len() as int));
        let p = crate::paths::join(candidates[i].as_str(), file);
        if p.as_str().as_bytes().len() <= MAX_SOCKET_PATH {
            return p;
        }
        i += 1;
    }
    crate::paths::join("/tmp", file)
}

} // verus!

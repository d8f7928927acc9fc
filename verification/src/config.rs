//! ssm's own preferences, kept next to the session store in
//! `~/.config/ssm/config.toml` (or `$DOTS_SSM_DIR/config.toml`).

use vstd::prelude::*;

verus! {

/// The preferences file's contents.
#[derive(Debug, Clone)]
pub struct SsmConfig {
    /// Route SSH connections through `herdr --remote` instead of plain `ssh`.
    pub use_herdr: bool,
    /// Name of the active color theme; "auto" follows the terminal's palette.
    pub theme: String,
    /// Run background reachability probes and show latency in the list.
    pub probe: bool,
    /// Require a biometric check before revealing a stored password.
    pub biometric_unlock: bool,
}

impl Default for SsmConfig {
    /// herdr on, the "auto" theme, probing on, biometric unlock off.
    fn default() -> (c: SsmConfig)
        ensures
            c.use_herdr,
            c.theme@ == "auto"@,
            c.probe,
            !c.biometric_unlock,
    {
        SsmConfig {
            use_herdr: true,
            theme: crate::text::to_owned_string("auto"),
            probe: true,
            biometric_unlock: false,
        }
    }
}

/// `config.toml` in `dir_override` (the `DOTS_SSM_DIR` directory) when one is
/// given, else `~/.config/ssm/config.toml`.
pub fn config_path(dir_override: Option<String>) -> (r: String)
    ensures
        exists|h: Option<Seq<char>>|
            crate::paths::found_home(h) && r@ == crate::paths::ssm_file_spec(
                crate::storage::opt_chars(dir_override),
                h,
                "config.toml"@,
                ".config/ssm/config.toml"@,
            ),
{
    crate::paths::ssm_file(dir_override, "config.toml", ".config/ssm/config.toml")
}

} // verus!

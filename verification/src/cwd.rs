//! The working directory and the `cd` built-in's target resolution.
//!
//! The process's current directory is global state owned by the operating
//! system; here it is modelled as an explicit value with one mutator, so
//! that the effect of the `cd` built-in can be stated and checked.

use vstd::prelude::*;
use crate::parse::{Stage, StageView};

verus! {

/// Tilde expansion: a leading `~` that is the whole input or is followed by
/// `/` is replaced by the home directory, when one is known; any other input
/// stays unchanged.
pub open spec fn spec_tilde_expand(input: Seq<char>, home: Option<Seq<char>>) -> Seq<char> {
    match home {
        Some(h) => {
            if input.len() >= 1 && input[0] == '~' && (input.len() == 1 || input[1] == '/') {
                h + input.skip(1)
            } else {
                input
            }
        },
        None => input,
    }
}

/// Relies on shellexpand::tilde_with_context: a leading `~` that is the
/// whole input or is followed by `/` is replaced with the home directory the
/// context supplies, and every other input comes back unchanged (as built
/// for targets whose path separator is `/`).
#[verifier::external_body]
fn tilde_with_home(input: &String, home: &Option<String>) -> (r: String)
    ensures
        r@ == spec_tilde_expand(input@, home.deep_view()),
{
    shellexpand::tilde_with_context(input.as_str(), || home.clone()).into_owned()
}

/// Relies on dirs_next::home_dir for the user's home directory; the result
/// depends on the environment, so nothing is promised of it.
#[verifier::external_body]
pub(crate) fn query_home() -> (h: Option<String>) {
    dirs_next::home_dir().and_then(|p| p.into_os_string().into_string().ok())
}

/// The path a `cd` stage names before expansion: its first argument, or the
/// filesystem root when it has none.
pub open spec fn raw_cd_target(st: StageView) -> Seq<char> {
    if st.args.len() > 0 {
        st.args[0]
    } else {
        seq!['/']
    }
}

/// The directory a `cd` stage changes to: its first argument, or the
/// filesystem root when it has none, with a leading tilde expanded.
pub fn resolve_cd_target(st: &Stage, home: &Option<String>) -> (r: String)
    ensures
        r@ == spec_tilde_expand(raw_cd_target(st@), home.deep_view()),
{
    let raw = if st.args.len() > 0 {
        st.args[0].clone()
    } else {
        proof {
            reveal_strlit("/");
        }
        String::from_str("/")
    };
    tilde_with_home(&raw, home)
}

/// The working directory, modelled as an explicit value. A pipeline run
/// reads it implicitly when it spawns and mutates it only through the `cd`
/// built-in; the caller reports whether the operating system accepted each
/// change.
pub struct WorkDir {
    path: String,
}

impl View for WorkDir {
    type V = Seq<char>;

    closed spec fn view(&self) -> Seq<char> {
        self.path@
    }
}

impl WorkDir {
    /// A working-directory model starting at the given path.
    pub fn new(path: String) -> (w: WorkDir)
        ensures
            w@ == path@,
    {
        WorkDir { path }
    }

    /// The current working directory.
    pub fn current(&self) -> (p: &String)
        ensures
            p@ == self@,
    {
        &self.path
    }

    /// A successful change moves the working directory to the target; a
    /// failed one leaves it exactly where it was.
    pub fn apply_change(&mut self, target: &String, changed: bool)
        ensures
            changed ==> final(self)@ == target@,
            !changed ==> final(self)@ == old(self)@,
    {
        if changed {
            self.path = target.clone();
        }
    }
}

} // verus!

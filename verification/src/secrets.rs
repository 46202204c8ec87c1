//! Where a credential comes from.

use vstd::prelude::*;
use crate::text;

verus! {

/// The name under which the operating system keeps this program's credentials.
pub const SERVICE: &'static str = "gimme-a-chance";

/// Where a credential was found.
#[derive(Clone, Copy, Debug, PartialEq, Eq, Structural)]
pub enum KeySource {
    /// The operating system keeps it.
    Keyring,
    /// It is in the environment, and is to be handed to the operating system.
    Environment,
    /// Nowhere.
    Missing,
}

/// The credential with what it is used: the one that the operating system
/// keeps, or else the one in the environment. An empty one counts for nothing.
pub open spec fn key_of(stored: Option<Seq<char>>, env: Option<Seq<char>>) -> (
    KeySource,
    Option<Seq<char>>,
) {
    if stored is Some && stored->0.len() > 0 {
        (KeySource::Keyring, stored)
    } else if env is Some && env->0.len() > 0 {
        (KeySource::Environment, env)
    } else {
        (KeySource::Missing, None)
    }
}

/// The value of an optional string.
pub open spec fn opt_view(s: Option<String>) -> Option<Seq<char>> {
    match s {
        Some(v) => Some(v@),
        None => None,
    }
}

pub fn load_key(stored: Option<String>, env: Option<String>) -> (r: (KeySource, Option<String>))
    ensures
        (r.0, opt_view(r.1)) == key_of(opt_view(stored), opt_view(env)),
{
    if let Some(v) = stored {
        if v.as_str().unicode_len() > 0 {
            return (KeySource::Keyring, Some(v));
        }
    }
    if let Some(v) = env {
        if v.as_str().unicode_len() > 0 {
            return (KeySource::Environment, Some(v));
        }
    }
    (KeySource::Missing, None)
}

/// A credential once stored is not overruled by the environment.
pub proof fn stored_key_wins(stored: Seq<char>, env: Option<Seq<char>>)
    requires
        stored.len() > 0,
    ensures
        key_of(Some(stored), env) == (KeySource::Keyring, Some(stored)),
{
}

/// The environment stands in for a credential that is not stored, or stored
/// empty, and an empty one there counts for nothing either.
pub proof fn the_environment_stands_in(env: Seq<char>)
    ensures
        env.len() > 0 ==> key_of(None, Some(env)) == (KeySource::Environment, Some(env)),
        env.len() > 0 ==> key_of(Some(Seq::<char>::empty()), Some(env)) == (
            KeySource::Environment,
            Some(env),
        ),
        env.len() == 0 ==> key_of(None, Some(env)) == (KeySource::Missing, None::<Seq<char>>),
        key_of(None, None) == (KeySource::Missing, None::<Seq<char>>),
{
}

} // verus!

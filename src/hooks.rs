use vstd::prelude::*;

use crate::changelog::views;
use crate::error::ReleaseError;
use crate::text::{copy_str, same_text};

verus! {

/// A shell command to run as a lifecycle hook.
#[derive(Debug, Clone)]
pub struct HookCommand {
    pub command: String,
}

/// Release context passed to hooks as environment variables.
#[derive(Debug, Clone)]
pub struct HookContext {
    /// Name and value of each variable; names are distinct.
    pub env: Vec<(String, String)>,
}

/// The names and values, as characters.
pub open spec fn env_view(env: Seq<(String, String)>) -> Seq<(Seq<char>, Seq<char>)> {
    env.map_values(|p: (String, String)| (p.0@, p.1@))
}

/// Index of the variable named `key` at or after `i`, or `env.len()`.
pub open spec fn key_index(env: Seq<(Seq<char>, Seq<char>)>, key: Seq<char>, i: int) -> int
    decreases env.len() - i,
{
    if i < 0 || i >= env.len() {
        env.len() as int
    } else if env[i].0 == key {
        i
    } else {
        key_index(env, key, i + 1)
    }
}

/// `env` with `key` set to `value`: replaced where the name is present, else appended.
pub open spec fn env_set(env: Seq<(Seq<char>, Seq<char>)>, key: Seq<char>, value: Seq<char>) -> Seq<(Seq<char>, Seq<char>)> {
    let i = key_index(env, key, 0);
    if i < env.len() {
        env.update(i, (key, value))
    } else {
        env.push((key, value))
    }
}

impl HookContext {
    /// A context with no variables.
    pub fn new() -> (r: Self)
        ensures
            r.env@.len() == 0,
    {
        HookContext { env: Vec::new() }
    }

    /// Set an environment variable in the context.
    pub fn set(self, key: &str, value: &str) -> (r: Self)
        ensures
            env_view(r.env@) == env_set(env_view(self.env@), key@, value@),
    {
        let mut env = self.env;
        let ghost v = env_view(env@);
        let mut i: usize = 0;
        while i < env.len()
            invariant
                i <= env@.len(),
                v == env_view(env@),
                v == env_view(self.env@),
                key_index(v, key@, i as int) == key_index(v, key@, 0),
            decreases env.len() - i,
        {
            if same_text(env[i].0.as_str(), key) {
                assert(v[i as int].0 == key@);
                assert(key_index(v, key@, i as int) == i);
                env.set(i, (copy_str(key), copy_str(value)));
                assert(env_view(env@) =~= v.update(i as int, (key@, value@)));
                return HookContext { env };
            }
            i = i + 1;
        }
        env.push((copy_str(key), copy_str(value)));
        assert(env_view(env@) =~= v.push((key@, value@)));
        HookContext { env }
    }
}

/// Runs lifecycle hooks.
pub trait HookRunner {
    fn run(&self, hooks: &[HookCommand], ctx: &HookContext) -> Result<(), ReleaseError>;
}

/// The hook runner that executes commands through the system shell.
pub struct ShellHookRunner;

} // verus!

//! A command description and its builder: an executable name, accumulated
//! argument and environment lists, and an optional working directory. The
//! build step succeeds exactly when the executable has been set.

use vstd::prelude::*;

verus! {

/// A fully built command description.
#[derive(Debug)]
pub struct Command {
    pub executable: String,
    pub args: Vec<String>,
    pub env: Vec<String>,
    pub current_dir: Option<String>,
}

impl Command {
    /// Starts a builder with nothing set and empty argument lists.
    pub fn builder() -> (b: CommandBuilder)
        ensures
            b.spec_executable() is None,
            b.spec_args().len() == 0,
            b.spec_env().len() == 0,
            b.spec_current_dir() is None,
    {
        CommandBuilder { executable: None, args: Vec::new(), env: Vec::new(), current_dir: None }
    }
}

/// Accumulates the parts of a [`Command`] one call at a time.
#[derive(Debug)]
pub struct CommandBuilder {
    executable: Option<String>,
    args: Vec<String>,
    env: Vec<String>,
    current_dir: Option<String>,
}

impl CommandBuilder {
    /// The executable set so far, if any.
    pub closed spec fn spec_executable(&self) -> Option<String> {
        self.executable
    }

    /// The arguments accumulated so far.
    pub closed spec fn spec_args(&self) -> Seq<String> {
        self.args@
    }

    /// The environment entries accumulated so far.
    pub closed spec fn spec_env(&self) -> Seq<String> {
        self.env@
    }

    /// The working directory set so far, if any.
    pub closed spec fn spec_current_dir(&self) -> Option<String> {
        self.current_dir
    }

    /// Sets the executable.
    pub fn executable(self, executable: String) -> (r: Self)
        ensures
            r.spec_executable() == Some(executable),
            r.spec_args() == self.spec_args(),
            r.spec_env() == self.spec_env(),
            r.spec_current_dir() == self.spec_current_dir(),
    {
        CommandBuilder { executable: Some(executable), ..self }
    }

    /// Appends one argument.
    pub fn arg(self, arg: String) -> (r: Self)
        ensures
            r.spec_executable() == self.spec_executable(),
            r.spec_args() == self.spec_args().push(arg),
            r.spec_env() == self.spec_env(),
            r.spec_current_dir() == self.spec_current_dir(),
    {
        let mut args = self.args;
        args.push(arg);
        CommandBuilder { args, ..self }
    }

    /// Appends one environment entry.
    pub fn env(self, env: String) -> (r: Self)
        ensures
            r.spec_executable() == self.spec_executable(),
            r.spec_args() == self.spec_args(),
            r.spec_env() == self.spec_env().push(env),
            r.spec_current_dir() == self.spec_current_dir(),
    {
        let mut env_list = self.env;
        env_list.push(env);
        CommandBuilder { env: env_list, ..self }
    }

    /// Sets the working directory.
    pub fn current_dir(self, current_dir: String) -> (r: Self)
        ensures
            r.spec_executable() == self.spec_executable(),
            r.spec_args() == self.spec_args(),
            r.spec_env() == self.spec_env(),
            r.spec_current_dir() == Some(current_dir),
    {
        CommandBuilder { current_dir: Some(current_dir), ..self }
    }

    /// Builds the command. Succeeds exactly when the executable has been
    /// set; the accumulated lists and the optional working directory carry
    /// over unchanged.
    pub fn build(&self) -> (r: Result<Command, String>)
        ensures
            r is Ok <==> self.spec_executable() is Some,
            r matches Ok(c) ==> {
                &&& Some(c.executable) == self.spec_executable()
                &&& c.args@ == self.spec_args()
                &&& c.env@ == self.spec_env()
                &&& c.current_dir == self.spec_current_dir()
            },
            r matches Err(e) ==> e@ == "Error: field 'executable' haven't been set."@,
    {
        match &self.executable {
            Some(executable) => Ok(
                Command {
                    executable: executable.clone(),
                    args: clone_strings(&self.args),
                    env: clone_strings(&self.env),
                    current_dir: match &self.current_dir {
                        Some(d) => Some(d.clone()),
                        None => None,
                    },
                },
            ),
            None => Err("Error: field 'executable' haven't been set.".to_owned()),
        }
    }
}

/// Clones a list of strings, value for value.
fn clone_strings(v: &Vec<String>) -> (r: Vec<String>)
    ensures
        r@ == v@,
{
    let mut r: Vec<String> = Vec::new();
    let mut i: usize = 0;
    while i < v.len()
        invariant
            i <= v@.len(),
            r@.len() == i,
            forall|j: int| 0 <= j < i ==> #[trigger] r@[j] == v@[j],
        decreases v@.len() - i,
    {
        r.push(v[i].clone());
        i = i + 1;
    }
    proof {
        assert(r@ =~= v@);
    }
    r
}

} // verus!

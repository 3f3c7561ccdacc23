//! Declarative description of a child process.

use vstd::prelude::*;

use crate::text;

verus! {

/// Declarative description of a child process.
#[derive(Debug)]
pub struct ProcessSpec {
    /// Executable name (resolved via `PATH`).
    pub program: String,
    /// Command-line arguments.
    pub args: Vec<String>,
    /// Extra environment variables.
    pub env: Vec<(String, String)>,
    /// Optional working directory.
    pub working_dir: Option<String>,
}

/// What a [`ProcessSpec`] holds.
pub struct SpecView {
    pub program: Seq<char>,
    pub args: Seq<Seq<char>>,
    pub env: Seq<(Seq<char>, Seq<char>)>,
    pub working_dir: Option<Seq<char>>,
}

pub open spec fn env_views(env: Seq<(String, String)>) -> Seq<(Seq<char>, Seq<char>)> {
    env.map_values(|p: (String, String)| (p.0@, p.1@))
}

impl View for ProcessSpec {
    type V = SpecView;

    open spec fn view(&self) -> SpecView {
        SpecView {
            program: self.program@,
            args: text::views(self.args@),
            env: env_views(self.env@),
            working_dir: match self.working_dir {
                Some(d) => Some(d@),
                None => None,
            },
        }
    }
}

pub open spec fn str_views(v: Seq<&str>) -> Seq<Seq<char>> {
    v.map_values(|s: &str| s@)
}

impl ProcessSpec {
    /// Create a spec for `program`.
    #[must_use]
    pub fn new(program: &str) -> (r: Self)
        ensures
            r@ == (SpecView {
                program: program@,
                args: Seq::empty(),
                env: Seq::empty(),
                working_dir: None,
            }),
    {
        let r = ProcessSpec {
            program: program.to_owned(),
            args: Vec::new(),
            env: Vec::new(),
            working_dir: None,
        };
        assert(r@.args =~= Seq::empty());
        assert(r@.env =~= Seq::empty());
        r
    }

    /// Append a single argument.
    #[must_use]
    pub fn arg(self, a: &str) -> (r: Self)
        ensures
            r@ == (SpecView { args: self@.args.push(a@), ..self@ }),
    {
        let mut s = self;
        let ghost before = s@;
        s.args.push(a.to_owned());
        assert(s@.args =~= before.args.push(a@));
        s
    }

    /// Append a slice of arguments.
    #[must_use]
    pub fn args(self, args: &[&str]) -> (r: Self)
        ensures
            r@ == (SpecView { args: self@.args + str_views(args@), ..self@ }),
    {
        let mut s = self;
        let ghost before = s@;
        let ghost vs = str_views(args@);
        let mut i: usize = 0;
        assert(before.args + vs.take(0) =~= before.args);
        while i < args.len()
            invariant
                i <= args@.len(),
                vs == str_views(args@),
                s@ == (SpecView { args: before.args + vs.take(i as int), ..before }),
            decreases args@.len() - i,
        {
            let ghost now = s@.args;
            let a: &str = args[i];
            s.args.push(a.to_owned());
            assert(s@.args =~= now.push(a@));
            assert(before.args + vs.take(i + 1) =~= (before.args + vs.take(i as int)).push(a@));
            i = i + 1;
        }
        assert(vs.take(i as int) =~= vs);
        s
    }

    /// Set an environment variable.
    #[must_use]
    pub fn env(self, k: &str, v: &str) -> (r: Self)
        ensures
            r@ == (SpecView { env: self@.env.push((k@, v@)), ..self@ }),
    {
        let mut s = self;
        let ghost before = s@;
        s.env.push((k.to_owned(), v.to_owned()));
        assert(s@.env =~= before.env.push((k@, v@)));
        s
    }

    /// Set the working directory.
    #[must_use]
    pub fn cwd(self, dir: &str) -> (r: Self)
        ensures
            r@ == (SpecView { working_dir: Some(dir@), ..self@ }),
    {
        let mut s = self;
        s.working_dir = Some(dir.to_owned());
        s
    }
}

/// Variables and arguments stand in their order, each value with its variable.
pub proof fn law_variables_keep_their_values(
    env: Seq<(String, String)>,
    args: Seq<&str>,
    i: int,
)
    ensures
        0 <= i < env.len() ==> env_views(env)[i] == (env[i].0@, env[i].1@),
        0 <= i < args.len() ==> str_views(args)[i] == args[i]@,
        env_views(env).len() == env.len(),
        str_views(args).len() == args.len(),
{
}

} // verus!

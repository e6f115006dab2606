use vstd::prelude::*;
use crate::pb;
use crate::text::StrLike;

verus! {

/// How a command runs: its name and arguments, environment, working
/// directory and user.
#[derive(Debug, Clone)]
pub struct Context {
    pub name: String,
    pub args: Vec<String>,
    pub env: Vec<String>,
    pub cwd: String,
    pub user: String,
}

impl Context {
    /// Runs command `name` with no arguments and no environment, as `root` in `/`.
    pub fn new<S: StrLike>(name: S) -> (r: Context)
        ensures
            r.name@ == name.str_view(),
            r.cwd@ == "/"@,
            r.user@ == "root"@,
            r.args@ == Seq::<String>::empty(),
            r.env@ == Seq::<String>::empty(),
    {
        Context {
            name: name.to_owned_string(),
            cwd: "/".to_owned(),
            user: "root".to_owned(),
            args: Vec::new(),
            env: Vec::new(),
        }
    }
}

impl pb::Meta {
    /// The execution metadata of a command: the argument vector is the name
    /// followed by the arguments; environment, working directory and user are
    /// carried over; the hostname is left empty.
    pub fn from_context(val: Context) -> (r: pb::Meta)
        ensures
            r.args@ == seq![val.name].add(val.args@),
            r.env@ == val.env@,
            r.cwd@ == val.cwd@,
            r.user@ == val.user@,
            r.hostname@ == Seq::<char>::empty(),
    {
        let mut args: Vec<String> = Vec::new();
        args.push(val.name.clone());
        let mut i: usize = 0;
        while i < val.args.len()
            invariant
                i <= val.args@.len(),
                args@ == seq![val.name].add(val.args@.subrange(0, i as int)),
            decreases val.args@.len() - i,
        {
            args.push(val.args[i].clone());
            assert(args@ =~= seq![val.name].add(val.args@.subrange(0, i + 1)));
            i = i + 1;
        }
        assert(val.args@.subrange(0, val.args@.len() as int) =~= val.args@);
        pb::Meta { args, env: val.env, cwd: val.cwd, user: val.user, hostname: String::new() }
    }
}

} // verus!

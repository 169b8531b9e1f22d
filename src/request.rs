use vstd::prelude::*;

verus! {

/// Everything that determines what a sandbox run does: the command and its
/// arguments, the environment, the text fed to standard input, and the
/// container image. Two requests with equal views are interchangeable.
pub struct SandboxRequest {
    pub command: String,
    pub args: Vec<String>,
    pub env: Vec<(String, String)>,
    pub input: String,
    pub image: String,
}

/// The mathematical identity of a request.
pub struct RequestView {
    pub command: Seq<char>,
    pub args: Seq<Seq<char>>,
    pub env: Seq<(Seq<char>, Seq<char>)>,
    pub input: Seq<char>,
    pub image: Seq<char>,
}

pub open spec fn args_view(args: Seq<String>) -> Seq<Seq<char>> {
    args.map_values(|s: String| s@)
}

pub open spec fn env_view(env: Seq<(String, String)>) -> Seq<(Seq<char>, Seq<char>)> {
    env.map_values(|p: (String, String)| (p.0@, p.1@))
}

impl View for SandboxRequest {
    type V = RequestView;

    open spec fn view(&self) -> RequestView {
        RequestView {
            command: self.command@,
            args: args_view(self.args@),
            env: env_view(self.env@),
            input: self.input@,
            image: self.image@,
        }
    }
}

/// Whether two argument lists hold the same strings in the same order.
fn same_args(a: &Vec<String>, b: &Vec<String>) -> (r: bool)
    ensures
        r == (args_view(a@) == args_view(b@)),
{
    if a.len() != b.len() {
        assert(args_view(a@).len() != args_view(b@).len());
        return false;
    }
    let mut i: usize = 0;
    while i < a.len()
        invariant
            a@.len() == b@.len(),
            i <= a@.len(),
            forall|j: int| 0 <= j < i ==> a@[j]@ == b@[j]@,
        decreases a@.len() - i,
    {
        if a[i] != b[i] {
            assert(args_view(a@)[i as int] != args_view(b@)[i as int]);
            return false;
        }
        i = i + 1;
    }
    assert(args_view(a@) =~= args_view(b@));
    true
}

/// Whether two environments hold the same pairs in the same order.
fn same_env(a: &Vec<(String, String)>, b: &Vec<(String, String)>) -> (r: bool)
    ensures
        r == (env_view(a@) == env_view(b@)),
{
    if a.len() != b.len() {
        assert(env_view(a@).len() != env_view(b@).len());
        return false;
    }
    let mut i: usize = 0;
    while i < a.len()
        invariant
            a@.len() == b@.len(),
            i <= a@.len(),
            forall|j: int| 0 <= j < i ==> a@[j].0@ == b@[j].0@ && a@[j].1@ == b@[j].1@,
        decreases a@.len() - i,
    {
        if a[i].0 != b[i].0 || a[i].1 != b[i].1 {
            assert(env_view(a@)[i as int] != env_view(b@)[i as int]);
            return false;
        }
        i = i + 1;
    }
    assert(env_view(a@) =~= env_view(b@));
    true
}

impl SandboxRequest {
    /// Whether two requests are the same in every part that affects a run.
    pub fn same_as(&self, other: &SandboxRequest) -> (r: bool)
        ensures
            r == (self@ == other@),
    {
        self.command == other.command && same_args(&self.args, &other.args) && same_env(
            &self.env,
            &other.env,
        ) && self.input == other.input && self.image == other.image
    }
}

} // verus!

use vstd::prelude::*;
use crate::branches::{image_of, Branch};
use crate::cache::{cached, model_wf, stored, Entry, ExecCache, ExitState, Outcome};
use crate::codec::{decode_spec, parse_output};
use crate::emit::{opts_of, CompileOutput};
use crate::request::{RequestView, SandboxRequest};
use crate::sandbox::{RunResult, RunView};
use vstd::string::StringSliceAdditionalSpecFns;

verus! {

/// How many distinct successful runs the cache keeps.
pub const CACHE_CAPACITY: usize = 256;

/// Wall-clock limit, in seconds, of one sandbox run.
pub const RUN_TIMEOUT_SECS: u64 = 10;

/// The script that builds and runs a program inside the container.
pub const EVALUATE_COMMAND: &'static str = "/usr/local/bin/evaluate.sh";

/// The script that builds a program and prints the requested artifact.
pub const COMPILE_COMMAND: &'static str = "/usr/local/bin/compile.sh";

/// The text appended to the output of a run that hit its deadline.
pub const TIMEOUT_MARKER: &'static str = "\ntimeout triggered!";

/// The environment variable that tells the sandboxed scripts who launched
/// them, and its value for runs that come from the web front end.
pub const CONTEXT_VAR: &'static str = "PLAYPEN_ENV";
pub const CONTEXT_WEB: &'static str = "web";

pub open spec fn web_env() -> Seq<(Seq<char>, Seq<char>)> {
    seq![(CONTEXT_VAR@, CONTEXT_WEB@)]
}

/// The request that evaluating `code` on `branch` runs.
pub open spec fn evaluate_request(branch: Branch, code: Seq<char>) -> RequestView {
    RequestView {
        command: EVALUATE_COMMAND@,
        args: Seq::empty(),
        env: web_env(),
        input: code,
        image: image_of(branch),
    }
}

/// The request that compiling `code` on `branch` to `emit` runs.
pub open spec fn compile_request(branch: Branch, code: Seq<char>, emit: CompileOutput) -> RequestView {
    RequestView {
        command: COMPILE_COMMAND@,
        args: opts_of(emit),
        env: web_env(),
        input: code,
        image: image_of(branch),
    }
}

/// The outcome of a run: a run that hit its deadline never counts as a
/// success, and its output ends with the timeout marker.
pub open spec fn settled(run: RunView) -> (ExitState, Seq<u8>) {
    if run.timed_out {
        (
            match run.status {
                ExitState::Success => ExitState::Failure { code: None },
                s => s,
            },
            run.output + TIMEOUT_MARKER.spec_bytes(),
        )
    } else {
        (run.status, run.output)
    }
}

/// What a caller gets back: whether the run succeeded, the diagnostics
/// text, and the program's output when the program ran.
pub struct Evaluation {
    pub success: bool,
    pub compiler: String,
    pub output: Option<String>,
}

pub open spec fn option_view(o: Option<String>) -> Option<Seq<char>> {
    match o {
        Some(s) => Some(s@),
        None => None,
    }
}

impl View for Evaluation {
    type V = (bool, Seq<char>, Option<Seq<char>>);

    open spec fn view(&self) -> (bool, Seq<char>, Option<Seq<char>>) {
        (self.success, self.compiler@, option_view(self.output))
    }
}

/// The evaluation that an outcome decodes to.
pub open spec fn evaluation_of(o: (ExitState, Seq<u8>)) -> (bool, Seq<char>, Option<Seq<char>>) {
    (o.0 is Success, decode_spec(o.1).0, decode_spec(o.1).1)
}

/// The first step of a request: the cached answer, or the run to perform.
pub enum Pending {
    Cached(Evaluation),
    Run(SandboxRequest),
}

/// `p` is the right first step for request `k` against cache entries `s`.
pub open spec fn pending_for(p: Pending, s: Seq<Entry>, k: RequestView) -> bool {
    match p {
        Pending::Cached(e) => cached(s, k) is Some && e@ == evaluation_of(cached(s, k)->0),
        Pending::Run(req) => cached(s, k) is None && req@ == k,
    }
}

/// The cache entries after a run of `k` completes.
pub open spec fn after_run(s: Seq<Entry>, cap: nat, k: RequestView, run: RunView) -> Seq<Entry> {
    if settled(run).0 is Success {
        stored(s, cap, k, settled(run))
    } else {
        s
    }
}

/// The long-lived service that answers evaluate and compile requests,
/// reusing the outcome of an identical earlier successful run.
pub struct Playpen {
    cache: ExecCache,
}

impl Playpen {
    pub closed spec fn entries(&self) -> Seq<Entry> {
        self.cache@
    }

    pub closed spec fn capacity(&self) -> nat {
        self.cache.capacity()
    }

    pub open spec fn wf(&self) -> bool {
        model_wf(self.entries(), self.capacity())
    }

    /// A service with an empty cache of `CACHE_CAPACITY` entries.
    pub fn new() -> (r: Playpen)
        ensures
            r.wf(),
            r.entries() == Seq::<Entry>::empty(),
            r.capacity() == CACHE_CAPACITY,
    {
        Playpen { cache: ExecCache::new(CACHE_CAPACITY) }
    }

    /// The first step of evaluating `code` on `branch`.
    pub fn evaluate(&mut self, branch: Branch, code: String) -> (r: Pending)
        requires
            old(self).wf(),
        ensures
            final(self).wf(),
            final(self).capacity() == old(self).capacity(),
            final(self).entries() == crate::cache::touched(
                old(self).entries(),
                evaluate_request(branch, code@),
            ),
            pending_for(r, old(self).entries(), evaluate_request(branch, code@)),
    {
        let req = SandboxRequest {
            command: EVALUATE_COMMAND.to_owned(),
            args: Vec::new(),
            env: web_env_vec(),
            input: code,
            image: branch.image().to_owned(),
        };
        assert(req@.args =~= Seq::<Seq<char>>::empty());
        self.consult(req)
    }

    /// The first step of compiling `code` on `branch` to the `emit` format.
    pub fn compile(&mut self, branch: Branch, code: String, emit: CompileOutput) -> (r: Pending)
        requires
            old(self).wf(),
        ensures
            final(self).wf(),
            final(self).capacity() == old(self).capacity(),
            final(self).entries() == crate::cache::touched(
                old(self).entries(),
                compile_request(branch, code@, emit),
            ),
            pending_for(r, old(self).entries(), compile_request(branch, code@, emit)),
    {
        let opts = emit.as_opts();
        let mut args: Vec<String> = Vec::new();
        let mut i: usize = 0;
        while i < opts.len()
            invariant
                i <= opts@.len(),
                args@.len() == i,
                opts@.len() == opts_of(emit).len(),
                forall|j: int| 0 <= j < opts@.len() ==> #[trigger] opts@[j]@ == opts_of(emit)[j],
                crate::request::args_view(args@) == opts_of(emit).take(i as int),
            decreases opts@.len() - i,
        {
            let ghost before = args@;
            let a = opts[i].to_owned();
            assert(a@ == opts_of(emit)[i as int]);
            args.push(a);
            assert(args@ == before.push(a));
            assert forall|j: int| 0 <= j <= i implies crate::request::args_view(args@)[j] == opts_of(
                emit,
            ).take(i + 1)[j] by {
                if j < i {
                    assert(args@[j] == before[j]);
                    assert(crate::request::args_view(before)[j] == opts_of(emit).take(i as int)[j]);
                } else {
                    assert(args@[j] == a);
                }
            }
            assert(crate::request::args_view(args@) =~= opts_of(emit).take(i + 1));
            i = i + 1;
        }
        assert(opts_of(emit).take(i as int) =~= opts_of(emit));
        let req = SandboxRequest {
            command: COMPILE_COMMAND.to_owned(),
            args,
            env: web_env_vec(),
            input: code,
            image: branch.image().to_owned(),
        };
        self.consult(req)
    }

    fn consult(&mut self, req: SandboxRequest) -> (r: Pending)
        requires
            old(self).wf(),
        ensures
            final(self).wf(),
            final(self).capacity() == old(self).capacity(),
            final(self).entries() == crate::cache::touched(old(self).entries(), req@),
            pending_for(r, old(self).entries(), req@),
    {
        match self.cache.lookup(&req) {
            Some(o) => Pending::Cached(Self::decode(&o)),
            None => Pending::Run(req),
        }
    }

    /// The evaluation an outcome decodes to.
    fn decode(o: &Outcome) -> (r: Evaluation)
        ensures
            r@ == evaluation_of(o@),
    {
        let (compiler, output) = parse_output(o.output.as_slice());
        let r = Evaluation { success: o.status.success(), compiler, output };
        assert(option_view(r.output) == decode_spec(o.output@).1);
        r
    }

    /// The outcome of a finished run: a timed-out run is marked and never
    /// counts as a success.
    pub fn settle(run: RunResult) -> (r: Outcome)
        ensures
            r@ == settled(run@),
    {
        if run.timed_out {
            let mut output = run.output;
            let marker = TIMEOUT_MARKER.as_bytes();
            let ghost start = output@;
            let mut i: usize = 0;
            while i < marker.len()
                invariant
                    i <= marker@.len(),
                    output@ == start + marker@.take(i as int),
                decreases marker@.len() - i,
            {
                output.push(marker[i]);
                assert(start + marker@.take(i + 1) =~= (start + marker@.take(i as int)).push(marker@[i as int]));
                i = i + 1;
            }
            assert(marker@.take(i as int) =~= marker@);
            let status = match run.status {
                ExitState::Success => ExitState::Failure { code: None },
                s => s,
            };
            Outcome { status, output }
        } else {
            Outcome { status: run.status, output: run.output }
        }
    }

    /// Finishes a request whose first step asked for a run: the outcome is
    /// kept if it succeeded, and decoded for the caller either way.
    pub fn complete(&mut self, request: SandboxRequest, run: RunResult) -> (r: Evaluation)
        requires
            old(self).wf(),
        ensures
            final(self).wf(),
            final(self).capacity() == old(self).capacity(),
            final(self).entries() == after_run(old(self).entries(), old(self).capacity(), request@, run@),
            r@ == evaluation_of(settled(run@)),
    {
        let outcome = Self::settle(run);
        let r = Self::decode(&outcome);
        self.cache.record(request, outcome);
        r
    }

    /// Splits a combined output stream into diagnostics and program output.
    pub fn parse_output(raw: &[u8]) -> (r: (String, Option<String>))
        ensures
            r.0@ == decode_spec(raw@).0,
            option_view(r.1) == decode_spec(raw@).1,
    {
        let r = parse_output(raw);
        r
    }
}

fn web_env_vec() -> (r: Vec<(String, String)>)
    ensures
        crate::request::env_view(r@) == web_env(),
{
    let mut r: Vec<(String, String)> = Vec::new();
    r.push((CONTEXT_VAR.to_owned(), CONTEXT_WEB.to_owned()));
    assert(crate::request::env_view(r@) =~= web_env());
    r
}

/// A run that hit its deadline is never a success, and its output is what
/// the process wrote followed by the timeout marker.
pub proof fn lemma_timeout_outcome(run: RunView)
    requires
        run.timed_out,
    ensures
        !(settled(run).0 is Success),
        settled(run).1 == run.output + TIMEOUT_MARKER.spec_bytes(),
        settled(run).1.subrange(
            run.output.len() as int,
            settled(run).1.len() as int,
        ) == TIMEOUT_MARKER.spec_bytes(),
{
    assert(settled(run).1.subrange(run.output.len() as int, settled(run).1.len() as int)
        =~= TIMEOUT_MARKER.spec_bytes());
}

/// In a cache that can hold anything, a request that missed the cache runs
/// again later only if its run failed:
/// after a successful run the next identical request is answered from the
/// cache with that run's outcome, and after a failed one the cache still has
/// no entry for it.
pub proof fn lemma_runs_again_only_after_failure(s: Seq<Entry>, cap: nat, k: RequestView, run: RunView)
    requires
        model_wf(s, cap),
        cap > 0,
        cached(s, k) is None,
    ensures
        model_wf(after_run(s, cap, k, run), cap),
        settled(run).0 is Success ==> cached(after_run(s, cap, k, run), k) == Some(settled(run)),
        !(settled(run).0 is Success) ==> cached(after_run(s, cap, k, run), k) is None,
{
    if settled(run).0 is Success {
        crate::cache::lemma_success_is_reused(s, cap, k, settled(run));
    }
}

} // verus!

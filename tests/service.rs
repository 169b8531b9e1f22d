use pony_playground::sandbox::run_result;
use pony_playground::{
    Action, Branch, CompileOutput, Evaluation, Event, ExecCache, ExitState, Outcome, Pending,
    Phase, Playpen, RunResult, SandboxError, SandboxRequest, Verdict,
};

fn request(input: &str) -> SandboxRequest {
    SandboxRequest {
        command: "/usr/local/bin/evaluate.sh".to_string(),
        args: vec![],
        env: vec![("PLAYPEN_ENV".to_string(), "web".to_string())],
        input: input.to_string(),
        image: "ponylang-playpen:latest".to_string(),
    }
}

fn success(output: &[u8]) -> Outcome {
    Outcome { status: ExitState::Success, output: output.to_vec() }
}

fn finished(status: ExitState, output: &[u8]) -> RunResult {
    RunResult { status, output: output.to_vec(), timed_out: false }
}

fn expect_run(p: Pending) -> SandboxRequest {
    match p {
        Pending::Run(r) => r,
        Pending::Cached(_) => panic!("expected a run"),
    }
}

fn expect_cached(p: Pending) -> Evaluation {
    match p {
        Pending::Cached(e) => e,
        Pending::Run(_) => panic!("expected a cached answer"),
    }
}

#[test]
fn hello_program_end_to_end() {
    let mut pp = Playpen::new();
    let req = expect_run(pp.evaluate(Branch::Release, "actor Main".to_string()));
    assert_eq!(req.command, "/usr/local/bin/evaluate.sh");
    assert!(req.args.is_empty());
    assert_eq!(req.input, "actor Main");
    assert_eq!(req.image, "ponylang-playpen:latest");
    let e = pp.complete(req, finished(ExitState::Success, b"\xffhello"));
    assert!(e.success);
    assert_eq!(e.compiler, "");
    assert_eq!(e.output, Some("hello".to_string()));
}

#[test]
fn successful_run_is_reused() {
    let mut pp = Playpen::new();
    let req = expect_run(pp.evaluate(Branch::Release, "code".to_string()));
    pp.complete(req, finished(ExitState::Success, b"ok\xffout"));
    let e = expect_cached(pp.evaluate(Branch::Release, "code".to_string()));
    assert!(e.success);
    assert_eq!(e.compiler, "ok");
    assert_eq!(e.output, Some("out".to_string()));
}

#[test]
fn failed_run_is_run_again() {
    let mut pp = Playpen::new();
    let req = expect_run(pp.evaluate(Branch::Release, "bad".to_string()));
    let e = pp.complete(req, finished(ExitState::Failure { code: Some(1) }, b"error"));
    assert!(!e.success);
    assert_eq!(e.output, None);
    expect_run(pp.evaluate(Branch::Release, "bad".to_string()));
}

#[test]
fn requests_differ_by_branch_and_format() {
    let mut pp = Playpen::new();
    let req = expect_run(pp.evaluate(Branch::Release, "c".to_string()));
    pp.complete(req, finished(ExitState::Success, b"\xff1"));
    expect_run(pp.evaluate(Branch::Regions, "c".to_string()));
    let assembly = expect_run(pp.compile(Branch::Release, "c".to_string(), CompileOutput::Asm));
    assert_eq!(assembly.command, "/usr/local/bin/compile.sh");
    assert_eq!(assembly.args, vec!["--pass=asm".to_string()]);
    pp.complete(assembly, finished(ExitState::Success, b"\xffmov"));
    let llvm = expect_run(pp.compile(Branch::Release, "c".to_string(), CompileOutput::Llvm));
    assert_eq!(llvm.args, vec!["--pass=ir".to_string()]);
    let e = expect_cached(pp.compile(Branch::Release, "c".to_string(), CompileOutput::Asm));
    assert_eq!(e.output, Some("mov".to_string()));
}

#[test]
fn timed_out_run_is_marked_and_not_kept() {
    let mut pp = Playpen::new();
    let req = expect_run(pp.evaluate(Branch::Release, "loop".to_string()));
    let run = RunResult { status: ExitState::Success, output: b"\xffpartial".to_vec(), timed_out: true };
    let e = pp.complete(req, run);
    assert!(!e.success);
    assert_eq!(e.output, Some("partial\ntimeout triggered!".to_string()));
    expect_run(pp.evaluate(Branch::Release, "loop".to_string()));
}

#[test]
fn settle_keeps_partial_output_and_appends_marker() {
    let o = Playpen::settle(RunResult {
        status: ExitState::Failure { code: None },
        output: b"abc".to_vec(),
        timed_out: true,
    });
    assert_eq!(o.status, ExitState::Failure { code: None });
    assert_eq!(o.output, b"abc\ntimeout triggered!".to_vec());
    let o = Playpen::settle(finished(ExitState::Failure { code: Some(2) }, b"abc"));
    assert_eq!(o.status, ExitState::Failure { code: Some(2) });
    assert_eq!(o.output, b"abc".to_vec());
}

#[test]
fn cache_hit_returns_stored_outcome() {
    let mut c = ExecCache::new(2);
    assert!(c.lookup(&request("a")).is_none());
    c.record(request("a"), success(b"out-a"));
    let o = c.lookup(&request("a")).unwrap();
    assert_eq!(o.output, b"out-a".to_vec());
    assert_eq!(o.status, ExitState::Success);
}

#[test]
fn cache_ignores_failures() {
    let mut c = ExecCache::new(2);
    c.record(request("a"), Outcome { status: ExitState::Failure { code: Some(1) }, output: vec![] });
    assert!(c.lookup(&request("a")).is_none());
}

#[test]
fn full_cache_evicts_least_recently_used() {
    let mut c = ExecCache::new(2);
    c.record(request("a"), success(b"1"));
    c.record(request("b"), success(b"2"));
    c.record(request("c"), success(b"3"));
    assert!(c.lookup(&request("a")).is_none());
    assert_eq!(c.lookup(&request("b")).unwrap().output, b"2".to_vec());
    assert_eq!(c.lookup(&request("c")).unwrap().output, b"3".to_vec());
}

#[test]
fn lookup_refreshes_recency() {
    let mut c = ExecCache::new(2);
    c.record(request("a"), success(b"1"));
    c.record(request("b"), success(b"2"));
    assert!(c.lookup(&request("a")).is_some());
    c.record(request("c"), success(b"3"));
    assert!(c.lookup(&request("b")).is_none());
    assert!(c.lookup(&request("a")).is_some());
    assert!(c.lookup(&request("c")).is_some());
}

#[test]
fn recording_again_replaces_without_evicting() {
    let mut c = ExecCache::new(2);
    c.record(request("a"), success(b"1"));
    c.record(request("b"), success(b"2"));
    c.record(request("a"), success(b"9"));
    assert_eq!(c.lookup(&request("a")).unwrap().output, b"9".to_vec());
    assert!(c.lookup(&request("b")).is_some());
}

#[test]
fn capacity_of_service_cache() {
    let mut pp = Playpen::new();
    for i in 0..257 {
        let req = expect_run(pp.evaluate(Branch::Release, format!("p{}", i)));
        pp.complete(req, finished(ExitState::Success, b"\xffx"));
    }
    expect_run(pp.evaluate(Branch::Release, "p0".to_string()));
    expect_cached(pp.evaluate(Branch::Release, "p256".to_string()));
}

fn drive(events: &[Event]) -> (Phase, Vec<Action>) {
    let mut p = Phase::initial();
    let mut acts = Vec::new();
    for e in events {
        acts.push(p.action());
        p = p.step(*e);
    }
    acts.push(p.action());
    (p, acts)
}

fn destroys(acts: &[Action]) -> usize {
    acts.iter().filter(|a| **a == Action::Destroy).count()
}

#[test]
fn normal_run_destroys_once() {
    let (p, acts) = drive(&[Event::Done, Event::Done, Event::Done, Event::Exited(ExitState::Success), Event::Done, Event::Done]);
    assert_eq!(acts, vec![Action::Create, Action::Start, Action::Feed, Action::Wait, Action::Collect, Action::Destroy, Action::Finish]);
    assert_eq!(p, Phase::Done { verdict: Verdict::Completed { status: ExitState::Success, timed_out: false }, created: true });
}

#[test]
fn timeout_run_kills_then_destroys_once() {
    let killed = ExitState::Failure { code: None };
    let (p, acts) = drive(&[Event::Done, Event::Done, Event::Done, Event::DeadlinePassed, Event::Exited(killed), Event::Done, Event::Done]);
    assert_eq!(destroys(&acts), 1);
    assert!(acts.contains(&Action::Kill));
    assert_eq!(p, Phase::Done { verdict: Verdict::Completed { status: killed, timed_out: true }, created: true });
}

#[test]
fn failures_still_destroy_once() {
    let (p, acts) = drive(&[Event::Done, Event::Done, Event::Failed, Event::Failed]);
    assert_eq!(destroys(&acts), 1);
    assert_eq!(p, Phase::Done { verdict: Verdict::ExecutionFailed, created: true });
    let (p, acts) = drive(&[Event::Done, Event::Done, Event::Done, Event::Exited(ExitState::Success), Event::Failed, Event::Done, Event::Done]);
    assert_eq!(destroys(&acts), 1);
    assert_eq!(p, Phase::Done { verdict: Verdict::ExecutionFailed, created: true });
}

#[test]
fn setup_failure_has_nothing_to_destroy() {
    let (p, acts) = drive(&[Event::Failed, Event::Done]);
    assert_eq!(destroys(&acts), 0);
    assert_eq!(p, Phase::Done { verdict: Verdict::SetupFailed, created: false });
}

#[test]
fn verdicts_map_to_results() {
    let r = run_result(Verdict::Completed { status: ExitState::Success, timed_out: true }, b"x".to_vec()).ok().unwrap();
    assert!(r.timed_out);
    assert_eq!(r.output, b"x".to_vec());
    assert_eq!(run_result(Verdict::SetupFailed, vec![]).err(), Some(SandboxError::Setup));
    assert_eq!(run_result(Verdict::ExecutionFailed, vec![]).err(), Some(SandboxError::Execution));
}

#[test]
fn zero_capacity_cache_keeps_nothing() {
    let mut c = ExecCache::new(0);
    c.record(request("a"), success(b"1"));
    assert!(c.lookup(&request("a")).is_none());
}

#[test]
fn hit_on_oldest_evicts_second_oldest() {
    let mut c = ExecCache::new(3);
    c.record(request("a"), success(b"1"));
    c.record(request("b"), success(b"2"));
    c.record(request("c"), success(b"3"));
    assert!(c.lookup(&request("a")).is_some());
    c.record(request("d"), success(b"4"));
    assert!(c.lookup(&request("b")).is_none());
    assert_eq!(c.lookup(&request("a")).unwrap().output, b"1".to_vec());
    assert!(c.lookup(&request("c")).is_some());
    assert!(c.lookup(&request("d")).is_some());
}

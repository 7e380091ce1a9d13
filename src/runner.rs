//! The bookkeeping of a task runner: the task and its result, the plan that
//! puts the environment back as it was, which argument names the source
//! file, and what is made of the captured output.

use vstd::prelude::*;
use crate::json::{json_text_of_str, json_text_of_strings};
use crate::outside::{push_str, write_str, write_strings};
use crate::text::{chars_of, copy_range, find_byte_from, find_char, first_index, same_text};

verus! {

/// The text of an optional string.
pub open spec fn opt_text(o: Option<String>) -> Option<Seq<char>> {
    match o {
        Some(s) => Some(s@),
        None => None,
    }
}

/// The text of a list of variables.
pub open spec fn vars_view(v: Seq<(String, String)>) -> Seq<(Seq<char>, Seq<char>)> {
    v.map_values(|p: (String, String)| (p.0@, p.1@))
}

/// The text of a list of environment changes.
pub open spec fn ops_view(v: Seq<(String, Option<String>)>) -> Seq<(Seq<char>, Option<Seq<char>>)> {
    v.map_values(|p: (String, Option<String>)| (p.0@, opt_text(p.1)))
}

/// The environment that a list of variables sets, later entries winning.
pub open spec fn env_of(vars: Seq<(Seq<char>, Seq<char>)>) -> Map<Seq<char>, Seq<char>>
    decreases vars.len(),
{
    if vars.len() == 0 {
        Map::empty()
    } else {
        env_of(vars.drop_last()).insert(vars.last().0, vars.last().1)
    }
}

/// The environment after a list of changes, in order: a value sets the
/// variable, `None` unsets it.
pub open spec fn apply_env_ops(
    m: Map<Seq<char>, Seq<char>>,
    ops: Seq<(Seq<char>, Option<Seq<char>>)>,
) -> Map<Seq<char>, Seq<char>>
    decreases ops.len(),
{
    if ops.len() == 0 {
        m
    } else {
        let prev = apply_env_ops(m, ops.drop_last());
        match ops.last().1 {
            Some(v) => prev.insert(ops.last().0, v),
            None => prev.remove(ops.last().0),
        }
    }
}

/// Whether a list of variables names `k`.
pub open spec fn has_key(vars: Seq<(Seq<char>, Seq<char>)>, k: Seq<char>) -> bool {
    exists|i: int| 0 <= i < vars.len() && #[trigger] vars[i].0 == k
}

/// Unsets of the variables of `current` that `snapshot` does not name.
pub open spec fn unset_absent(
    snapshot: Seq<(Seq<char>, Seq<char>)>,
    current: Seq<(Seq<char>, Seq<char>)>,
) -> Seq<(Seq<char>, Option<Seq<char>>)>
    decreases current.len(),
{
    if current.len() == 0 {
        Seq::empty()
    } else {
        let rest = unset_absent(snapshot, current.drop_last());
        if has_key(snapshot, current.last().0) {
            rest
        } else {
            rest.push((current.last().0, None))
        }
    }
}

/// Sets of every variable of `snapshot`, in order.
pub open spec fn set_all(snapshot: Seq<(Seq<char>, Seq<char>)>) -> Seq<(Seq<char>, Option<Seq<char>>)> {
    snapshot.map_values(|p: (Seq<char>, Seq<char>)| (p.0, Some(p.1)))
}

/// The changes that turn the environment `current` back into `snapshot`.
pub open spec fn restore_ops(
    snapshot: Seq<(Seq<char>, Seq<char>)>,
    current: Seq<(Seq<char>, Seq<char>)>,
) -> Seq<(Seq<char>, Option<Seq<char>>)> {
    unset_absent(snapshot, current) + set_all(snapshot)
}

proof fn lemma_apply_concat(
    m: Map<Seq<char>, Seq<char>>,
    a: Seq<(Seq<char>, Option<Seq<char>>)>,
    b: Seq<(Seq<char>, Option<Seq<char>>)>,
)
    ensures
        apply_env_ops(m, a + b) == apply_env_ops(apply_env_ops(m, a), b),
    decreases b.len(),
{
    if b.len() == 0 {
        assert(a + b =~= a);
    } else {
        lemma_apply_concat(m, a, b.drop_last());
        assert((a + b).drop_last() =~= a + b.drop_last());
        assert((a + b).last() == b.last());
    }
}

proof fn lemma_set_all(m: Map<Seq<char>, Seq<char>>, s: Seq<(Seq<char>, Seq<char>)>)
    ensures
        apply_env_ops(m, set_all(s)) == m.union_prefer_right(env_of(s)),
    decreases s.len(),
{
    if s.len() == 0 {
        assert(m.union_prefer_right(Map::empty()) =~= m);
    } else {
        lemma_set_all(m, s.drop_last());
        assert(set_all(s).drop_last() =~= set_all(s.drop_last()));
        assert(apply_env_ops(m, set_all(s)) =~= m.union_prefer_right(env_of(s)));
    }
}

proof fn lemma_env_domain(c: Seq<(Seq<char>, Seq<char>)>, k: Seq<char>)
    ensures
        env_of(c).contains_key(k) <==> has_key(c, k),
    decreases c.len(),
{
    if c.len() > 0 {
        let c1 = c.drop_last();
        lemma_env_domain(c1, k);
        if has_key(c1, k) {
            let i = choose|i: int| 0 <= i < c1.len() && #[trigger] c1[i].0 == k;
            assert(c[i].0 == k);
        }
        if has_key(c, k) && c.last().0 != k {
            let i = choose|i: int| 0 <= i < c.len() && #[trigger] c[i].0 == k;
            assert(c1[i].0 == k);
        }
    }
}

proof fn lemma_unset_absent(
    m: Map<Seq<char>, Seq<char>>,
    s: Seq<(Seq<char>, Seq<char>)>,
    c: Seq<(Seq<char>, Seq<char>)>,
    k: Seq<char>,
)
    requires
        apply_env_ops(m, unset_absent(s, c)).contains_key(k),
    ensures
        m.contains_key(k),
        has_key(c, k) ==> has_key(s, k),
    decreases c.len(),
{
    if c.len() > 0 {
        let c1 = c.drop_last();
        let rest = unset_absent(s, c1);
        if !has_key(s, c.last().0) {
            assert(rest.push((c.last().0, None)).drop_last() =~= rest);
        }
        lemma_unset_absent(m, s, c1, k);
        if has_key(c, k) && c.last().0 != k {
            let i = choose|i: int| 0 <= i < c.len() && #[trigger] c[i].0 == k;
            assert(c1[i].0 == k);
        }
    }
}

/// Applying the restore plan to whatever environment the task left behind
/// gives back exactly the environment of the snapshot taken before it.
pub proof fn lemma_restore_gives_snapshot(
    snapshot: Seq<(Seq<char>, Seq<char>)>,
    current: Seq<(Seq<char>, Seq<char>)>,
)
    ensures
        apply_env_ops(env_of(current), restore_ops(snapshot, current)) == env_of(snapshot),
{
    let m = env_of(current);
    let u = unset_absent(snapshot, current);
    lemma_apply_concat(m, u, set_all(snapshot));
    let mid = apply_env_ops(m, u);
    lemma_set_all(mid, snapshot);
    assert forall|k: Seq<char>| #[trigger] mid.contains_key(k) implies env_of(snapshot).contains_key(k) by {
        lemma_unset_absent(m, snapshot, current, k);
        lemma_env_domain(current, k);
        lemma_env_domain(snapshot, k);
    }
    assert(mid.union_prefer_right(env_of(snapshot)) =~= env_of(snapshot));
}

fn names_key(vars: &Vec<(String, String)>, key: &String) -> (r: bool)
    ensures
        r == has_key(vars_view(vars@), key@),
{
    let mut j: usize = 0;
    while j < vars.len()
        invariant
            j <= vars@.len(),
            forall|i: int| 0 <= i < j ==> vars@[i].0@ != key@,
        decreases vars.len() - j,
    {
        if vars[j].0 == *key {
            assert(vars_view(vars@)[j as int].0 == key@);
            return true;
        }
        j = j + 1;
    }
    proof {
        if has_key(vars_view(vars@), key@) {
            let i = choose|i: int| 0 <= i < vars@.len() && #[trigger] vars_view(vars@)[i].0 == key@;
            assert(vars@[i].0@ == key@);
        }
    }
    false
}

/// The changes that turn the environment `current` back into `snapshot`:
/// unset what `snapshot` does not name, then set all of `snapshot`.
pub fn restore_plan(snapshot: &Vec<(String, String)>, current: &Vec<(String, String)>) -> (r: Vec<(String, Option<String>)>)
    ensures
        ops_view(r@) == restore_ops(vars_view(snapshot@), vars_view(current@)),
{
    let ghost s = vars_view(snapshot@);
    let mut r: Vec<(String, Option<String>)> = Vec::new();
    let mut i: usize = 0;
    while i < current.len()
        invariant
            i <= current@.len(),
            s == vars_view(snapshot@),
            ops_view(r@) == unset_absent(s, vars_view(current@.take(i as int))),
        decreases current.len() - i,
    {
        let ghost before = r@;
        let key = &current[i].0;
        let present = names_key(snapshot, key);
        let ghost c = vars_view(current@.take(i as int + 1));
        assert(c.drop_last() =~= vars_view(current@.take(i as int)));
        assert(c.last().0 == key@);
        if !present {
            r.push((key.clone(), None));
            assert(ops_view(r@) =~= ops_view(before).push((key@, None)));
        }
        i = i + 1;
    }
    assert(current@.take(i as int) =~= current@);
    let ghost unsets = r@;
    let mut j: usize = 0;
    while j < snapshot.len()
        invariant
            j <= snapshot@.len(),
            s == vars_view(snapshot@),
            ops_view(unsets) == unset_absent(s, vars_view(current@)),
            r@.len() == unsets.len() + j,
            ops_view(r@) == ops_view(unsets) + set_all(s.take(j as int)),
        decreases snapshot.len() - j,
    {
        let ghost before = r@;
        let k = snapshot[j].0.clone();
        let v = snapshot[j].1.clone();
        r.push((k, Some(v)));
        assert(set_all(s.take(j as int + 1)) =~= set_all(s.take(j as int)).push((s[j as int].0, Some(s[j as int].1))));
        assert(ops_view(r@) =~= ops_view(before).push((s[j as int].0, Some(s[j as int].1))));
        j = j + 1;
    }
    assert(s.take(j as int) =~= s);
    r
}

/// One compilation unit to run: the bytes for its input stream, if any, its
/// argument list, and the environment changes to make while it runs.
#[derive(Debug)]
pub struct Task {
    input: Option<Vec<u8>>,
    args: Vec<String>,
    env: Vec<(String, Option<String>)>,
}

/// What running a task produced.
#[derive(Debug)]
pub struct TaskResult {
    pub is_error: bool,
    pub stdout: Vec<u8>,
    pub stderr: Vec<u8>,
}

/// How the work unit of a task ended.
#[derive(PartialEq, Eq, Structural, Clone, Copy, Debug)]
pub enum WorkOutcome {
    /// It returned, saying whether it failed.
    Finished { failed: bool },
    /// It stopped without returning.
    Aborted,
}

/// The bytes that a task's input stream reads: its input, or nothing.
pub open spec fn input_bytes(input: Option<Vec<u8>>) -> Seq<u8> {
    match input {
        Some(v) => v@,
        None => Seq::empty(),
    }
}

impl Task {
    /// The task's input bytes, if any.
    pub closed spec fn input_spec(&self) -> Option<Vec<u8>> {
        self.input
    }

    /// The task's arguments.
    pub closed spec fn args_spec(&self) -> Seq<String> {
        self.args@
    }

    /// The task's environment changes.
    pub closed spec fn env_spec(&self) -> Seq<(String, Option<String>)> {
        self.env@
    }

    /// A task.
    pub fn new(input: Option<Vec<u8>>, args: Vec<String>, env: Vec<(String, Option<String>)>) -> (t: Task)
        ensures
            t.input_spec() == input,
            t.args_spec() == args@,
            t.env_spec() == env@,
    {
        Task { input, args, env }
    }

    /// The task's arguments.
    pub fn args(&self) -> (r: &Vec<String>)
        ensures
            r@ == self.args_spec(),
    {
        &self.args
    }

    /// The task's environment changes.
    pub fn env(&self) -> (r: &Vec<(String, Option<String>)>)
        ensures
            r@ == self.env_spec(),
    {
        &self.env
    }

    /// The bytes that the work unit reads from its input stream; with no
    /// input it reads an immediate end.
    pub fn stdin_bytes(&self) -> (r: Vec<u8>)
        ensures
            r@ == input_bytes(self.input_spec()),
    {
        match &self.input {
            Some(v) => v.clone(),
            None => Vec::new(),
        }
    }
}

/// The result of a task whose work unit ended as `outcome`, with the bytes
/// captured from its output and error streams. A work unit that stopped
/// without returning counts as failed; its captured bytes are kept.
pub fn task_result(outcome: WorkOutcome, stdout: Vec<u8>, stderr: Vec<u8>) -> (r: TaskResult)
    ensures
        r.is_error == match outcome {
            WorkOutcome::Finished { failed } => failed,
            WorkOutcome::Aborted => true,
        },
        r.stdout@ == stdout@,
        r.stderr@ == stderr@,
{
    let is_error = match outcome {
        WorkOutcome::Finished { failed } => failed,
        WorkOutcome::Aborted => true,
    };
    TaskResult { is_error, stdout, stderr }
}

/// Compiler flags that take the next argument as their value.
pub open spec fn takes_value(a: Seq<char>) -> bool {
    a == "--crate-name"@ || a == "--crate-type"@ || a == "--check-cfg"@ || a == "--out-dir"@
        || a == "--target"@ || a == "-L"@
}

/// Arguments that the scan passes over alone.
pub open spec fn skipped_alone(a: Seq<char>) -> bool {
    a == "rustc"@ || a == "-C"@
}

/// Whether `a` holds an `=`.
pub open spec fn has_equals(a: Seq<char>) -> bool {
    first_index(a, '=') is Some
}

/// The position of the source file among compiler arguments, scanning from
/// `i`: an argument with `=` is passed over together with the check of the
/// one after it, program name and `-C` are passed over, a flag that takes a
/// value is passed over with its value, and `-vV` ends the scan with none.
pub open spec fn source_index_from(a: Seq<Seq<char>>, i: int) -> Option<int>
    decreases a.len() + 2 - i,
{
    if i < 0 || i >= a.len() {
        None
    } else {
        let j = if has_equals(a[i]) { i + 1 } else { i };
        if j >= a.len() {
            None
        } else if a[j] == "-vV"@ {
            None
        } else if skipped_alone(a[j]) {
            source_index_from(a, j + 1)
        } else if takes_value(a[j]) {
            source_index_from(a, j + 2)
        } else {
            Some(j)
        }
    }
}

/// The text of a list of strings.
pub open spec fn texts(v: Seq<String>) -> Seq<Seq<char>> {
    v.map_values(|s: String| s@)
}

/// The position of the source file among the compiler's arguments, the
/// program name first; the runner resolves that one argument against the
/// working directory.
pub fn source_arg_index(args: &Vec<String>) -> (r: Option<usize>)
    ensures
        match source_index_from(texts(args@), 0) {
            Some(j) => r == Some(j as usize),
            None => r is None,
        },
{
    let ghost a = texts(args@);
    let mut i: usize = 0;
    while i < args.len()
        invariant
            a == texts(args@),
            source_index_from(a, i as int) == source_index_from(a, 0),
        decreases args.len() - i,
    {
        let here = chars_of(args[i].as_str());
        let mut j: usize = i;
        if find_char(&here, '=').is_some() {
            j = i + 1;
        }
        assert(a[i as int] == args@[i as int]@);
        if j >= args.len() {
            return None;
        }
        let arg = args[j].as_str();
        assert(a[j as int] == arg@);
        if same_text(arg, "-vV") {
            return None;
        } else if same_text(arg, "rustc") || same_text(arg, "-C") {
            i = j + 1;
        } else if same_text(arg, "--crate-name") || same_text(arg, "--crate-type")
            || same_text(arg, "--check-cfg") || same_text(arg, "--out-dir")
            || same_text(arg, "--target") || same_text(arg, "-L") {
            if j + 1 >= args.len() {
                assert(source_index_from(a, j as int + 2) is None);
                return None;
            }
            i = j + 2;
        } else {
            return Some(j);
        }
    }
    None
}

/// How far a task run got in setting up its captures.
#[derive(PartialEq, Eq, Structural, Clone, Copy, Debug)]
pub struct RunProgress {
    pub stdout_started: bool,
    pub stderr_started: bool,
    pub stdin_started: bool,
}

/// One step of putting the process back as it was after a task.
#[derive(PartialEq, Eq, Structural, Clone, Copy, Debug)]
pub enum TeardownStep {
    StopStdout,
    StopStderr,
    StopStdin,
    RestoreEnv,
}

/// The teardown after a run that got as far as `p`: stop exactly the
/// captures that were started, then restore the environment, always.
pub open spec fn teardown_seq(p: RunProgress) -> Seq<TeardownStep> {
    (if p.stdout_started { seq![TeardownStep::StopStdout] } else { Seq::empty() })
        + (if p.stderr_started { seq![TeardownStep::StopStderr] } else { Seq::empty() })
        + (if p.stdin_started { seq![TeardownStep::StopStdin] } else { Seq::empty() })
        + seq![TeardownStep::RestoreEnv]
}

/// The teardown steps after a run that got as far as `p`, on every exit
/// path: normal return, a failed setup step, or an aborted work unit.
pub fn teardown_steps(p: RunProgress) -> (r: Vec<TeardownStep>)
    ensures
        r@ == teardown_seq(p),
{
    let mut r: Vec<TeardownStep> = Vec::new();
    if p.stdout_started {
        r.push(TeardownStep::StopStdout);
    }
    if p.stderr_started {
        r.push(TeardownStep::StopStderr);
    }
    if p.stdin_started {
        r.push(TeardownStep::StopStdin);
    }
    r.push(TeardownStep::RestoreEnv);
    assert(r@ =~= teardown_seq(p));
    r
}

/// A line without the carriage return that ended it, if any.
pub open spec fn strip_cr(l: Seq<u8>) -> Seq<u8> {
    if l.len() > 0 && l.last() == 13 { l.drop_last() } else { l }
}

/// The pieces of `b` between line feeds; each piece that a line feed ends
/// loses a carriage return before it. The last piece may be empty.
pub open spec fn split_lines(b: Seq<u8>) -> Seq<Seq<u8>>
    decreases b.len(),
{
    match first_index(b, 10u8) {
        Some(i) => if 0 <= i < b.len() {
            seq![strip_cr(b.take(i))] + split_lines(b.skip(i + 1))
        } else {
            seq![b]
        },
        None => seq![b],
    }
}

/// The lines of `b`: a final line feed ends the last line and starts none.
pub open spec fn lines_of(b: Seq<u8>) -> Seq<Seq<u8>> {
    let p = split_lines(b);
    if p.len() > 0 && p.last().len() == 0 { p.drop_last() } else { p }
}

/// Whether a line starts with `{`.
pub open spec fn is_json_line(l: Seq<u8>) -> bool {
    l.len() > 0 && l[0] == 123
}

/// The lines that start with `{`, in order.
pub open spec fn json_only(ls: Seq<Seq<u8>>) -> Seq<Seq<u8>>
    decreases ls.len(),
{
    if ls.len() == 0 {
        Seq::empty()
    } else if is_json_line(ls.last()) {
        json_only(ls.drop_last()).push(ls.last())
    } else {
        json_only(ls.drop_last())
    }
}

/// The views of a list of byte vectors.
pub open spec fn byte_lines(v: Seq<Vec<u8>>) -> Seq<Seq<u8>> {
    v.map_values(|l: Vec<u8>| l@)
}

fn split_into_lines(b: &[u8]) -> (r: Vec<Vec<u8>>)
    ensures
        byte_lines(r@) == split_lines(b@),
{
    let mut r: Vec<Vec<u8>> = Vec::new();
    let mut start: usize = 0;
    let total: usize = b.len();
    assert(b@.skip(0) =~= b@);
    assert(byte_lines(r@) + split_lines(b@) =~= split_lines(b@));
    loop
        invariant
            start <= b@.len(),
            total == b@.len(),
            split_lines(b@) == byte_lines(r@) + split_lines(b@.skip(start as int)),
        decreases b@.len() - start,
    {
        let ghost rest = b@.skip(start as int);
        match find_byte_from(b, 10, start) {
            None => {
                assert(split_lines(rest) == seq![rest]);
                let piece = copy_range(b, start, b.len());
                assert(piece@ =~= rest);
                let ghost before = r@;
                r.push(piece);
                assert(byte_lines(r@) =~= byte_lines(before) + seq![rest]);
                return r;
            },
            Some(i) => {
                proof {
                    let k = first_index(rest, 10u8)->Some_0;
                    assert(i == start + k);
                    assert(i < b@.len());
                }
                let k: usize = i - start;
                assert(rest.take(k as int) =~= b@.subrange(start as int, i as int));
                assert(rest.skip(k as int + 1) =~= b@.skip(i as int + 1));
                let end: usize = if i > start && b[i - 1] == 13 { i - 1 } else { i };
                let piece = copy_range(b, start, end);
                assert(piece@ =~= strip_cr(rest.take(k as int)));
                let ghost before = r@;
                r.push(piece);
                assert(byte_lines(r@) =~= byte_lines(before).push(piece@));
                assert(byte_lines(before) + split_lines(rest) =~= byte_lines(r@) + split_lines(b@.skip(i as int + 1)));
                start = i + 1;
            },
        }
    }
}

/// The lines of captured output that start with `{`, the machine-readable
/// messages of the compiler, in order.
pub fn json_lines(b: &[u8]) -> (r: Vec<Vec<u8>>)
    ensures
        byte_lines(r@) == json_only(lines_of(b@)),
{
    let pieces = split_into_lines(b);
    let ghost p = split_lines(b@);
    let n: usize = if pieces.len() > 0 && pieces[pieces.len() - 1].len() == 0 {
        pieces.len() - 1
    } else {
        pieces.len()
    };
    assert(p.len() > 0 && p.last().len() == 0 ==> p.drop_last() == p.take(n as int));
    assert(p.take(n as int) =~= lines_of(b@)) by {
        if !(p.len() > 0 && p.last().len() == 0) {
            assert(p.take(n as int) =~= p);
        }
    }
    let mut r: Vec<Vec<u8>> = Vec::new();
    let mut i: usize = 0;
    while i < n
        invariant
            i <= n <= pieces@.len(),
            byte_lines(pieces@) == p,
            byte_lines(r@) == json_only(p.take(i as int)),
        decreases n - i,
    {
        let ghost before = r@;
        assert(p.take(i as int + 1).drop_last() =~= p.take(i as int));
        assert(p[i as int] == pieces@[i as int]@);
        if pieces[i].len() > 0 && pieces[i][0] == 123 {
            r.push(pieces[i].clone());
            assert(byte_lines(r@) =~= byte_lines(before).push(p[i as int]));
        }
        i = i + 1;
    }
    r
}

/// What a streamed run hands back: the failure with the error bytes, or the
/// output and error bytes when asked to keep them, else none.
pub fn streaming_output(result: &TaskResult, capture_output: bool) -> (r: Result<(Vec<u8>, Vec<u8>), Vec<u8>>)
    ensures
        result.is_error ==> (r matches Err(e) && e@ == result.stderr@),
        !result.is_error && capture_output ==> (r matches Ok((o, e)) && o@ == result.stdout@ && e@ == result.stderr@),
        !result.is_error && !capture_output ==> (r matches Ok((o, e)) && o@.len() == 0 && e@.len() == 0),
{
    if result.is_error {
        Err(result.stderr.clone())
    } else if capture_output {
        Ok((result.stdout.clone(), result.stderr.clone()))
    } else {
        Ok((Vec::new(), Vec::new()))
    }
}

/// The request that asks the host to run the compiler: the arguments, an
/// empty environment and the target, as a JSON object.
pub open spec fn run_request_text(args: Seq<Seq<char>>, target: Seq<char>) -> Seq<char> {
    "{\"args\":"@ + json_text_of_strings(args) + ",\"env\":[],\"target\":"@ + json_text_of_str(target) + "}"@
}

/// The JSON request that asks the host to run the compiler with `args` for
/// `target`.
pub fn run_request_json(args: &Vec<String>, target: &str) -> (r: String)
    ensures
        r@ == run_request_text(texts(args@), target@),
{
    let a = match write_strings(args) {
        Ok(a) => a,
        Err(_) => String::new(),
    };
    let t = match write_str(target) {
        Ok(t) => t,
        Err(_) => String::new(),
    };
    let mut r = String::new();
    push_str(&mut r, "{\"args\":");
    push_str(&mut r, a.as_str());
    push_str(&mut r, ",\"env\":[],\"target\":");
    push_str(&mut r, t.as_str());
    push_str(&mut r, "}");
    r
}

/// The argument list of a compiler run: the program name, then `args`.
/// Only the program `rustc` runs in process; any other gives `None`.
pub fn rustc_command_args(program: &str, args: &Vec<String>) -> (r: Option<Vec<String>>)
    ensures
        program@ != "rustc"@ ==> r is None,
        program@ == "rustc"@ ==> (r matches Some(v) && texts(v@) == seq!["rustc"@] + texts(args@)),
{
    if !same_text(program, "rustc") {
        return None;
    }
    let mut v: Vec<String> = Vec::new();
    v.push(program.to_owned());
    let mut i: usize = 0;
    while i < args.len()
        invariant
            i <= args@.len(),
            program@ == "rustc"@,
            texts(v@) == seq!["rustc"@] + texts(args@.take(i as int)),
        decreases args.len() - i,
    {
        let ghost before = v@;
        v.push(args[i].clone());
        assert(args@.take(i as int + 1) =~= args@.take(i as int).push(args@[i as int]));
        assert(texts(v@) =~= texts(before).push(args@[i as int]@));
        i = i + 1;
    }
    assert(args@.take(i as int) =~= args@);
    Some(v)
}

} // verus!

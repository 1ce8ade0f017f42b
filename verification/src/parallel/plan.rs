//! From the tokens that follow the options to the ordered list of jobs.
//!
//! A command line names its jobs in one of two ways. Where `--` follows the
//! options directly, every further token is a command line of its own, handed
//! to the shell. Otherwise the first token is a program, the tokens up to `--`
//! are arguments that every job gets, and the tokens behind `--` are dealt out
//! to the jobs in chunks.

use crate::ascii::{copy_bytes, copy_tokens, texts, MINUS};
use crate::parallel::options::{is_separator, separator, ArgumentError};
use vstd::prelude::*;

verus! {

/// One job: a program and the arguments it is started with.
#[derive(Clone, Debug, PartialEq, Eq)]
pub struct JobSpec {
    pub command: Vec<u8>,
    pub arguments: Vec<Vec<u8>>,
}

/// The mathematical value of a [`JobSpec`].
pub struct JobSpecView {
    pub command: Seq<u8>,
    pub arguments: Seq<Seq<u8>>,
}

impl View for JobSpec {
    type V = JobSpecView;

    open spec fn view(&self) -> JobSpecView {
        JobSpecView { command: self.command@, arguments: texts(self.arguments@) }
    }
}

/// The jobs that a list of job specifications holds, in order.
pub open spec fn plan_view(jobs: Seq<JobSpec>) -> Seq<JobSpecView> {
    jobs.map_values(|job: JobSpec| job@)
}

/// Where the jobs of a command line come from.
#[derive(Clone, Debug, PartialEq, Eq)]
pub enum JobSource {
    /// Every line is a command line for the shell.
    Explicit { lines: Vec<Vec<u8>> },
    /// One program, run once for each chunk of the variable arguments.
    Template { command: Vec<u8>, fixed: Vec<Vec<u8>>, variable: Vec<Vec<u8>> },
}

/// The mathematical value of a [`JobSource`].
pub enum JobSourceView {
    Explicit { lines: Seq<Seq<u8>> },
    Template { command: Seq<u8>, fixed: Seq<Seq<u8>>, variable: Seq<Seq<u8>> },
}

impl View for JobSource {
    type V = JobSourceView;

    open spec fn view(&self) -> JobSourceView {
        match self {
            JobSource::Explicit { lines } => JobSourceView::Explicit { lines: texts(lines@) },
            JobSource::Template { command, fixed, variable } => JobSourceView::Template {
                command: command@,
                fixed: texts(fixed@),
                variable: texts(variable@),
            },
        }
    }
}

/// The index of the first `--` among `tokens`, or their number if there is
/// none.
pub open spec fn separator_index(tokens: Seq<Seq<u8>>) -> int
    decreases tokens.len(),
{
    if tokens.len() == 0 || tokens[0] == separator() {
        0
    } else {
        1 + separator_index(tokens.skip(1))
    }
}

/// The tokens before the first `--`.
pub open spec fn before_separator(tokens: Seq<Seq<u8>>) -> Seq<Seq<u8>> {
    tokens.take(separator_index(tokens))
}

/// The tokens behind the first `--`; none where there is no `--`.
pub open spec fn after_separator(tokens: Seq<Seq<u8>>) -> Seq<Seq<u8>> {
    if separator_index(tokens) < tokens.len() {
        tokens.skip(separator_index(tokens) + 1)
    } else {
        Seq::empty()
    }
}

/// `separator_index` is the place of the first `--`: no token before it is
/// one, and it is one itself unless it is the end.
pub proof fn lemma_separator_index(tokens: Seq<Seq<u8>>)
    ensures
        0 <= separator_index(tokens) <= tokens.len(),
        forall|i: int| 0 <= i < separator_index(tokens) ==> tokens[i] != separator(),
        separator_index(tokens) < tokens.len() ==> tokens[separator_index(tokens)] == separator(),
    decreases tokens.len(),
{
    if tokens.len() > 0 && tokens[0] != separator() {
        let rest = tokens.skip(1);
        lemma_separator_index(rest);
        assert forall|i: int| 0 <= i < separator_index(tokens) implies tokens[i] != separator() by {
            if i > 0 {
                assert(tokens[i] == rest[i - 1]);
            }
        }
        if separator_index(tokens) < tokens.len() {
            assert(tokens[separator_index(tokens)] == rest[separator_index(rest)]);
        }
    }
}

/// A place that holds `--` and has none before it is the `separator_index`.
pub proof fn lemma_separator_index_unique(tokens: Seq<Seq<u8>>, k: int)
    requires
        0 <= k <= tokens.len(),
        forall|i: int| 0 <= i < k ==> tokens[i] != separator(),
        k < tokens.len() ==> tokens[k] == separator(),
    ensures
        separator_index(tokens) == k,
{
    lemma_separator_index(tokens);
    let found = separator_index(tokens);
    if found < k {
        assert(tokens[found] != separator());
    } else if found > k {
        assert(tokens[k] != separator());
    }
}

/// Splits `tokens` at the first `--`, which goes to neither side.
pub fn split_args(tokens: &Vec<Vec<u8>>) -> (halves: (Vec<Vec<u8>>, Vec<Vec<u8>>))
    ensures
        texts(halves.0@) == before_separator(texts(tokens@)),
        texts(halves.1@) == after_separator(texts(tokens@)),
{
    let ghost all = texts(tokens@);
    let mut at: usize = 0;
    while at < tokens.len() && !is_separator(&tokens[at])
        invariant
            at <= tokens.len(),
            all == texts(tokens@),
            forall|i: int| 0 <= i < at ==> all[i] != separator(),
        decreases tokens.len() - at,
    {
        at += 1;
    }
    proof {
        lemma_separator_index_unique(all, at as int);
    }
    let before = copy_tokens(tokens, 0, at);
    let after = if at < tokens.len() {
        copy_tokens(tokens, at + 1, tokens.len())
    } else {
        Vec::new()
    };
    proof {
        assert(texts(before@) =~= before_separator(all));
        assert(texts(after@) =~= after_separator(all));
    }
    (before, after)
}

/// The job that hands `line` to the shell: `sh -c line`.
pub open spec fn shell_job(line: Seq<u8>) -> JobSpecView {
    JobSpecView { command: seq![0x73u8, 0x68u8], arguments: seq![seq![MINUS, 0x63u8], line] }
}

/// The number of chunks of `size` that `len` arguments fill, the last of
/// which may be short.
pub open spec fn chunk_count(len: nat, size: nat) -> nat {
    if size == 0 {
        0
    } else if len % size == 0 {
        len / size
    } else {
        len / size + 1
    }
}

/// The `k`-th chunk of `size` of `arguments`.
pub open spec fn chunk(arguments: Seq<Seq<u8>>, size: nat, k: int) -> Seq<Seq<u8>> {
    arguments.subrange(
        k * size,
        if (k + 1) * size <= arguments.len() {
            (k + 1) * size
        } else {
            arguments.len() as int
        },
    )
}

/// The jobs of a source, in launch order, with `n_args` variable arguments
/// to each job of a template.
pub open spec fn planned(source: JobSourceView, n_args: usize) -> Seq<JobSpecView> {
    match source {
        JobSourceView::Explicit { lines } => Seq::new(lines.len(), |k: int| shell_job(lines[k])),
        JobSourceView::Template { command, fixed, variable } => Seq::new(
            chunk_count(variable.len(), n_args as nat),
            |k: int| JobSpecView { command, arguments: fixed + chunk(variable, n_args as nat, k) },
        ),
    }
}

/// The chunks before the last are inside the arguments.
proof fn lemma_chunk_bounds(len: nat, size: nat, k: nat)
    requires
        size > 0,
        k < chunk_count(len, size),
    ensures
        k * size < len,
        (k + 1) * size > len ==> k + 1 == chunk_count(len, size),
        (k + 1) * size == k * size + size,
{
    let q = len / size;
    let r = len % size;
    assert(len == q * size + r && 0 <= r < size) by (nonlinear_arith)
        requires
            size > 0,
            q == len / size,
            r == len % size,
    ;
    assert(k * size < len && ((k + 1) * size > len ==> k + 1 == chunk_count(len, size)) && (k + 1)
        * size == k * size + size) by (nonlinear_arith)
        requires
            size > 0,
            len == q * size + r,
            0 <= r < size,
            k < chunk_count(len, size),
            chunk_count(len, size) == if r == 0 {
                q
            } else {
                q + 1
            },
    ;
}

/// Chunking deals every argument out once and in order: the argument at `i`
/// is in chunk `i / size`, at place `i % size`.
pub proof fn lemma_chunks_hold_every_argument(arguments: Seq<Seq<u8>>, size: nat, i: int)
    requires
        size > 0,
        0 <= i < arguments.len(),
    ensures
        0 <= i / (size as int) < chunk_count(arguments.len(), size),
        0 <= i % (size as int) < chunk(arguments, size, i / (size as int)).len(),
        chunk(arguments, size, i / (size as int))[i % (size as int)] == arguments[i],
{
    let len = arguments.len();
    let count = chunk_count(len, size);
    let k = i / (size as int);
    let r = i % (size as int);
    assert(i == k * size + r && 0 <= r < size && k >= 0 && (k + 1) * size == k * size + size)
        by (nonlinear_arith)
        requires
            size > 0,
            i >= 0,
            k == i / (size as int),
            r == i % (size as int),
    ;
    let q = len / size;
    let m = len % size;
    assert(len == q * size + m && 0 <= m < size) by (nonlinear_arith)
        requires
            size > 0,
            q == len / size,
            m == len % size,
    ;
    assert(k < count) by (nonlinear_arith)
        requires
            size > 0,
            0 <= i < len,
            i == k * size + r,
            0 <= r < size,
            len == q * size + m,
            0 <= m < size,
            count == if m == 0 {
                q
            } else {
                q + 1
            },
    ;
}

/// Every chunk but the last is full, and no chunk is empty.
pub proof fn lemma_chunk_sizes(arguments: Seq<Seq<u8>>, size: nat, k: int)
    requires
        size > 0,
        0 <= k < chunk_count(arguments.len(), size),
    ensures
        0 < chunk(arguments, size, k).len() <= size,
        k < chunk_count(arguments.len(), size) - 1 ==> chunk(arguments, size, k).len() == size,
{
    lemma_chunk_bounds(arguments.len(), size, k as nat);
    if k < chunk_count(arguments.len(), size) - 1 {
        lemma_chunk_bounds(arguments.len(), size, (k + 1) as nat);
    }
}

/// One job of a template: the program with the fixed arguments and the
/// variable arguments `from..to`.
fn template_job(
    command: &Vec<u8>,
    fixed: &Vec<Vec<u8>>,
    variable: &Vec<Vec<u8>>,
    from: usize,
    to: usize,
) -> (job: JobSpec)
    requires
        from <= to <= variable.len(),
    ensures
        job@.command == command@,
        job@.arguments == texts(fixed@) + texts(variable@).subrange(from as int, to as int),
{
    let mut arguments = copy_tokens(fixed, 0, fixed.len());
    assert(texts(fixed@).subrange(0, fixed.len() as int) =~= texts(fixed@));
    let mut i: usize = from;
    while i < to
        invariant
            from <= i <= to <= variable.len(),
            texts(arguments@) == texts(fixed@) + texts(variable@).subrange(from as int, i as int),
        decreases to - i,
    {
        let ghost before = arguments@;
        arguments.push(copy_bytes(&variable[i]));
        assert(texts(arguments@) =~= texts(before).push(variable[i as int]@));
        assert(texts(variable@).subrange(from as int, i + 1) =~= texts(variable@).subrange(
            from as int,
            i as int,
        ).push(variable[i as int]@));
        assert(texts(arguments@) =~= texts(fixed@) + texts(variable@).subrange(
            from as int,
            i + 1,
        ));
        i += 1;
    }
    JobSpec { command: copy_bytes(command), arguments }
}

impl JobSource {
    /// Lists the jobs of this source in launch order.
    pub fn jobs(&self, n_args: usize) -> (jobs: Vec<JobSpec>)
        requires
            n_args > 0,
        ensures
            plan_view(jobs@) == planned(self@, n_args),
    {
        let mut jobs: Vec<JobSpec> = Vec::new();
        match self {
            JobSource::Explicit { lines } => {
                let mut k: usize = 0;
                while k < lines.len()
                    invariant
                        k <= lines.len(),
                        jobs@.len() == k,
                        forall|j: int|
                            0 <= j < k ==> (#[trigger] jobs@[j])@ == shell_job(lines[j]@),
                    decreases lines.len() - k,
                {
                    let mut arguments: Vec<Vec<u8>> = Vec::new();
                    arguments.push(vec![MINUS, 0x63u8]);
                    arguments.push(copy_bytes(&lines[k]));
                    let job = JobSpec { command: vec![0x73u8, 0x68u8], arguments };
                    proof {
                        assert(job@.command =~= shell_job(lines[k as int]@).command);
                        assert(job@.arguments =~= shell_job(lines[k as int]@).arguments);
                    }
                    jobs.push(job);
                    k += 1;
                }
                assert(plan_view(jobs@) =~= planned(self@, n_args));
            },
            JobSource::Template { command, fixed, variable } => {
                let len = variable.len();
                assert(len % n_args != 0 ==> len / n_args < len) by (nonlinear_arith)
                    requires
                        n_args > 0,
                ;
                let count = if len % n_args == 0 {
                    len / n_args
                } else {
                    len / n_args + 1
                };
                let ghost all = texts(variable@);
                let mut k: usize = 0;
                while k < count
                    invariant
                        k <= count,
                        n_args > 0,
                        len == variable.len(),
                        all == texts(variable@),
                        count == chunk_count(len as nat, n_args as nat),
                        jobs@.len() == k,
                        forall|j: int|
                            0 <= j < k ==> (#[trigger] jobs@[j])@ == (JobSpecView {
                                command: command@,
                                arguments: texts(fixed@) + chunk(all, n_args as nat, j),
                            }),
                    decreases count - k,
                {
                    proof {
                        lemma_chunk_bounds(len as nat, n_args as nat, k as nat);
                    }
                    let from = k * n_args;
                    let to = if len - from >= n_args {
                        from + n_args
                    } else {
                        len
                    };
                    let job = template_job(command, fixed, variable, from, to);
                    jobs.push(job);
                    k += 1;
                }
                assert(plan_view(jobs@) =~= planned(self@, n_args));
            },
        }
        jobs
    }
}

/// The ordered list of the jobs of one run. It is built once and never
/// changed; its order is the order in which the jobs are launched.
#[derive(Clone, Debug, PartialEq, Eq)]
pub struct ExecutionPlan {
    jobs: Vec<JobSpec>,
}

impl View for ExecutionPlan {
    type V = Seq<JobSpecView>;

    closed spec fn view(&self) -> Seq<JobSpecView> {
        plan_view(self.jobs@)
    }
}

impl ExecutionPlan {
    /// The plan of the jobs of `source`, with `n_args` variable arguments to
    /// each job of a template.
    pub fn new(source: &JobSource, n_args: usize) -> (plan: ExecutionPlan)
        requires
            n_args > 0,
        ensures
            plan@ == planned(source@, n_args),
    {
        ExecutionPlan { jobs: source.jobs(n_args) }
    }

    /// The number of jobs.
    pub fn len(&self) -> (len: usize)
        ensures
            len == self@.len(),
    {
        self.jobs.len()
    }

    /// The job at `index` in launch order.
    pub fn job(&self, index: usize) -> (job: &JobSpec)
        requires
            index < self@.len(),
        ensures
            job@ == self@[index as int],
    {
        &self.jobs[index]
    }

    /// All jobs, in launch order.
    pub fn jobs(&self) -> (jobs: &Vec<JobSpec>)
        ensures
            plan_view(jobs@) == self@,
    {
        &self.jobs
    }
}

/// The source of the jobs that `args` names from the token at `rest` on,
/// where the options end.
pub open spec fn job_source(args: Seq<Seq<u8>>, rest: int) -> Result<JobSourceView, ArgumentError> {
    if rest < 0 || rest >= args.len() {
        Err(ArgumentError::MissingCommand)
    } else if args[rest] == separator() {
        Ok(JobSourceView::Explicit { lines: args.skip(rest + 1) })
    } else {
        Ok(
            JobSourceView::Template {
                command: args[rest],
                fixed: before_separator(args.skip(rest + 1)),
                variable: after_separator(args.skip(rest + 1)),
            },
        )
    }
}

/// Reads the source of the jobs from the tokens that follow the options.
pub fn read_job_source(args: &Vec<Vec<u8>>, rest: usize) -> (result: Result<
    JobSource,
    ArgumentError,
>)
    ensures
        match result {
            Ok(source) => job_source(texts(args@), rest as int) == Ok::<
                JobSourceView,
                ArgumentError,
            >(source@),
            Err(error) => job_source(texts(args@), rest as int) == Err::<
                JobSourceView,
                ArgumentError,
            >(error),
        },
{
    if rest >= args.len() {
        return Err(ArgumentError::MissingCommand);
    }
    assert(texts(args@)[rest as int] == args[rest as int]@);
    let tail = copy_tokens(args, rest + 1, args.len());
    assert(texts(tail@) =~= texts(args@).skip(rest + 1));
    if is_separator(&args[rest]) {
        Ok(JobSource::Explicit { lines: tail })
    } else {
        let (fixed, variable) = split_args(&tail);
        Ok(JobSource::Template { command: copy_bytes(&args[rest]), fixed, variable })
    }
}

} // verus!

//! The whole command line: options first, then the jobs.

use crate::ascii::texts;
use crate::parallel::options::{
    scan_options, scanned, ArgumentError, Scan, ScanView, Settings, SettingsView,
};
use crate::parallel::plan::{job_source, planned, read_job_source, ExecutionPlan, JobSpecView};
use vstd::prelude::*;

verus! {

/// What a command line asks for.
#[derive(Clone, Debug, PartialEq, Eq)]
pub enum Invocation {
    /// Print the usage and succeed.
    Help,
    /// Run the jobs of `plan`, in its order, under `settings`.
    Run { settings: Settings, plan: ExecutionPlan },
}

/// The mathematical value of an [`Invocation`].
pub enum InvocationView {
    Help,
    Run { settings: SettingsView, plan: Seq<JobSpecView> },
}

impl View for Invocation {
    type V = InvocationView;

    open spec fn view(&self) -> InvocationView {
        match self {
            Invocation::Help => InvocationView::Help,
            Invocation::Run { settings, plan } => InvocationView::Run {
                settings: settings@,
                plan: plan@,
            },
        }
    }
}

/// What the arguments `args` of the program ask for: the options are read
/// first, and the tokens behind them name the jobs.
pub open spec fn invocation(args: Seq<Seq<u8>>, host_parallelism: Option<usize>) -> Result<
    InvocationView,
    ArgumentError,
> {
    match scanned(args, host_parallelism) {
        Err(error) => Err(error),
        Ok(ScanView::Help) => Ok(InvocationView::Help),
        Ok(ScanView::Options { settings, rest }) => match job_source(args, rest as int) {
            Err(error) => Err(error),
            Ok(source) => Ok(
                InvocationView::Run { settings, plan: planned(source, settings.n_args) },
            ),
        },
    }
}

/// Reads the arguments of the program, without its name.
///
/// `host_parallelism` is what the host reports as the number of jobs it can
/// run at once, if it reports anything.
pub fn parse_command_line(args: &Vec<Vec<u8>>, host_parallelism: Option<usize>) -> (result: Result<
    Invocation,
    ArgumentError,
>)
    ensures
        match result {
            Ok(parsed) => invocation(texts(args@), host_parallelism) == Ok::<
                InvocationView,
                ArgumentError,
            >(parsed@),
            Err(error) => invocation(texts(args@), host_parallelism) == Err::<
                InvocationView,
                ArgumentError,
            >(error),
        },
        result matches Ok(Invocation::Run { settings, plan }) ==> settings@.wf(),
{
    match scan_options(args, host_parallelism) {
        Err(error) => Err(error),
        Ok(Scan::Help) => Ok(Invocation::Help),
        Ok(Scan::Options { settings, rest }) => match read_job_source(args, rest) {
            Err(error) => Err(error),
            Ok(source) => {
                let plan = ExecutionPlan::new(&source, settings.n_args);
                Ok(Invocation::Run { settings, plan })
            },
        },
    }
}

/// The exit status of the program after a command line was refused.
pub const USAGE_FAILURE: u8 = 1;

/// The text that explains the two forms of the command line.
pub open spec fn usage_text() -> Seq<char> {
    "parallel [OPTIONS] command -- arguments\n        for each argument, run command iwth argument, in parallel\nparallel [OPTIONS] -- commands\n        run specified commands in parallel\n"@
}

/// The usage message, as it is shown for `-h` and after an argument error.
pub fn usage() -> (text: &'static str)
    ensures
        text@ == usage_text(),
{
    "parallel [OPTIONS] command -- arguments\n        for each argument, run command iwth argument, in parallel\nparallel [OPTIONS] -- commands\n        run specified commands in parallel\n"
}

} // verus!

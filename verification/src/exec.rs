//! Per-plugin outcomes. The asynchronous fan-out that spawns the real
//! subprocesses lives outside the library; it hands back one raw capture per
//! plugin, and this module resolves each capture into that plugin's outcome —
//! success with the decoded streams, or an isolated, classified failure.

use crate::config::Config;
use crate::config::PluginConfig;
use crate::error::CliError;
use vstd::prelude::*;
use vstd::utf8::decode_utf8;
use vstd::utf8::valid_utf8;

verus! {

/// A successful plugin run's captured streams, decoded to text.
pub struct ExecutionOutput {
    pub stdout: String,
    pub stderr: String,
}

/// One plugin's outcome: the display name of the originating spec, and
/// either its captured output or why it failed.
pub struct ExecutionResult {
    pub plugin: String,
    pub result: Result<ExecutionOutput, CliError>,
}

/// What spawn-and-capture hands back for one plugin, as plain values.
pub enum Capture {
    /// The process ran to completion: its exit code (None when a signal
    /// ended it) and the raw bytes of both streams.
    Output { exit_code: Option<i32>, stdout: Vec<u8>, stderr: Vec<u8> },
    /// The process could not be started; the launcher's description.
    LaunchError { message: String },
}

/// The raw stdout bytes of a completed capture; empty for a failed launch.
pub open spec fn capture_stdout(c: Capture) -> Seq<u8> {
    match c {
        Capture::Output { exit_code, stdout, stderr } => stdout@,
        Capture::LaunchError { message } => Seq::empty(),
    }
}

/// The raw stderr bytes of a completed capture; empty for a failed launch.
pub open spec fn capture_stderr(c: Capture) -> Seq<u8> {
    match c {
        Capture::Output { exit_code, stdout, stderr } => stderr@,
        Capture::LaunchError { message } => Seq::empty(),
    }
}

/// A capture succeeds exactly when the process was launched and both
/// streams' bytes are valid text. The exit code plays no part.
pub open spec fn capture_succeeds(c: Capture) -> bool {
    c is Output && valid_utf8(capture_stdout(c)) && valid_utf8(capture_stderr(c))
}

/// The outcome owed for one plugin given its capture: it carries the
/// plugin's own display name, succeeds exactly on a decodable run, holds the
/// decoded streams on success, and the matching failure kind otherwise.
pub open spec fn outcome_matches(p: PluginConfig, c: Capture, r: ExecutionResult) -> bool {
    &&& r.plugin@ == p.display_name@
    &&& (r.result is Ok <==> capture_succeeds(c))
    &&& (capture_succeeds(c) ==> {
        &&& r.result matches Ok(out)
        &&& out.stdout@ == decode_utf8(capture_stdout(c))
        &&& out.stderr@ == decode_utf8(capture_stderr(c))
    })
    &&& (c matches Capture::LaunchError { message } ==> r.result matches Err(CliError::IO(m))
        && m@ == message@)
    &&& (c is Output && !capture_succeeds(c) ==> r.result matches Err(
        CliError::StringFromUtf8(_),
    ))
}

/// Relies on String::from_utf8: Ok exactly when the bytes are valid UTF-8,
/// and the string then holds those bytes decoded; the Err text is the
/// decoder's description of the failure.
#[verifier::external_body]
fn string_from_utf8(bytes: Vec<u8>) -> (r: Result<String, String>)
    ensures
        r is Ok <==> valid_utf8(bytes@),
        r matches Ok(s) ==> s@ == decode_utf8(bytes@),
{
    match String::from_utf8(bytes) {
        Ok(s) => Ok(s),
        Err(e) => Err(format!("{:?}", e)),
    }
}

/// Builds a successful outcome from already-decoded text.
pub fn new_execution_result_with_output(plugin: &str, stdout: &str, stderr: &str) -> (r:
    ExecutionResult)
    ensures
        r.plugin@ == plugin@,
        r.result matches Ok(out) && out.stdout@ == stdout@ && out.stderr@ == stderr@,
{
    ExecutionResult {
        plugin: String::from_str(plugin),
        result: Ok(
            ExecutionOutput { stdout: String::from_str(stdout), stderr: String::from_str(stderr) },
        ),
    }
}

/// Runs the configured plugins' captures through outcome resolution.
pub struct Executor<'a> {
    pub config: &'a Config,
}

/// An executor over the given configuration.
pub fn new<'a>(config: &'a Config) -> (e: Executor<'a>)
    ensures
        e.config == config,
{
    Executor { config }
}

/// Turns one plugin's raw capture into its outcome. A nonzero exit code is
/// never a failure; only a failed launch or undecodable bytes are.
pub fn resolve_single_plugin(plugin_config: &PluginConfig, capture: Capture) -> (r:
    ExecutionResult)
    ensures
        outcome_matches(*plugin_config, capture, r),
{
    match capture {
        Capture::LaunchError { message } => ExecutionResult {
            plugin: plugin_config.display_name.clone(),
            result: Err(CliError::IO(message)),
        },
        Capture::Output { exit_code: _, stdout, stderr } => {
            let decoded_stdout = match string_from_utf8(stdout) {
                Ok(s) => s,
                Err(m) => {
                    return ExecutionResult {
                        plugin: plugin_config.display_name.clone(),
                        result: Err(CliError::StringFromUtf8(m)),
                    };
                },
            };
            let decoded_stderr = match string_from_utf8(stderr) {
                Ok(s) => s,
                Err(m) => {
                    return ExecutionResult {
                        plugin: plugin_config.display_name.clone(),
                        result: Err(CliError::StringFromUtf8(m)),
                    };
                },
            };
            ExecutionResult {
                plugin: plugin_config.display_name.clone(),
                result: Ok(ExecutionOutput { stdout: decoded_stdout, stderr: decoded_stderr }),
            }
        },
    }
}

impl Executor<'_> {
    /// Resolves every plugin's capture into its outcome: exactly one outcome
    /// per configured plugin, each fixed by its own spec and capture alone.
    pub fn execute(&self, captures: Vec<Capture>) -> (r: Vec<ExecutionResult>)
        requires
            captures@.len() == self.config.plugins@.len(),
        ensures
            r@.len() == self.config.plugins@.len(),
            forall|i: int|
                0 <= i < r@.len() ==> outcome_matches(
                    self.config.plugins@[i],
                    captures@[i],
                    #[trigger] r@[i],
                ),
    {
        let ghost all_captures = captures@;
        let mut remaining = captures;
        let mut results: Vec<ExecutionResult> = Vec::new();
        let n = self.config.plugins.len();
        let mut i: usize = 0;
        while i < n
            invariant
                n == self.config.plugins@.len(),
                i <= n,
                all_captures.len() == n,
                results@.len() == i as int,
                remaining@ =~= all_captures.skip(i as int),
                forall|k: int|
                    0 <= k < i ==> outcome_matches(
                        self.config.plugins@[k],
                        all_captures[k],
                        #[trigger] results@[k],
                    ),
            decreases n - i,
        {
            let c = remaining.remove(0);
            assert(c == all_captures[i as int]);
            assert(remaining@ =~= all_captures.skip(i as int + 1));
            let outcome = resolve_single_plugin(&self.config.plugins[i], c);
            results.push(outcome);
            i = i + 1;
        }
        results
    }
}

/// Cardinality: with one outcome per spec, the outcomes' plugin names are
/// exactly the configured display names — the ordered sequences of names
/// coincide, and so do the sets they form.
pub proof fn lemma_outcome_names_match(
    plugins: Seq<PluginConfig>,
    captures: Seq<Capture>,
    results: Seq<ExecutionResult>,
)
    requires
        results.len() == plugins.len(),
        captures.len() == plugins.len(),
        forall|i: int|
            0 <= i < results.len() ==> outcome_matches(
                plugins[i],
                captures[i],
                #[trigger] results[i],
            ),
    ensures
        results.map_values(|r: ExecutionResult| r.plugin@) =~= plugins.map_values(
            |p: PluginConfig| p.display_name@,
        ),
        results.map_values(|r: ExecutionResult| r.plugin@).to_set() == plugins.map_values(
            |p: PluginConfig| p.display_name@,
        ).to_set(),
{
    assert(results.map_values(|r: ExecutionResult| r.plugin@) =~= plugins.map_values(
        |p: PluginConfig| p.display_name@,
    ));
}

/// Isolation: when exactly one plugin's launch fails, that plugin's outcome
/// is a failure, and every other plugin's outcome still succeeds with its
/// own decoded streams, untouched by the failure.
pub proof fn lemma_failure_isolation(
    plugins: Seq<PluginConfig>,
    captures: Seq<Capture>,
    results: Seq<ExecutionResult>,
    j: int,
)
    requires
        results.len() == plugins.len(),
        captures.len() == plugins.len(),
        forall|i: int|
            0 <= i < results.len() ==> outcome_matches(
                plugins[i],
                captures[i],
                #[trigger] results[i],
            ),
        0 <= j < plugins.len(),
        captures[j] is LaunchError,
        forall|i: int| 0 <= i < captures.len() && i != j ==> capture_succeeds(#[trigger] captures[i]),
    ensures
        results[j].result is Err,
        forall|i: int|
            0 <= i < results.len() && i != j ==> ((#[trigger] results[i]).result matches Ok(out)
                && out.stdout@ == decode_utf8(capture_stdout(captures[i])) && out.stderr@
                == decode_utf8(capture_stderr(captures[i]))),
{
}

/// Exit-code independence: two captures of the same streams succeed or fail
/// together whatever their exit codes, and on success their outcomes carry
/// the same decoded text.
pub proof fn lemma_exit_code_independent(
    p: PluginConfig,
    c1: Capture,
    c2: Capture,
    r1: ExecutionResult,
    r2: ExecutionResult,
)
    requires
        c1 is Output,
        c2 is Output,
        capture_stdout(c1) == capture_stdout(c2),
        capture_stderr(c1) == capture_stderr(c2),
        outcome_matches(p, c1, r1),
        outcome_matches(p, c2, r2),
    ensures
        capture_succeeds(c1) == capture_succeeds(c2),
        r1.result is Ok <==> r2.result is Ok,
        r1.result is Ok ==> r1.result->Ok_0.stdout@ == r2.result->Ok_0.stdout@
            && r1.result->Ok_0.stderr@ == r2.result->Ok_0.stderr@,
{
}

} // verus!

use vstd::prelude::*;
use vstd::string::StringExecFns;

verus! {

/// What one invocation does: the remote targets to dispatch concurrently, and
/// whether the local update follows once they have all finished.
pub struct RunPlan {
    pub remotes: Vec<String>,
    pub run_local: bool,
}

/// Decides the run from the command line and the configuration file. Targets
/// named on the command line take the place of the configured ones; local-only
/// mode dispatches no remote at all, and skip-local mode leaves out the local
/// update.
pub fn plan_run(
    cli_remotes: Option<Vec<String>>,
    config_remotes: Vec<String>,
    local_only: bool,
    skip_local: bool,
) -> (r: RunPlan)
    ensures
        r.remotes@ == if local_only {
            Seq::empty()
        } else {
            match cli_remotes {
                Some(v) => v@,
                None => config_remotes@,
            }
        },
        r.run_local == !skip_local,
{
    let remotes = if local_only {
        Vec::new()
    } else {
        match cli_remotes {
            Some(v) => v,
            None => config_remotes,
        }
    };
    RunPlan { remotes, run_local: !skip_local }
}

/// The RFC 3339 text of the UTC instant `nanos` nanoseconds after the Unix
/// epoch, or `None` where the instant cannot be written that way.
pub uninterp spec fn rfc3339_utc(nanos: int) -> Option<Seq<char>>;

/// Relies on time's OffsetDateTime::from_unix_timestamp_nanos, which turns the
/// count into a UTC date-time or refuses one out of its range, and on
/// OffsetDateTime::format with Rfc3339, which writes it out or refuses a year
/// outside 0 to 9999. Both depend on the count alone.
#[verifier::external_body]
fn format_rfc3339_utc(nanos: i128) -> (r: Option<String>)
    ensures
        match r {
            Some(s) => rfc3339_utc(nanos as int) == Some(s@),
            None => rfc3339_utc(nanos as int) is None,
        },
{
    match time::OffsetDateTime::from_unix_timestamp_nanos(nanos) {
        Ok(t) => t.format(&time::format_description::well_known::Rfc3339).ok(),
        Err(_) => None,
    }
}

/// Why the run's log directory could not be named.
#[derive(Clone, Copy, Debug, PartialEq, Eq, Structural)]
pub enum LogDirError {
    /// The start of the run has no RFC 3339 form.
    UnformattableTime,
}

/// The name of the run's own log directory: the instant the run started, in
/// RFC 3339 form, so that no two runs share a directory.
pub fn run_log_dir_name(started_nanos: i128) -> (r: Result<String, LogDirError>)
    ensures
        match rfc3339_utc(started_nanos as int) {
            Some(name) => r matches Ok(s) && s@ == name,
            None => r == Err::<String, LogDirError>(LogDirError::UnformattableTime),
        },
{
    match format_rfc3339_utc(started_nanos) {
        Some(s) => Ok(s),
        None => Err(LogDirError::UnformattableTime),
    }
}

/// The name under which the local update's output is logged.
pub open spec fn local_name() -> Seq<char> {
    seq!['l', 'o', 'c', 'a', 'l']
}

pub open spec fn stdout_suffix() -> Seq<char> {
    seq!['.', 's', 't', 'd', 'o', 'u', 't', '.', 'l', 'o', 'g']
}

pub open spec fn stderr_suffix() -> Seq<char> {
    seq!['.', 's', 't', 'd', 'e', 'r', 'r', '.', 'l', 'o', 'g']
}

/// One file to write into the run's log directory.
pub struct LogArtifact {
    pub file_name: String,
    pub contents: Vec<u8>,
}

/// The files that logging the output of `name` writes: none when logging is
/// off; otherwise `<name>.stdout.log` with the standard output, then
/// `<name>.stderr.log` with the standard error.
pub fn log_artifacts(logging: bool, name: &str, stdout: &Vec<u8>, stderr: &Vec<u8>) -> (r: Vec<
    LogArtifact,
>)
    ensures
        !logging ==> r@.len() == 0,
        logging ==> {
            &&& r@.len() == 2
            &&& r@[0].file_name@ == name@ + stdout_suffix()
            &&& r@[0].contents@ == stdout@
            &&& r@[1].file_name@ == name@ + stderr_suffix()
            &&& r@[1].contents@ == stderr@
        },
{
    let mut r: Vec<LogArtifact> = Vec::new();
    if logging {
        let mut out_name = String::from_str(name);
        let mut err_name = String::from_str(name);
        proof {
            reveal_strlit(".stdout.log");
            reveal_strlit(".stderr.log");
        }
        out_name.append(".stdout.log");
        err_name.append(".stderr.log");
        assert(out_name@ =~= name@ + stdout_suffix());
        assert(err_name@ =~= name@ + stderr_suffix());
        r.push(LogArtifact { file_name: out_name, contents: stdout.clone() });
        r.push(LogArtifact { file_name: err_name, contents: stderr.clone() });
    }
    r
}

/// The files that logging the local update's output writes, named after
/// `local`.
pub fn local_log_artifacts(logging: bool, stdout: &Vec<u8>, stderr: &Vec<u8>) -> (r: Vec<
    LogArtifact,
>)
    ensures
        !logging ==> r@.len() == 0,
        logging ==> {
            &&& r@.len() == 2
            &&& r@[0].file_name@ == local_name() + stdout_suffix()
            &&& r@[0].contents@ == stdout@
            &&& r@[1].file_name@ == local_name() + stderr_suffix()
            &&& r@[1].contents@ == stderr@
        },
{
    proof {
        reveal_strlit("local");
        assert("local"@ =~= local_name());
    }
    log_artifacts(logging, "local", stdout, stderr)
}

} // verus!

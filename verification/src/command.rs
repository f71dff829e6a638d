//! The `graph` command, without its input and output: from what loading the
//! configuration gave and the name of the format to what the process prints
//! and how it exits.

use vstd::prelude::*;
use crate::dispatch::{render_named, render_named_spec};
use crate::model::{Config, ConfigView};

verus! {

/// `exitcode::OK`: the status of a run that succeeded, 0.
#[verifier::external_body]
fn status_ok() -> (status: i32)
    ensures
        status == 0,
{
    exitcode::OK
}

/// `exitcode::USAGE`: the status for a command line that was used wrongly, 64.
#[verifier::external_body]
fn status_usage() -> (status: i32)
    ensures
        status == 64,
{
    exitcode::USAGE
}

/// `exitcode::CONFIG`: the status for a configuration error, 78.
#[verifier::external_body]
fn status_config() -> (status: i32)
    ensures
        status == 78,
{
    exitcode::CONFIG
}

/// How loading the configuration ended.
#[derive(Clone, Debug, PartialEq, Eq)]
pub enum Loaded {
    /// The paths on the command line could not be resolved.
    NoPaths,
    /// Reading or parsing failed, with one message per error.
    Failed(Vec<String>),
    /// A validated configuration.
    Config(Config),
}

/// What the process does once the command has run.
#[derive(Clone, Debug, PartialEq, Eq)]
pub struct Report {
    /// The document, printed to standard output as one line-terminated text;
    /// absent where the run failed.
    pub stdout: Option<String>,
    /// The messages for the error stream, one per line.
    pub stderr: Vec<String>,
    /// The exit status of the process.
    pub status: i32,
}

/// Mathematical value of a [`Report`].
pub ghost struct ReportView {
    pub stdout: Option<Seq<char>>,
    pub stderr: Seq<Seq<char>>,
    pub status: int,
}

impl View for Report {
    type V = ReportView;

    open spec fn view(&self) -> ReportView {
        ReportView {
            stdout: match self.stdout {
                Some(text) => Some(text@),
                None => None,
            },
            stderr: self.stderr@.map_values(|m: String| m@),
            status: self.status as int,
        }
    }
}

/// The report for a configuration that was loaded: the document and status 0
/// where the format is known, else one message and status 64.
pub open spec fn report_for(format_name: Seq<char>, config: ConfigView) -> ReportView {
    match render_named_spec(format_name, config) {
        Some(text) => ReportView { stdout: Some(text), stderr: Seq::empty(), status: 0 },
        None => ReportView {
            stdout: None,
            stderr: seq!["unsupported output format: "@ + format_name],
            status: 64,
        },
    }
}

/// Decides what the `graph` command prints and how it exits.
///
/// A configuration that could not be loaded ends the run with status 78 and
/// the loader's messages, before any graph is built and with nothing for
/// standard output. A loaded configuration is rendered in the format asked
/// for; an unsupported format name is reported on the error stream with
/// status 64, and no document is printed for it.
pub fn run(loaded: Loaded, format_name: &str) -> (report: Report)
    ensures
        report@ == match loaded {
            Loaded::NoPaths => ReportView { stdout: None, stderr: Seq::empty(), status: 78 },
            Loaded::Failed(errors) => ReportView {
                stdout: None,
                stderr: errors@.map_values(|m: String| m@),
                status: 78,
            },
            Loaded::Config(config) => report_for(format_name@, config@),
        },
{
    match loaded {
        Loaded::NoPaths => {
            let report = Report { stdout: None, stderr: Vec::new(), status: status_config() };
            assert(report@.stderr =~= Seq::empty());
            report
        },
        Loaded::Failed(errors) => Report { stdout: None, stderr: errors, status: status_config() },
        Loaded::Config(config) => match render_named(format_name, config) {
            Ok(text) => {
                let report = Report { stdout: Some(text), stderr: Vec::new(), status: status_ok() };
                assert(report@.stderr =~= Seq::empty());
                report
            },
            Err(e) => {
                let mut stderr: Vec<String> = Vec::new();
                stderr.push(e.message());
                let report = Report { stdout: None, stderr, status: status_usage() };
                assert(report@.stderr =~= seq!["unsupported output format: "@ + format_name@]);
                report
            },
        },
    }
}

} // verus!

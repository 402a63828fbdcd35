//! The commands of the tool and what each run of it has to do.

use vstd::prelude::*;

verus! {

/// The arguments that all commands share.
#[derive(Debug)]
pub struct CommonArgs {
    /// Path to the repository.
    pub repo: Option<String>,
    /// Path to the cache database.
    pub cache: Option<String>,
    /// Whether merge commits are included.
    pub include_merges: bool,
    /// Whether binary files are included.
    pub binary: bool,
    /// Where the range of commits starts: a date or a revision.
    pub since: Option<String>,
    /// Where the range of commits ends: a date or a revision.
    pub until: Option<String>,
}

/// A command with its own arguments.
#[derive(Debug)]
pub enum Commands {
    Churn { json: bool, ndjson: bool, depth: Option<u32>, path: Option<String> },
    Heat { json: bool, ndjson: bool, interactive: bool, path: Option<String> },
    Export { json: bool, ndjson: bool },
}

/// One invocation of the tool.
#[derive(Debug)]
pub struct Cli {
    pub common: CommonArgs,
    pub command: Commands,
}

/// The form in which a report is written.
#[derive(Clone, Copy, Debug, PartialEq, Eq, Structural)]
pub enum Output {
    /// One JSON document.
    Json,
    /// One JSON document per line.
    Ndjson,
    /// Text for a reader.
    Text,
}

/// What one invocation has to do.
#[derive(Debug)]
pub enum Run {
    /// Report churn by path, summed by directories of `depth` if given.
    Churn { common: CommonArgs, depth: Option<u32>, output: Output, path: Option<String> },
    /// Report activity over time.
    Heat { common: CommonArgs, output: Output, path: Option<String> },
    /// Show activity over time in the interactive dashboard.
    Dashboard { common: CommonArgs, path: Option<String> },
    /// Export the commit statistics.
    Export { common: CommonArgs, output: Output },
}

/// The form of a report for the two output flags: JSON where `json` is set,
/// whatever `ndjson` says; line-wise JSON where only `ndjson` is set; text
/// otherwise.
pub open spec fn output_for(json: bool, ndjson: bool) -> Output {
    if json {
        Output::Json
    } else if ndjson {
        Output::Ndjson
    } else {
        Output::Text
    }
}

/// The form of a report for the two output flags.
pub fn choose_output(json: bool, ndjson: bool) -> (output: Output)
    ensures
        output == output_for(json, ndjson),
{
    if json {
        Output::Json
    } else if ndjson {
        Output::Ndjson
    } else {
        Output::Text
    }
}

impl Cli {
    /// What this invocation has to do. The command decides it; `heat` opens
    /// the dashboard where `interactive` is set, whatever its output flags say.
    pub fn execute(self) -> (run: Run)
        ensures
            match self.command {
                Commands::Churn { json, ndjson, depth, path } => run == (Run::Churn {
                    common: self.common,
                    depth,
                    output: output_for(json, ndjson),
                    path,
                }),
                Commands::Heat { json, ndjson, interactive, path } => if interactive {
                    run == (Run::Dashboard { common: self.common, path })
                } else {
                    run == (Run::Heat { common: self.common, output: output_for(json, ndjson), path })
                },
                Commands::Export { json, ndjson } => run == (Run::Export {
                    common: self.common,
                    output: output_for(json, ndjson),
                }),
            },
    {
        match self.command {
            Commands::Churn { json, ndjson, depth, path } => Run::Churn {
                common: self.common,
                depth,
                output: choose_output(json, ndjson),
                path,
            },
            Commands::Heat { json, ndjson, interactive, path } => {
                if interactive {
                    Run::Dashboard { common: self.common, path }
                } else {
                    Run::Heat { common: self.common, output: choose_output(json, ndjson), path }
                }
            },
            Commands::Export { json, ndjson } => Run::Export {
                common: self.common,
                output: choose_output(json, ndjson),
            },
        }
    }
}

} // verus!

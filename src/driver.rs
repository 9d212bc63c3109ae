//! What becomes of one file's contents under a configuration.

use vstd::prelude::*;

use crate::config::Config;
use crate::matcher::{matching_lines, text_search, views};
use crate::replacer::{replace_result, text_replace};

verus! {

/// The outcome for one file: the lines to report, and the new contents to
/// write, if the file is to be rewritten.
pub struct FileOutcome {
    /// The lines that hold the query, in order.
    pub matching_lines: Vec<String>,
    /// The contents to store in place of the old ones.
    pub new_contents: Option<String>,
}

/// The new contents owed for `contents`: none in a dry run or where nothing
/// was replaced, the replaced text otherwise.
pub open spec fn new_contents_of(config: Config, contents: Seq<char>) -> Option<Seq<char>> {
    let res = replace_result(contents, config.query@, config.replacement_text@, config.ignore_case);
    if config.operation_replace && res.0 {
        Some(res.1)
    } else {
        None
    }
}

/// The lines reported for `contents`: those that hold the query under the
/// case policy, whatever the mode.
pub open spec fn reported_lines(config: Config, contents: Seq<char>) -> Seq<Seq<char>> {
    matching_lines(contents, config.query@, config.ignore_case)
}

/// Decides what to report and what to write for a file that holds
/// `contents`. A dry run never calls for a write; the lines reported are the
/// same in both modes.
pub fn process_contents(config: &Config, contents: &str) -> (out: FileOutcome)
    requires
        config.wf(),
    ensures
        views(out.matching_lines@) == reported_lines(*config, contents@),
        out.new_contents matches Some(s) ==> new_contents_of(*config, contents@) == Some(s@),
        out.new_contents is None ==> new_contents_of(*config, contents@) is None,
{
    let (_found, lines) = text_search(config, contents);
    if !config.operation_replace {
        return FileOutcome { matching_lines: lines, new_contents: None };
    }
    let (did_replace, new_text) = text_replace(config, contents);
    if did_replace {
        FileOutcome { matching_lines: lines, new_contents: Some(new_text) }
    } else {
        FileOutcome { matching_lines: lines, new_contents: None }
    }
}

} // verus!

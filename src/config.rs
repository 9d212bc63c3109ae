//! The settings of one run.

use vstd::prelude::*;

verus! {

/// What to search, what to put in its place, and how.
pub struct Config {
    /// The directory whose files are processed.
    pub dir_path: String,
    /// The text to find; must not be empty.
    pub query: String,
    /// The text put in place of each occurrence; may be empty.
    pub replacement_text: String,
    /// Match without regard to case.
    pub ignore_case: bool,
    /// Rewrite files; when false, only report the matching lines.
    pub operation_replace: bool,
}

impl Config {
    /// The query is usable: it holds at least one char.
    pub open spec fn wf(&self) -> bool {
        self.query@.len() > 0
    }
}

/// One of the arguments after the first four reads `flag`.
pub open spec fn has_flag(args: Seq<String>, flag: Seq<char>) -> bool {
    exists|k: int| 4 <= k < args.len() && (#[trigger] args[k])@ == flag
}

impl Config {
    /// Reads a configuration from the command-line arguments `args`: the
    /// program, the directory, the query, the replacement, then flags
    /// (`ignore-case`, `dry`). `ignore_case_env` and `dry_env` tell whether
    /// the environment asks for either mode; a flag or the environment turns
    /// a mode on. Fails when an argument is missing or the query is empty.
    pub fn build(args: &[String], ignore_case_env: bool, dry_env: bool) -> (r: Result<
        Config,
        &'static str,
    >)
        ensures
            args@.len() < 4 ==> (r matches Err(e) && e@ == "not enough arguments"@),
            args@.len() >= 4 && args@[2]@.len() == 0 ==> (r matches Err(e) && e@
                == "the query must not be empty"@),
            args@.len() >= 4 && args@[2]@.len() > 0 ==> (r matches Ok(c) && {
                &&& c.wf()
                &&& c.dir_path@ == args@[1]@
                &&& c.query@ == args@[2]@
                &&& c.replacement_text@ == args@[3]@
                &&& c.ignore_case == (has_flag(args@, "ignore-case"@) || ignore_case_env)
                &&& c.operation_replace == !(has_flag(args@, "dry"@) || dry_env)
            }),
    {
        let num_args = args.len();
        if num_args < 4 {
            return Err("not enough arguments");
        }
        let dir_path = args[1].clone();
        let query = args[2].clone();
        let replacement_text = args[3].clone();
        if query.as_str().is_empty() {
            return Err("the query must not be empty");
        }
        let ignore_case_flag = "ignore-case".to_owned();
        let dry_flag = "dry".to_owned();
        let mut ignore_case = false;
        let mut operation_replace = true;
        let mut k: usize = 4;
        while k < num_args
            invariant
                num_args == args@.len(),
                4 <= k <= num_args,
                ignore_case_flag@ == "ignore-case"@,
                dry_flag@ == "dry"@,
                ignore_case == exists|j: int| 4 <= j < k && (#[trigger] args@[j])@ == "ignore-case"@,
                operation_replace == !exists|j: int| 4 <= j < k && (#[trigger] args@[j])@ == "dry"@,
            decreases num_args - k,
        {
            if args[k] == ignore_case_flag {
                ignore_case = true;
            }
            if args[k] == dry_flag {
                operation_replace = false;
            }
            k = k + 1;
        }
        if !ignore_case && ignore_case_env {
            ignore_case = true;
        }
        if operation_replace && dry_env {
            operation_replace = false;
        }
        Ok(Config { dir_path, query, replacement_text, ignore_case, operation_replace })
    }
}

} // verus!

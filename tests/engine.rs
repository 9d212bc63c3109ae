use replacio::config::Config;
use replacio::driver::process_contents;
use replacio::matcher::{
    contains_chars, search_case_insensitive, search_case_sensitive, text_search,
};
use replacio::replacer::{
    replace_case_insensitive, replace_case_sensitive, replace_marked, text_replace,
};
use replacio::text::chars_of;

fn config(query: &str, replacement: &str, ignore_case: bool, operation_replace: bool) -> Config {
    Config {
        dir_path: "./test".to_string(),
        query: query.to_string(),
        replacement_text: replacement.to_string(),
        ignore_case,
        operation_replace,
    }
}

#[test]
fn case_sensitive_search() {
    let query = "duct";
    let contents = "\
Rust:
safe, fast, productive.
Duct tape.";

    assert_eq!(vec!["safe, fast, productive."], search_case_sensitive(query, contents));
}

#[test]
fn case_insensitive_search() {
    let query = "rUsT";
    let contents = "\
Rust:
safe, fast, productive.
Pick three.
Trust me.";
    assert_eq!(
        vec!["Rust:", "Trust me."],
        search_case_insensitive(query, contents)
    );
}

#[test]
fn case_sensitive_replace() {
    let config = Config {
        dir_path: "./test".to_string(),
        query: "Duct t".to_string(),
        replacement_text: "Gr".to_string(),
        ignore_case: false,
        operation_replace: true,
    };

    let contents = "\
Rust:
safe, fast, productive.
Duct tape.";

    let (_success, new_content) = replace_case_sensitive(&config, &contents);

    assert_eq!(
        "\
Rust:
safe, fast, productive.
Grape.",
        new_content
    );
}

#[test]
fn case_insensitive_replace() {
    let config = Config {
        dir_path: "./test".to_string(),
        query: "duct t".to_string(),
        replacement_text: "Gr".to_string(),
        ignore_case: true,
        operation_replace: true,
    };

    let contents = "\
Rust:
safe, fast, productive.
Duct tape.";

    let (_success, new_content) = replace_case_insensitive(&config, &contents);

    assert_eq!(
        "\
Rust:
safe, fast, productive.
Grape.",
        new_content
    );
}

#[test]
fn case_insensitive_replace_all() {
    let config = Config {
        dir_path: "./test".to_string(),
        query: "duct".to_string(),
        replacement_text: "Grape".to_string(),
        ignore_case: true,
        operation_replace: true,
    };

    let contents = "\
Rust:
safe, fast, duct, productive.
Duct tape.";

    let (_success, new_content): (bool, String) = text_replace(&config, &contents);

    assert_eq!(
        "\
Rust:
safe, fast, Grape, proGrapeive.
Grape tape.",
        new_content
    );
}

#[test]
fn case_sensitive_replace_all() {
    let config = Config {
        dir_path: "./test".to_string(),
        query: "duct".to_string(),
        replacement_text: "Grape".to_string(),
        ignore_case: false,
        operation_replace: true,
    };

    let contents = "\
Rust:
safe, fast, duct, productive.
Duct tape.";

    let (_success, new_content): (bool, String) = text_replace(&config, &contents);

    assert_eq!(
        "\
Rust:
safe, fast, Grape, proGrapeive.
Duct tape.",
        new_content
    );
}

#[test]
fn absent_query_reports_no_change() {
    let contents = "Rust:\nsafe, fast, productive.";
    assert_eq!(
        replace_case_sensitive(&config("grape", "x", false, true), contents),
        (false, String::new())
    );
    assert_eq!(
        replace_case_insensitive(&config("GRAPE", "x", true, true), contents),
        (false, String::new())
    );
    assert_eq!(
        replace_case_sensitive(&config("RUST", "x", false, true), contents),
        (false, String::new())
    );
}

#[test]
fn replacement_is_found_after_replacing() {
    let contents = "one\ntwo duct\nthree";
    let (changed, text) = text_replace(&config("DUCT", "tape", true, true), contents);
    assert!(changed);
    assert_eq!(text, "one\ntwo tape\nthree");
    assert_eq!(search_case_sensitive("tape", &text), vec!["two tape"]);
}

#[test]
fn search_twice_gives_same_lines() {
    let contents = "alpha\nBeta\nalphabet\ngamma";
    let first = search_case_insensitive("ALPHA", contents);
    let second = search_case_insensitive("ALPHA", contents);
    assert_eq!(first, second);
    assert_eq!(first, vec!["alpha", "alphabet"]);
}

#[test]
fn output_length_follows_occurrences() {
    let contents = "ab-ab-ab";
    let (changed, text) = text_replace(&config("ab", "xyz", false, true), contents);
    assert!(changed);
    assert_eq!(text, "xyz-xyz-xyz");
    assert_eq!(text.chars().count(), 8 - 3 * 2 + 3 * 3);
    let (changed, text) = text_replace(&config("ab", "", false, true), contents);
    assert!(changed);
    assert_eq!(text, "--");
}

#[test]
fn case_permutations_are_found() {
    let contents = "Rust:\nsafe, fast, productive.\nTrust me.";
    assert_eq!(search_case_insensitive("rUsT", contents), vec!["Rust:", "Trust me."]);
    assert_eq!(search_case_sensitive("rUsT", contents), Vec::<String>::new());
}

#[test]
fn case_sensitive_leaves_other_casing() {
    let contents = "Rust:\nsafe, fast, duct, productive.\nDuct tape.";
    let (changed, text) = replace_case_sensitive(&config("duct", "Grape", false, true), contents);
    assert!(changed);
    assert_eq!(text, "Rust:\nsafe, fast, Grape, proGrapeive.\nDuct tape.");
}

#[test]
fn dry_run_writes_nothing_and_reports_same_lines() {
    let contents = "duct\nnothing\nDuct tape";
    let dry = process_contents(&config("duct", "Grape", true, false), contents);
    let live = process_contents(&config("duct", "Grape", true, true), contents);
    assert_eq!(dry.new_contents, None);
    assert_eq!(dry.matching_lines, vec!["duct", "Duct tape"]);
    assert_eq!(dry.matching_lines, live.matching_lines);
    assert_eq!(live.new_contents, Some("Grape\nnothing\nGrape tape".to_string()));
}

#[test]
fn live_run_without_match_writes_nothing() {
    let out = process_contents(&config("grape", "x", false, true), "duct tape");
    assert_eq!(out.new_contents, None);
    assert!(out.matching_lines.is_empty());
}

#[test]
fn identical_replacement_still_counts_as_change() {
    let (changed, text) = text_replace(&config("tape", "tape", false, true), "duct tape");
    assert!(changed);
    assert_eq!(text, "duct tape");
}

#[test]
fn replacement_holding_query_is_not_replaced_again() {
    let (changed, text) = text_replace(&config("a", "aa", false, true), "aaa");
    assert!(changed);
    assert_eq!(text, "aaaaaa");
    let (changed, text) = text_replace(&config("A", "aA", true, true), "a-a");
    assert!(changed);
    assert_eq!(text, "aA-aA");
}

#[test]
fn occurrences_do_not_overlap() {
    let (changed, text) = text_replace(&config("aa", "b", false, true), "aaaaa");
    assert!(changed);
    assert_eq!(text, "bba");
    let (changed, text) = text_replace(&config("AA", "b", true, true), "aAaAa");
    assert!(changed);
    assert_eq!(text, "bba");
}

#[test]
fn non_ascii_text_keeps_whole_chars() {
    let (changed, text) = replace_case_insensitive(&config("ÄB", "x", true, true), "zäbÄbé");
    assert!(changed);
    assert_eq!(text, "zxxé");
    let (changed, text) = replace_case_sensitive(&config("é", "e", false, true), "café é");
    assert!(changed);
    assert_eq!(text, "cafe e");
}

#[test]
fn empty_text_has_no_lines_and_no_change() {
    assert!(search_case_sensitive("a", "").is_empty());
    assert_eq!(text_replace(&config("a", "b", true, true), ""), (false, String::new()));
}

#[test]
fn line_endings_are_stripped() {
    let contents = "one duct\r\ntwo\r\nduct three\n";
    assert_eq!(search_case_sensitive("duct", contents), vec!["one duct", "duct three"]);
    assert_eq!(search_case_sensitive("\r", contents), Vec::<String>::new());
    assert_eq!(search_case_sensitive("x", "\n\nx\n"), vec!["x"]);
    assert_eq!(search_case_sensitive("e", "a\n\nb"), Vec::<String>::new());
    let lines = search_case_insensitive("", "a\n\nb\n");
    assert_eq!(lines, vec!["a", "", "b"]);
}

#[test]
fn text_search_reports_whether_found() {
    let contents = "Rust:\nTrust me.";
    let (found, lines) = text_search(&config("rust", "x", true, false), contents);
    assert!(found);
    assert_eq!(lines, vec!["Rust:", "Trust me."]);
    let (found, lines) = text_search(&config("RUST", "x", false, false), contents);
    assert!(!found);
    assert!(lines.is_empty());
}

#[test]
fn marked_positions_are_replaced() {
    let t = chars_of("abcabc");
    let r = chars_of("XY");
    let marks = vec![true, false, false, true, false, false];
    let (count, out) = replace_marked(&t, 2, &r, &marks);
    assert_eq!(count, 2);
    assert_eq!(out.iter().collect::<String>(), "XYcXYc");
    let marks = vec![true, true, false, false, false, true];
    let (count, out) = replace_marked(&t, 2, &r, &marks);
    assert_eq!(count, 1);
    assert_eq!(out.iter().collect::<String>(), "XYcabc");
}

#[test]
fn contains_finds_parts() {
    assert!(contains_chars(&chars_of("productive"), &chars_of("duct")));
    assert!(!contains_chars(&chars_of("productive"), &chars_of("Duct")));
    assert!(contains_chars(&chars_of(""), &chars_of("")));
    assert!(!contains_chars(&chars_of("du"), &chars_of("duct")));
}

#[test]
fn build_reads_arguments_and_flags() {
    let args: Vec<String> = vec!["prog", "dir", "duct", "Grape", "ignore-case"]
        .into_iter()
        .map(String::from)
        .collect();
    let c = Config::build(&args, false, false).unwrap();
    assert_eq!(c.dir_path, "dir");
    assert_eq!(c.query, "duct");
    assert_eq!(c.replacement_text, "Grape");
    assert!(c.ignore_case);
    assert!(c.operation_replace);

    let args: Vec<String> = vec!["prog", "dir", "duct", "", "dry"]
        .into_iter()
        .map(String::from)
        .collect();
    let c = Config::build(&args, false, false).unwrap();
    assert!(!c.ignore_case);
    assert!(!c.operation_replace);
    assert_eq!(c.replacement_text, "");
}

#[test]
fn build_takes_modes_from_environment() {
    let args: Vec<String> = vec!["prog", "dir", "duct", "Grape"]
        .into_iter()
        .map(String::from)
        .collect();
    let c = Config::build(&args, true, true).unwrap();
    assert!(c.ignore_case);
    assert!(!c.operation_replace);
    let c = Config::build(&args, false, false).unwrap();
    assert!(!c.ignore_case);
    assert!(c.operation_replace);
}

#[test]
fn build_rejects_missing_arguments() {
    let args: Vec<String> = vec!["prog", "dir", "duct"]
        .into_iter()
        .map(String::from)
        .collect();
    assert_eq!(Config::build(&args, false, false).err(), Some("not enough arguments"));
}

#[test]
fn build_rejects_empty_query() {
    let args: Vec<String> = vec!["prog", "dir", "", "Grape"]
        .into_iter()
        .map(String::from)
        .collect();
    assert_eq!(
        Config::build(&args, false, false).err(),
        Some("the query must not be empty")
    );
}

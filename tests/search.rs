use minigrep::{lines, matching_lines, search, search_case_insensitive, select_folded, Config};

#[test]
fn case_sensitive() {
    let query = "duct";
    let contents = "\
Rust:
safe, fast, productive.
Pick three.
Duct tape.";

    assert_eq!(vec!["safe, fast, productive."], search(query, contents));
}

#[test]
fn case_insensitive() {
    let query = "rUsT";
    let contents = "\
Rust:
safe, fast, productive.
Trust me.";

    assert_eq!(
        vec!["Rust:", "Trust me."],
        search_case_insensitive(query, contents)
    );
}

#[test]
fn exact_search_returns_each_matching_line_once_in_order() {
    let contents = "one a\ntwo\nthree a\none a\n";
    assert_eq!(vec!["one a", "three a", "one a"], search("a", contents));
    assert_eq!(Vec::<&str>::new(), search("z", contents));
}

#[test]
fn folded_search_keeps_exact_matches() {
    let contents = "Rust:\nsafe, fast, productive.\nTrust me.\nrust belt";
    let exact = search("rust", contents);
    let folded = search_case_insensitive("rust", contents);
    assert_eq!(vec!["Trust me.", "rust belt"], exact);
    assert_eq!(vec!["Rust:", "Trust me.", "rust belt"], folded);
    for line in &exact {
        assert!(folded.contains(line));
    }
}

#[test]
fn folded_search_loses_a_final_sigma() {
    // Lower-casing turns a word-final capital sigma into the final form,
    // which no longer contains the ordinary small sigma.
    assert_eq!(vec!["ΑΣ"], search("Σ", "ΑΣ"));
    assert_eq!(Vec::<&str>::new(), search_case_insensitive("Σ", "ΑΣ"));
}

#[test]
fn folded_search_lowers_the_query_and_the_lines() {
    assert_eq!(vec!["rust"], search_case_insensitive("RUST", "rust\nruby"));
    assert_eq!(vec!["RUST"], search_case_insensitive("rust", "RUST\nRUBY"));
    assert_eq!(Vec::<&str>::new(), search("RUST", "rust\nruby"));
}

#[test]
fn empty_query_returns_every_line() {
    let contents = "a\n\nB\r\nc";
    assert_eq!(vec!["a", "", "B", "c"], search("", contents));
    assert_eq!(vec!["a", "", "B", "c"], search_case_insensitive("", contents));
}

#[test]
fn empty_contents_returns_nothing() {
    assert_eq!(Vec::<&str>::new(), search("x", ""));
    assert_eq!(Vec::<&str>::new(), search("", ""));
    assert_eq!(Vec::<&str>::new(), search_case_insensitive("x", ""));
    assert_eq!(Vec::<&str>::new(), search_case_insensitive("", ""));
}

#[test]
fn repeated_searches_agree() {
    let contents = "Rust:\nsafe, fast, productive.\nTrust me.";
    assert_eq!(search("st", contents), search("st", contents));
    assert_eq!(
        search_case_insensitive("RUST", contents),
        search_case_insensitive("RUST", contents)
    );
}

#[test]
fn lines_split_at_line_feeds() {
    assert_eq!(Vec::<&str>::new(), lines(""));
    assert_eq!(vec![""], lines("\n"));
    assert_eq!(vec!["a"], lines("a"));
    assert_eq!(vec!["a"], lines("a\n"));
    assert_eq!(vec!["a", "", "b"], lines("a\n\nb"));
    assert_eq!(vec!["a", "b"], lines("a\r\nb\r\n"));
    assert_eq!(vec!["a\r"], lines("a\r"));
    assert_eq!(vec!["a\rb"], lines("a\rb"));
    assert_eq!(vec!["é", "ü"], lines("é\r\nü"));
}

#[test]
fn matched_lines_borrow_from_contents() {
    let contents = String::from("x1\ny\nx2");
    let found = search("x", &contents);
    let start = contents.as_ptr() as usize;
    assert_eq!(found[1].as_ptr() as usize, start + 5);
}

#[test]
fn select_folded_picks_by_folded_form() {
    let lines = vec!["Apple", "banana", "APRICOT"];
    let folded = vec![
        String::from("apple"),
        String::from("banana"),
        String::from("apricot"),
    ];
    assert_eq!(vec!["Apple", "APRICOT"], select_folded(&lines, &folded, "ap"));
    assert_eq!(vec!["banana"], select_folded(&lines, &folded, "nan"));
    assert_eq!(Vec::<&str>::new(), select_folded(&lines, &folded, "AP"));
}

#[test]
fn matching_lines_follows_the_mode() {
    let contents = "Rust:\nsafe, fast, productive.\nTrust me.";
    let exact = Config {
        query: String::from("rUsT"),
        file_path: String::from("poem.txt"),
        ignore_case: false,
    };
    assert_eq!(Vec::<&str>::new(), matching_lines(&exact, contents));
    let folded = Config {
        query: String::from("rUsT"),
        file_path: String::from("poem.txt"),
        ignore_case: true,
    };
    assert_eq!(vec!["Rust:", "Trust me."], matching_lines(&folded, contents));
}

//! Completion candidates from a directory listing.

use cli_ui::complete::{
    complete_dirs, complete_files, complete_files_from_glob, complete_files_with_ext,
    extract_exts_from_glob, join_prefix, split_prefix, values_filtered, DirItem,
};

fn listing() -> Vec<DirItem> {
    vec![
        DirItem { name: "main.rs".to_string(), is_dir: false },
        DirItem { name: "macros".to_string(), is_dir: true },
        DirItem { name: "map.txt".to_string(), is_dir: false },
        DirItem { name: "make.TOML".to_string(), is_dir: false },
        DirItem { name: "lib.rs".to_string(), is_dir: false },
        DirItem { name: "docs".to_string(), is_dir: true },
    ]
}

fn strings(v: &[&str]) -> Vec<String> {
    v.iter().map(|s| s.to_string()).collect()
}

#[test]
fn split_prefix_cases() {
    assert_eq!(split_prefix(""), (String::new(), String::new()));
    assert_eq!(split_prefix("src/"), ("src".to_string(), String::new()));
    assert_eq!(split_prefix("src//"), ("src".to_string(), String::new()));
    assert_eq!(split_prefix("src/ma"), ("src".to_string(), "ma".to_string()));
    assert_eq!(split_prefix("ma"), (String::new(), "ma".to_string()));
}

#[test]
fn split_prefix_keeps_dotted_and_deeper_directories() {
    assert_eq!(split_prefix("./src/ma"), ("./src".to_string(), "ma".to_string()));
    assert_eq!(split_prefix("./ma"), (".".to_string(), "ma".to_string()));
    assert_eq!(split_prefix("a/b/c"), ("a/b".to_string(), "c".to_string()));
    assert_eq!(split_prefix("../x/y.rs"), ("../x".to_string(), "y.rs".to_string()));
}

#[test]
fn split_prefix_under_the_root() {
    assert_eq!(split_prefix("/ma"), ("/".to_string(), "ma".to_string()));
    assert_eq!(split_prefix("/usr/lo"), ("/usr".to_string(), "lo".to_string()));
}

#[test]
fn join_prefix_cases() {
    assert_eq!(join_prefix("", "a"), "a");
    assert_eq!(join_prefix(".", "a"), "a");
    assert_eq!(join_prefix("src", "a"), "src/a");
    assert_eq!(join_prefix("src//", "a"), "src/a");
}

#[test]
fn glob_extensions() {
    assert_eq!(extract_exts_from_glob("*.csv"), strings(&["csv"]));
    assert_eq!(extract_exts_from_glob("*.{rs, toml}"), strings(&["rs", "toml"]));
    assert!(extract_exts_from_glob("*").is_empty());
    assert!(extract_exts_from_glob("*.c*").is_empty());
}

#[test]
fn files_filtered_by_extension_and_sorted() {
    let r = complete_files_with_ext("src/ma", &listing(), &strings(&["toml", "rs"]), false);
    assert_eq!(r, strings(&["src/macros/", "src/main.rs", "src/make.TOML"]));
}

#[test]
fn files_with_extension_stripped() {
    let r = complete_files_with_ext("src/ma", &listing(), &strings(&["toml", "rs"]), true);
    assert_eq!(r, strings(&["src/macros/", "src/main", "src/make"]));
}

#[test]
fn only_directories() {
    assert_eq!(complete_dirs("", &listing()), strings(&["docs/", "macros/"]));
    assert_eq!(complete_dirs("d", &listing()), strings(&["docs/"]));
}

#[test]
fn every_file() {
    assert_eq!(complete_files("ma", &listing()), strings(&["macros/", "main.rs", "make.TOML", "map.txt"]));
}

#[test]
fn files_from_a_glob() {
    assert_eq!(
        complete_files_from_glob("", "*.{rs,txt}", &listing()),
        strings(&["docs/", "lib.rs", "macros/", "main.rs", "map.txt"])
    );
}

#[test]
fn glob_completion_is_extension_completion() {
    for prefix in ["", "src/ma", "./src/m", "/x/l"] {
        assert_eq!(
            complete_files_from_glob(prefix, "*.csv", &listing()),
            complete_files_with_ext(prefix, &listing(), &strings(&["csv"]), false)
        );
        assert_eq!(
            complete_files_from_glob(prefix, "*.{rs,toml}", &listing()),
            complete_files_with_ext(prefix, &listing(), &strings(&["rs", "toml"]), false)
        );
    }
    assert_eq!(
        complete_files_from_glob("./src/ma", "*.rs", &listing()),
        strings(&["./src/macros/", "./src/main.rs"])
    );
}

#[test]
fn values_that_start_with_the_word() {
    let v = strings(&["alpha", "beta", "alps"]);
    assert_eq!(values_filtered(&v, "al"), strings(&["alpha", "alps"]));
    assert_eq!(values_filtered(&v, ""), v);
    assert!(values_filtered(&v, "z").is_empty());
}

#[test]
fn extensions_follow_the_last_dot() {
    let l = vec![
        DirItem { name: "a.tar.gz".to_string(), is_dir: false },
        DirItem { name: ".gz".to_string(), is_dir: false },
        DirItem { name: "b.".to_string(), is_dir: false },
        DirItem { name: "c.GZ".to_string(), is_dir: false },
    ];
    assert_eq!(complete_files_with_ext("", &l, &strings(&["gz"]), false), strings(&["a.tar.gz", "c.GZ"]));
    assert_eq!(complete_files_with_ext("", &l, &strings(&["gz"]), true), strings(&["a.tar", "c"]));
    assert_eq!(complete_files_with_ext("", &l, &strings(&[""]), true), strings(&[".gz", "b"]));
    assert_eq!(complete_files_with_ext(".g", &l, &Vec::new(), true), strings(&[".gz"]));
}

use cargo_mobile::domain::{check_domain_syntax, java_keyword, DomainError};
use cargo_mobile::name::{validate, Invalid};
use cargo_mobile::paths::{join, path_components, strip_path_prefix, under_root};
use cargo_mobile::seqs::{join_strs, reverse_domain_str, split_str};
use cargo_mobile::text::{find_bad_chars, same_text};

#[test]
fn name_rules() {
    assert_eq!(validate("game".to_string()).unwrap(), "game");
    assert_eq!(validate("my_game-2".to_string()).unwrap(), "my_game-2");
    assert_eq!(validate(String::new()).unwrap_err(), Invalid::Empty);
    assert_eq!(
        validate("my game!!".to_string()).unwrap_err(),
        Invalid::NotAsciiAlphanumeric { bad_chars: vec![' ', '!'] }
    );
    assert_eq!(
        validate("2fast".to_string()).unwrap_err(),
        Invalid::StartsWithDigit { name: "2fast".to_string() }
    );
}

#[test]
fn domain_rules() {
    assert_eq!(check_domain_syntax("com.example"), Ok(()));
    assert_eq!(check_domain_syntax("t2900.e1.s709.t1000"), Ok(()));
    assert_eq!(check_domain_syntax(""), Err(DomainError::Empty));
    assert_eq!(check_domain_syntax(".com"), Err(DomainError::StartsOrEndsWithADot));
    assert_eq!(check_domain_syntax("com."), Err(DomainError::StartsOrEndsWithADot));
    assert_eq!(check_domain_syntax("a..b"), Err(DomainError::EmptyLabel));
    assert_eq!(
        check_domain_syntax("class.example"),
        Err(DomainError::ReservedKeyword { keyword: "class".to_string() })
    );
    assert_eq!(
        check_domain_syntax("example.9lives"),
        Err(DomainError::StartsWithDigit { label: "9lives".to_string() })
    );
    assert_eq!(
        check_domain_syntax("exa$mple.c%m"),
        Err(DomainError::NotAsciiAlphanumeric { bad_chars: vec!['$'] })
    );
    assert_eq!(
        check_domain_syntax("example.kotlin"),
        Err(DomainError::ReservedPackageName { package_name: "kotlin".to_string() })
    );
    assert_eq!(
        check_domain_syntax("example.java"),
        Err(DomainError::ReservedPackageName { package_name: "java".to_string() })
    );
    assert_eq!(check_domain_syntax("kotlin.example"), Ok(()));
}

#[test]
fn java_keywords_are_known() {
    assert!(java_keyword("synchronized"));
    assert!(java_keyword("null"));
    assert!(!java_keyword("synchronized2"));
}

#[test]
fn bad_chars_once_in_order() {
    assert_eq!(find_bad_chars("a$b%c$"), vec!['$', '%']);
    assert!(find_bad_chars("abc-_9").is_empty());
    assert!(same_text("abc", "abc"));
    assert!(!same_text("abc", "abd"));
}

#[test]
fn split_and_join() {
    assert_eq!(split_str("a.b..c", '.'), vec!["a", "b", "", "c"]);
    assert_eq!(split_str("", '.'), vec![""]);
    let parts = vec!["x".to_string(), "y".to_string()];
    assert_eq!(join_strs(&parts, "::"), "x::y");
    assert_eq!(reverse_domain_str("a.b.c"), "c.b.a");
    assert_eq!(reverse_domain_str(&reverse_domain_str("a..b.")), "a..b.");
}

#[test]
fn path_joining() {
    assert_eq!(join("/a", "b"), "/a/b");
    assert_eq!(join("/a/", "b"), "/a/b");
    assert_eq!(join("", "b"), "b");
    assert_eq!(join("/a", "/b"), "/b");
    assert_eq!(join("a", ""), "a/");
    assert_eq!(path_components("/a//./b/"), vec!["a", "b"]);
}

#[test]
fn path_prefixes() {
    assert_eq!(strip_path_prefix("/a/b/c", "/a").unwrap(), "b/c");
    assert_eq!(strip_path_prefix("/a/./b//c", "/a/b/").unwrap(), "c");
    assert!(strip_path_prefix("a/b", "/a").is_err());
    assert!(strip_path_prefix("/ab/c", "/a").is_err());
}

#[test]
fn paths_under_root() {
    assert_eq!(under_root("assets", "/p"), Ok(true));
    assert_eq!(under_root("a/../b", "/p"), Ok(true));
    assert_eq!(under_root("..", "/p"), Ok(false));
    assert_eq!(under_root("/p/x", "/p"), Ok(true));
    assert!(under_root("../../..", "/p").is_err());
}

#[test]
fn reversed_domain_keeps_length_and_dots() {
    let d = "a.bb..ccc.";
    let r = reverse_domain_str(d);
    assert_eq!(r, ".ccc..bb.a");
    assert_eq!(r.len(), d.len());
    assert_eq!(r.matches('.').count(), d.matches('.').count());
}

#[test]
fn under_a_relative_root() {
    assert_eq!(under_root("x", "work"), Ok(true));
    assert_eq!(under_root("../y", "work"), Ok(false));
    assert!(under_root("../../y", "work").is_err());
}

use std::path::Path;

use gitpulse::json::{Json, JsonField};
use gitpulse::model::Repo;
use gitpulse::nav::{find_place, step};
use gitpulse::number::{decimal_text, parse_u32};
use gitpulse::order::stable_sort;
use gitpulse::path::{file_name, is_rooted, join_path, parent, path_names, same_path};
use gitpulse::text::{
    contains, count_filled_lines, drop_suffix, find_char, find_text, join, pad, part_after, repeat,
    replace_char, split, split_once, starts_with, strip_prefix, text_not_after, trim, trim_char,
};

const SAMPLES: [&str; 22] = [
    "",
    " ",
    "a",
    "/",
    "//",
    "a/b",
    "/a/b/",
    " a b\t",
    "\u{a0}x\u{3000}",
    "\u{200b}x",
    "\u{85}y\u{2028}",
    "gitdir: /x/.git",
    "one\ntwo\n\nthree",
    "one\r\ntwo\r\n",
    "\r\n\r\n",
    "a:b:c",
    "://",
    "a://b://c",
    "żółw.git",
    ".git",
    "x.git.git",
    "ÀÉß",
];

#[test]
fn trimming_is_that_of_the_standard_library() {
    for s in SAMPLES {
        assert_eq!(trim(s), s.trim());
        assert_eq!(trim_char(s, '/'), s.trim_matches('/'));
    }
}

#[test]
fn searching_is_that_of_the_standard_library() {
    for s in SAMPLES {
        for c in ['/', ':', '\n', 'a'] {
            assert_eq!(find_char(s, c), s.chars().position(|x| x == c));
            assert_eq!(split_once(s, c), s.split_once(c));
            assert_eq!(split(s, c), s.split(c).collect::<Vec<&str>>());
            assert_eq!(replace_char(s, c, "%2F"), s.replace(c, "%2F"));
        }
        for p in ["", "a", "://", ".git", "gitdir: "] {
            assert_eq!(starts_with(s, p), s.starts_with(p));
            assert_eq!(strip_prefix(s, p), s.strip_prefix(p));
            assert_eq!(drop_suffix(s, p), s.strip_suffix(p).unwrap_or(s));
            assert_eq!(contains(s, p), s.contains(p));
            let at = s.find(p).map(|i| s[..i].chars().count());
            assert_eq!(find_text(s, p), at);
        }
        assert_eq!(part_after(s, "://"), s.split("://").nth(1));
    }
}

#[test]
fn lines_are_those_of_the_standard_library() {
    for s in SAMPLES {
        assert_eq!(count_filled_lines(s), s.lines().filter(|l| !l.is_empty()).count());
    }
}

#[test]
fn texts_are_ordered_as_by_the_standard_library() {
    for a in SAMPLES {
        for b in SAMPLES {
            assert_eq!(text_not_after(a, b), a <= b);
        }
    }
}

#[test]
fn building_texts() {
    assert_eq!(repeat("─", 3), "───");
    assert_eq!(repeat("ab", 0), "");
    assert_eq!(pad("żó", 4), "żó  ");
    assert_eq!(pad("long", 2), "long");
    let items = vec!["a".to_string(), "b".to_string(), "c".to_string()];
    assert_eq!(join(&items, ", "), "a, b, c");
    assert_eq!(join(&vec![], ", "), "");
}

#[test]
fn splitting_and_joining_gives_the_text_back() {
    for s in SAMPLES {
        let parts: Vec<String> = split(s, '/').iter().map(|p| p.to_string()).collect();
        assert_eq!(join(&parts, "/"), s);
    }
}

#[test]
fn numbers_are_read_as_by_the_standard_library() {
    for s in [
        "", "0", "7", "007", "+5", "+", "-1", "-0", " 1", "1 ", "1_0", "4294967295", "4294967296",
        "99999999999999999999", "x", "٣",
    ] {
        assert_eq!(parse_u32(s), s.parse::<u32>().ok(), "{s:?}");
    }
    for n in [0u64, 9, 10, 99, 100, 4_294_967_295, u64::MAX] {
        assert_eq!(decimal_text(n), n.to_string());
    }
    for n in [0u32, 1, 42, u32::MAX] {
        assert_eq!(parse_u32(&decimal_text(n as u64)), Some(n));
    }
}

const PATHS: [&str; 24] = [
    "", "/", "//", ".", "..", "./", "../", "a", "a/", "/a", "/a/", "//a//b//", "a/b", "a/./b",
    "a/b/.", "a/b/..", "./a", "./a/b", "/./a", "/..", "a/..", "a//b", ".git/worktrees/x",
    "/home/u/.git/worktrees/x/",
];

#[test]
fn paths_are_those_of_the_standard_library() {
    for p in PATHS {
        let path = Path::new(p);
        assert_eq!(file_name(p), path.file_name().map(|n| n.to_str().unwrap()), "{p:?}");
        assert_eq!(is_rooted(p), path.is_absolute(), "{p:?}");
        let up = path.parent().map(|x| x.to_str().unwrap());
        assert_eq!(parent(p), up, "{p:?}");
        for q in PATHS {
            assert_eq!(same_path(p, q), path == Path::new(q), "{p:?} {q:?}");
            let joined = path.join(q);
            assert_eq!(join_path(p, q), joined.to_str().unwrap(), "{p:?} {q:?}");
        }
    }
}

#[test]
fn parent_drops_the_last_name() {
    for p in PATHS {
        let names = path_names(p);
        if let Some(up) = parent(p) {
            assert_eq!(path_names(up), names[..names.len() - 1].to_vec(), "{p:?}");
        }
    }
}

#[test]
fn steps_on_a_board() {
    let counts: Vec<usize> = vec![1, 0, 2, 1];
    assert_eq!(find_place(&counts, 0), (0, 0));
    assert_eq!(find_place(&counts, 1), (2, 0));
    assert_eq!(find_place(&counts, 3), (3, 0));
    assert_eq!(step(&counts, 0, 0, 1), 1);
    assert_eq!(step(&counts, 3, 0, 1), 0);
    assert_eq!(step(&counts, 0, 0, -1), 3);
    assert_eq!(step(&counts, 0, 0, -5), 3);
    assert_eq!(step(&counts, 1, 0, 1), 1);
    assert_eq!(step(&counts, 1, 0, -1), 0);
    assert_eq!(step(&counts, 2, 9, -1), 2);
    assert_eq!(step(&counts, 2, 1, i32::MAX), (2 + i32::MAX as usize) % 4);
}

// -- JSON --

#[test]
fn json_documents_are_read() {
    let text = br#"{"fork": true, "open_issues_count": 12, "big": 4294967299, "neg": -1,
        "half": 1.5, "none": null, "source": {"a": 1}, "list": [1]}"#;
    let doc = Json::read(text).unwrap();
    assert_eq!(doc.count("open_issues_count"), 12);
    assert_eq!(doc.count("big"), 3);
    assert_eq!(doc.count("neg"), 0);
    assert_eq!(doc.count("half"), 0);
    assert_eq!(doc.count("missing"), 0);
    assert_eq!(doc.get("neg"), Some(JsonField::Number(None)));
    assert_eq!(doc.get("none"), Some(JsonField::Other));
    assert_eq!(doc.get("missing"), None);
    assert!(doc.flag("fork"));
    assert!(!doc.flag("source"));
    assert!(doc.has_object("source"));
    assert!(!doc.has_object("list"));
    assert!(matches!(Json::read(b"[1, 2, 3]").unwrap(), Json::Array(3)));
    assert!(matches!(Json::read(b"\"text\"").unwrap(), Json::Other));
    assert_eq!(Json::read(b"7").unwrap().count("x"), 0);
}

#[test]
fn json_errors_are_reported() {
    let e = Json::read(b"{").unwrap_err();
    assert!(e.starts_with("Failed to read JSON: "), "{e}");
    assert!(e.len() > "Failed to read JSON: ".len());
    assert!(Json::read(b"").is_err());
}

#[test]
fn parts_hold_no_separator() {
    for s in SAMPLES {
        assert!(split(s, '/').iter().all(|p| !p.contains('/')));
    }
}

// -- Sorting --

#[test]
fn sorting_is_stable_and_keeps_the_items() {
    let mut repos = vec![];
    for (k, name) in ["b", "a", "c", "a", "B", "", "b", "ä"].iter().enumerate() {
        let mut r = Repo::test_default(name);
        r.ahead = k as u32;
        repos.push(r);
    }
    let sorted = stable_sort(repos);
    let order: Vec<(&str, u32)> = sorted.iter().map(|r| (r.name.as_str(), r.ahead)).collect();
    assert_eq!(
        order,
        vec![("", 5), ("B", 4), ("a", 1), ("a", 3), ("b", 0), ("b", 6), ("c", 2), ("ä", 7)]
    );
}

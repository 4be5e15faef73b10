use dark_matter::paths::{canonicalize, file_name, identify, is_absolute, resolve};
use dark_matter::tags::{accepts, tags_match, tags_of};
use dark_matter::text::{
    chars_of, compare, is_whitespace, is_yes, join2, join3, split_bounds, to_decimal, trim_range,
    Order,
};

fn order_of(a: &str, b: &str) -> Order {
    match a.cmp(b) {
        std::cmp::Ordering::Less => Order::Less,
        std::cmp::Ordering::Equal => Order::Equal,
        std::cmp::Ordering::Greater => Order::Greater,
    }
}

fn samples() -> Vec<&'static str> {
    vec![
        "", " ", "a", "A", "ab", "abc", "abd", "b", "/tmp/a", "/tmp/a.txt", "/tmp/b", "é", "e",
        "z", "ż", "日本", "日", "\u{10FFFF}", "\u{FFFD}", "a\u{0}", "a b", "a,b", "~", "Z", "_",
    ]
}

#[test]
fn compare_orders_as_strings_do() {
    for a in samples() {
        for b in samples() {
            assert_eq!(compare(a, b), order_of(a, b), "{:?} against {:?}", a, b);
        }
    }
}

#[test]
fn compare_exact_cases() {
    assert_eq!(compare("apple", "apricot"), Order::Less);
    assert_eq!(compare("b", "abc"), Order::Greater);
    assert_eq!(compare("same", "same"), Order::Equal);
    assert_eq!(compare("", "a"), Order::Less);
    assert_eq!(compare("ab", "a"), Order::Greater);
}

#[test]
fn chars_of_gives_every_character() {
    assert_eq!(chars_of("héllo"), vec!['h', 'é', 'l', 'l', 'o']);
    assert!(chars_of("").is_empty());
}

#[test]
fn whitespace_is_what_char_says() {
    for code in 0..=0x3100u32 {
        if let Some(c) = char::from_u32(code) {
            assert_eq!(is_whitespace(c), c.is_whitespace(), "U+{:04X}", code);
        }
    }
    assert!(!is_whitespace('\u{FEFF}'));
    assert!(!is_whitespace('\u{200B}'));
    assert!(!is_whitespace('\u{10FFFF}'));
}

fn trimmed_by_library(s: &str) -> String {
    let chars = chars_of(s);
    let (lo, hi) = trim_range(&chars, 0, chars.len());
    chars[lo..hi].iter().collect()
}

#[test]
fn trimming_is_what_str_trim_does() {
    let inputs = [
        "", " ", "   ", "a", " a", "a ", "  a b  ", "\t\nx\r\n", "\u{00A0}x\u{3000}", "x\u{2003}y",
        " \u{1680} ", "no-space", "  é  ",
    ];
    for input in inputs.iter() {
        assert_eq!(trimmed_by_library(input), input.trim(), "{:?}", input);
    }
}

#[test]
fn trim_range_of_a_part() {
    let chars = chars_of("ab  cd  ef");
    assert_eq!(trim_range(&chars, 2, 8), (4, 6));
    assert_eq!(trim_range(&chars, 2, 4), (4, 4));
    assert_eq!(trim_range(&chars, 0, 0), (0, 0));
}

fn pieces_by_library(s: &str, sep: char) -> Vec<String> {
    let chars = chars_of(s);
    split_bounds(&chars, sep).iter().map(|(lo, hi)| chars[*lo..*hi].iter().collect()).collect()
}

#[test]
fn splitting_is_what_str_split_does() {
    let inputs = ["", ",", "a", "a,b", "a,,b", ",a", "a,", ",,", "prod, db ,x", "é,日本"];
    for input in inputs.iter() {
        let expected: Vec<String> = input.split(',').map(|p| p.to_string()).collect();
        assert_eq!(pieces_by_library(input, ','), expected, "{:?}", input);
    }
    assert_eq!(split_bounds(&chars_of("a,bc"), ','), vec![(0, 1), (2, 4)]);
}

#[test]
fn tags_of_trims_each_piece() {
    let tags: Vec<String> = tags_of(" prod , db,,x ").iter().map(|t| t.iter().collect()).collect();
    assert_eq!(tags, vec!["prod", "db", "", "x"]);
    let none: Vec<String> = tags_of("").iter().map(|t| t.iter().collect()).collect();
    assert_eq!(none, vec![""]);
}

fn intersect_by_std(tags: &str, filter: &str) -> bool {
    tags.split(',').any(|t| filter.split(',').any(|tag| tag.trim() == t.trim()))
}

#[test]
fn tag_matching_is_exact_per_tag() {
    assert!(tags_match("prod,db", "prod"));
    assert!(tags_match("prod,db", "db"));
    assert!(tags_match("prod, db", " db "));
    assert!(tags_match("prod,db", "x,db,y"));
    assert!(!tags_match("prod,db", "staging"));
    assert!(!tags_match("prod,db", "pro"));
    assert!(!tags_match("prod,db", "Prod"));
    assert!(!tags_match("production", "prod"));
    assert!(tags_match("", ""));
    assert!(tags_match("", "a,"));
    assert!(tags_match("a,", " "));
    assert!(!tags_match("", "a"));
}

#[test]
fn tag_matching_agrees_with_split_and_trim() {
    let lists = ["", "a", "a,b", " a , b ", "b,,c", ",", "prod,db", "db", "x y, z", "é", "a, é "];
    for tags in lists.iter() {
        for filter in lists.iter() {
            assert_eq!(tags_match(tags, filter), intersect_by_std(tags, filter));
            let expected = filter.is_empty() || intersect_by_std(tags, filter);
            assert_eq!(accepts(filter, tags), expected, "{:?} under {:?}", tags, filter);
        }
    }
}

#[test]
fn empty_filter_accepts_everything() {
    assert!(accepts("", "prod"));
    assert!(accepts("", ""));
    assert!(!accepts("staging", "prod,db"));
    assert!(accepts("prod", "prod,db"));
}

fn yes_by_std(line: &str) -> bool {
    line.trim().to_lowercase().starts_with('y')
}

#[test]
fn yes_is_a_line_that_starts_with_y() {
    let lines = [
        "y", "Y", "yes", "Yes\n", "  y  ", "\tYES\r\n", "n", "N", "", "\n", " ", "no", "ny", "oy",
        "ÿ", "Ý", "ｙ", "Ｙ", "1", "y\u{0301}",
    ];
    for line in lines.iter() {
        assert_eq!(is_yes(line), yes_by_std(line), "{:?}", line);
    }
    assert!(is_yes("y"));
    assert!(is_yes(" Yep\n"));
    assert!(!is_yes("\n"));
    assert!(!is_yes("n"));
}

#[test]
fn only_y_lowercases_to_something_that_starts_with_y() {
    for code in 0..=0x10FFFFu32 {
        if let Some(c) = char::from_u32(code) {
            let text = c.to_string();
            assert_eq!(is_yes(&text), yes_by_std(&text), "U+{:04X}", code);
        }
    }
}

#[test]
fn decimal_digits() {
    assert_eq!(to_decimal(0), "0");
    assert_eq!(to_decimal(7), "7");
    assert_eq!(to_decimal(10), "10");
    assert_eq!(to_decimal(110), "110");
    assert_eq!(to_decimal(16383), "16383");
    assert_eq!(to_decimal(4294967295), "4294967295");
    for n in [1usize, 9, 11, 99, 100, 101, 12345, 987654321] {
        assert_eq!(to_decimal(n), n.to_string());
    }
}

#[test]
fn joins_concatenate() {
    assert_eq!(join2("ab", "cd"), "abcd");
    assert_eq!(join2("", ""), "");
    assert_eq!(join3("File '", "x", "' exported"), "File 'x' exported");
}

#[test]
fn absolute_paths_start_at_the_root() {
    assert!(is_absolute("/"));
    assert!(is_absolute("/tmp/a"));
    assert!(!is_absolute(""));
    assert!(!is_absolute("a/b"));
    assert!(!is_absolute("./a"));
    for path in ["/", "/a", "", "a", "a/", "../a", "//x"] {
        assert_eq!(is_absolute(path), std::path::Path::new(path).is_absolute(), "{:?}", path);
    }
}

#[test]
fn resolve_joins_as_paths_join() {
    let cases = [
        ("test.txt", "/tmp/work"),
        ("test.txt", "/tmp/work/"),
        ("test.txt", "/"),
        ("", "/tmp"),
        ("a/b", "/x"),
        ("/abs/file", "/tmp/work"),
        ("./a", "/x"),
        ("../a", "/x/y"),
        ("a", ""),
    ];
    for (filename, cwd) in cases.iter() {
        let path = std::path::Path::new(filename);
        let expected = if path.is_absolute() {
            path.to_path_buf()
        } else {
            std::path::Path::new(cwd).join(path)
        };
        assert_eq!(resolve(filename, cwd), expected.to_string_lossy().to_string());
    }
    assert_eq!(resolve("test.txt", "/tmp/work"), "/tmp/work/test.txt");
    assert_eq!(resolve("/etc/hosts", "/tmp/work"), "/etc/hosts");
    assert_eq!(resolve("x", "/"), "/x");
}

#[test]
fn file_name_is_what_path_says() {
    let paths = [
        "", "/", "//", ".", "..", "a", "/a", "a/", "a//", "/tmp/a.txt", "/tmp/dir/", "a/.", "a/./",
        "a/..", "a/../", "../a", "./a", "a/b/c", "a/./b", "...", "a/...", ".hidden", "/.", "/..",
        "a/.b", "é/日本.txt", "a b/c d", "a/./.", "./.", "x/..y", "x/y..",
    ];
    for path in paths.iter() {
        let expected =
            std::path::Path::new(path).file_name().map(|n| n.to_string_lossy().to_string());
        assert_eq!(file_name(path), expected, "{:?}", path);
    }
    assert_eq!(file_name("/tmp/a.txt"), Some("a.txt".to_string()));
    assert_eq!(file_name("/tmp/dir/"), Some("dir".to_string()));
    assert_eq!(file_name("/tmp/.."), None);
    assert_eq!(file_name("/"), None);
}

#[test]
fn canonical_paths_hold_names_only() {
    let cases = [
        ("/", "/"),
        ("", "/"),
        ("//", "/"),
        ("/.", "/"),
        ("/..", "/"),
        ("/../..", "/"),
        ("/a", "/a"),
        ("/a/", "/a"),
        ("/a//b", "/a/b"),
        ("/a/./b", "/a/b"),
        ("/a/../b", "/b"),
        ("/a/b/..", "/a"),
        ("/a/b/../..", "/"),
        ("/a/b/../../..", "/"),
        ("/a/.../b", "/a/.../b"),
        ("/a/..b/.c", "/a/..b/.c"),
        ("/é/日本/./x", "/é/日本/x"),
        ("/tmp/a.txt", "/tmp/a.txt"),
    ];
    for (path, expected) in cases.iter() {
        assert_eq!(canonicalize(path), *expected, "{:?}", path);
        assert_eq!(canonicalize(&canonicalize(path)), *expected, "{:?}", path);
    }
}

#[test]
fn canonical_path_of_a_plain_path_is_what_its_components_give() {
    let paths = ["/a/b/c", "/a//b/./c/", "/x/./y//z.txt", "/.hidden/x", "/a b/c d"];
    for path in paths.iter() {
        let expected: std::path::PathBuf = std::path::Path::new(path).components().collect();
        assert_eq!(canonicalize(path), expected.to_string_lossy().to_string(), "{:?}", path);
    }
}

#[test]
fn identify_takes_the_working_directory_for_relative_paths_only() {
    assert_eq!(identify("a.txt", "/w"), "/w/a.txt");
    assert_eq!(identify("./a.txt", "/w/"), "/w/a.txt");
    assert_eq!(identify("../a.txt", "/w/x"), "/w/a.txt");
    assert_eq!(identify("/abs/./a.txt", "/w"), "/abs/a.txt");
    assert_eq!(identify("", "/w"), "/w");
}

use rkl::paths::{is_within, join, parent};
use rkl::text::{decimal_text, parse_u32, signed_decimal_text, trim};
use std::path::Path;

#[test]
fn numbers_are_written_in_decimal() {
    let numbers: [u64; 8] = [0, 7, 9, 10, 99, 100, 1_000_001, u64::MAX];
    for n in numbers {
        assert_eq!(decimal_text(n), n.to_string());
    }
    let signed: [i32; 6] = [0, 1, -1, 4321, i32::MAX, i32::MIN];
    for n in signed {
        assert_eq!(signed_decimal_text(n), n.to_string());
    }
}

#[test]
fn numerals_are_read_as_std_reads_them() {
    let texts = [
        "", "+", "-", "0", "00", "7", "+7", "-0", "-7", "42", " 42", "42 ", "4 2", "0x10", "1_0",
        "4294967295", "4294967296", "99999999999999999999", "000000000000000000001", "++1", "1+",
        "\u{663}", "abc",
    ];
    for text in texts {
        assert_eq!(parse_u32(text), text.parse::<u32>().ok(), "{:?}", text);
    }
}

#[test]
fn written_numbers_are_read_back() {
    let numbers: [u32; 5] = [0, 9, 10, 65536, u32::MAX];
    for n in numbers {
        assert_eq!(parse_u32(decimal_text(n as u64).as_str()), Some(n));
    }
}

#[test]
fn white_space_is_trimmed_as_std_trims_it() {
    let texts = [
        "", " ", "ok\n", "  ok", "\t ok \r\n", "o k", "\u{85}a\u{a0}", "\u{2003}b\u{3000}",
        "\u{200b}c\u{200b}", "\u{feff}d", "\u{1680}\u{2028}\u{2029}e\u{202f}\u{205f}", "\u{b}\u{c}f",
        "\u{1c}g\u{1f}",
    ];
    for text in texts {
        assert_eq!(trim(text), text.trim(), "{:?}", text);
    }
}

#[test]
fn every_character_is_classified_as_std_classifies_it() {
    let mut n: u32 = 0;
    while n < 0x11000 {
        if let Some(c) = char::from_u32(n) {
            let text = format!("{}x", c);
            assert_eq!(trim(text.as_str()), text.trim());
        }
        n += 1;
    }
}

const PATHS: [&str; 40] = [
    "", "/", "//", "///", ".", "./", "./.", "..", "../", "../..", "a", "a/", "a//", "a/.", "a/./",
    "a/b", "a//b", "a/./b", "a/b/", "a/b/.", "a/b//", "/a", "/a/", "/a/b", "/a//b/", "//a", "/./a",
    "/.", "/./", "./a", "./a/b", ".//a", "././a", "/..", "/../a", "a/..", ".a", ".a/b", "a.", "a/.b",
];

#[test]
fn parents_are_those_of_std() {
    for path in PATHS {
        let expected = Path::new(path).parent().map(|p| p.to_str().unwrap().to_string());
        assert_eq!(parent(path), expected, "{:?}", path);
    }
}

#[test]
fn joins_are_those_of_std() {
    for base in PATHS {
        for part in PATHS {
            let expected = Path::new(base).join(part);
            assert_eq!(join(base, part), expected.to_str().unwrap(), "{:?} {:?}", base, part);
        }
    }
}

#[test]
fn parent_gives_back_what_was_joined_to() {
    let dir = join("/var/lib/rkl/volumes", "data");
    assert_eq!(dir, "/var/lib/rkl/volumes/data");
    assert_eq!(parent(join(dir.as_str(), "_data").as_str()), Some(dir));
}

#[test]
fn paths_lead_below_directories() {
    let cases = [
        ("/a", "/a", true),
        ("/a/b", "/a", true),
        ("/a/", "/a", true),
        ("/ab", "/a", false),
        ("/a", "/a/b", false),
        ("", "/a", false),
        ("/b/c", "/a", false),
    ];
    for (path, dir, expected) in cases {
        assert_eq!(is_within(&path.to_string(), &dir.to_string()), expected, "{} {}", path, dir);
    }
}

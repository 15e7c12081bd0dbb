use p9cpu::text::{decimal_text, join, parse_u32, split_at, words_of, Separator};
use p9cpu::utils::parse_proto;
use p9cpu::{parse_namespace, LOCAL_ROOT_MOUNT, NINEP_MOUNT};
use p9cpu::cmd::FsTab;

fn v(pieces: &[&str]) -> Vec<String> {
    pieces.iter().map(|s| s.to_string()).collect()
}

#[test]
fn split_at_a_character() {
    let colon = Separator::Char(':');
    assert_eq!(split_at("a:b:c", colon), v(&["a", "b", "c"]));
    assert_eq!(split_at("abc", colon), v(&["abc"]));
    assert_eq!(split_at("", colon), v(&[""]));
    assert_eq!(split_at(":", colon), v(&["", ""]));
    assert_eq!(split_at("a::b:", colon), v(&["a", "", "b", ""]));
    assert_eq!(split_at(":ä:ö", colon), v(&["", "ä", "ö"]));
}

#[test]
fn split_as_std_does() {
    for text in ["", "a", ",", "a,b", ",,", "a,,b,", ",a", "日本,語"] {
        let expected: Vec<String> = text.split(',').map(|s| s.to_string()).collect();
        assert_eq!(split_at(text, Separator::Char(',')), expected);
    }
}

#[test]
fn words_between_white_space() {
    let ws = Separator::Whitespace;
    assert_eq!(words_of("  a \t b\n", ws), v(&["a", "b"]));
    assert_eq!(words_of("", ws), Vec::<String>::new());
    assert_eq!(words_of(" \t\r\n", ws), Vec::<String>::new());
    assert_eq!(words_of("one", ws), v(&["one"]));
    assert_eq!(words_of("a\u{a0}b\u{3000}c\u{2003}d\u{85}e", ws), v(&["a", "b", "c", "d", "e"]));
    // No white space: zero width space, and the letters around the ranges.
    assert_eq!(words_of("a\u{200b}b\u{8}c\u{e}d", ws), v(&["a\u{200b}b\u{8}c\u{e}d"]));
}

#[test]
fn white_space_as_std_has_it() {
    for n in 0..0x3100u32 {
        if let Some(c) = char::from_u32(n) {
            assert_eq!(Separator::Whitespace.is_at(c), c.is_whitespace(), "{:x}", n);
        }
    }
    assert!(Separator::Char('x').is_at('x'));
    assert!(!Separator::Char('x').is_at('y'));
}

#[test]
fn join_with_a_separator() {
    assert_eq!(join(&v(&[]), ","), "");
    assert_eq!(join(&v(&["a"]), ","), "a");
    assert_eq!(join(&v(&["a", "b", "c"]), ","), "a,b,c");
    assert_eq!(join(&v(&["", ""]), ", "), ", ");
}

#[test]
fn numbers_in_decimal() {
    assert_eq!(parse_u32("0"), Some(0));
    assert_eq!(parse_u32("17010"), Some(17010));
    assert_eq!(parse_u32("+5"), Some(5));
    assert_eq!(parse_u32("007"), Some(7));
    assert_eq!(parse_u32("4294967295"), Some(u32::MAX));
    assert_eq!(parse_u32("4294967296"), None);
    assert_eq!(parse_u32("99999999999999999999999999"), None);
    assert_eq!(parse_u32(""), None);
    assert_eq!(parse_u32("+"), None);
    assert_eq!(parse_u32("-1"), None);
    assert_eq!(parse_u32("++1"), None);
    assert_eq!(parse_u32("12a"), None);
    assert_eq!(parse_u32(" 1"), None);
    assert_eq!(parse_u32("1 "), None);
    assert_eq!(parse_u32("١"), None);
}

#[test]
fn numbers_as_std_reads_them() {
    for text in ["0", "+0", "10", "+", "", "-0", "4294967295", "4294967296", "0x10", "1e3"] {
        assert_eq!(parse_u32(text), text.parse::<u32>().ok());
    }
}

#[test]
fn address_of_a_server() {
    assert_eq!(parse_proto("tcp!127.0.0.1!564"), Some(("tcp", "127.0.0.1:564".to_owned())));
    assert_eq!(parse_proto("unix!/tmp/sock!0"), Some(("unix", "/tmp/sock:0".to_owned())));
    assert_eq!(parse_proto("tcp!host!1!more"), Some(("tcp", "host:1".to_owned())));
    assert_eq!(parse_proto("!!"), Some(("", ":".to_owned())));
    assert_eq!(parse_proto("tcp!host"), None);
    assert_eq!(parse_proto("tcp"), None);
    assert_eq!(parse_proto(""), None);
}

fn bind(spec: &str, file: &str) -> FsTab {
    FsTab {
        spec: spec.to_owned(),
        file: file.to_owned(),
        vfstype: "none".to_owned(),
        mntops: "defaults,bind".to_owned(),
        freq: 0,
        passno: 0,
    }
}

#[test]
fn namespace_of_targets_and_sources() {
    assert_eq!(NINEP_MOUNT, "mnt9p");
    assert_eq!(LOCAL_ROOT_MOUNT, "local");
    assert_eq!(parse_namespace("", "/tmp"), vec![]);
    assert_eq!(parse_namespace("/etc=/etc", "/tmp"), vec![bind("/tmp/mnt9p/etc", "/etc")]);
    assert_eq!(
        parse_namespace("/lib:/usr=/opt/usr:/home", "/mnt"),
        vec![
            bind("/mnt/mnt9p/lib", "/lib"),
            bind("/mnt/mnt9p/opt/usr", "/usr"),
            bind("/mnt/mnt9p/home", "/home"),
        ]
    );
}

#[test]
fn namespace_skips_what_it_cannot_use() {
    // A target is mounted once: the first mention wins.
    assert_eq!(
        parse_namespace("/a=/x:/a=/y:/a", "/t"),
        vec![bind("/t/mnt9p/x", "/a")]
    );
    // More than one `=` says nothing.
    assert_eq!(parse_namespace("/a=/b=/c:/d", "/t"), vec![bind("/t/mnt9p/d", "/d")]);
    // Empty parts are parts.
    assert_eq!(parse_namespace(":", "/t"), vec![bind("/t/mnt9p", "")]);
    assert_eq!(parse_namespace("=/src", "/t"), vec![bind("/t/mnt9p/src", "")]);
    assert_eq!(parse_namespace("/dst=", "/t"), vec![bind("/t/mnt9p", "/dst")]);
}

#[test]
fn numbers_are_written_in_decimal() {
    for n in [0u32, 1, 9, 10, 11, 99, 100, 564, 17010, 65535, 4294967295] {
        assert_eq!(decimal_text(n), n.to_string());
        assert_eq!(parse_u32(&decimal_text(n)), Some(n));
    }
}

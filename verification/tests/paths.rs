use std::path::Path;

use flow_edge::byte_path::BytePath;
use flow_edge::paths::{
    absolute, join_path, parent_path, path_extension, same_path, split_components, starts_with,
};
use flow_edge::text::{
    after_prefix, begins_with, cut_at, decimal, find_char, finishes_with, has_char, hex16, join,
    parse_unsigned, same, split_on,
};

const PATHS: &[&str] = &[
    "", "/", "//", "a", "/a", "a/", "/a/", "a/b", "/a/b", "/a//b", "/a/./b", "./a", "./", ".",
    "..", "../a", "/..", "a/..", "/a/../b", "a.ts", "/x/a.tar.gz", ".hidden", "/x/.hidden", "a.",
    "/a/b.c/d", "/tmp", "/tmp2", "/s3-two", "/s3", "é/ü.ö", "/a/b/", "a b/c d.e",
];

fn text(p: &Path) -> String {
    p.to_str().unwrap().to_string()
}

#[test]
fn paths_are_joined_as_the_platform_joins_them() {
    for a in PATHS {
        for b in PATHS {
            assert_eq!(join_path(a, b), text(&Path::new(a).join(b)), "{a:?} {b:?}");
        }
    }
}

#[test]
fn paths_have_the_platforms_parts() {
    for p in PATHS {
        let path = Path::new(p);
        assert_eq!(absolute(p), path.is_absolute(), "{p:?}");
        let parts: Vec<String> = path
            .components()
            .map(|c| c.as_os_str().to_str().unwrap().to_string())
            .collect();
        assert_eq!(split_components(p), parts, "{p:?}");
        assert_eq!(parent_path(p), path.parent().map(text), "{p:?}");
        let extension = path.extension().map(|e| e.to_str().unwrap().to_string());
        assert_eq!(path_extension(p), extension, "{p:?}");
        for q in PATHS {
            assert_eq!(starts_with(p, q), path.starts_with(q), "{p:?} {q:?}");
        }
    }
}

#[test]
fn numbers_are_read_as_the_platform_reads_them() {
    let texts = [
        "", "0", "7", "007", "+7", "-7", "+", "-0", " 7", "7 ", "99", "100", "255", "256", "1e3",
        "0x1", "4294967295", "4294967296", "18446744073709551615", "18446744073709551616",
        "99999999999999999999999", "٣", "1_000",
    ];
    for t in texts {
        assert_eq!(parse_unsigned(t, u64::MAX), t.parse::<u64>().ok(), "{t:?}");
        let small = t.parse::<u8>().ok().map(u64::from);
        assert_eq!(parse_unsigned(t, u8::MAX as u64), small, "{t:?}");
        let medium = t.parse::<u32>().ok().map(u64::from);
        assert_eq!(parse_unsigned(t, u32::MAX as u64), medium, "{t:?}");
    }
    for n in [0, 9, 10, 255, 1_000_000, u64::MAX] {
        assert_eq!(decimal(n), n.to_string());
        assert_eq!(hex16(n), format!("{n:016x}"));
    }
}

#[test]
fn texts_are_taken_apart_as_the_platform_does() {
    let texts = ["", "=", "a", "a=b", "=b", "a=", "a=b=c", "ä=ö", "--x=1", "  ", "a b  c"];
    for t in texts {
        for c in ['=', ' ', 'ä'] {
            let parts: Vec<String> = t.split(c).map(String::from).collect();
            assert_eq!(split_on(t, c), parts, "{t:?} {c:?}");
            let cut = t.split_once(c).map(|(a, b)| (a.to_string(), b.to_string()));
            assert_eq!(cut_at(t, c).map(|(a, b)| (a.to_string(), b.to_string())), cut);
            assert_eq!(has_char(t, c), t.contains(c));
            let at = t.chars().position(|x| x == c);
            assert_eq!(find_char(&t.chars().collect(), c), at);
        }
        for u in texts {
            assert_eq!(begins_with(t, u), t.starts_with(u));
            assert_eq!(finishes_with(t, u), t.ends_with(u));
            assert_eq!(same(t, u), t == u);
            assert_eq!(join(t, u), format!("{t}{u}"));
            let rest = after_prefix(t, u).map(|r| r.to_string());
            assert_eq!(rest, t.strip_prefix(u).map(String::from));
        }
    }
}

#[test]
fn paths_are_the_same_by_their_components() {
    for a in PATHS {
        for b in PATHS {
            assert_eq!(same_path(a, b), Path::new(a) == Path::new(b), "{a:?} {b:?}");
        }
    }
}

#[test]
fn paths_keep_their_bytes() {
    let bytes: Vec<u8> = (0..=255).collect();
    assert_eq!(BytePath::of_bytes(&bytes).bytes(), bytes);
    assert_eq!(BytePath::of_text("/\u{e9}").bytes(), "/\u{e9}".as_bytes());
    let foreign = BytePath {
        units: "a\u{2192}".to_string(),
    };
    assert_eq!(foreign.bytes(), b"a?");
}

use minutes_core::numbers::{parse_u32, push_decimal};
use minutes_core::paths::{extension_chars, file_name_of, join_str, stem_chars};

fn chars(s: &str) -> Vec<char> {
    s.chars().collect()
}

fn text(v: Option<Vec<char>>) -> Option<String> {
    v.map(|c| c.into_iter().collect())
}

#[test]
fn file_names_follow_std_path() {
    assert_eq!(text(file_name_of(&chars("/a/b.tar.gz"))), Some("b.tar.gz".into()));
    assert_eq!(text(file_name_of(&chars("a/b/"))), Some("b".into()));
    assert_eq!(text(file_name_of(&chars("a/./."))), Some("a".into()));
    assert_eq!(text(file_name_of(&chars("a/.."))), None);
    assert_eq!(text(file_name_of(&chars("/"))), None);
    for p in ["/a/b.tar.gz", "a/b/", "x", "/x/y/..", ".", "./z", "//q//"] {
        let expected = std::path::Path::new(p).file_name().map(|n| n.to_str().unwrap().to_string());
        assert_eq!(text(file_name_of(&chars(p))), expected, "{}", p);
    }
}

#[test]
fn stems_and_extensions_follow_std_path() {
    for name in ["b.tar.gz", ".bashrc", "noext", "a.", "..x"] {
        let p = std::path::Path::new(name);
        let stem: String = stem_chars(&chars(name)).into_iter().collect();
        assert_eq!(Some(stem.as_str()), p.file_stem().and_then(|s| s.to_str()), "{}", name);
        let ext = text(extension_chars(&chars(name)));
        assert_eq!(ext.as_deref(), p.extension().and_then(|s| s.to_str()), "{}", name);
    }
}

#[test]
fn join_follows_std_path() {
    for (base, name) in [("/a", "b"), ("/a/", "b"), ("", "b"), ("/a", "/abs")] {
        let expected = std::path::Path::new(base).join(name).to_str().unwrap().to_string();
        assert_eq!(join_str(base, name), expected);
    }
}

#[test]
fn numbers_read_and_write_like_std() {
    assert_eq!(parse_u32(&chars("007")), Some(7));
    assert_eq!(parse_u32(&chars("")), None);
    assert_eq!(parse_u32(&chars("+")), None);
    let mut s = String::from("n=");
    push_decimal(&mut s, 1_234_567_890_123);
    assert_eq!(s, "n=1234567890123");
    let mut z = String::new();
    push_decimal(&mut z, 0);
    assert_eq!(z, "0");
}

use wallpaper::text::{decimal_text, join_path, labelled, last_segment_of};

#[test]
fn last_segment_follows_the_last_separator() {
    assert_eq!(last_segment_of("image/jpeg", '/'), "jpeg");
    assert_eq!(last_segment_of("a/b/c", '/'), "c");
    assert_eq!(last_segment_of("a.tar.gz", '.'), "gz");
}

#[test]
fn last_segment_of_text_without_separator_is_the_text() {
    assert_eq!(last_segment_of("png", '/'), "png");
    assert_eq!(last_segment_of("", '/'), "");
}

#[test]
fn last_segment_after_a_trailing_separator_is_empty() {
    assert_eq!(last_segment_of("image/", '/'), "");
    assert_eq!(last_segment_of("/", '/'), "");
}

#[test]
fn last_segment_counts_characters_not_bytes() {
    assert_eq!(last_segment_of("présentation/émoji😀/fin é", '/'), "fin é");
}

#[test]
fn decimal_text_writes_numbers_as_std_does() {
    assert_eq!(decimal_text(0), "0");
    assert_eq!(decimal_text(7), "7");
    assert_eq!(decimal_text(10), "10");
    assert_eq!(decimal_text(1905), "1905");
    assert_eq!(decimal_text(4294967295), "4294967295");
    assert_eq!(decimal_text(u64::MAX), u64::MAX.to_string());
    for n in [9u64, 99, 100, 101, 12345678901234] {
        assert_eq!(decimal_text(n), n.to_string());
    }
}

#[test]
fn join_path_puts_one_separator_between() {
    assert_eq!(join_path("/home/me/Pictures", "nsfw"), "/home/me/Pictures/nsfw");
    assert_eq!(join_path("/home/me/Pictures/", "nsfw"), "/home/me/Pictures/nsfw");
    assert_eq!(join_path("relative", "a.png"), "relative/a.png");
}

#[test]
fn join_path_with_empty_base_or_rooted_name() {
    assert_eq!(join_path("", "a.png"), "a.png");
    assert_eq!(join_path("/home/me", "/etc/passwd"), "/etc/passwd");
    assert_eq!(join_path("/home/me", ""), "/home/me/");
}

#[test]
fn join_path_agrees_with_std_paths() {
    let cases = [
        ("/home/me", "x.jpg"),
        ("/home/me/", "x.jpg"),
        ("", "x.jpg"),
        ("/", "x.jpg"),
        ("a/b", "c/d.png"),
        ("a", "/abs"),
        ("a", ""),
    ];
    for (base, name) in cases {
        let expected = std::path::Path::new(base).join(name);
        assert_eq!(join_path(base, name), expected.to_str().unwrap());
    }
}

#[test]
fn labelled_puts_the_label_first() {
    assert_eq!(labelled("IO error: ", "disk full"), "IO error: disk full");
    assert_eq!(labelled("", ""), "");
}

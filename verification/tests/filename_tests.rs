use photo_fetch::filename::{derive_extension, output_path, sanitize_filename};

#[test]
fn sanitize_keeps_alphanumeric_ids() {
    assert_eq!(sanitize_filename("abc123"), "abc123");
    assert_eq!(sanitize_filename("X9"), "X9");
    assert_eq!(sanitize_filename(""), "");
}

#[test]
fn sanitize_replaces_every_other_character() {
    assert_eq!(sanitize_filename("ab#1"), "ab_1");
    assert_eq!(sanitize_filename("a b.c"), "a_b_c");
    assert_eq!(sanitize_filename("--"), "__");
}

#[test]
fn sanitize_keeps_length_in_characters() {
    let id = "a#b?c/d";
    assert_eq!(sanitize_filename(id).chars().count(), id.chars().count());
}

#[test]
fn sanitize_degrades_non_ascii_to_underscores() {
    assert_eq!(sanitize_filename("héllo"), "h_llo");
    assert_eq!(sanitize_filename("日本"), "__");
}

#[test]
fn extension_ignores_query_string() {
    assert_eq!(derive_extension("http://x/img.png?sig=1"), "png");
    assert_eq!(derive_extension("http://x/a.jpeg?x=1&y=2.gif"), "jpeg");
}

#[test]
fn extension_defaults_to_jpg_without_dot() {
    assert_eq!(derive_extension("http://x/photo"), "jpg");
    assert_eq!(derive_extension("http://x/img2"), "jpg");
    assert_eq!(derive_extension("http://x/dir/"), "jpg");
}

#[test]
fn extension_reads_last_dot_of_final_component() {
    assert_eq!(derive_extension("http://x/a.tar.gz"), "gz");
    assert_eq!(derive_extension("http://x/a.b/c"), "jpg");
}

#[test]
fn extension_skips_leading_dot_of_hidden_names() {
    assert_eq!(derive_extension("http://x/.hidden"), "jpg");
    assert_eq!(derive_extension("http://x/.hidden.png"), "png");
}

#[test]
fn output_path_joins_dir_stem_and_extension() {
    assert_eq!(
        output_path("images", "ab#1", "http://x/img.png?sig=1"),
        "images/ab_1.png"
    );
    assert_eq!(output_path("images", "ab#2", "http://x/img2"), "images/ab_2.jpg");
}

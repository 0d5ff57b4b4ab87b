use csv_translator::output_path;

#[test]
fn extension_is_replaced() {
    assert_eq!(output_path("data.csv"), "data.translated.csv");
    assert_eq!(output_path("dir/sub/data.csv"), "dir/sub/data.translated.csv");
}

#[test]
fn only_the_final_extension_is_replaced() {
    assert_eq!(output_path("data.tar.gz"), "data.tar.translated.csv");
}

#[test]
fn name_without_extension_gets_one() {
    assert_eq!(output_path("data"), "data.translated.csv");
    assert_eq!(output_path("a.b/data"), "a.b/data.translated.csv");
    assert_eq!(output_path(""), ".translated.csv");
}

#[test]
fn leading_dot_starts_no_extension() {
    assert_eq!(output_path(".hidden"), ".hidden.translated.csv");
    assert_eq!(output_path("dir/.hidden.csv"), "dir/.hidden.translated.csv");
}

#[test]
fn non_ascii_names_are_kept() {
    assert_eq!(output_path("libell\u{e9}s.csv"), "libell\u{e9}s.translated.csv");
}

use shared_album::filename::derive_filename;
use std::path::Path;

/// The same derivation by way of the standard path type, on a system whose paths are
/// separated by `/`.
fn by_path_library(url_path: &str, photo_guid: &str) -> String {
    Path::new(url_path)
        .file_name()
        .and_then(|name| name.to_str())
        .map(|name| name.split('?').next().unwrap_or(name).to_string())
        .filter(|name| !name.is_empty())
        .unwrap_or_else(|| format!("{}.jpg", photo_guid))
}

#[test]
fn file_name_without_query() {
    assert_eq!(derive_filename("/a/b/IMG_0001.JPG?o=abc", "guid"), "IMG_0001.JPG");
}

#[test]
fn file_name_as_it_is_where_there_is_no_query() {
    assert_eq!(derive_filename("/a/b/IMG_0001.JPG", "guid"), "IMG_0001.JPG");
    assert_eq!(derive_filename("IMG_0001.JPG", "guid"), "IMG_0001.JPG");
    assert_eq!(derive_filename("/IMG_0001.JPG", "guid"), "IMG_0001.JPG");
}

#[test]
fn path_without_file_name_falls_back_to_the_photo() {
    assert_eq!(derive_filename("", "ABC-123"), "ABC-123.jpg");
    assert_eq!(derive_filename("/", "ABC-123"), "ABC-123.jpg");
    assert_eq!(derive_filename("///", "ABC-123"), "ABC-123.jpg");
    assert_eq!(derive_filename(".", "ABC-123"), "ABC-123.jpg");
    assert_eq!(derive_filename("./", "ABC-123"), "ABC-123.jpg");
    assert_eq!(derive_filename("/.", "ABC-123"), "ABC-123.jpg");
}

#[test]
fn path_that_ends_in_parent_directory_falls_back_to_the_photo() {
    assert_eq!(derive_filename("..", "G"), "G.jpg");
    assert_eq!(derive_filename("/a/..", "G"), "G.jpg");
    assert_eq!(derive_filename("/a/../", "G"), "G.jpg");
    assert_eq!(derive_filename("/a/.././", "G"), "G.jpg");
}

#[test]
fn separators_and_dots_at_the_end_are_passed_over() {
    assert_eq!(derive_filename("/a/b/", "G"), "b");
    assert_eq!(derive_filename("/a/b//", "G"), "b");
    assert_eq!(derive_filename("/a/b/.", "G"), "b");
    assert_eq!(derive_filename("/a/b/./", "G"), "b");
    assert_eq!(derive_filename("/a/b/././/", "G"), "b");
    assert_eq!(derive_filename("a", "G"), "a");
    assert_eq!(derive_filename("./a", "G"), "a");
}

#[test]
fn names_with_dots_are_names() {
    assert_eq!(derive_filename("/a/...", "G"), "...");
    assert_eq!(derive_filename("/a/.hidden", "G"), ".hidden");
    assert_eq!(derive_filename("/a/..b", "G"), "..b");
    assert_eq!(derive_filename("/a/b..", "G"), "b..");
    assert_eq!(derive_filename("/a/.b.", "G"), ".b.");
}

#[test]
fn query_is_cut_at_the_first_question_mark() {
    assert_eq!(derive_filename("/p/x.jpg?a=1?b=2", "G"), "x.jpg");
    assert_eq!(derive_filename("/p/x.jpg?", "G"), "x.jpg");
    assert_eq!(derive_filename("x?y", "G"), "x");
}

#[test]
fn separator_within_the_query_starts_a_new_component() {
    assert_eq!(derive_filename("/p/x.jpg?o=a/b", "G"), "b");
    assert_eq!(derive_filename("/p/x.jpg?o=a/b?c", "G"), "b");
    assert_eq!(derive_filename("/p/x.jpg?o=a/", "G"), "x.jpg");
}

#[test]
fn component_that_is_all_query_falls_back_to_the_photo() {
    assert_eq!(derive_filename("/p/?o=a", "G"), "G.jpg");
    assert_eq!(derive_filename("?", "G"), "G.jpg");
    assert_eq!(derive_filename("/p/x.jpg/?", "G"), "G.jpg");
}

#[test]
fn derived_name_is_never_empty() {
    for path in ["", "/", "?", "??", "/?", "a/?b", "/a/?/", ".", "..", "?/", "/./?"] {
        assert!(!derive_filename(path, "G").is_empty(), "for {:?}", path);
    }
}

#[test]
fn dots_before_a_query_are_a_name() {
    assert_eq!(derive_filename("/p/.?x", "G"), ".");
    assert_eq!(derive_filename("/p/..?x", "G"), "..");
}

#[test]
fn names_beyond_ascii() {
    assert_eq!(derive_filename("/фото/снимок.jpg?ключ=1", "G"), "снимок.jpg");
    assert_eq!(derive_filename("/a/写真.png", "G"), "写真.png");
    assert_eq!(derive_filename("/a/é/", "G"), "é");
    assert_eq!(derive_filename("/", "фото"), "фото.jpg");
}

#[test]
fn fallback_uses_the_whole_identifier() {
    assert_eq!(
        derive_filename("/", "F8A1C0DE-0000-4A4A-9B9B-0123456789AB"),
        "F8A1C0DE-0000-4A4A-9B9B-0123456789AB.jpg"
    );
    assert_eq!(derive_filename("", ""), ".jpg");
}

#[test]
fn agrees_with_the_path_library() {
    let paths = [
        "", "/", "//", ".", "..", "./", "../", "/.", "/..", "a", "a/", "a//", "/a", "/a/", "a/b",
        "a/b/", "a/./b", "a/b/.", "a/b/./", "a/b/..", "a/b/../", "./a", "../a", "a/.b", "a/b.",
        "a/...", "a/..b", "/S/Ab12/IMG_0001.JPG?o=AvZ&v=1&x=-1&a=CAog&e=1700000000",
        "/B/x/y/z.jpeg", "x?y", "?", "a/?", "a/?b/c", "a/b?c/d?e", "a/b?c/", "a/b?c/.",
        "a/b?c/..", "/a b/c d.jpg", "/é/ü.png?ß", "a\\b", "/a/.?", "/a/..?", "/.a", "/a./",
        "////a////", "/./././a/././", "/a/b/c/d/e/f/g/h", ".a", "..a", "a.", "a..",
    ];
    for path in paths {
        assert_eq!(derive_filename(path, "GUID"), by_path_library(path, "GUID"), "for {:?}", path);
    }
}

#[test]
fn agrees_with_the_path_library_on_every_short_path() {
    let alphabet = ['/', '.', '?', 'a'];
    let mut paths: Vec<String> = vec![String::new()];
    let mut start = 0;
    for _ in 0..6 {
        let end = paths.len();
        for i in start..end {
            for c in alphabet {
                let mut longer = paths[i].clone();
                longer.push(c);
                paths.push(longer);
            }
        }
        start = end;
    }
    assert_eq!(paths.len(), 1 + 4 + 16 + 64 + 256 + 1024 + 4096);
    for path in &paths {
        assert_eq!(derive_filename(path, "G"), by_path_library(path, "G"), "for {:?}", path);
    }
}

use svt::files::{
    collect_images, collect_images_from_path, insert_in_order, is_image_file, text_before,
    CollectErrorKind, Listing, PathKind,
};
use svt::text::{file_name, to_chars};

fn file(path: &str) -> Listing {
    Listing { path: path.to_string(), kind: PathKind::File, files: Vec::new() }
}

fn directory(path: &str, files: &[&str]) -> Listing {
    Listing {
        path: path.to_string(),
        kind: PathKind::Directory,
        files: files.iter().map(|f| format!("{}/{}", path, f)).collect(),
    }
}

#[test]
fn test_is_image_file_png() {
    assert!(is_image_file("test.png"));
    assert!(is_image_file("test.PNG"));
}

#[test]
fn test_is_image_file_jpg() {
    assert!(is_image_file("test.jpg"));
    assert!(is_image_file("test.jpeg"));
    assert!(is_image_file("test.JPEG"));
}

#[test]
fn test_is_image_file_other_formats() {
    assert!(is_image_file("test.gif"));
    assert!(is_image_file("test.webp"));
}

#[test]
fn test_is_image_file_non_image() {
    assert!(!is_image_file("test.txt"));
    assert!(!is_image_file("test.pdf"));
    assert!(!is_image_file("noextension"));
}

#[test]
fn test_collect_images_single_file() {
    let listing = file("/tmp/svt_test_single/test.png");
    let images = collect_images_from_path(&listing).unwrap();
    assert_eq!(images.len(), 1);
    assert_eq!(images[0], "/tmp/svt_test_single/test.png");
}

#[test]
fn test_collect_images_directory() {
    let dir = directory("/tmp/svt_test_dir", &["a.png", "b.jpg", "c.txt"]);
    let images = collect_images(&vec![dir]).unwrap();
    assert_eq!(images.len(), 2);
    assert!(images.iter().any(|p| p.ends_with("a.png")));
    assert!(images.iter().any(|p| p.ends_with("b.jpg")));
}

#[test]
fn test_collect_images_non_image_file_error() {
    let result = collect_images(&vec![file("/tmp/svt_test_non_image/test.txt")]);
    assert!(result.is_err());
}

#[test]
fn test_collect_images_empty_dir_error() {
    let result = collect_images(&vec![directory("/tmp/svt_test_empty", &[])]);
    assert!(result.is_err());
}

#[test]
fn image_extension_edge_cases() {
    assert!(is_image_file("dir.d/photo.WebP"));
    assert!(is_image_file("a.b.gif"));
    assert!(is_image_file("photo.png/"));
    assert!(is_image_file("photo.png/."));
    assert!(!is_image_file(".png"));
    assert!(!is_image_file("dir/.png"));
    assert!(!is_image_file("photo.png/.."));
    assert!(!is_image_file("photo.png.bak"));
    assert!(!is_image_file("photo."));
    assert!(!is_image_file("photo.pn"));
    assert!(!is_image_file("photo.pngg"));
    assert!(!is_image_file("a.png/b"));
    assert!(!is_image_file(""));
    assert!(!is_image_file("/"));
    assert!(is_image_file("..png"));
    assert!(!is_image_file("photo.\u{212a}pg"));
}

#[test]
fn file_name_follows_path_rules() {
    assert_eq!(file_name("/usr/bin/"), Some("bin"));
    assert_eq!(file_name("tmp/foo.txt"), Some("foo.txt"));
    assert_eq!(file_name("foo.txt/."), Some("foo.txt"));
    assert_eq!(file_name("foo.txt/.//"), Some("foo.txt"));
    assert_eq!(file_name("foo.txt/.."), None);
    assert_eq!(file_name("/"), None);
    assert_eq!(file_name(""), None);
    assert_eq!(file_name("."), None);
    assert_eq!(file_name("./a"), Some("a"));
    assert_eq!(file_name("日本/語.png"), Some("語.png"));
    assert_eq!(to_chars("日本"), vec!['日', '本']);
}

#[test]
fn collect_errors_name_the_path() {
    let err = collect_images(&vec![file("a.png"), file("notes.txt"), file("b.png")]).unwrap_err();
    assert_eq!(err.kind, CollectErrorKind::NotAnImage);
    assert_eq!(err.path, "notes.txt");
    assert_eq!(err.message(), "Not a supported image file: notes.txt");

    let err = collect_images(&vec![directory("d", &["x.txt"])]).unwrap_err();
    assert_eq!(err.kind, CollectErrorKind::NoImagesInDirectory);
    assert_eq!(err.message(), "No image files found in directory: d");

    let missing = Listing { path: "gone".to_string(), kind: PathKind::Missing, files: Vec::new() };
    let err = collect_images(&vec![missing]).unwrap_err();
    assert_eq!(err.kind, CollectErrorKind::MissingPath);
    assert_eq!(err.message(), "Path does not exist: gone");

    let locked = Listing { path: "locked".to_string(), kind: PathKind::Unreadable, files: Vec::new() };
    let err = collect_images(&vec![locked]).unwrap_err();
    assert_eq!(err.kind, CollectErrorKind::UnreadableDirectory);
    assert_eq!(err.message(), "Cannot read directory: locked");

    let err = collect_images(&Vec::new()).unwrap_err();
    assert_eq!(err.kind, CollectErrorKind::NoImages);
    assert_eq!(err.message(), "No image files found");
}

#[test]
fn collect_sorts_directories_and_drops_repeats() {
    let listings = vec![
        file("z/solo.png"),
        directory("d", &["c.png", "a.jpg", "notes.txt", "B.gif", "b.gif"]),
        file("d/a.jpg"),
        file("z/solo.png"),
    ];
    let images = collect_images(&listings).unwrap();
    assert_eq!(images, vec!["z/solo.png", "d/B.gif", "d/a.jpg", "d/b.gif", "d/c.png"]);
}

#[test]
fn text_order_is_byte_order() {
    assert!(text_before("a", "b"));
    assert!(!text_before("b", "a"));
    assert!(!text_before("a", "a"));
    assert!(text_before("a", "aa"));
    assert!(!text_before("aa", "a"));
    assert!(text_before("", "a"));
    assert!(!text_before("", ""));
    assert!(text_before("Z", "a"));
    assert!(text_before("z", "é"));
    let mut list: Vec<String> = Vec::new();
    for word in ["pear", "apple", "fig", "apple", "zoo", "a"] {
        insert_in_order(&mut list, word.to_string());
    }
    assert_eq!(list, vec!["a", "apple", "apple", "fig", "pear", "zoo"]);
}

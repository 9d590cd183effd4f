use mindbender::error::ApplicationError;
use mindbender::io;
use mindbender::pipeline::image::{has_valid_image_extension, is_lossless, same_text};

#[test]
fn image_test_is_lossless_png() {
    let result = is_lossless("test_image.png");

    assert_eq!(result.unwrap(), true);
}

#[test]
fn test_is_lossless_jpeg() {
    let result = is_lossless("test_image.jpg");

    assert_eq!(result.unwrap(), false);
}

#[test]
fn lossless_formats() {
    assert_eq!(is_lossless("a.bmp").unwrap(), true);
    assert_eq!(is_lossless("dir/a.TIFF").unwrap(), true);
    assert_eq!(is_lossless("a.jpeg").unwrap(), false);
    assert_eq!(is_lossless("a.gif").unwrap(), false);
    assert_eq!(is_lossless("a.webp").unwrap(), false);
}

#[test]
fn unsupported_formats_are_invalid_paths() {
    assert!(matches!(is_lossless("notes.txt"), Err(ApplicationError::InvalidPathError(_))));
    assert!(matches!(is_lossless("no_extension"), Err(ApplicationError::InvalidPathError(_))));
    assert!(matches!(is_lossless("icon.ico"), Err(ApplicationError::InvalidPathError(_))));
}

#[test]
fn image_extensions_in_any_case() {
    for name in ["a.png", "a.PNG", "b.jpg", "c.JpEg", "d.bmp", "e.tiff", "f.gif", "x/y.tar.png"] {
        assert!(has_valid_image_extension(name), "{}", name);
        assert!(io::has_valid_image_extension(name), "{}", name);
    }
}

#[test]
fn other_names_are_not_images() {
    for name in ["a.txt", "png", ".png", "a.png.txt", "a.webp", "a.tif", "", "dir.png/"] {
        let expected = name == "dir.png/";
        assert_eq!(has_valid_image_extension(name), expected, "{}", name);
        assert_eq!(io::has_valid_image_extension(name), expected, "{}", name);
    }
}

#[test]
fn same_text_compares_characters() {
    assert!(same_text("png", "png"));
    assert!(!same_text("png", "PNG"));
    assert!(!same_text("pn", "png"));
    assert!(same_text("", ""));
}

use lychee::{collect_paths, is_hidden_file, is_image_file, load_image};

fn strings(items: &[&str]) -> Vec<String> {
    items.iter().map(|s| s.to_string()).collect()
}

#[test]
fn image_extensions_are_recognised_in_any_case() {
    assert!(is_image_file("photo.png"));
    assert!(is_image_file("photo.PNG"));
    assert!(is_image_file("dir/holiday.JpEg"));
    assert!(is_image_file("scan.tif"));
    assert!(is_image_file("scan.tiff"));
    assert!(is_image_file("drawing.svg"));
    assert!(is_image_file("sprite.tga"));
    assert!(is_image_file("old.pnm"));
    assert!(is_image_file("old.PPM"));
    assert!(is_image_file("a.pgm"));
    assert!(is_image_file("a.pbm"));
    assert!(is_image_file("a.b.webp"));
}

#[test]
fn other_files_are_not_images() {
    assert!(!is_image_file("notes.txt"));
    assert!(!is_image_file("archive.png.gz"));
    assert!(!is_image_file("png"));
    assert!(!is_image_file("noextension"));
    assert!(!is_image_file(".png"));
    assert!(!is_image_file("old.pn"));
    assert!(!is_image_file("image.jp"));
    assert!(!is_image_file(""));
}

#[test]
fn extension_comes_from_the_final_component() {
    assert!(is_image_file("folder.png/"));
    assert!(!is_image_file("pictures.png/notes"));
    assert!(!is_image_file("pictures/.."));
}

#[test]
fn hidden_files_start_with_a_dot() {
    assert!(is_hidden_file(".hidden.png"));
    assert!(is_hidden_file("dir/.config"));
    assert!(!is_hidden_file("visible.png"));
    assert!(!is_hidden_file("dir.d/visible.png"));
    assert!(!is_hidden_file("/"));
    assert!(!is_hidden_file("dir/.."));
}

#[test]
fn several_paths_are_kept_as_given() {
    let paths = strings(&["b.png", "a.png", "notes.txt"]);
    assert_eq!(collect_paths(paths.clone(), None), paths);
    assert_eq!(collect_paths(paths.clone(), Some(strings(&["x.png"]))), paths);
}

#[test]
fn a_single_file_is_shown_alone() {
    assert_eq!(collect_paths(strings(&["image1.png"]), None), strings(&["image1.png"]));
    assert_eq!(collect_paths(strings(&["notes.txt"]), None), strings(&["notes.txt"]));
}

#[test]
fn a_directory_gives_its_visible_images_in_order() {
    let listing = strings(&[
        "pics/c.png",
        "pics/.thumb.png",
        "pics/readme.md",
        "pics/a.JPG",
        "pics/b.gif",
        "pics/B.bmp",
    ]);
    assert_eq!(
        collect_paths(strings(&["pics/"]), Some(listing)),
        strings(&["pics/B.bmp", "pics/a.JPG", "pics/b.gif", "pics/c.png"]),
    );
}

#[test]
fn an_unreadable_or_empty_directory_gives_no_images() {
    assert_eq!(collect_paths(strings(&["pics"]), Some(Vec::new())), Vec::<String>::new());
    assert_eq!(collect_paths(Vec::new(), None), Vec::<String>::new());
}

#[test]
fn directory_order_is_by_bytes() {
    let listing = strings(&["d/é.png", "d/z.png", "d/aa.png", "d/a.png", "d/Z.png"]);
    assert_eq!(
        collect_paths(strings(&["d"]), Some(listing)),
        strings(&["d/Z.png", "d/a.png", "d/aa.png", "d/z.png", "d/é.png"]),
    );
}

#[test]
fn every_listed_format_is_an_image() {
    for name in [
        "a.png", "a.jpg", "a.jpeg", "a.gif", "a.bmp", "a.tiff", "a.tif", "a.webp", "a.ico",
        "a.ppm", "a.pgm", "a.pbm", "a.pnm", "a.svg", "a.tga", "a.avif", "a.qoi", "a.hdr",
        "a.exr", "a.dds", "a.ff",
    ] {
        assert!(is_image_file(name), "{name}");
        assert!(is_image_file(&name.to_uppercase()), "{name}");
    }
}

#[test]
fn same_extension_same_answer() {
    assert_eq!(is_image_file("x/one.Gif"), is_image_file("two.GIF"));
    assert_eq!(is_image_file("one.doc"), is_image_file("two.DOC"));
}

fn ppm_two_pixels() -> Vec<u8> {
    let mut bytes = b"P6\n2 1\n255\n".to_vec();
    bytes.extend_from_slice(&[10, 20, 30, 40, 50, 60]);
    bytes
}

#[test]
fn a_file_decodes_by_its_extension() {
    let bytes = ppm_two_pixels();
    assert_eq!(
        load_image("pics/two.ppm", &bytes, 0, false, false),
        Some((2, 1, vec![10, 20, 30, 255, 40, 50, 60, 255])),
    );
    assert_eq!(
        load_image("TWO.PPM", &bytes, 0, true, false),
        Some((2, 1, vec![40, 50, 60, 255, 10, 20, 30, 255])),
    );
}

#[test]
fn a_decoded_file_is_turned_as_asked() {
    let bytes = ppm_two_pixels();
    assert_eq!(
        load_image("two.ppm", &bytes, 90, false, false),
        Some((1, 2, vec![10, 20, 30, 255, 40, 50, 60, 255])),
    );
    assert_eq!(
        load_image("two.ppm", &bytes, 270, false, false),
        Some((1, 2, vec![40, 50, 60, 255, 10, 20, 30, 255])),
    );
}

#[test]
fn undecodable_files_give_nothing() {
    let bytes = ppm_two_pixels();
    assert_eq!(load_image("two", &bytes, 0, false, false), None);
    assert_eq!(load_image("two.txt", &bytes, 0, false, false), None);
    assert_eq!(load_image("two.png", &bytes, 0, false, false), None);
    assert_eq!(load_image("two.ppm", b"not an image", 0, false, false), None);
    assert_eq!(load_image("two.ppm", &[], 0, false, false), None);
}

use eleviewr::errors::ViewerError;
use eleviewr::presenter::{
    display_title, show_image, AspectUniforms, ScreenSize, TexturePresenter,
};
use image::{ImageOutputFormat, Rgba, RgbaImage};
use std::io::Cursor;

fn png_bytes(width: u32, height: u32, pixel: [u8; 4]) -> Vec<u8> {
    let img = RgbaImage::from_pixel(width, height, Rgba(pixel));
    let mut buf: Vec<u8> = Vec::new();
    img.write_to(&mut Cursor::new(&mut buf), ImageOutputFormat::Png).unwrap();
    buf
}

#[test]
fn presenting_a_png_yields_plan_title_and_pixels() {
    let bytes = png_bytes(2, 3, [10, 20, 30, 255]);
    let mut presenter = TexturePresenter::new(ScreenSize { width: 800, height: 600 });
    let path = "/pics/tiny.png".to_string();
    let out = show_image(&mut presenter, &path, &bytes).unwrap();

    assert_eq!(out.selection.title, "EleViewr - tiny.png");
    assert_eq!(out.selection.width, 2);
    assert_eq!(out.selection.height, 3);
    assert_eq!(out.plan.width, 2);
    assert_eq!(out.plan.height, 3);
    assert_eq!(out.plan.bytes_per_row, 8);
    assert_eq!(out.plan.rows_per_image, 3);
    assert_eq!(out.pixels.len(), 24);
    let mut expected = Vec::new();
    for _ in 0..6 {
        expected.extend_from_slice(&[10, 20, 30, 255]);
    }
    assert_eq!(out.pixels, expected);

    assert_eq!(presenter.image_dimensions(), Some((2, 3)));
    assert_eq!(
        presenter.current_uniforms(),
        AspectUniforms { screen_width: 800, screen_height: 600, image_width: 2, image_height: 3 }
    );
}

#[test]
fn corrupt_bytes_fail_and_leave_presenter_untouched() {
    let mut presenter = TexturePresenter::new(ScreenSize { width: 640, height: 480 });
    let before = presenter.current_uniforms();
    let path = "/pics/broken.png".to_string();
    let garbage = vec![1u8, 2, 3, 4, 5, 6, 7, 8];
    match show_image(&mut presenter, &path, &garbage) {
        Err(ViewerError::DecodeFailure) => {}
        other => panic!("expected DecodeFailure, got {:?}", other.is_ok()),
    }
    assert_eq!(presenter.current_uniforms(), before);
    assert_eq!(presenter.image_dimensions(), None);
    assert!(!presenter.has_image());
}

#[test]
fn resize_with_image_updates_screen_terms_only() {
    let bytes = png_bytes(4, 2, [0, 0, 0, 255]);
    let mut presenter = TexturePresenter::new(ScreenSize { width: 800, height: 600 });
    let path = "/p/a.png".to_string();
    show_image(&mut presenter, &path, &bytes).unwrap();
    presenter.on_screen_resize(ScreenSize { width: 1024, height: 768 });
    assert_eq!(
        presenter.current_uniforms(),
        AspectUniforms { screen_width: 1024, screen_height: 768, image_width: 4, image_height: 2 }
    );
    assert_eq!(presenter.image_dimensions(), Some((4, 2)));
}

#[test]
fn resize_without_image_is_a_no_op_on_uniforms() {
    let mut presenter = TexturePresenter::new(ScreenSize { width: 800, height: 600 });
    let before = presenter.current_uniforms();
    presenter.on_screen_resize(ScreenSize { width: 300, height: 200 });
    assert_eq!(presenter.current_uniforms(), before);
    assert_eq!(presenter.screen_size(), ScreenSize { width: 300, height: 200 });
}

#[test]
fn clear_drops_image_but_keeps_uniform_values() {
    let bytes = png_bytes(1, 1, [9, 9, 9, 255]);
    let mut presenter = TexturePresenter::new(ScreenSize { width: 100, height: 100 });
    let path = "/p/one.png".to_string();
    show_image(&mut presenter, &path, &bytes).unwrap();
    let uniforms = presenter.current_uniforms();
    presenter.clear();
    assert!(!presenter.has_image());
    assert_eq!(presenter.current_uniforms(), uniforms);
}

#[test]
fn new_presenter_defaults_to_square_image_aspect() {
    let presenter = TexturePresenter::new(ScreenSize { width: 800, height: 600 });
    assert_eq!(
        presenter.current_uniforms(),
        AspectUniforms { screen_width: 800, screen_height: 600, image_width: 1, image_height: 1 }
    );
    assert!(!presenter.has_image());
}

#[test]
fn titles_use_the_file_name() {
    assert_eq!(display_title(&"/a/b/c/photo.jpg".to_string()), "EleViewr - photo.jpg");
    assert_eq!(display_title(&"bare.png".to_string()), "EleViewr - bare.png");
}

use pyapp::splash::window::{
    on_about_to_wait, on_window_event, surface_extent, SplashAction, SplashEvent, SplashImage,
};

#[test]
fn empty_surface_paints_nothing() {
    let image = SplashImage::new(vec![1, 2, 3, 4], 2, 2);
    assert_eq!(image.paint(0, 5), None);
    assert_eq!(image.paint(5, 0), None);
}

#[test]
fn image_of_surface_size_is_shown_as_is() {
    let pixels: Vec<u32> = (0..12).map(|i| 0x00_10_20_00 + i).collect();
    let image = SplashImage::new(pixels.clone(), 4, 3);
    assert_eq!(image.paint(4, 3), Some(pixels));
}

#[test]
fn larger_surface_is_black_outside_the_image() {
    let image = SplashImage::new(vec![1, 2, 3, 4], 2, 2);
    assert_eq!(image.paint(3, 3), Some(vec![1, 2, 0, 3, 4, 0, 0, 0, 0]));
}

#[test]
fn smaller_surface_crops_the_image() {
    let image = SplashImage::new(vec![1, 2, 3, 4, 5, 6], 3, 2);
    assert_eq!(image.paint(2, 1), Some(vec![1, 2]));
    assert_eq!(image.paint(1, 2), Some(vec![1, 4]));
}

#[test]
fn surface_side_is_never_zero() {
    assert_eq!(surface_extent(0), 1);
    assert_eq!(surface_extent(1), 1);
    assert_eq!(surface_extent(640), 640);
}

#[test]
fn close_request_is_ignored() {
    for done in [false, true] {
        for has_window in [false, true] {
            assert_eq!(on_window_event(SplashEvent::CloseRequested, done, has_window), SplashAction::Ignore);
            assert_eq!(on_window_event(SplashEvent::Other, done, has_window), SplashAction::Ignore);
        }
    }
}

#[test]
fn redraw_repaints_until_done() {
    assert_eq!(
        on_window_event(SplashEvent::RedrawRequested, false, true),
        SplashAction::Repaint { request_redraw: true }
    );
    assert_eq!(
        on_window_event(SplashEvent::RedrawRequested, false, false),
        SplashAction::Repaint { request_redraw: false }
    );
    assert_eq!(on_window_event(SplashEvent::RedrawRequested, true, true), SplashAction::Exit);
}

#[test]
fn waiting_loop_exits_once_done() {
    assert_eq!(on_about_to_wait(true, true), SplashAction::Exit);
    assert_eq!(on_about_to_wait(true, false), SplashAction::Exit);
    assert_eq!(on_about_to_wait(false, true), SplashAction::RequestRedraw);
    assert_eq!(on_about_to_wait(false, false), SplashAction::Ignore);
}

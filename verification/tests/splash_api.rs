use pyapp::splash::{close, is_enabled, is_enabled_flag, next_renderer, run_with_splash, update_status, Renderer};

#[test]
fn run_with_splash_returns_the_work_result() {
    assert_eq!(run_with_splash(|| 42), 42);
    let owned = String::from("done");
    assert_eq!(run_with_splash(move || owned), "done");
}

#[test]
fn without_the_feature_nothing_is_shown() {
    update_status("Downloading Python...");
    close();
    assert!(!is_enabled());
}

#[test]
fn only_the_flag_one_enables_the_splash() {
    assert!(is_enabled_flag("1"));
    assert!(!is_enabled_flag("0"));
    assert!(!is_enabled_flag("true"));
    assert!(!is_enabled_flag(""));
    assert!(!is_enabled_flag("11"));
    assert!(!is_enabled_flag(" 1"));
}

#[test]
fn renderers_are_tried_wgpu_then_glow() {
    assert_eq!(next_renderer(None, false), Some(Renderer::Wgpu));
    assert_eq!(next_renderer(Some(Renderer::Wgpu), true), None);
    assert_eq!(next_renderer(Some(Renderer::Wgpu), false), Some(Renderer::Glow));
    assert_eq!(next_renderer(Some(Renderer::Glow), false), None);
    assert_eq!(next_renderer(Some(Renderer::Glow), true), None);
}

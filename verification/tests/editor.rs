use dslcad::editor::{render_target, UiEvent};

#[test]
fn a_render_request_names_its_document() {
    let event = UiEvent::Render {
        path: "parts/gear.ds".to_string(),
    };
    assert_eq!(render_target(&None, &event), Some("parts/gear.ds".to_string()));
    assert_eq!(
        render_target(&Some("other.ds".to_string()), &event),
        Some("parts/gear.ds".to_string())
    );
}

#[test]
fn a_rerender_takes_the_last_document() {
    assert_eq!(
        render_target(&Some("main.ds".to_string()), &UiEvent::ReRender()),
        Some("main.ds".to_string())
    );
    assert_eq!(render_target(&None, &UiEvent::ReRender()), None);
}

use termviz::menu::UI;
use termviz::tui::api_dash::{get_fake_status_data, icon_of, render_api_dash, render_status};

fn pair(url: &str, status: &str) -> (String, String) {
    (url.to_string(), status.to_string())
}

#[test]
fn fake_status_at_an_even_tick() {
    assert_eq!(
        get_fake_status_data(0),
        vec![
            pair("https://api.github.com", "Live"),
            pair("https://example.com", "Live"),
            pair("https://httpstat.us/503", "Error"),
        ]
    );
    assert_eq!(get_fake_status_data(4), get_fake_status_data(0));
}

#[test]
fn fake_status_at_an_odd_tick() {
    assert_eq!(
        get_fake_status_data(1),
        vec![
            pair("https://api.github.com", "Error"),
            pair("https://example.com", "Live"),
            pair("https://httpstat.us/503", "Error"),
        ]
    );
    assert_eq!(get_fake_status_data(usize::MAX), get_fake_status_data(1));
}

#[test]
fn icons_of_the_states() {
    assert_eq!(icon_of(&"Live".to_string()), "✅");
    assert_eq!(icon_of(&"Error".to_string()), "❌");
    assert_eq!(icon_of(&"Slow".to_string()), "\u{26a0}\u{fe0f}");
    assert_eq!(icon_of(&"live".to_string()), "\u{26a0}\u{fe0f}");
    assert_eq!(icon_of(&String::new()), "\u{26a0}\u{fe0f}");
}

#[test]
fn status_board_at_an_even_tick() {
    assert_eq!(
        render_api_dash(0),
        vec![
            "📊 API Status Dashboard".to_string(),
            String::new(),
            "✅  https://api.github.com".to_string(),
            "✅  https://example.com".to_string(),
            "❌  https://httpstat.us/503".to_string(),
        ]
    );
}

#[test]
fn status_board_at_an_odd_tick() {
    let frame = render_api_dash(7);
    assert_eq!(frame.len(), 5);
    assert_eq!(frame[2], "❌  https://api.github.com");
    assert_eq!(frame[3], "✅  https://example.com");
}

#[test]
fn status_board_of_any_list() {
    assert_eq!(
        render_status(&Vec::new()),
        vec!["📊 API Status Dashboard".to_string(), String::new()]
    );
    let frame = render_status(&vec![pair("a", "Unknown"), pair("", "Live")]);
    assert_eq!(frame[2], "\u{26a0}\u{fe0f}  a");
    assert_eq!(frame[3], "✅  ");
}

#[test]
fn menu_names() {
    assert_eq!(UI::ApiDash.to_string(), "API Dashboard");
    assert_eq!(UI::Network.to_string(), "Network");
    assert_eq!(UI::MetricsDash.to_string(), "Metrics Dashboard");
}

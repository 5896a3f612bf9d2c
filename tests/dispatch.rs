use gen3d_desktop::action::MenuAction;
use gen3d_desktop::dispatch::{dispatch, MenuEvent};
use gen3d_desktop::text::str_eq;

const RECOGNIZED: [&str; 5] = [
    "menu_settings",
    "menu_logs",
    "menu_import",
    "menu_export_glb",
    "menu_export_stl",
];

/// Runs a sequence of clicks and collects what a subscriber would observe.
fn run_clicks(ids: &[&str]) -> Vec<(String, String)> {
    let mut observed = Vec::new();
    for id in ids {
        if let Some(event) = dispatch(id) {
            observed.push((event.name().to_string(), event.payload().to_string()));
        }
    }
    observed
}

#[test]
fn every_recognized_id_emits_one_event_with_its_payload() {
    for id in RECOGNIZED {
        let observed = run_clicks(&[id]);
        assert_eq!(observed.len(), 1);
        assert_eq!(observed[0].0, "menu-action");
        assert_eq!(observed[0].1, id);
    }
}

#[test]
fn dispatch_maps_each_id_to_its_action() {
    assert_eq!(dispatch("menu_settings"), Some(MenuEvent { action: MenuAction::Settings }));
    assert_eq!(dispatch("menu_logs"), Some(MenuEvent { action: MenuAction::Logs }));
    assert_eq!(dispatch("menu_import"), Some(MenuEvent { action: MenuAction::Import }));
    assert_eq!(dispatch("menu_export_glb"), Some(MenuEvent { action: MenuAction::ExportGlb }));
    assert_eq!(dispatch("menu_export_stl"), Some(MenuEvent { action: MenuAction::ExportStl }));
}

#[test]
fn unknown_id_emits_nothing() {
    assert_eq!(dispatch("menu_unknown"), None);
    assert!(run_clicks(&["menu_unknown"]).is_empty());
}

#[test]
fn near_misses_emit_nothing() {
    assert_eq!(dispatch(""), None);
    assert_eq!(dispatch("menu_"), None);
    assert_eq!(dispatch("Menu_logs"), None);
    assert_eq!(dispatch("menu_logs "), None);
    assert_eq!(dispatch("menu_log"), None);
    assert_eq!(dispatch("menu_export_gl"), None);
    assert_eq!(dispatch("menu_export"), None);
    assert_eq!(dispatch("menu-action"), None);
}

#[test]
fn repeated_clicks_emit_one_event_each() {
    let n = 7;
    let clicks = vec!["menu_logs"; n];
    let observed = run_clicks(&clicks);
    assert_eq!(observed.len(), n);
    for (name, payload) in &observed {
        assert_eq!(name, "menu-action");
        assert_eq!(payload, "menu_logs");
    }
}

#[test]
fn unknown_click_between_two_known_leaves_no_trace() {
    let observed = run_clicks(&["menu_logs", "menu_unknown", "menu_logs"]);
    assert_eq!(observed.len(), 2);
    assert_eq!(observed[0], ("menu-action".to_string(), "menu_logs".to_string()));
    assert_eq!(observed[1], ("menu-action".to_string(), "menu_logs".to_string()));
}

#[test]
fn mixed_clicks_keep_their_order() {
    let observed = run_clicks(&["menu_import", "nothing", "menu_export_stl", "menu_settings"]);
    let payloads: Vec<&str> = observed.iter().map(|(_, p)| p.as_str()).collect();
    assert_eq!(payloads, vec!["menu_import", "menu_export_stl", "menu_settings"]);
}

#[test]
fn id_and_from_id_round_trip() {
    let all = [
        MenuAction::Settings,
        MenuAction::Logs,
        MenuAction::Import,
        MenuAction::ExportGlb,
        MenuAction::ExportStl,
    ];
    for (action, id) in all.iter().zip(RECOGNIZED) {
        assert_eq!(action.id(), id);
        assert_eq!(MenuAction::from_id(id), Some(*action));
    }
    assert_eq!(MenuAction::from_id("menu_unknown"), None);
}

#[test]
fn str_eq_compares_characters() {
    assert!(str_eq("", ""));
    assert!(str_eq("menu_logs", "menu_logs"));
    assert!(str_eq("é✓", "é✓"));
    assert!(!str_eq("menu_logs", "menu_logz"));
    assert!(!str_eq("menu", "menu_logs"));
    assert!(!str_eq("a", ""));
    assert!(!str_eq("é", "e"));
}

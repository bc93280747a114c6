use dslcad::settings::{ConfigValues, MemStore, Store};

#[test]
fn a_stored_value_loads_back() {
    let mut store = MemStore::default();
    assert_eq!(None, store.load("theme"));
    store.store("theme", "dark");
    store.store("grid", "on");
    assert_eq!(Some("dark"), store.load("theme"));
    store.store("theme", "light");
    assert_eq!(Some("light"), store.load("theme"));
    assert_eq!(Some("on"), store.load("grid"));
}

#[test]
fn config_lines_hold_key_value_pairs() {
    let values = ConfigValues::parse("theme=dark\r\ngrid=on\nnot a setting\nzoom=2=3\ntheme=light");
    assert_eq!(Some("light"), values.get("theme"));
    assert_eq!(Some("on"), values.get("grid"));
    assert_eq!(Some("2"), values.get("zoom"));
    assert_eq!(None, values.get("not a setting"));
}

#[test]
fn a_carriage_return_stays_on_a_last_line_without_line_feed() {
    let values = ConfigValues::parse("a=1\r");
    assert_eq!(Some("1\r"), values.get("a"));
    let values = ConfigValues::parse("");
    assert_eq!(None, values.get(""));
    let values = ConfigValues::parse("=empty key\n");
    assert_eq!(Some("empty key"), values.get(""));
}

#[test]
fn rendered_settings_parse_back() {
    let mut values = ConfigValues::new();
    values.set("theme", "dark");
    values.set("grid", "");
    values.set("theme", "light");
    let text = values.render();
    assert_eq!("theme=light\ngrid=\n", text);
    let back = ConfigValues::parse(&text);
    assert_eq!(Some("light"), back.get("theme"));
    assert_eq!(Some(""), back.get("grid"));
}

#[test]
fn a_file_store_reads_its_config_and_writes_after_a_change() {
    let mut store = dslcad::settings::FileStore::from_config(Some("theme=dark\nzoom=1.5\n"));
    assert_eq!(Some("dark"), store.load("theme"));
    assert_eq!(Some("1.5"), store.load("zoom"));
    assert_eq!(None, store.take_unsaved());

    store.store("theme", "light");
    store.store("grid", "on");
    let text = store.take_unsaved().unwrap();
    assert_eq!(text, "theme=light\nzoom=1.5\ngrid=on\n");
    assert_eq!(None, store.take_unsaved());

    let reloaded = dslcad::settings::FileStore::from_config(Some(&text));
    assert_eq!(Some("light"), reloaded.load("theme"));
    assert_eq!(Some("1.5"), reloaded.load("zoom"));
    assert_eq!(Some("on"), reloaded.load("grid"));
}

#[test]
fn a_file_store_without_a_config_is_empty() {
    let store = dslcad::settings::FileStore::from_config(None);
    assert_eq!(None, store.load("theme"));
}

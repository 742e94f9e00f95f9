use difiko::app::Picker;

fn filters_and_selects() {
    let mut p = Picker::new(vec!["foo.rs".into(), "bar.rs".into(), "baz.txt".into()]);
    assert_eq!(p.filtered.len(), 3);
    for c in "ba".chars() {
        p.query.insert(c);
    }
    p.refilter();
    assert_eq!(p.filtered.len(), 2);
    let cur = p.current().unwrap().clone();
    assert!(cur.starts_with("ba"));
    p.move_down();
    let cur2 = p.current().unwrap().clone();
    assert!(cur2.starts_with("ba"));
    assert_ne!(cur, cur2);
}

fn lands_on_current() {
    let p = Picker::with_selected(
        vec!["main".into(), "develop".into(), "feat/x".into()],
        Some("feat/x"),
    );
    assert_eq!(p.current().map(String::as_str), Some("feat/x"));
}

fn falls_back_when_missing() {
    let p = Picker::with_selected(vec!["main".into(), "develop".into()], Some("not-in-list"));
    assert_eq!(p.current().map(String::as_str), Some("main"));
}

fn no_match_clears_selection() {
    let mut p = Picker::new(vec!["foo.rs".into()]);
    for c in "zzzz".chars() {
        p.query.insert(c);
    }
    p.refilter();
    assert!(p.filtered.is_empty());
    assert!(p.current().is_none());
}

#[test]
fn picker_picker_filters_and_selects() {
    filters_and_selects();
}

#[test]
fn app_picker_filters_and_selects() {
    filters_and_selects();
}

#[test]
fn picker_picker_with_selected_lands_on_current() {
    lands_on_current();
}

#[test]
fn app_picker_with_selected_lands_on_current() {
    lands_on_current();
}

#[test]
fn picker_picker_with_selected_falls_back_when_missing() {
    falls_back_when_missing();
}

#[test]
fn app_picker_with_selected_falls_back_when_missing() {
    falls_back_when_missing();
}

#[test]
fn picker_picker_no_match_clears_selection() {
    no_match_clears_selection();
}

#[test]
fn app_picker_no_match_clears_selection() {
    no_match_clears_selection();
}

#[test]
fn empty_query_restores_every_item_in_order() {
    let mut p = Picker::new(vec!["a".into(), "b".into(), "c".into()]);
    p.query.insert('b');
    p.refilter();
    assert_eq!(p.filtered, vec![1]);
    p.query.backspace();
    p.refilter();
    assert_eq!(p.filtered, vec![0, 1, 2]);
}

#[test]
fn move_up_stops_at_top_and_down_at_bottom() {
    let mut p = Picker::new(vec!["a".into(), "b".into()]);
    p.move_up();
    assert_eq!(p.selected, 0);
    p.move_down();
    p.move_down();
    assert_eq!(p.selected, 1);
}

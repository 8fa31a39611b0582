use fbw_systems::fdr_reader::DataPoint;
use fbw_systems::parameters::make_param;
use fbw_systems::plot_panel::{merge_keys, palette_color, PlotPanel, Rgba, PALETTE_LEN};

fn area(a: DataPoint, b: DataPoint, c: DataPoint) -> u64 {
    let (ax, ay) = (f64::from_bits(a.time_s), f64::from_bits(a.value));
    let (bx, by) = (f64::from_bits(b.time_s), f64::from_bits(b.value));
    let (cx, cy) = (f64::from_bits(c.time_s), f64::from_bits(c.value));
    ((bx - ax) * (cy - ay) - (cx - ax) * (by - ay)).abs().to_bits()
}

fn p(t: f64, v: f64) -> DataPoint {
    DataPoint { time_s: t.to_bits(), value: v.to_bits() }
}

#[test]
fn palette_repeats() {
    assert_eq!(palette_color(0), Rgba { r: 255, g: 87, b: 87, a: 255 });
    assert_eq!(palette_color(11), Rgba { r: 72, g: 61, b: 139, a: 255 });
    assert_eq!(palette_color(PALETTE_LEN), palette_color(0));
    assert_eq!(palette_color(13), palette_color(1));
}

#[test]
fn panels_start_empty() {
    let p = PlotPanel::default();
    assert_eq!(p.title(), "New Graph");
    assert!(p.entries().is_empty());
    assert!(p.auto_y());
    assert!(!p.is_cached());
    assert_eq!(PlotPanel::new("Flight Overview").title(), "Flight Overview");
}

#[test]
fn entries_are_added_coloured_and_visible() {
    let mut p = PlotPanel::new("G");
    p.update_cache(&vec![], 10, area);
    p.add_entry(make_param("a.x", "A", "X", ""));
    assert!(!p.is_cached());
    p.add_entry(make_param("a.y", "A", "Y", ""));
    assert_eq!(p.entries()[0].color, palette_color(0));
    assert_eq!(p.entries()[1].color, palette_color(1));
    assert!(p.entries()[1].visible);
    assert_eq!(p.visible_keys(), vec!["a.x", "a.y"]);
    p.entries_mut()[0].visible = false;
    assert_eq!(p.visible_keys(), vec!["a.y"]);
    p.set_auto_y(false);
    assert!(!p.auto_y());
}

#[test]
fn removing_entries() {
    let mut p = PlotPanel::new("G");
    p.add_entry(make_param("a.x", "A", "X", ""));
    p.add_entry(make_param("a.y", "A", "Y", ""));
    p.update_cache(&vec![], 10, area);
    assert_eq!(p.remove_entry(5), None);
    assert!(p.is_cached());
    assert_eq!(p.remove_entry(0), Some("a.x".to_string()));
    assert!(!p.is_cached());
    assert_eq!(p.visible_keys(), vec!["a.y"]);
    p.invalidate_cache();
    assert!(!p.is_cached());
}

#[test]
fn merged_keys_are_unique_in_first_seen_order() {
    let lists = vec![vec!["a", "b"], vec!["b", "c", "a"], vec![], vec!["d", "d"]];
    assert_eq!(merge_keys(&lists), vec!["a", "b", "c", "d"]);
}

#[test]
fn cache_holds_reduced_series_per_entry() {
    let mut panel = PlotPanel::new("G");
    panel.add_entry(make_param("b", "A", "B", ""));
    panel.add_entry(make_param("missing", "A", "M", ""));
    panel.add_entry(make_param("a", "A", "A", ""));
    panel.entries_mut()[2].visible = false;
    let long: Vec<DataPoint> = (0..10).map(|i| p(i as f64, (i % 3) as f64)).collect();
    let raw = vec![("a".to_string(), vec![p(0.0, 1.0)]), ("b".to_string(), long.clone())];
    let cache = panel.update_cache(&raw, 4, area);
    assert!(panel.is_cached());
    let keys: Vec<&str> = cache.iter().map(|(k, _)| k.as_str()).collect();
    assert_eq!(keys, vec!["b", "a"]);
    assert_eq!(cache[0].1.len(), 4);
    assert_eq!(cache[0].1[0], long[0]);
    assert_eq!(cache[0].1[3], long[9]);
    assert_eq!(cache[1].1, vec![p(0.0, 1.0)]);
}

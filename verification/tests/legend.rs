use lib::MapLegend;

#[test]
fn test_legend_define_and_lookup() {
    let mut legend = MapLegend::new();
    legend.define("🔴", "agent active");
    legend.define("⬛", "room offline");
    assert_eq!(legend.lookup("🔴"), Some("agent active"));
    assert_eq!(legend.lookup("❓"), None);
    assert_eq!(legend.entry_count(), 2);
}

#[test]
fn legend_redefine_replaces_meaning() {
    let mut legend = MapLegend::default();
    assert_eq!(legend.entry_count(), 0);
    legend.define("x", "first");
    legend.define("y", "other");
    legend.define("x", "second");
    assert_eq!(legend.lookup("x"), Some("second"));
    assert_eq!(legend.lookup("y"), Some("other"));
    assert_eq!(legend.entry_count(), 2);
}

#[test]
fn legend_symbols_lists_each_symbol_once() {
    let mut legend = MapLegend::new();
    legend.define("a", "1");
    legend.define("b", "2");
    legend.define("a", "3");
    let mut symbols = legend.symbols();
    symbols.sort();
    assert_eq!(symbols, vec!["a", "b"]);
    assert!(MapLegend::new().symbols().is_empty());
}

#[test]
fn legend_equality_ignores_definition_order() {
    let mut l1 = MapLegend::new();
    l1.define("a", "1");
    l1.define("b", "2");
    let mut l2 = MapLegend::new();
    l2.define("b", "2");
    l2.define("a", "1");
    assert!(l1 == l2);
    let copy = l1.clone();
    assert!(copy == l1);
    l2.define("a", "changed");
    assert!(l1 != l2);
    let mut l3 = MapLegend::new();
    l3.define("a", "1");
    assert!(l1 != l3);
}

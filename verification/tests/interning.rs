use sheetpack::manager::Manager;

fn text(s: &str) -> String {
    s.to_string()
}

#[test]
fn new_table_knows_no_id() {
    let m = Manager::new(5);
    assert_eq!(m.get_data(5), None);
    assert_eq!(m.get_data(0), None);
    assert!(!m.is_full());
}

#[test]
fn first_value_gets_the_initial_id() {
    let mut m = Manager::new(7);
    assert_eq!(m.get_id(&text("bold")), 7);
}

#[test]
fn seen_value_keeps_its_id() {
    let mut m = Manager::new(0);
    let a = m.get_id(&text("bold"));
    let b = m.get_id(&text("italic"));
    assert_eq!(m.get_id(&text("bold")), a);
    assert_eq!(m.get_id(&text("italic")), b);
    assert_eq!(m.get_id(&text("bold")), a);
}

#[test]
fn distinct_values_get_distinct_ids() {
    let mut m = Manager::new(0);
    let a = m.get_id(&text("bold"));
    let b = m.get_id(&text("italic"));
    let c = m.get_id(&text(""));
    assert_ne!(a, b);
    assert_ne!(a, c);
    assert_ne!(b, c);
}

#[test]
fn ids_are_contiguous_from_the_initial_id() {
    let mut m = Manager::new(10);
    let values = ["a", "b", "a", "c", "b", "d", "a"];
    let mut seen = Vec::new();
    for v in values.iter() {
        seen.push(m.get_id(&text(v)));
    }
    assert_eq!(seen, vec![10, 11, 10, 12, 11, 13, 10]);
    assert_eq!(m.get_data(9), None);
    assert_eq!(m.get_data(14), None);
}

#[test]
fn reverse_lookup_gives_the_value() {
    let mut m = Manager::new(1);
    let a = m.get_id(&text("bold"));
    let b = m.get_id(&text("italic"));
    assert_eq!(m.get_data(a), Some(&text("bold")));
    assert_eq!(m.get_data(b), Some(&text("italic")));
    assert_eq!(m.get_data(b + 1), None);
}

#[test]
fn full_table_still_answers_for_seen_values() {
    let mut m = Manager::new(u32::MAX - 1);
    assert_eq!(m.try_get_id(&text("last")), Some(u32::MAX - 1));
    assert!(m.is_full());
    assert_eq!(m.try_get_id(&text("one too many")), None);
    assert_eq!(m.try_get_id(&text("last")), Some(u32::MAX - 1));
    assert_eq!(m.get_id(&text("last")), u32::MAX - 1);
    assert_eq!(m.get_data(u32::MAX), None);
}

#[test]
fn copy_of_a_table_goes_its_own_way() {
    let mut m = Manager::new(0);
    m.get_id(&text("a"));
    let mut n = m.clone();
    assert_eq!(n.get_id(&text("b")), 1);
    assert_eq!(m.get_data(1), None);
    assert_eq!(m.get_id(&text("c")), 1);
    assert_eq!(n.get_data(1), Some(&text("b")));
}

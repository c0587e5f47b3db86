use live_data::ident::{compare_ids, normalize, IdIndex, Placement};

fn names(list: &[&str]) -> Vec<String> {
    list.iter().map(|s| s.to_string()).collect()
}

#[test]
fn compare_orders_by_first_difference() {
    assert_eq!(compare_ids("ET01", "ET02"), Placement::Before);
    assert_eq!(compare_ids("ET02", "ET01"), Placement::After);
    assert_eq!(compare_ids("ET01", "ET01"), Placement::Same);
}

#[test]
fn compare_puts_a_prefix_first() {
    assert_eq!(compare_ids("ET", "ET01"), Placement::Before);
    assert_eq!(compare_ids("ET01", "ET"), Placement::After);
    assert_eq!(compare_ids("", "A"), Placement::Before);
    assert_eq!(compare_ids("", ""), Placement::Same);
}

#[test]
fn compare_goes_by_code_point() {
    assert_eq!(compare_ids("Z", "a"), Placement::Before);
    assert_eq!(compare_ids("z", "é"), Placement::Before);
    assert_eq!(compare_ids("é", "z"), Placement::After);
}

#[test]
fn compare_agrees_with_the_order_of_strings() {
    let samples = ["", "A", "AB", "B", "a", "et01", "ET01", "ET1", "é", "日本"];
    for a in samples.iter() {
        for b in samples.iter() {
            let expected = if a < b {
                Placement::Before
            } else if a == b {
                Placement::Same
            } else {
                Placement::After
            };
            assert_eq!(compare_ids(a, b), expected);
        }
    }
}

#[test]
fn normalize_raises_ascii_letters() {
    assert_eq!(normalize("et-01a"), "ET-01A");
    assert_eq!(normalize("ET01"), "ET01");
    assert_eq!(normalize(""), "");
}

#[test]
fn normalize_leaves_other_characters() {
    assert_eq!(normalize("é-x_9"), "é-X_9");
}

#[test]
fn normalize_twice_is_normalize_once() {
    let once = normalize("Node-b7");
    assert_eq!(normalize(&once), once);
}

#[test]
fn index_sorts_and_drops_repeats() {
    let index = IdIndex::from_list(&names(&["C", "A", "B", "A", "C"]));
    assert_eq!(index.len(), 3);
    assert_eq!(index.to_vec(), names(&["A", "B", "C"]));
    assert_eq!(index.id_at(1), "B");
}

#[test]
fn index_locates_members_and_gaps() {
    let index = IdIndex::from_list(&names(&["B", "D", "F"]));
    assert_eq!(index.locate("B"), Ok(0));
    assert_eq!(index.locate("D"), Ok(1));
    assert_eq!(index.locate("F"), Ok(2));
    assert_eq!(index.locate("A"), Err(0));
    assert_eq!(index.locate("C"), Err(1));
    assert_eq!(index.locate("G"), Err(3));
    assert!(index.contains("D"));
    assert!(!index.contains("d"));
}

#[test]
fn index_inserts_where_locate_says() {
    let mut index = IdIndex::new();
    assert_eq!(index.len(), 0);
    for id in ["M", "A", "Z"] {
        if let Err(at) = index.locate(id) {
            index.insert_at(at, id.to_string());
        }
    }
    assert_eq!(index.to_vec(), names(&["A", "M", "Z"]));
}

use diary_cli::archive::Archive;
use diary_cli::list::{self, ListError, ListField};
use diary_cli::store::{Datum, Key, Op};
use std::collections::BTreeMap;

/// Applies list fields to an image of a list container.
fn apply(image: &mut (Option<u16>, BTreeMap<u16, String>), fields: Vec<ListField<String>>) {
    for f in fields {
        match f {
            ListField::Clear => {
                image.0 = None;
                image.1.clear();
            }
            ListField::Length(n) => image.0 = Some(n),
            ListField::Item(i, v) => {
                image.1.insert(i, v);
            }
            ListField::Drop(i) => {
                image.1.remove(&i);
            }
        }
    }
}

fn read_back(image: &(Option<u16>, BTreeMap<u16, String>)) -> Result<Vec<String>, ListError> {
    let length = image.0.expect("length written");
    let items = (0..length).map(|i| image.1.get(&i).cloned()).collect();
    list::read(length, items)
}

fn strings(values: &[&str]) -> Vec<String> {
    values.iter().map(|s| s.to_string()).collect()
}

#[test]
fn round_trip_three_strings() {
    let values = strings(&["alpha", "beta", "gamma"]);
    let mut image = (None, BTreeMap::new());
    apply(&mut image, list::write(&values).unwrap());
    assert_eq!(read_back(&image), Ok(values));
}

#[test]
fn round_trip_empty_list() {
    let values: Vec<String> = Vec::new();
    let fields = list::write(&values).unwrap();
    assert_eq!(fields, vec![ListField::Clear, ListField::Length(0)]);
    let mut image = (None, BTreeMap::new());
    apply(&mut image, fields);
    assert_eq!(read_back(&image), Ok(Vec::new()));
}

#[test]
fn round_trip_over_a_longer_old_list() {
    let mut image = (None, BTreeMap::new());
    apply(&mut image, list::write(&strings(&["a", "b", "c", "d"])).unwrap());
    apply(&mut image, list::write(&strings(&["x"])).unwrap());
    assert_eq!(read_back(&image), Ok(strings(&["x"])));
    assert_eq!(image.1.keys().copied().collect::<Vec<u16>>(), vec![0]);
}

#[test]
fn write_orders_children_before_length() {
    let fields = list::write(&strings(&["a", "b"])).unwrap();
    assert_eq!(
        fields,
        vec![
            ListField::Clear,
            ListField::Item(0, "a".to_string()),
            ListField::Item(1, "b".to_string()),
            ListField::Length(2),
        ]
    );
}

#[test]
fn write_refuses_a_list_longer_than_u16() {
    let values = vec![String::new(); 65_536];
    assert_eq!(list::write(&values), Err(ListError::TooLong));
    let values = vec![String::new(); 65_535];
    assert_eq!(list::write(&values).map(|f| f.len()), Ok(65_537));
}

#[test]
fn pushes_keep_order_and_count() {
    let mut image = (None, BTreeMap::new());
    apply(&mut image, list::write(&Vec::new()).unwrap());
    let pushed = strings(&["e1", "e2", "e3"]);
    for v in &pushed {
        let length = image.0.unwrap();
        apply(&mut image, list::push(length, v.clone()).unwrap());
    }
    assert_eq!(image.0, Some(3));
    assert_eq!(read_back(&image), Ok(pushed));
}

#[test]
fn push_fields_exact() {
    assert_eq!(
        list::push(4, "v".to_string()),
        Ok(vec![ListField::Item(4, "v".to_string()), ListField::Length(5)])
    );
}

#[test]
fn push_onto_full_list_fails() {
    assert_eq!(list::push(65_535, "v".to_string()), Err(ListError::TooLong));
}

#[test]
fn read_reports_first_missing_element() {
    let items = vec![Some("a".to_string()), None, None];
    assert_eq!(list::read(3, items), Err(ListError::MissingItem(1)));
}

#[test]
fn remove_moves_later_elements_down() {
    let values = strings(&["a", "b", "c", "d"]);
    let fields = list::remove_at(&values, 1).unwrap();
    assert_eq!(
        fields,
        vec![
            ListField::Item(1, "c".to_string()),
            ListField::Item(2, "d".to_string()),
            ListField::Drop(3),
            ListField::Length(3),
        ]
    );
    let mut image = (None, BTreeMap::new());
    apply(&mut image, list::write(&values).unwrap());
    apply(&mut image, fields);
    assert_eq!(read_back(&image), Ok(strings(&["a", "c", "d"])));
    assert_eq!(image.1.keys().copied().collect::<Vec<u16>>(), vec![0, 1, 2]);
}

#[test]
fn remove_last_only_shrinks() {
    let values = strings(&["a", "b"]);
    assert_eq!(list::remove_at(&values, 1), Ok(vec![ListField::Drop(1), ListField::Length(1)]));
}

#[test]
fn position_finds_first_match() {
    let values = strings(&["a", "b", "b"]);
    assert_eq!(list::position(&values, &"b".to_string()), Some(1));
    assert_eq!(list::position(&values, &"z".to_string()), None);
}

#[test]
fn field_ops_address_the_list_container() {
    let path = vec![Key::Order, Key::Unsorted];
    let ops = list::field_ops(
        &path,
        vec![ListField::Clear, ListField::Item(0, "e1".to_string()), ListField::Drop(1), ListField::Length(1)],
    );
    assert_eq!(
        ops,
        vec![
            Op::Reset(vec![Key::Order, Key::Unsorted]),
            Op::Write(vec![Key::Order, Key::Unsorted], Key::Index(0), Datum::Str("e1".to_string())),
            Op::Remove(vec![Key::Order, Key::Unsorted, Key::Index(1)]),
            Op::Write(vec![Key::Order, Key::Unsorted], Key::Length, Datum::U16(1)),
        ]
    );
}

#[test]
fn uncommit_entry_leaves_both_lists() {
    let unsorted = strings(&["e0", "e1", "e2"]);
    let sorted = strings(&["e1"]);
    let ops = Archive::uncommit(&"e1".to_string(), false, &unsorted, &sorted);
    assert_eq!(
        ops,
        vec![
            Op::Remove(vec![Key::Entries, Key::Id("e1".to_string())]),
            Op::Write(vec![Key::Order, Key::Unsorted], Key::Index(1), Datum::Str("e2".to_string())),
            Op::Remove(vec![Key::Order, Key::Unsorted, Key::Index(2)]),
            Op::Write(vec![Key::Order, Key::Unsorted], Key::Length, Datum::U16(2)),
            Op::Remove(vec![Key::Order, Key::Sorted, Key::Index(0)]),
            Op::Write(vec![Key::Order, Key::Sorted], Key::Length, Datum::U16(0)),
        ]
    );
}

#[test]
fn uncommit_moc_only_removes_container() {
    let ops = Archive::uncommit(&"m".to_string(), true, &strings(&["m"]), &Vec::new());
    assert_eq!(ops, vec![Op::Remove(vec![Key::Mocs, Key::Id("m".to_string())])]);
}

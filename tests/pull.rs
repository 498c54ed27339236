use diary_cli::cache::Lazy;
use diary_cli::entity::{Collection, Section};
use diary_cli::entry::Entry;
use diary_cli::moc::MOC;
use diary_cli::config::ConfigValue;
use diary_cli::record::{parse_record, Record};

fn strings(values: &[&str]) -> Vec<String> {
    values.iter().map(|s| s.to_string()).collect()
}

fn table(v: ConfigValue) -> Vec<(String, ConfigValue)> {
    match v {
        ConfigValue::Table(t) => t,
        other => panic!("expected a table, got {other:?}"),
    }
}

#[test]
fn moc_pull_validates_back() {
    let mut moc = MOC::load_lazy("m1".to_string());
    moc.title.load("Map".to_string());
    moc.description.load("D".to_string());
    moc.notes.load(strings(&["n"]));
    moc.tags.load(strings(&["t"]));
    moc.collections.load(vec![Collection {
        title: Lazy::cached("C".to_string()),
        notes: Lazy::cached(Vec::new()),
        included: Lazy::cached(strings(&["a", "b"])),
    }]);
    let pulled = table(moc.pull());
    assert!(moc.title.needs_read() && moc.collections.needs_read());
    match parse_record(&pulled) {
        Ok(Record::Moc(m)) => {
            assert_eq!(m.uid, "m1");
            assert_eq!(m.title, "Map");
            assert_eq!(m.description, "D");
            assert_eq!(m.notes, strings(&["n"]));
            assert_eq!(m.tags, strings(&["t"]));
            assert_eq!(m.collections.len(), 1);
            assert_eq!(m.collections[0].title, "C");
            assert_eq!(m.collections[0].included, strings(&["a", "b"]));
        }
        other => panic!("expected a map, got {other:?}"),
    }
}

#[test]
fn entry_pull_validates_back() {
    let mut entry = Entry::load_lazy("e1".to_string());
    entry.title.load("T".to_string());
    entry.description.load("D".to_string());
    entry.notes.load(Vec::new());
    entry.tags.load(strings(&["x"]));
    entry.date.load(vec![2023, 1, 2]);
    entry.sections.load(vec![Section {
        title: Lazy::cached("S".to_string()),
        notes: Lazy::cached(strings(&["sn"])),
        content: Lazy::unloaded(),
    }]);
    let pulled = table(entry.pull(strings(&["section0.txt"])));
    match parse_record(&pulled) {
        Ok(Record::Entry(e)) => {
            assert_eq!(e.uid, "e1");
            assert_eq!(e.date, Some(vec![2023, 1, 2]));
            assert_eq!(e.tags, strings(&["x"]));
            assert_eq!(e.sections.len(), 1);
            assert_eq!(e.sections[0].title, "S");
            assert_eq!(e.sections[0].path, "section0.txt");
            assert_eq!(e.sections[0].notes, strings(&["sn"]));
        }
        other => panic!("expected an entry, got {other:?}"),
    }
}

#[test]
fn contains_tag_clears_tag_cache() {
    let mut moc = MOC::load_lazy("m".to_string());
    moc.tags.load(strings(&["a"]));
    assert!(moc.contains_tag(&"a".to_string()));
    assert!(moc.tags.needs_read());
    let mut entry = Entry::load_lazy("e".to_string());
    entry.tags.load(strings(&["a"]));
    assert!(!entry.contains_tag(&"b".to_string()));
    assert!(entry.tags.needs_read());
    assert_eq!(entry.get_uid(), "e");
}

use diary_cli::archive::{Archive, CommitError};
use diary_cli::config::{ConfigValue, Field, ValidationError};
use diary_cli::document::parse_config;
use diary_cli::record::{parse_record, Record};
use diary_cli::search::search;
use diary_cli::store::{Datum, Key, Op};
use std::collections::BTreeMap;

/// A store held in memory: every leaf under its path of key names.
#[derive(Default)]
struct Memory {
    leaves: BTreeMap<Vec<String>, Datum>,
}

fn name(k: &Key) -> String {
    match k {
        Key::Index(i) => i.to_string(),
        Key::Id(s) => s.clone(),
        other => format!("{other:?}").to_lowercase(),
    }
}

fn names(path: &[Key]) -> Vec<String> {
    path.iter().map(name).collect()
}

impl Memory {
    fn apply(&mut self, ops: Vec<Op>) {
        for op in ops {
            match op {
                Op::Reset(path) | Op::Remove(path) => {
                    let prefix = names(&path);
                    self.leaves.retain(|k, _| !k.starts_with(&prefix));
                }
                Op::Write(path, key, value) => {
                    let mut at = names(&path);
                    at.push(name(&key));
                    self.leaves.insert(at, value);
                }
            }
        }
    }

    fn get(&self, path: &[&str]) -> Option<&Datum> {
        self.leaves.get(&path.iter().map(|s| s.to_string()).collect::<Vec<_>>())
    }

    fn ids(&self, collection: &str) -> Vec<String> {
        let mut ids: Vec<String> =
            self.leaves.keys().filter(|k| k.len() > 2 && k[0] == collection).map(|k| k[1].clone()).collect();
        ids.dedup();
        ids
    }

    fn list(&self, path: &[&str]) -> Vec<String> {
        let mut at: Vec<String> = path.iter().map(|s| s.to_string()).collect();
        at.push("length".to_string());
        let length = match self.leaves.get(&at) {
            Some(Datum::U16(n)) => *n,
            other => panic!("no list length at {path:?}: {other:?}"),
        };
        at.pop();
        (0..length)
            .map(|i| {
                let mut k = at.clone();
                k.push(i.to_string());
                match self.leaves.get(&k) {
                    Some(Datum::Str(s)) => s.clone(),
                    other => panic!("no element {i} at {path:?}: {other:?}"),
                }
            })
            .collect()
    }
}

fn root(text: &str) -> Vec<(String, ConfigValue)> {
    parse_config(&text.to_string()).expect("valid toml")
}

const ENTRY_E1: &str = "[entry]\nuid = \"e1\"\ntitle = \"T\"\ntags = [\"x\"]\n";

fn today() -> Vec<u16> {
    vec![2024, 3, 9]
}

#[test]
fn scenario_commit_one_entry() {
    let mut store = Memory::default();
    let (mut archive, ops) = Archive::init(42);
    store.apply(ops);
    assert_eq!(archive.itver, 0);
    let config = root(ENTRY_E1);
    let ops = archive.commit(&config, false, Vec::new(), 0, today()).unwrap();
    store.apply(ops);
    assert_eq!(archive.itver, 1);
    assert_eq!(store.get(&["itver"]), Some(&Datum::U16(1)));
    assert_eq!(store.get(&["order", "unsorted", "length"]), Some(&Datum::U16(1)));
    assert_eq!(store.list(&["order", "unsorted"]), vec!["e1".to_string()]);
    let listed: Vec<(String, Vec<String>)> =
        store.ids("entries").into_iter().map(|id| (id.clone(), store.list(&["entries", &id, "tags"]))).collect();
    assert_eq!(search(&vec!["x".to_string()], &listed), vec!["e1".to_string()]);
}

#[test]
fn commit_stores_entry_attributes() {
    let mut store = Memory::default();
    let (mut archive, ops) = Archive::init(7);
    store.apply(ops);
    let config = root(
        "[entry]\nuid = \"e2\"\ntitle = \"Trip\"\ndescription = \"D\"\nnotes = [\"n1\"]\ntags = [\"a\", \"b\"]\ndate = [2023, 5, 17]\n\n[[section]]\ntitle = \"S\"\npath = \"s.txt\"\nnotes = [\"sn\"]\n",
    );
    let ops = archive.commit(&config, false, vec!["body\n".to_string()], 0, today()).unwrap();
    store.apply(ops);
    assert_eq!(store.get(&["entries", "e2", "title"]), Some(&Datum::Str("Trip".to_string())));
    assert_eq!(store.get(&["entries", "e2", "description"]), Some(&Datum::Str("D".to_string())));
    assert_eq!(store.get(&["entries", "e2", "date"]), Some(&Datum::U16s(vec![2023, 5, 17])));
    assert_eq!(store.list(&["entries", "e2", "tags"]), vec!["a".to_string(), "b".to_string()]);
    assert_eq!(store.list(&["entries", "e2", "notes"]), vec!["n1".to_string()]);
    assert_eq!(store.get(&["entries", "e2", "sections", "length"]), Some(&Datum::U16(1)));
    assert_eq!(store.get(&["entries", "e2", "sections", "0", "content"]), Some(&Datum::Str("body\n".to_string())));
    assert_eq!(store.list(&["entries", "e2", "sections", "0", "notes"]), vec!["sn".to_string()]);
}

#[test]
fn entry_without_date_gets_today() {
    let mut store = Memory::default();
    let (mut archive, ops) = Archive::init(7);
    store.apply(ops);
    store.apply(archive.commit(&root(ENTRY_E1), false, Vec::new(), 0, today()).unwrap());
    assert_eq!(store.get(&["entries", "e1", "date"]), Some(&Datum::U16s(today())));
    assert_eq!(store.get(&["entries", "e1", "description"]), Some(&Datum::Str(String::new())));
}

#[test]
fn failed_validation_leaves_version() {
    let (mut archive, _) = Archive::init(9);
    let config = root("[entry]\ntitle = \"T\"\ntags = [\"x\"]\n");
    let outcome = archive.commit(&config, false, Vec::new(), 0, today());
    assert_eq!(
        outcome,
        Err(CommitError::Invalid(ValidationError { part: None, field: Field::Uid, missing: true }))
    );
    assert_eq!(archive.itver, 0);
}

#[test]
fn duplicate_uid_is_refused() {
    let (mut archive, _) = Archive::init(9);
    assert_eq!(archive.commit(&root(ENTRY_E1), true, Vec::new(), 0, today()), Err(CommitError::Duplicate));
    assert_eq!(archive.itver, 0);
}

#[test]
fn exhausted_version_is_refused() {
    let mut archive = Archive::load(9, 65_535);
    assert_eq!(
        archive.commit(&root(ENTRY_E1), false, Vec::new(), 0, today()),
        Err(CommitError::VersionExhausted)
    );
    assert_eq!(archive.itver, 65_535);
}

#[test]
fn full_unsorted_list_is_refused() {
    let mut archive = Archive::load(9, 3);
    assert_eq!(archive.commit(&root(ENTRY_E1), false, Vec::new(), 65_535, today()), Err(CommitError::TooLong));
    assert_eq!(archive.itver, 3);
}

const MOC_M1: &str = "is-moc = true\n[moc]\nuid = \"m1\"\ntitle = \"Map\"\ndescription = \"All trips\"\ntags = [\"t\"]\n\n[[collection]]\ntitle = \"Trips\"\ninclude = [\"a\"]\n";

#[test]
fn commit_moc_skips_unsorted_list() {
    let mut store = Memory::default();
    let (mut archive, ops) = Archive::init(1);
    store.apply(ops);
    store.apply(archive.commit(&root(MOC_M1), false, Vec::new(), 0, today()).unwrap());
    assert_eq!(archive.itver, 1);
    assert_eq!(store.get(&["order", "unsorted", "length"]), Some(&Datum::U16(0)));
    assert_eq!(store.get(&["mocs", "m1", "title"]), Some(&Datum::Str("Map".to_string())));
    assert_eq!(store.get(&["mocs", "m1", "collections", "length"]), Some(&Datum::U16(1)));
    assert_eq!(store.list(&["mocs", "m1", "collections", "0", "include"]), vec!["a".to_string()]);
    assert_eq!(store.list(&["mocs", "m1", "notes"]), Vec::<String>::new());
}

#[test]
fn init_writes_identity_and_empty_lists() {
    let mut store = Memory::default();
    let (archive, ops) = Archive::init(0xDEAD_BEEF);
    store.apply(ops);
    assert_eq!(archive.uid(), 0xDEAD_BEEF);
    assert_eq!(store.get(&["uid"]), Some(&Datum::U64(0xDEAD_BEEF)));
    assert_eq!(store.get(&["itver"]), Some(&Datum::U16(0)));
    assert_eq!(store.list(&["order", "sorted"]), Vec::<String>::new());
    assert_eq!(store.list(&["order", "unsorted"]), Vec::<String>::new());
}

#[test]
fn parse_config_reads_toml() {
    let config = root("name = \"n\"\ncount = 3\nflag = true\nlist = [\"a\", \"b\"]\n[inner]\nk = \"v\"\n");
    let get = |k: &str| config.iter().find(|(key, _)| key == k).map(|(_, v)| v);
    assert_eq!(get("name"), Some(&ConfigValue::Str("n".to_string())));
    assert_eq!(get("count"), Some(&ConfigValue::Int(3)));
    assert_eq!(get("flag"), Some(&ConfigValue::Bool(true)));
    assert_eq!(
        get("list"),
        Some(&ConfigValue::Array(vec![ConfigValue::Str("a".to_string()), ConfigValue::Str("b".to_string())]))
    );
    assert_eq!(get("inner"), Some(&ConfigValue::Table(vec![("k".to_string(), ConfigValue::Str("v".to_string()))])));
    assert_eq!(get("float"), None);
}

#[test]
fn parse_config_rejects_bad_toml() {
    assert!(parse_config(&"[entry\nuid = ".to_string()).is_err());
}

#[test]
fn parse_config_keeps_floats_as_other() {
    let config = root("x = 1.5\n");
    assert_eq!(config, vec![("x".to_string(), ConfigValue::Other)]);
}

#[test]
fn is_moc_must_be_boolean() {
    let config = root("is-moc = \"yes\"\n");
    assert_eq!(
        parse_record(&config).err(),
        Some(ValidationError { part: None, field: Field::IsMoc, missing: false })
    );
}

#[test]
fn missing_entry_table() {
    assert_eq!(
        parse_record(&root("x = 1\n")).err(),
        Some(ValidationError { part: None, field: Field::Entry, missing: true })
    );
}

#[test]
fn tags_of_wrong_type() {
    let config = root("[entry]\nuid = \"e\"\ntitle = \"T\"\ntags = [\"x\", 3]\n");
    assert_eq!(
        parse_record(&config).err(),
        Some(ValidationError { part: None, field: Field::Tags, missing: false })
    );
}

#[test]
fn bad_date_is_rejected() {
    let config = root("[entry]\nuid = \"e\"\ntitle = \"T\"\ntags = []\ndate = [2023, 70000, 1]\n");
    assert_eq!(
        parse_record(&config).err(),
        Some(ValidationError { part: None, field: Field::Date, missing: false })
    );
}

#[test]
fn section_error_names_its_position() {
    let config = root(
        "[entry]\nuid = \"e\"\ntitle = \"T\"\ntags = []\n[[section]]\ntitle = \"a\"\npath = \"p\"\nnotes = []\n[[section]]\ntitle = \"b\"\nnotes = []\n",
    );
    assert_eq!(
        parse_record(&config).err(),
        Some(ValidationError { part: Some(1), field: Field::Path, missing: true })
    );
}

#[test]
fn moc_needs_collections() {
    let config = root("is-moc = true\n[moc]\nuid = \"m\"\ntitle = \"T\"\ndescription = \"D\"\ntags = []\n");
    assert_eq!(
        parse_record(&config).err(),
        Some(ValidationError { part: None, field: Field::Collection, missing: true })
    );
}

#[test]
fn collection_needs_its_tag_set() {
    let config = root(
        "is-moc = true\n[moc]\nuid = \"m\"\ntitle = \"T\"\ndescription = \"D\"\ntags = []\n[[collection]]\ntitle = \"c\"\n",
    );
    assert_eq!(
        parse_record(&config).err(),
        Some(ValidationError { part: Some(0), field: Field::Include, missing: true })
    );
}

#[test]
fn record_fields_of_entry() {
    match parse_record(&root(ENTRY_E1)) {
        Ok(Record::Entry(e)) => {
            assert_eq!(e.uid, "e1");
            assert_eq!(e.title, "T");
            assert_eq!(e.description, "");
            assert_eq!(e.tags, vec!["x".to_string()]);
            assert!(e.notes.is_empty());
            assert!(e.date.is_none());
            assert!(e.sections.is_empty());
        }
        other => panic!("expected an entry, got {other:?}"),
    }
}

#[test]
fn rewriting_a_list_leaves_no_stale_elements() {
    let mut store = Memory::default();
    let path = vec![Key::Entries, Key::Id("e".to_string()), Key::Tags];
    let long = vec!["a".to_string(), "b".to_string(), "c".to_string()];
    store.apply(diary_cli::list::field_ops(&path, diary_cli::list::write(&long).unwrap()));
    store.apply(diary_cli::list::field_ops(&path, diary_cli::list::write(&vec!["z".to_string()]).unwrap()));
    assert_eq!(store.list(&["entries", "e", "tags"]), vec!["z".to_string()]);
    assert_eq!(store.get(&["entries", "e", "tags", "1"]), None);
    assert_eq!(store.get(&["entries", "e", "tags", "2"]), None);
}

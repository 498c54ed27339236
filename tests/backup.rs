use diary_cli::archive::{Archive, Conflict, Restored};

fn at(uid: u64, itver: u16) -> Archive {
    Archive::load(uid, itver)
}

#[test]
fn unrelated_backup_refused_without_force() {
    let (after, verdict) = Archive::load_backup(Some(at(1, 5)), at(2, 9), false);
    assert_eq!(verdict, Err(Conflict::Unrelated));
    assert_eq!(after, Some(at(1, 5)));
}

#[test]
fn unrelated_backup_replaces_with_force() {
    let (after, verdict) = Archive::load_backup(Some(at(1, 5)), at(2, 9), true);
    assert_eq!(verdict, Ok(Restored::Forced));
    assert_eq!(after, Some(at(2, 9)));
}

#[test]
fn older_backup_refused_without_force() {
    let (after, verdict) = Archive::load_backup(Some(at(7, 5)), at(7, 4), false);
    assert_eq!(verdict, Err(Conflict::Older));
    assert_eq!(after, Some(at(7, 5)));
}

#[test]
fn older_backup_replaces_with_force() {
    let (after, verdict) = Archive::load_backup(Some(at(7, 5)), at(7, 4), true);
    assert_eq!(verdict, Ok(Restored::Forced));
    assert_eq!(after, Some(at(7, 4)));
}

#[test]
fn same_age_backup_loads_with_warning() {
    let (after, verdict) = Archive::load_backup(Some(at(7, 5)), at(7, 5), false);
    assert_eq!(verdict, Ok(Restored::SameAge));
    assert_eq!(after, Some(at(7, 5)));
}

#[test]
fn newer_backup_loads() {
    let (after, verdict) = Archive::load_backup(Some(at(7, 5)), at(7, 6), false);
    assert_eq!(verdict, Ok(Restored::Newer));
    assert_eq!(after, Some(at(7, 6)));
}

#[test]
fn backup_without_archive_in_place_loads() {
    let (after, verdict) = Archive::load_backup(None, at(3, 0), false);
    assert_eq!(verdict, Ok(Restored::Fresh));
    assert_eq!(after, Some(at(3, 0)));
}

#[test]
fn wipe_needs_the_exact_phrase() {
    let phrase = diary_cli::archive::WIPE_PHRASE.to_string();
    assert!(Archive::wipe_confirmed(&phrase));
    assert!(!Archive::wipe_confirmed(&format!("{phrase}.")));
    assert!(!Archive::wipe_confirmed(&String::new()));
}

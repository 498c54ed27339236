use vstd::prelude::*;
use crate::config::{ConfigValue, ValidationError};
use crate::entry::{Entry, entry_fits, entry_path, new_entry_changes};
use crate::list::{field_changes, field_ops, position, push_fields, remove_at, remove_fields};
use crate::moc::{MOC, moc_fits, moc_path, new_moc_changes};
use crate::record::{Record, RecordModel, parse_record, record_spec};
use crate::store::{Change, Key, Leaf, Op, Datum, append_ops, changes};

verus! {

/// The identity of an archive: a random identifier fixed at creation, and the
/// iteration version that each successful commit advances.
#[derive(Debug, Clone, Copy, PartialEq, Eq, Structural)]
pub struct Archive {
    pub uid: u64,
    pub itver: u16,
}

/// Why a backup was refused.
#[derive(Debug, Clone, Copy, PartialEq, Eq, Structural)]
pub enum Conflict {
    /// The backup belongs to another archive (its identifier differs).
    Unrelated,
    /// The backup is older than the archive in place (lower version).
    Older,
}

/// How a backup came to replace the archive in place.
#[derive(Debug, Clone, Copy, PartialEq, Eq, Structural)]
pub enum Restored {
    /// No archive was in place.
    Fresh,
    /// The backup is a newer version of the archive in place.
    Newer,
    /// The backup has the same version as the archive in place.
    SameAge,
    /// The checks were overridden.
    Forced,
}

/// The phrase an operator must enter to wipe the archive.
pub const WIPE_PHRASE: &'static str = "I, as the user, confirm that I fully understand that I am wiping my ENTIRE archive and that this action is permanent and irreversible";

/// The verdict on loading `backup` over `current` (if an archive is in place).
pub open spec fn reconcile(current: Option<Archive>, backup: Archive, force: bool) -> Result<Restored, Conflict> {
    match current {
        None => Ok(Restored::Fresh),
        Some(c) => if force {
            Ok(Restored::Forced)
        } else if c.uid != backup.uid {
            Err(Conflict::Unrelated)
        } else if c.itver > backup.itver {
            Err(Conflict::Older)
        } else if c.itver == backup.itver {
            Ok(Restored::SameAge)
        } else {
            Ok(Restored::Newer)
        },
    }
}

/// The archive in place after loading `backup` over `current`.
pub open spec fn after_load(current: Option<Archive>, backup: Archive, force: bool) -> Option<Archive> {
    if reconcile(current, backup, force) is Ok { Some(backup) } else { current }
}

/// What initialising an archive writes: its identifier, version zero, and
/// the two empty order lists.
pub open spec fn init_changes(uid: u64) -> Seq<Change> {
    seq![
        Change::Write(Seq::empty(), Key::Uid, Leaf::U64(uid)),
        Change::Write(Seq::empty(), Key::Itver, Leaf::U16(0)),
        Change::Write(seq![Key::Order, Key::Sorted], Key::Length, Leaf::U16(0)),
        Change::Write(seq![Key::Order, Key::Unsorted], Key::Length, Leaf::U16(0)),
    ]
}

impl Archive {
    /// A new archive with the identifier `uid` at version zero, and the
    /// operations that lay it out in an empty store.
    pub fn init(uid: u64) -> (r: (Archive, Vec<Op>))
        ensures
            r.0 == (Archive { uid, itver: 0 }),
            changes(r.1@) == init_changes(uid),
    {
        let ops = vec![
            Op::Write(Vec::new(), Key::Uid, Datum::U64(uid)),
            Op::Write(Vec::new(), Key::Itver, Datum::U16(0)),
            Op::Write(vec![Key::Order, Key::Sorted], Key::Length, Datum::U16(0)),
            Op::Write(vec![Key::Order, Key::Unsorted], Key::Length, Datum::U16(0)),
        ];
        assert(changes(ops@) =~= init_changes(uid));
        (Archive { uid, itver: 0 }, ops)
    }

    /// The archive whose identifier and version were read from the store.
    pub fn load(uid: u64, itver: u16) -> (r: Archive)
        ensures
            r == (Archive { uid, itver }),
    {
        Archive { uid, itver }
    }

    /// The archive's identifier.
    pub fn uid(&self) -> (r: u64)
        ensures
            r == self.uid,
    {
        self.uid
    }

    /// Decides whether `backup` may replace `current`, the archive in place
    /// if there is one. Returns the archive in place afterwards and the
    /// outcome. Without `force`, a backup of another archive or of an older
    /// version is turned down and `current` stays in place.
    pub fn load_backup(current: Option<Archive>, backup: Archive, force: bool) -> (r: (Option<Archive>, Result<Restored, Conflict>))
        ensures
            r.1 == reconcile(current, backup, force),
            r.0 == after_load(current, backup, force),
    {
        let verdict = match current {
            None => Ok(Restored::Fresh),
            Some(c) => if force {
                Ok(Restored::Forced)
            } else if c.uid != backup.uid {
                Err(Conflict::Unrelated)
            } else if c.itver > backup.itver {
                Err(Conflict::Older)
            } else if c.itver == backup.itver {
                Ok(Restored::SameAge)
            } else {
                Ok(Restored::Newer)
            },
        };
        match verdict {
            Ok(v) => (Some(backup), Ok(v)),
            Err(e) => (current, Err(e)),
        }
    }

    /// Whether the operator entered the wipe phrase exactly.
    pub fn wipe_confirmed(entered: &String) -> (r: bool)
        ensures
            r == (entered@ == WIPE_PHRASE@),
    {
        let phrase = WIPE_PHRASE.to_string();
        *entered == phrase
    }
}

/// Why a commit was refused; the archive is left as it was.
#[derive(Debug, Clone, Copy, PartialEq, Eq, Structural)]
pub enum CommitError {
    /// The configuration record is missing an attribute or has one of the
    /// wrong type.
    Invalid(ValidationError),
    /// An entity with the same identifier already exists in its collection.
    Duplicate,
    /// A list of the record, or the list of unsorted entries, is full.
    TooLong,
    /// The version counter is at its largest value.
    VersionExhausted,
}

/// What committing the configuration `root` to archive `a` denotes, or why it
/// is refused. `taken` tells whether the record's identifier is already used
/// in its collection, `contents` holds the text of each section of an entry,
/// `unsorted` is the length of the list of unsorted entries and `today` the
/// date of an entry that names none.
pub open spec fn commit_spec(
    a: Archive,
    root: Seq<(String, ConfigValue)>,
    taken: bool,
    contents: Seq<String>,
    unsorted: u16,
    today: Seq<u16>,
) -> Result<Seq<Change>, CommitError> {
    let bump = seq![Change::Write(Seq::empty(), Key::Itver, Leaf::U16((a.itver + 1) as u16))];
    match record_spec(root) {
        Err(e) => Err(CommitError::Invalid(e)),
        Ok(rec) => if taken {
            Err(CommitError::Duplicate)
        } else if a.itver == u16::MAX {
            Err(CommitError::VersionExhausted)
        } else {
            match rec {
                RecordModel::Entry(e) => if !entry_fits(e) || unsorted == u16::MAX {
                    Err(CommitError::TooLong)
                } else {
                    Ok(new_entry_changes(e, contents, today) + field_changes(
                        seq![Key::Order, Key::Unsorted],
                        push_fields(unsorted, e.uid),
                    ) + bump)
                },
                RecordModel::Moc(m) => if !moc_fits(m) {
                    Err(CommitError::TooLong)
                } else {
                    Ok(new_moc_changes(m) + bump)
                },
            }
        },
    }
}

/// The archive after a commit with the outcome `outcome`: one version later
/// when it succeeds, unchanged otherwise.
pub open spec fn after_commit(a: Archive, outcome: Result<Seq<Change>, CommitError>) -> Archive {
    if outcome is Ok {
        Archive { uid: a.uid, itver: (a.itver + 1) as u16 }
    } else {
        a
    }
}

/// The number of sections of the entry that a configuration describes (zero
/// for anything else).
pub open spec fn sections_needed(root: Seq<(String, ConfigValue)>) -> nat {
    match record_spec(root) {
        Ok(RecordModel::Entry(e)) => e.sections.len(),
        _ => 0,
    }
}

impl Archive {
    /// Commits the configuration `root` as a new entry or map of contents.
    /// `taken` tells whether its identifier is already used in its
    /// collection, `contents` holds the text of each section of an entry (in
    /// order; empty for a map), `unsorted` is the length read from the list
    /// of unsorted entries and `today` is the date of an entry that names
    /// none. On success the entry is appended to the unsorted list, the
    /// version advances by one, and the operations are returned; on failure
    /// the archive is unchanged.
    pub fn commit(
        &mut self,
        root: &Vec<(String, ConfigValue)>,
        taken: bool,
        contents: Vec<String>,
        unsorted: u16,
        today: Vec<u16>,
    ) -> (r: Result<Vec<Op>, CommitError>)
        requires
            contents@.len() == sections_needed(root@),
            today@.len() == 3,
        ensures
            match r {
                Ok(ops) => commit_spec(*old(self), root@, taken, contents@, unsorted, today@) is Ok
                    && changes(ops@) == commit_spec(*old(self), root@, taken, contents@, unsorted, today@)->Ok_0,
                Err(e) => commit_spec(*old(self), root@, taken, contents@, unsorted, today@) == Err::<Seq<Change>, CommitError>(e),
            },
            *final(self) == after_commit(*old(self), commit_spec(*old(self), root@, taken, contents@, unsorted, today@)),
    {
        let record = match parse_record(root) {
            Ok(rec) => rec,
            Err(e) => {
                return Err(CommitError::Invalid(e));
            },
        };
        if taken {
            return Err(CommitError::Duplicate);
        }
        if self.itver == 65535 {
            return Err(CommitError::VersionExhausted);
        }
        let next = self.itver + 1;
        let bump = vec![Op::Write(Vec::new(), Key::Itver, Datum::U16(next))];
        assert(changes(bump@) =~= seq![Change::Write(Seq::empty(), Key::Itver, Leaf::U16(next))]);
        let mut ops = match record {
            Record::Entry(e) => {
                if unsorted == 65535 {
                    return Err(CommitError::TooLong);
                }
                let uid = e.uid.clone();
                let made = Entry::new(e, contents, today);
                let mut ops = match made {
                    Ok((_, ops)) => ops,
                    Err(_) => {
                        return Err(CommitError::TooLong);
                    },
                };
                let pushed = match crate::list::push(unsorted, uid) {
                    Ok(fields) => fields,
                    Err(_) => {
                        return Err(CommitError::TooLong);
                    },
                };
                let at: Vec<Key> = vec![Key::Order, Key::Unsorted];
                assert(at@ =~= seq![Key::Order, Key::Unsorted]);
                append_ops(&mut ops, field_ops(&at, pushed));
                ops
            },
            Record::Moc(m) => {
                match MOC::new(m) {
                    Ok((_, ops)) => ops,
                    Err(_) => {
                        return Err(CommitError::TooLong);
                    },
                }
            },
        };
        append_ops(&mut ops, bump);
        self.itver = next;
        Ok(ops)
    }
}

/// Whether position `k` holds the first occurrence of `t` in `s`.
pub open spec fn is_first(s: Seq<String>, t: Seq<char>, k: int) -> bool {
    0 <= k < s.len() && s[k]@ == t && forall|j: int| 0 <= j < k ==> (#[trigger] s[j])@ != t
}

/// What taking the first occurrence of `t` out of the list `s` stored at `p`
/// denotes: nothing when `t` is absent.
pub open spec fn drop_changes(p: Seq<Key>, s: Seq<String>, t: Seq<char>) -> Seq<Change> {
    if exists|k: int| is_first(s, t, k) {
        field_changes(p, remove_fields(s, choose|k: int| is_first(s, t, k)))
    } else {
        Seq::empty()
    }
}

/// What removing the entry (or map, when `is_moc`) `uid` denotes: its
/// container goes, and an entry also leaves the unsorted and sorted lists,
/// whose later elements move down.
pub open spec fn uncommit_changes(uid: String, is_moc: bool, unsorted: Seq<String>, sorted: Seq<String>) -> Seq<Change> {
    if is_moc {
        seq![Change::Remove(moc_path(uid))]
    } else {
        seq![Change::Remove(entry_path(uid))] + drop_changes(seq![Key::Order, Key::Unsorted], unsorted, uid@)
            + drop_changes(seq![Key::Order, Key::Sorted], sorted, uid@)
    }
}

fn drop_ops(path: Vec<Key>, values: &Vec<String>, uid: &String) -> (r: Vec<Op>)
    requires
        values@.len() <= u16::MAX,
    ensures
        changes(r@) == drop_changes(path@, values@, uid@),
{
    match position(values, uid) {
        Some(k) => {
            proof {
                assert(is_first(values@, uid@, k as int));
                let c = choose|c: int| is_first(values@, uid@, c);
                if c < k {
                    assert(values@[c]@ != uid@);
                } else if k < c {
                    assert(values@[k as int]@ != uid@);
                }
            }
            match remove_at(values, k) {
                Ok(fields) => field_ops(&path, fields),
                Err(_) => Vec::new(),
            }
        },
        None => {
            let ops: Vec<Op> = Vec::new();
            assert(!exists|k: int| is_first(values@, uid@, k));
            assert(changes(ops@) =~= Seq::<Change>::empty());
            ops
        },
    }
}

impl Archive {
    /// The operations that remove the entry (or map, when `is_moc`) `uid`:
    /// its container is deleted, and an entry is also taken out of the
    /// unsorted and sorted lists (read beforehand as `unsorted` and
    /// `sorted`), whose later elements move down to keep positions dense.
    pub fn uncommit(uid: &String, is_moc: bool, unsorted: &Vec<String>, sorted: &Vec<String>) -> (r: Vec<Op>)
        requires
            unsorted@.len() <= u16::MAX,
            sorted@.len() <= u16::MAX,
        ensures
            changes(r@) == uncommit_changes(*uid, is_moc, unsorted@, sorted@),
    {
        let mut ops: Vec<Op> = Vec::new();
        if is_moc {
            let p: Vec<Key> = vec![Key::Mocs, Key::Id(uid.clone())];
            assert(p@ =~= moc_path(*uid));
            ops.push(Op::Remove(p));
            assert(changes(ops@) =~= uncommit_changes(*uid, is_moc, unsorted@, sorted@));
        } else {
            let p: Vec<Key> = vec![Key::Entries, Key::Id(uid.clone())];
            assert(p@ =~= entry_path(*uid));
            ops.push(Op::Remove(p));
            assert(changes(ops@) =~= seq![Change::Remove(entry_path(*uid))]);
            let u: Vec<Key> = vec![Key::Order, Key::Unsorted];
            assert(u@ =~= seq![Key::Order, Key::Unsorted]);
            append_ops(&mut ops, drop_ops(u, unsorted, uid));
            let s: Vec<Key> = vec![Key::Order, Key::Sorted];
            assert(s@ =~= seq![Key::Order, Key::Sorted]);
            append_ops(&mut ops, drop_ops(s, sorted, uid));
        }
        ops
    }
}

/// Whether a commit of `root` must succeed: the record is valid, its
/// identifier is free, the version can advance, every list of the record
/// fits a 16-bit length and, for an entry, the unsorted list is not full.
pub open spec fn commit_owed(a: Archive, root: Seq<(String, ConfigValue)>, taken: bool, unsorted: u16) -> bool {
    &&& record_spec(root) is Ok
    &&& !taken
    &&& a.itver < u16::MAX
    &&& match record_spec(root)->Ok_0 {
        RecordModel::Entry(e) => entry_fits(e) && unsorted < u16::MAX,
        RecordModel::Moc(m) => moc_fits(m),
    }
}

/// A successful commit advances the version by exactly one and keeps the
/// identifier; a record that fails validation leaves the archive unchanged;
/// and a valid record with a free identifier whose lists fit is committed
/// whenever the version can still advance.
pub proof fn commit_advances_version(
    a: Archive,
    root: Seq<(String, ConfigValue)>,
    taken: bool,
    contents: Seq<String>,
    unsorted: u16,
    today: Seq<u16>,
)
    ensures
        commit_spec(a, root, taken, contents, unsorted, today) is Ok ==> after_commit(
            a,
            commit_spec(a, root, taken, contents, unsorted, today),
        ).itver == a.itver + 1 && after_commit(a, commit_spec(a, root, taken, contents, unsorted, today)).uid == a.uid,
        record_spec(root) is Err ==> after_commit(a, commit_spec(a, root, taken, contents, unsorted, today)) == a,
        commit_owed(a, root, taken, unsorted) ==> commit_spec(a, root, taken, contents, unsorted, today) is Ok,
{
}

/// Loading a backup of another archive without `force` is refused as
/// unrelated and leaves the archive in place; with `force` the backup
/// replaces it.
pub proof fn identity_guard(current: Archive, backup: Archive)
    requires
        current.uid != backup.uid,
    ensures
        reconcile(Some(current), backup, false) == Err::<Restored, Conflict>(Conflict::Unrelated),
        after_load(Some(current), backup, false) == Some(current),
        after_load(Some(current), backup, true) == Some(backup),
{
}

/// Loading a backup with a lower version than the archive in place without
/// `force` is refused and leaves the archive in place; with `force` the
/// backup replaces it.
pub proof fn freshness_guard(current: Archive, backup: Archive)
    requires
        backup.itver < current.itver,
    ensures
        reconcile(Some(current), backup, false) is Err,
        after_load(Some(current), backup, false) == Some(current),
        after_load(Some(current), backup, true) == Some(backup),
{
}

} // verus!

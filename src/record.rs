use vstd::prelude::*;
use crate::config::{
    ConfigValue, Field, ValidationError, date, date_of, err, get, get_opt_str, get_str, get_strings,
    lookup, opt_str, opt_strings, req_str, req_strings,
};

verus! {

/// A section of an entry as its configuration gives it: a title, the path of
/// the file that holds its text, and its notes.
#[derive(Debug)]
pub struct SectionRecord {
    pub title: String,
    pub path: String,
    pub notes: Vec<String>,
}

/// A collection of a map of contents: a title, notes, and the tags whose
/// entries and maps it gathers.
#[derive(Debug)]
pub struct CollectionRecord {
    pub title: String,
    pub notes: Vec<String>,
    pub included: Vec<String>,
}

/// An entry as its configuration gives it; `date` is absent when the
/// configuration names none.
#[derive(Debug)]
pub struct EntryRecord {
    pub uid: String,
    pub title: String,
    pub description: String,
    pub notes: Vec<String>,
    pub tags: Vec<String>,
    pub date: Option<Vec<u16>>,
    pub sections: Vec<SectionRecord>,
}

/// A map of contents as its configuration gives it.
#[derive(Debug)]
pub struct MocRecord {
    pub uid: String,
    pub title: String,
    pub description: String,
    pub notes: Vec<String>,
    pub tags: Vec<String>,
    pub collections: Vec<CollectionRecord>,
}

/// A validated configuration record.
#[derive(Debug)]
pub enum Record {
    Entry(EntryRecord),
    Moc(MocRecord),
}

pub struct SectionModel {
    pub title: String,
    pub path: String,
    pub notes: Seq<String>,
}

pub struct CollectionModel {
    pub title: String,
    pub notes: Seq<String>,
    pub included: Seq<String>,
}

pub struct EntryModel {
    pub uid: String,
    pub title: String,
    pub description: Seq<char>,
    pub notes: Seq<String>,
    pub tags: Seq<String>,
    pub date: Option<Seq<u16>>,
    pub sections: Seq<SectionModel>,
}

pub struct MocModel {
    pub uid: String,
    pub title: String,
    pub description: Seq<char>,
    pub notes: Seq<String>,
    pub tags: Seq<String>,
    pub collections: Seq<CollectionModel>,
}

pub enum RecordModel {
    Entry(EntryModel),
    Moc(MocModel),
}

impl View for SectionRecord {
    type V = SectionModel;

    open spec fn view(&self) -> SectionModel {
        SectionModel { title: self.title, path: self.path, notes: self.notes@ }
    }
}

impl View for CollectionRecord {
    type V = CollectionModel;

    open spec fn view(&self) -> CollectionModel {
        CollectionModel { title: self.title, notes: self.notes@, included: self.included@ }
    }
}

impl View for EntryRecord {
    type V = EntryModel;

    open spec fn view(&self) -> EntryModel {
        EntryModel {
            uid: self.uid,
            title: self.title,
            description: self.description@,
            notes: self.notes@,
            tags: self.tags@,
            date: match self.date {
                Some(d) => Some(d@),
                None => None,
            },
            sections: self.sections@.map_values(|s: SectionRecord| s@),
        }
    }
}

impl View for MocRecord {
    type V = MocModel;

    open spec fn view(&self) -> MocModel {
        MocModel {
            uid: self.uid,
            title: self.title,
            description: self.description@,
            notes: self.notes@,
            tags: self.tags@,
            collections: self.collections@.map_values(|c: CollectionRecord| c@),
        }
    }
}

impl View for Record {
    type V = RecordModel;

    open spec fn view(&self) -> RecordModel {
        match self {
            Record::Entry(e) => RecordModel::Entry(e@),
            Record::Moc(m) => RecordModel::Moc(m@),
        }
    }
}

/// The key under which a collection lists the tags it gathers.
pub const TAG_SET_KEY: &'static str = "inc\x6cude";

/// The section at position `i` of an entry's configuration.
pub open spec fn section_spec(v: ConfigValue, i: usize) -> Result<SectionModel, ValidationError> {
    match v {
        ConfigValue::Table(t) => {
            let title = req_str(t@, "title"@, Some(i), Field::Title);
            let path = req_str(t@, "path"@, Some(i), Field::Path);
            let notes = req_strings(t@, "notes"@, Some(i), Field::Notes);
            if title is Err {
                Err(title->Err_0)
            } else if path is Err {
                Err(path->Err_0)
            } else if notes is Err {
                Err(notes->Err_0)
            } else {
                Ok(SectionModel { title: title->Ok_0, path: path->Ok_0, notes: notes->Ok_0 })
            }
        },
        _ => Err(err(Some(i), Field::Section, false)),
    }
}

/// The collection at position `i` of a map's configuration.
pub open spec fn collection_spec(v: ConfigValue, i: usize) -> Result<CollectionModel, ValidationError> {
    match v {
        ConfigValue::Table(t) => {
            let title = req_str(t@, "title"@, Some(i), Field::Title);
            let notes = opt_strings(t@, "notes"@, Some(i), Field::Notes);
            let included = req_strings(t@, TAG_SET_KEY@, Some(i), Field::Include);
            if title is Err {
                Err(title->Err_0)
            } else if notes is Err {
                Err(notes->Err_0)
            } else if included is Err {
                Err(included->Err_0)
            } else {
                Ok(CollectionModel { title: title->Ok_0, notes: notes->Ok_0, included: included->Ok_0 })
            }
        },
        _ => Err(err(Some(i), Field::Collection, false)),
    }
}

/// All sections of an array, or the error of the first invalid one.
pub open spec fn sections_spec(a: Seq<ConfigValue>) -> Result<Seq<SectionModel>, ValidationError>
    decreases a.len(),
{
    if a.len() == 0 {
        Ok(Seq::empty())
    } else {
        let init = sections_spec(a.drop_last());
        let last = section_spec(a.last(), (a.len() - 1) as usize);
        if init is Err {
            init
        } else if last is Err {
            Err(last->Err_0)
        } else {
            Ok(init->Ok_0.push(last->Ok_0))
        }
    }
}

/// All collections of an array, or the error of the first invalid one.
pub open spec fn collections_spec(a: Seq<ConfigValue>) -> Result<Seq<CollectionModel>, ValidationError>
    decreases a.len(),
{
    if a.len() == 0 {
        Ok(Seq::empty())
    } else {
        let init = collections_spec(a.drop_last());
        let last = collection_spec(a.last(), (a.len() - 1) as usize);
        if init is Err {
            init
        } else if last is Err {
            Err(last->Err_0)
        } else {
            Ok(init->Ok_0.push(last->Ok_0))
        }
    }
}

/// The optional array of tables under `key` of the root table.
pub open spec fn parts_of(root: Seq<(String, ConfigValue)>, key: Seq<char>) -> Option<Seq<ConfigValue>> {
    match lookup(root, key) {
        None => Some(Seq::empty()),
        Some(ConfigValue::Array(a)) => Some(a@),
        Some(_) => None,
    }
}

/// The entry that a configuration's root table describes: the `entry` table
/// (with `uid`, `title` and `tags` required; `description`, `notes` and
/// `date` optional) and the optional `section` array.
pub open spec fn entry_spec(root: Seq<(String, ConfigValue)>) -> Result<EntryModel, ValidationError> {
    match lookup(root, "entry"@) {
        None => Err(err(None, Field::Entry, true)),
        Some(ConfigValue::Table(t)) => {
            let uid = req_str(t@, "uid"@, None, Field::Uid);
            let title = req_str(t@, "title"@, None, Field::Title);
            let description = opt_str(t@, "description"@, None, Field::Description);
            let notes = opt_strings(t@, "notes"@, None, Field::Notes);
            let tags = req_strings(t@, "tags"@, None, Field::Tags);
            let date = lookup(t@, "date"@);
            let parts = parts_of(root, "section"@);
            if uid is Err {
                Err(uid->Err_0)
            } else if title is Err {
                Err(title->Err_0)
            } else if description is Err {
                Err(description->Err_0)
            } else if notes is Err {
                Err(notes->Err_0)
            } else if tags is Err {
                Err(tags->Err_0)
            } else if date is Some && date_of(date->Some_0) is None {
                Err(err(None, Field::Date, false))
            } else if parts is None {
                Err(err(None, Field::Section, false))
            } else if sections_spec(parts->Some_0) is Err {
                Err(sections_spec(parts->Some_0)->Err_0)
            } else {
                Ok(EntryModel {
                    uid: uid->Ok_0,
                    title: title->Ok_0,
                    description: description->Ok_0,
                    notes: notes->Ok_0,
                    tags: tags->Ok_0,
                    date: match date {
                        Some(d) => date_of(d),
                        None => None,
                    },
                    sections: sections_spec(parts->Some_0)->Ok_0,
                })
            }
        },
        Some(_) => Err(err(None, Field::Entry, false)),
    }
}

/// The map of contents that a configuration's root table describes: the
/// `moc` table (with `uid`, `title`, `description` and `tags` required and
/// `notes` optional) and the required `collection` array.
pub open spec fn moc_spec(root: Seq<(String, ConfigValue)>) -> Result<MocModel, ValidationError> {
    match lookup(root, "moc"@) {
        None => Err(err(None, Field::Moc, true)),
        Some(ConfigValue::Table(t)) => {
            let uid = req_str(t@, "uid"@, None, Field::Uid);
            let title = req_str(t@, "title"@, None, Field::Title);
            let description = req_str(t@, "description"@, None, Field::Description);
            let notes = opt_strings(t@, "notes"@, None, Field::Notes);
            let tags = req_strings(t@, "tags"@, None, Field::Tags);
            let parts = lookup(root, "collection"@);
            if uid is Err {
                Err(uid->Err_0)
            } else if title is Err {
                Err(title->Err_0)
            } else if description is Err {
                Err(description->Err_0)
            } else if notes is Err {
                Err(notes->Err_0)
            } else if tags is Err {
                Err(tags->Err_0)
            } else if parts is None {
                Err(err(None, Field::Collection, true))
            } else if !(parts->Some_0 is Array) {
                Err(err(None, Field::Collection, false))
            } else if collections_spec(parts->Some_0->Array_0@) is Err {
                Err(collections_spec(parts->Some_0->Array_0@)->Err_0)
            } else {
                Ok(MocModel {
                    uid: uid->Ok_0,
                    title: title->Ok_0,
                    description: description->Ok_0@,
                    notes: notes->Ok_0,
                    tags: tags->Ok_0,
                    collections: collections_spec(parts->Some_0->Array_0@)->Ok_0,
                })
            }
        },
        Some(_) => Err(err(None, Field::Moc, false)),
    }
}

/// Whether the root table marks a map of contents (`is-moc`, false when
/// absent).
pub open spec fn is_moc_spec(root: Seq<(String, ConfigValue)>) -> Result<bool, ValidationError> {
    match lookup(root, "is-moc"@) {
        None => Ok(false),
        Some(ConfigValue::Bool(b)) => Ok(b),
        Some(_) => Err(err(None, Field::IsMoc, false)),
    }
}

/// The record that a configuration's root table describes.
pub open spec fn record_spec(root: Seq<(String, ConfigValue)>) -> Result<RecordModel, ValidationError> {
    match is_moc_spec(root) {
        Err(e) => Err(e),
        Ok(true) => match moc_spec(root) {
            Ok(m) => Ok(RecordModel::Moc(m)),
            Err(e) => Err(e),
        },
        Ok(false) => match entry_spec(root) {
            Ok(e) => Ok(RecordModel::Entry(e)),
            Err(e) => Err(e),
        },
    }
}

/// Whether an outcome matches the outcome a spec function describes: both
/// succeed with the same value, or both fail with the same error.
pub open spec fn agrees<X: View>(r: Result<X, ValidationError>, s: Result<X::V, ValidationError>) -> bool {
    match r {
        Ok(x) => s is Ok && x@ == s->Ok_0,
        Err(e) => s is Err && e == s->Err_0,
    }
}

/// The section at position `i` of an entry's configuration.
pub fn parse_section(v: &ConfigValue, i: usize) -> (r: Result<SectionRecord, ValidationError>)
    ensures
        agrees(r, section_spec(*v, i)),
{
    match v {
        ConfigValue::Table(t) => {
            let title = get_str(t, "title", Some(i), Field::Title)?;
            let path = get_str(t, "path", Some(i), Field::Path)?;
            let notes = get_strings(t, "notes", Some(i), Field::Notes, true)?;
            Ok(SectionRecord { title, path, notes })
        },
        _ => Err(ValidationError { part: Some(i), field: Field::Section, missing: false }),
    }
}

/// The collection at position `i` of a map's configuration.
pub fn parse_collection(v: &ConfigValue, i: usize) -> (r: Result<CollectionRecord, ValidationError>)
    ensures
        agrees(r, collection_spec(*v, i)),
{
    match v {
        ConfigValue::Table(t) => {
            let title = get_str(t, "title", Some(i), Field::Title)?;
            let notes = get_strings(t, "notes", Some(i), Field::Notes, false)?;
            let included = get_strings(t, TAG_SET_KEY, Some(i), Field::Include, true)?;
            Ok(CollectionRecord { title, notes, included })
        },
        _ => Err(ValidationError { part: Some(i), field: Field::Collection, missing: false }),
    }
}

/// Every section of an array, or the error of the first invalid one.
pub fn parse_sections(a: &Vec<ConfigValue>) -> (r: Result<Vec<SectionRecord>, ValidationError>)
    ensures
        match r {
            Ok(v) => sections_spec(a@) is Ok && v@.map_values(|s: SectionRecord| s@) == sections_spec(a@)->Ok_0,
            Err(e) => sections_spec(a@) is Err && e == sections_spec(a@)->Err_0,
        },
{
    let mut out: Vec<SectionRecord> = Vec::new();
    let mut i: usize = 0;
    while i < a.len()
        invariant
            i <= a@.len(),
            sections_spec(a@.subrange(0, i as int)) is Ok,
            out@.map_values(|s: SectionRecord| s@) == sections_spec(a@.subrange(0, i as int))->Ok_0,
        decreases a@.len() - i,
    {
        let ghost next = a@.subrange(0, i as int + 1);
        assert(next.drop_last() =~= a@.subrange(0, i as int));
        let s = parse_section(&a[i], i);
        match s {
            Ok(s) => {
                out.push(s);
                i = i + 1;
                assert(out@.map_values(|s: SectionRecord| s@) =~= sections_spec(a@.subrange(0, i as int))->Ok_0);
            },
            Err(e) => {
                proof {
                    lemma_sections_error_stays(a@, i as int + 1);
                }
                return Err(e);
            },
        }
    }
    assert(a@.subrange(0, a@.len() as int) =~= a@);
    Ok(out)
}

proof fn lemma_sections_error_stays(a: Seq<ConfigValue>, k: int)
    requires
        0 <= k <= a.len(),
        sections_spec(a.subrange(0, k)) is Err,
    ensures
        sections_spec(a) == sections_spec(a.subrange(0, k)),
    decreases a.len() - k,
{
    if k < a.len() {
        let next = a.subrange(0, k + 1);
        assert(next.drop_last() =~= a.subrange(0, k));
        lemma_sections_error_stays(a, k + 1);
    } else {
        assert(a.subrange(0, k) =~= a);
    }
}

/// Every collection of an array, or the error of the first invalid one.
pub fn parse_collections(a: &Vec<ConfigValue>) -> (r: Result<Vec<CollectionRecord>, ValidationError>)
    ensures
        match r {
            Ok(v) => collections_spec(a@) is Ok && v@.map_values(|c: CollectionRecord| c@) == collections_spec(a@)->Ok_0,
            Err(e) => collections_spec(a@) is Err && e == collections_spec(a@)->Err_0,
        },
{
    let mut out: Vec<CollectionRecord> = Vec::new();
    let mut i: usize = 0;
    while i < a.len()
        invariant
            i <= a@.len(),
            collections_spec(a@.subrange(0, i as int)) is Ok,
            out@.map_values(|c: CollectionRecord| c@) == collections_spec(a@.subrange(0, i as int))->Ok_0,
        decreases a@.len() - i,
    {
        let ghost next = a@.subrange(0, i as int + 1);
        assert(next.drop_last() =~= a@.subrange(0, i as int));
        let c = parse_collection(&a[i], i);
        match c {
            Ok(c) => {
                out.push(c);
                i = i + 1;
                assert(out@.map_values(|c: CollectionRecord| c@) =~= collections_spec(a@.subrange(0, i as int))->Ok_0);
            },
            Err(e) => {
                proof {
                    lemma_collections_error_stays(a@, i as int + 1);
                }
                return Err(e);
            },
        }
    }
    assert(a@.subrange(0, a@.len() as int) =~= a@);
    Ok(out)
}

proof fn lemma_collections_error_stays(a: Seq<ConfigValue>, k: int)
    requires
        0 <= k <= a.len(),
        collections_spec(a.subrange(0, k)) is Err,
    ensures
        collections_spec(a) == collections_spec(a.subrange(0, k)),
    decreases a.len() - k,
{
    if k < a.len() {
        let next = a.subrange(0, k + 1);
        assert(next.drop_last() =~= a.subrange(0, k));
        lemma_collections_error_stays(a, k + 1);
    } else {
        assert(a.subrange(0, k) =~= a);
    }
}

/// The entry that a configuration's root table describes.
pub fn parse_entry(root: &Vec<(String, ConfigValue)>) -> (r: Result<EntryRecord, ValidationError>)
    ensures
        agrees(r, entry_spec(root@)),
{
    let t = match get(root, "entry") {
        None => {
            return Err(ValidationError { part: None, field: Field::Entry, missing: true });
        },
        Some(ConfigValue::Table(t)) => t,
        Some(_) => {
            return Err(ValidationError { part: None, field: Field::Entry, missing: false });
        },
    };
    let uid = get_str(t, "uid", None, Field::Uid)?;
    let title = get_str(t, "title", None, Field::Title)?;
    let description = get_opt_str(t, "description", None, Field::Description)?;
    let notes = get_strings(t, "notes", None, Field::Notes, false)?;
    let tags = get_strings(t, "tags", None, Field::Tags, true)?;
    let day = match get(t, "date") {
        None => None,
        Some(v) => match date(v) {
            Some(d) => Some(d),
            None => {
                return Err(ValidationError { part: None, field: Field::Date, missing: false });
            },
        },
    };
    let sections = match get(root, "section") {
        None => Vec::new(),
        Some(ConfigValue::Array(a)) => parse_sections(a)?,
        Some(_) => {
            return Err(ValidationError { part: None, field: Field::Section, missing: false });
        },
    };
    proof {
        if lookup(root@, "section"@) is None {
            assert(sections@.map_values(|s: SectionRecord| s@) =~= Seq::<SectionModel>::empty());
        }
    }
    Ok(EntryRecord { uid, title, description, notes, tags, date: day, sections })
}

/// The map of contents that a configuration's root table describes.
pub fn parse_moc(root: &Vec<(String, ConfigValue)>) -> (r: Result<MocRecord, ValidationError>)
    ensures
        agrees(r, moc_spec(root@)),
{
    let t = match get(root, "moc") {
        None => {
            return Err(ValidationError { part: None, field: Field::Moc, missing: true });
        },
        Some(ConfigValue::Table(t)) => t,
        Some(_) => {
            return Err(ValidationError { part: None, field: Field::Moc, missing: false });
        },
    };
    let uid = get_str(t, "uid", None, Field::Uid)?;
    let title = get_str(t, "title", None, Field::Title)?;
    let description = get_str(t, "description", None, Field::Description)?;
    let notes = get_strings(t, "notes", None, Field::Notes, false)?;
    let tags = get_strings(t, "tags", None, Field::Tags, true)?;
    let collections = match get(root, "collection") {
        None => {
            return Err(ValidationError { part: None, field: Field::Collection, missing: true });
        },
        Some(ConfigValue::Array(a)) => parse_collections(a)?,
        Some(_) => {
            return Err(ValidationError { part: None, field: Field::Collection, missing: false });
        },
    };
    Ok(MocRecord { uid, title, description, notes, tags, collections })
}

/// The record that a configuration's root table describes: a map of contents
/// when `is-moc` is true, an entry otherwise.
pub fn parse_record(root: &Vec<(String, ConfigValue)>) -> (r: Result<Record, ValidationError>)
    ensures
        agrees(r, record_spec(root@)),
{
    let is_moc = match get(root, "is-moc") {
        None => false,
        Some(ConfigValue::Bool(b)) => *b,
        Some(_) => {
            return Err(ValidationError { part: None, field: Field::IsMoc, missing: false });
        },
    };
    if is_moc {
        Ok(Record::Moc(parse_moc(root)?))
    } else {
        Ok(Record::Entry(parse_entry(root)?))
    }
}

/// An array whose element `j` is a valid collection at position `j` is
/// validated element by element.
pub proof fn lemma_collections_valid(a: Seq<ConfigValue>, m: Seq<CollectionModel>)
    requires
        a.len() == m.len(),
        forall|j: int| 0 <= j < a.len() ==> #[trigger] collection_spec(a[j], j as usize) == Ok::<CollectionModel, ValidationError>(m[j]),
    ensures
        collections_spec(a) == Ok::<Seq<CollectionModel>, ValidationError>(m),
    decreases a.len(),
{
    if a.len() > 0 {
        let k = a.len() - 1;
        assert forall|j: int| 0 <= j < a.drop_last().len() implies #[trigger] collection_spec(a.drop_last()[j], j as usize)
            == Ok::<CollectionModel, ValidationError>(m.drop_last()[j]) by {
            assert(collection_spec(a[j], j as usize) == Ok::<CollectionModel, ValidationError>(m[j]));
        }
        lemma_collections_valid(a.drop_last(), m.drop_last());
        assert(collection_spec(a[k], k as usize) == Ok::<CollectionModel, ValidationError>(m[k]));
        assert(m.drop_last().push(m.last()) =~= m);
    } else {
        assert(m =~= Seq::<CollectionModel>::empty());
    }
}

/// An array whose element `j` is a valid section at position `j` is
/// validated element by element.
pub proof fn lemma_sections_valid(a: Seq<ConfigValue>, m: Seq<SectionModel>)
    requires
        a.len() == m.len(),
        forall|j: int| 0 <= j < a.len() ==> #[trigger] section_spec(a[j], j as usize) == Ok::<SectionModel, ValidationError>(m[j]),
    ensures
        sections_spec(a) == Ok::<Seq<SectionModel>, ValidationError>(m),
    decreases a.len(),
{
    if a.len() > 0 {
        let k = a.len() - 1;
        assert forall|j: int| 0 <= j < a.drop_last().len() implies #[trigger] section_spec(a.drop_last()[j], j as usize)
            == Ok::<SectionModel, ValidationError>(m.drop_last()[j]) by {
            assert(section_spec(a[j], j as usize) == Ok::<SectionModel, ValidationError>(m[j]));
        }
        lemma_sections_valid(a.drop_last(), m.drop_last());
        assert(section_spec(a[k], k as usize) == Ok::<SectionModel, ValidationError>(m[k]));
        assert(m.drop_last().push(m.last()) =~= m);
    } else {
        assert(m =~= Seq::<SectionModel>::empty());
    }
}

} // verus!

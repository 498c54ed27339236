use vstd::prelude::*;
use crate::cache::Lazy;
use crate::config::{ConfigValue, ValidationError, lookup, string_array};
use crate::record::{
    CollectionModel, CollectionRecord, SectionModel, SectionRecord, TAG_SET_KEY, collection_spec, section_spec,
};
use crate::list::{ListError, field_changes, field_ops, write_fields};
use crate::store::{Change, Key, Leaf, Op, Datum, append_ops, changes, child_path, copy_path};

verus! {

/// What writing a cached text attribute under `k` denotes: nothing when the
/// attribute is not cached.
pub open spec fn text_changes(p: Seq<Key>, k: Key, v: Option<Seq<char>>) -> Seq<Change> {
    match v {
        Some(s) => seq![Change::Write(p, k, Leaf::Str(s))],
        None => Seq::empty(),
    }
}

/// What writing a cached list attribute as the list container `k` denotes:
/// the container is emptied and the list written into it.
pub open spec fn list_changes(p: Seq<Key>, k: Key, v: Option<Seq<String>>) -> Seq<Change> {
    match v {
        Some(s) => field_changes(p.push(k), write_fields(s)),
        None => Seq::empty(),
    }
}

/// The cached value of a text attribute, as a sequence of characters.
pub open spec fn cached_text(l: Lazy<String>) -> Option<Seq<char>> {
    match l.cache {
        Some(v) => Some(v@),
        None => None,
    }
}

/// The cached value of a list attribute, as a sequence.
pub open spec fn cached_list(l: Lazy<Vec<String>>) -> Option<Seq<String>> {
    match l.cache {
        Some(v) => Some(v@),
        None => None,
    }
}

/// Whether a cached list attribute fits a 16-bit length.
pub open spec fn list_fits(l: Lazy<Vec<String>>) -> bool {
    l.cache is Some ==> l.cache->Some_0@.len() <= u16::MAX
}

/// The operations that write a cached text attribute.
pub fn text_ops(path: &Vec<Key>, k: Key, attr: &Lazy<String>) -> (r: Vec<Op>)
    ensures
        changes(r@) == text_changes(path@, k, cached_text(*attr)),
{
    let mut ops: Vec<Op> = Vec::new();
    match attr.get() {
        Some(s) => {
            ops.push(Op::Write(copy_path(path), k, Datum::Str(s.clone())));
        },
        None => {},
    }
    assert(changes(ops@) =~= text_changes(path@, k, cached_text(*attr)));
    ops
}

/// The operations that write a cached list attribute; fails when the list
/// is longer than a 16-bit length can count.
pub fn list_ops(path: &Vec<Key>, k: Key, attr: &Lazy<Vec<String>>) -> (r: Result<Vec<Op>, ListError>)
    ensures
        list_fits(*attr) ==> r is Ok && changes(r->Ok_0@) == list_changes(path@, k, cached_list(*attr)),
        !list_fits(*attr) ==> r == Err::<Vec<Op>, ListError>(ListError::TooLong),
{
    match attr.get() {
        Some(values) => {
            let fields = crate::list::write(values)?;
            let at = child_path(path, k);
            Ok(field_ops(&at, fields))
        },
        None => {
            let ops: Vec<Op> = Vec::new();
            assert(changes(ops@) =~= Seq::<Change>::empty());
            Ok(ops)
        },
    }
}

/// A section of an entry: a titled piece of text with notes.
#[derive(Debug)]
pub struct Section {
    pub title: Lazy<String>,
    pub notes: Lazy<Vec<String>>,
    pub content: Lazy<String>,
}

/// What storing a section at `p` denotes: its cached title, content and
/// notes, in that order.
pub open spec fn section_changes(p: Seq<Key>, s: Section) -> Seq<Change> {
    text_changes(p, Key::Title, cached_text(s.title)) + text_changes(p, Key::Content, cached_text(s.content))
        + list_changes(p, Key::Notes, cached_list(s.notes))
}

/// What a section whose title and notes are loaded is, as a validated
/// record naming `path` for its text.
pub open spec fn section_model(s: Section, path: String) -> SectionModel {
    SectionModel { title: s.title.cache->Some_0, path, notes: s.notes.cache->Some_0@ }
}

impl Section {
    /// Whether the attributes a configuration record names are loaded.
    pub open spec fn is_loaded(&self) -> bool {
        self.title.cache is Some && self.notes.cache is Some
    }

    /// Whether no attribute is cached.
    pub open spec fn is_unloaded(&self) -> bool {
        self.title.cache is None && self.notes.cache is None && self.content.cache is None
    }

    /// A section whose attributes will be read from the store on access.
    pub fn load_lazy() -> (r: Section)
        ensures
            r.is_unloaded(),
    {
        Section { title: Lazy::unloaded(), notes: Lazy::unloaded(), content: Lazy::unloaded() }
    }

    /// The operations that write every cached attribute at `path`;
    /// attributes that are not cached are left alone.
    pub fn store_lazy(&self, path: &Vec<Key>) -> (r: Result<Vec<Op>, ListError>)
        ensures
            list_fits(self.notes) ==> r is Ok && changes(r->Ok_0@) == section_changes(path@, *self),
            !list_fits(self.notes) ==> r == Err::<Vec<Op>, ListError>(ListError::TooLong),
    {
        let mut ops = text_ops(path, Key::Title, &self.title);
        append_ops(&mut ops, text_ops(path, Key::Content, &self.content));
        append_ops(&mut ops, list_ops(path, Key::Notes, &self.notes)?);
        Ok(ops)
    }

    /// Drops every cached attribute without writing it.
    pub fn clear_cache(&mut self)
        ensures
            final(self).is_unloaded(),
    {
        self.title.clear();
        self.notes.clear();
        self.content.clear();
    }
}

/// A collection of a map of contents: a titled list of notes and the tags of
/// the entries and maps it gathers.
#[derive(Debug)]
pub struct Collection {
    pub title: Lazy<String>,
    pub notes: Lazy<Vec<String>>,
    pub included: Lazy<Vec<String>>,
}

/// What storing a collection at `p` denotes: its cached title, notes and
/// gathered tags, in that order.
pub open spec fn collection_changes(p: Seq<Key>, c: Collection) -> Seq<Change> {
    text_changes(p, Key::Title, cached_text(c.title)) + list_changes(p, Key::Notes, cached_list(c.notes))
        + list_changes(p, Key::Include, cached_list(c.included))
}

/// What a collection whose attributes are loaded is, as a validated record.
pub open spec fn collection_model(c: Collection) -> CollectionModel {
    CollectionModel {
        title: c.title.cache->Some_0,
        notes: c.notes.cache->Some_0@,
        included: c.included.cache->Some_0@,
    }
}

impl Collection {
    /// Whether every attribute is loaded.
    pub open spec fn is_loaded(&self) -> bool {
        self.title.cache is Some && self.notes.cache is Some && self.included.cache is Some
    }

    /// Whether no attribute is cached.
    pub open spec fn is_unloaded(&self) -> bool {
        self.title.cache is None && self.notes.cache is None && self.included.cache is None
    }

    /// A collection whose attributes will be read from the store on access.
    pub fn load_lazy() -> (r: Collection)
        ensures
            r.is_unloaded(),
    {
        Collection { title: Lazy::unloaded(), notes: Lazy::unloaded(), included: Lazy::unloaded() }
    }

    /// The operations that write every cached attribute at `path`.
    pub fn store_lazy(&self, path: &Vec<Key>) -> (r: Result<Vec<Op>, ListError>)
        ensures
            list_fits(self.notes) && list_fits(self.included) ==> r is Ok
                && changes(r->Ok_0@) == collection_changes(path@, *self),
            !(list_fits(self.notes) && list_fits(self.included)) ==> r == Err::<Vec<Op>, ListError>(ListError::TooLong),
    {
        let mut ops = text_ops(path, Key::Title, &self.title);
        append_ops(&mut ops, list_ops(path, Key::Notes, &self.notes)?);
        append_ops(&mut ops, list_ops(path, Key::Include, &self.included)?);
        Ok(ops)
    }

    /// Drops every cached attribute without writing it.
    pub fn clear_cache(&mut self)
        ensures
            final(self).is_unloaded(),
    {
        self.title.clear();
        self.notes.clear();
        self.included.clear();
    }
}

/// What writing a new section with text `content` at `p` denotes.
pub open spec fn new_section_changes(p: Seq<Key>, rec: SectionModel, content: Seq<char>) -> Seq<Change> {
    text_changes(p, Key::Title, Some(rec.title@)) + text_changes(p, Key::Content, Some(content))
        + list_changes(p, Key::Notes, Some(rec.notes))
}

/// What writing a new collection at `p` denotes.
pub open spec fn new_collection_changes(p: Seq<Key>, rec: CollectionModel) -> Seq<Change> {
    text_changes(p, Key::Title, Some(rec.title@)) + list_changes(p, Key::Notes, Some(rec.notes))
        + list_changes(p, Key::Include, Some(rec.included))
}

impl Section {
    /// Writes a new section, with the text `content` read from the file its
    /// record names, at `path`; returns the section with its cache cleared
    /// and the operations. Fails when its notes do not fit a 16-bit length.
    pub fn new(record: SectionRecord, content: String, path: &Vec<Key>) -> (r: Result<(Section, Vec<Op>), ListError>)
        ensures
            record.notes@.len() <= u16::MAX ==> r is Ok && r->Ok_0.0.is_unloaded()
                && changes(r->Ok_0.1@) == new_section_changes(path@, record@, content@),
            record.notes@.len() > u16::MAX ==> r == Err::<(Section, Vec<Op>), ListError>(ListError::TooLong),
    {
        let ghost rec = record@;
        let mut this = Section {
            title: Lazy::cached(record.title),
            notes: Lazy::cached(record.notes),
            content: Lazy::cached(content),
        };
        assert(cached_list(this.notes) == Some(rec.notes));
        let ops = this.store_lazy(path)?;
        this.clear_cache();
        Ok((this, ops))
    }
}

impl Collection {
    /// Writes a new collection at `path`; returns the collection with its
    /// cache cleared and the operations. Fails when a list does not fit a
    /// 16-bit length.
    pub fn new(record: CollectionRecord, path: &Vec<Key>) -> (r: Result<(Collection, Vec<Op>), ListError>)
        ensures
            record.notes@.len() <= u16::MAX && record.included@.len() <= u16::MAX ==> r is Ok
                && r->Ok_0.0.is_unloaded() && changes(r->Ok_0.1@) == new_collection_changes(path@, record@),
            !(record.notes@.len() <= u16::MAX && record.included@.len() <= u16::MAX)
                ==> r == Err::<(Collection, Vec<Op>), ListError>(ListError::TooLong),
    {
        let ghost rec = record@;
        let mut this = Collection {
            title: Lazy::cached(record.title),
            notes: Lazy::cached(record.notes),
            included: Lazy::cached(record.included),
        };
        assert(cached_list(this.notes) == Some(rec.notes));
        assert(cached_list(this.included) == Some(rec.included));
        let ops = this.store_lazy(path)?;
        this.clear_cache();
        Ok((this, ops))
    }
}

impl Section {
    /// The configuration record of the section, naming `path` as the file
    /// that will hold its text; the cache is cleared afterwards. Validating
    /// the record gives back the section's title and notes.
    pub fn pull(&mut self, path: String) -> (r: ConfigValue)
        requires
            old(self).is_loaded(),
        ensures
            forall|i: usize| #[trigger] section_spec(r, i) == Ok::<SectionModel, ValidationError>(section_model(*old(self), path)),
            final(self).is_unloaded(),
    {
        let title = match self.title.get() {
            Some(t) => t.clone(),
            None => String::new(),
        };
        let notes = match self.notes.get() {
            Some(n) => string_array(n),
            None => ConfigValue::Array(Vec::new()),
        };
        let t: Vec<(String, ConfigValue)> = vec![
            ("title".to_string(), ConfigValue::Str(title)),
            ("path".to_string(), ConfigValue::Str(path)),
            ("notes".to_string(), notes),
        ];
        proof {
            reveal_with_fuel(lookup, 4);
            reveal_strlit("title");
            reveal_strlit("path");
            reveal_strlit("notes");
            assert(t@.drop_first().drop_first().drop_first() =~= Seq::<(String, ConfigValue)>::empty());
            assert(lookup(t@, "title"@) == Some(t@[0].1));
            assert("path"@[0] == 'p' && "title"@[0] == 't' && "notes"@[0] == 'n');
            assert("path"@ != "title"@);
            assert(t@.drop_first()[0] == t@[1]);
            assert(lookup(t@, "path"@) == Some(t@[1].1));
            assert("notes"@ != "title"@ && "notes"@ != "path"@);
            assert(t@.drop_first().drop_first()[0] == t@[2]);
            assert(lookup(t@, "notes"@) == Some(t@[2].1));
        }
        self.clear_cache();
        ConfigValue::Table(t)
    }
}

impl Collection {
    /// The configuration record of the collection; the cache is cleared
    /// afterwards. Validating the record gives back the collection.
    pub fn pull(&mut self) -> (r: ConfigValue)
        requires
            old(self).is_loaded(),
        ensures
            forall|i: usize| #[trigger] collection_spec(r, i) == Ok::<CollectionModel, ValidationError>(collection_model(*old(self))),
            final(self).is_unloaded(),
    {
        let title = match self.title.get() {
            Some(t) => t.clone(),
            None => String::new(),
        };
        let notes = match self.notes.get() {
            Some(n) => string_array(n),
            None => ConfigValue::Array(Vec::new()),
        };
        let tags = match self.included.get() {
            Some(n) => string_array(n),
            None => ConfigValue::Array(Vec::new()),
        };
        let t: Vec<(String, ConfigValue)> = vec![
            ("title".to_string(), ConfigValue::Str(title)),
            ("notes".to_string(), notes),
            (TAG_SET_KEY.to_string(), tags),
        ];
        proof {
            reveal_with_fuel(lookup, 4);
            reveal_strlit("title");
            reveal_strlit("notes");
            reveal_strlit("inc\x6cude");
            assert(lookup(t@, "title"@) == Some(t@[0].1));
            assert("inc\x6cude"@[0] == 'i' && "title"@[0] == 't' && "notes"@[0] == 'n');
            assert("notes"@ != "title"@);
            assert(t@.drop_first()[0] == t@[1]);
            assert(lookup(t@, "notes"@) == Some(t@[1].1));
            assert(TAG_SET_KEY@ != "title"@ && TAG_SET_KEY@ != "notes"@);
            assert(t@.drop_first().drop_first()[0] == t@[2]);
            assert(lookup(t@, TAG_SET_KEY@) == Some(t@[2].1));
        }
        self.clear_cache();
        ConfigValue::Table(t)
    }
}

} // verus!

use vstd::prelude::*;
use crate::cache::Lazy;
use crate::entity::{
    Section, cached_list, cached_text, list_changes, list_fits, list_ops, new_section_changes, text_changes,
    text_ops,
};
use crate::list::ListError;
use crate::config::{ConfigValue, lookup, string_array};
use crate::entity::section_model;
use crate::record::{
    EntryModel, EntryRecord, RecordModel, SectionModel, SectionRecord, lemma_sections_valid, record_spec, section_spec,
};
use crate::search::has_tag;
use crate::store::{Change, Key, Leaf, Op, Datum, append_ops, changes, child_path, copy_path};

verus! {

/// A dated record of the archive, with its sections.
#[derive(Debug)]
pub struct Entry {
    pub uid: String,
    pub title: Lazy<String>,
    pub description: Lazy<String>,
    pub notes: Lazy<Vec<String>>,
    pub tags: Lazy<Vec<String>>,
    pub date: Lazy<Vec<u16>>,
    pub sections: Lazy<Vec<Section>>,
}

/// Where the entry `uid` lives in the store.
pub open spec fn entry_path(uid: String) -> Seq<Key> {
    seq![Key::Entries, Key::Id(uid)]
}

/// What writing a cached date denotes.
pub open spec fn date_changes(p: Seq<Key>, d: Lazy<Vec<u16>>) -> Seq<Change> {
    match d.cache {
        Some(v) => seq![Change::Write(p, Key::Date, Leaf::U16s(v@))],
        None => Seq::empty(),
    }
}

/// What storing an entry at `p` denotes: its cached title, description,
/// notes, tags and date, in that order.
pub open spec fn entry_changes(p: Seq<Key>, e: Entry) -> Seq<Change> {
    text_changes(p, Key::Title, cached_text(e.title)) + text_changes(p, Key::Description, cached_text(e.description))
        + list_changes(p, Key::Notes, cached_list(e.notes)) + list_changes(p, Key::Tags, cached_list(e.tags))
        + date_changes(p, e.date)
}

/// What writing the first `k` sections of a new entry under the sections
/// container `p` denotes: each in a fresh container at its position.
pub open spec fn new_sections_changes(p: Seq<Key>, secs: Seq<SectionModel>, contents: Seq<String>, k: nat) -> Seq<Change>
    decreases k,
{
    if k == 0 {
        Seq::empty()
    } else {
        let i = (k - 1) as nat;
        let at = p.push(Key::Index(i as u16));
        new_sections_changes(p, secs, contents, i) + seq![Change::Reset(at)] + new_section_changes(at, secs[i as int], contents[i as int]@)
    }
}

/// Whether every list of a new entry fits a 16-bit length.
pub open spec fn entry_fits(rec: EntryModel) -> bool {
    &&& rec.notes.len() <= u16::MAX
    &&& rec.tags.len() <= u16::MAX
    &&& rec.sections.len() <= u16::MAX
    &&& forall|i: int| 0 <= i < rec.sections.len() ==> (#[trigger] rec.sections[i]).notes.len() <= u16::MAX
}

/// The date a new entry is stored with: its own, or `today` if it has none.
pub open spec fn entry_date(rec: EntryModel, today: Seq<u16>) -> Seq<u16> {
    match rec.date {
        Some(d) => d,
        None => today,
    }
}

/// What writing a new entry denotes: a fresh container, its sections, then
/// its title, description, notes, tags and date.
pub open spec fn new_entry_changes(rec: EntryModel, contents: Seq<String>, today: Seq<u16>) -> Seq<Change> {
    let p = entry_path(rec.uid);
    let sp = p.push(Key::Sections);
    seq![Change::Reset(p), Change::Reset(sp)] + new_sections_changes(sp, rec.sections, contents, rec.sections.len())
        + seq![Change::Write(sp, Key::Length, Leaf::U16(rec.sections.len() as u16))]
        + text_changes(p, Key::Title, Some(rec.title@)) + text_changes(p, Key::Description, Some(rec.description))
        + list_changes(p, Key::Notes, Some(rec.notes)) + list_changes(p, Key::Tags, Some(rec.tags))
        + seq![Change::Write(p, Key::Date, Leaf::U16s(entry_date(rec, today)))]
}

impl Entry {
    /// Whether no attribute is cached.
    pub open spec fn is_unloaded(&self) -> bool {
        &&& self.title.cache is None
        &&& self.description.cache is None
        &&& self.notes.cache is None
        &&& self.tags.cache is None
        &&& self.date.cache is None
        &&& self.sections.cache is None
    }

    /// The entry `uid`, whose attributes will be read from the store on
    /// access.
    pub fn load_lazy(uid: String) -> (r: Entry)
        ensures
            r.uid == uid,
            r.is_unloaded(),
    {
        Entry {
            uid,
            title: Lazy::unloaded(),
            description: Lazy::unloaded(),
            notes: Lazy::unloaded(),
            tags: Lazy::unloaded(),
            date: Lazy::unloaded(),
            sections: Lazy::unloaded(),
        }
    }

    /// The entry's identifier.
    pub fn get_uid(&self) -> (r: String)
        ensures
            r == self.uid,
    {
        self.uid.clone()
    }

    /// The operations that write every cached attribute at `path`;
    /// attributes that are not cached are left alone.
    pub fn store_lazy(&self, path: &Vec<Key>) -> (r: Result<Vec<Op>, ListError>)
        ensures
            list_fits(self.notes) && list_fits(self.tags) ==> r is Ok
                && changes(r->Ok_0@) == entry_changes(path@, *self),
            !(list_fits(self.notes) && list_fits(self.tags)) ==> r == Err::<Vec<Op>, ListError>(ListError::TooLong),
    {
        let mut ops = text_ops(path, Key::Title, &self.title);
        append_ops(&mut ops, text_ops(path, Key::Description, &self.description));
        append_ops(&mut ops, list_ops(path, Key::Notes, &self.notes)?);
        append_ops(&mut ops, list_ops(path, Key::Tags, &self.tags)?);
        let mut date_ops: Vec<Op> = Vec::new();
        match self.date.get() {
            Some(d) => {
                date_ops.push(Op::Write(copy_path(path), Key::Date, Datum::U16s(d.clone())));
            },
            None => {},
        }
        assert(changes(date_ops@) =~= date_changes(path@, self.date));
        append_ops(&mut ops, date_ops);
        Ok(ops)
    }

    /// Drops every cached attribute without writing it.
    pub fn clear_cache(&mut self)
        ensures
            final(self).is_unloaded(),
            final(self).uid == old(self).uid,
    {
        self.title.clear();
        self.description.clear();
        self.notes.clear();
        self.tags.clear();
        self.date.clear();
        self.sections.clear();
    }

    /// Whether the entry's loaded tags hold `tag`; the tags are dropped from
    /// the cache afterwards.
    pub fn contains_tag(&mut self, tag: &String) -> (r: bool)
        requires
            old(self).tags.cache is Some,
        ensures
            r == has_tag(old(self).tags.cache->Some_0@, tag@),
            final(self).tags.cache is None,
            final(self).uid == old(self).uid,
            final(self).title == old(self).title,
            final(self).description == old(self).description,
            final(self).notes == old(self).notes,
            final(self).date == old(self).date,
            final(self).sections == old(self).sections,
    {
        let found = match self.tags.get() {
            Some(tags) => crate::search::contains_tag(tags, tag),
            None => false,
        };
        self.tags.clear();
        found
    }
}

impl Entry {
    /// Writes a new entry from its record: `contents` holds the text of each
    /// section, read from the file the section names, and `today` is the date
    /// used when the record gives none. Returns the entry with its cache
    /// cleared and the operations. Fails when a list does not fit a 16-bit
    /// length.
    pub fn new(record: EntryRecord, contents: Vec<String>, today: Vec<u16>) -> (r: Result<(Entry, Vec<Op>), ListError>)
        requires
            contents@.len() == record.sections@.len(),
            today@.len() == 3,
        ensures
            entry_fits(record@) ==> r is Ok && r->Ok_0.0.is_unloaded() && r->Ok_0.0.uid == record.uid
                && changes(r->Ok_0.1@) == new_entry_changes(record@, contents@, today@),
            !entry_fits(record@) ==> r == Err::<(Entry, Vec<Op>), ListError>(ListError::TooLong),
    {
        let ghost rec = record@;
        let ghost texts = contents@;
        let ghost orig = record.sections@;
        if record.sections.len() > 65535 {
            return Err(ListError::TooLong);
        }
        let p: Vec<Key> = vec![Key::Entries, Key::Id(record.uid.clone())];
        assert(p@ =~= entry_path(rec.uid));
        let sp = child_path(&p, Key::Sections);
        let mut ops: Vec<Op> = vec![Op::Reset(copy_path(&p)), Op::Reset(copy_path(&sp))];
        assert(changes(ops@) =~= seq![Change::Reset(p@), Change::Reset(sp@)]);
        let n = record.sections.len();
        let mut secs = record.sections;
        let mut texts_left = contents;
        assert(secs@ =~= orig.subrange(0, n as int));
        assert(texts_left@ =~= texts.subrange(0, n as int));
        let mut sections: Vec<Section> = Vec::new();
        let mut i: usize = 0;
        while i < n
            invariant
                n == rec.sections.len() <= u16::MAX,
                texts.len() == n,
                i <= n,
                rec == record@,
                texts == contents@,
                orig.len() == n,
                rec.sections == orig.map_values(|s: SectionRecord| s@),
                secs@ == orig.subrange(i as int, n as int),
                texts_left@ == texts.subrange(i as int, n as int),
                forall|j: int| 0 <= j < i ==> (#[trigger] rec.sections[j]).notes.len() <= u16::MAX,
                sp@ == entry_path(rec.uid).push(Key::Sections),
                changes(ops@) == seq![Change::Reset(entry_path(rec.uid)), Change::Reset(sp@)]
                    + new_sections_changes(sp@, rec.sections, texts, i as nat),
            decreases n - i,
        {
            let sec = secs.remove(0);
            let text = texts_left.remove(0);
            assert(sec == orig[i as int]);
            assert(sec@ == rec.sections[i as int]);
            assert(text == texts[i as int]);
            let at = child_path(&sp, Key::Index(i as u16));
            let reset = vec![Op::Reset(copy_path(&at))];
            assert(changes(reset@) =~= seq![Change::Reset(at@)]);
            append_ops(&mut ops, reset);
            let made = Section::new(sec, text, &at);
            match made {
                Ok((section, more)) => {
                    append_ops(&mut ops, more);
                    sections.push(section);
                },
                Err(e) => {
                    assert(!entry_fits(rec));
                    return Err(e);
                },
            }
            proof {
                let k = (i + 1) as nat;
                assert(k - 1 == i);
                assert(changes(ops@) =~= seq![Change::Reset(entry_path(rec.uid)), Change::Reset(sp@)]
                    + new_sections_changes(sp@, rec.sections, texts, k));
            }
            i = i + 1;
            assert(secs@ =~= orig.subrange(i as int, n as int));
            assert(texts_left@ =~= texts.subrange(i as int, n as int));
        }
        let len_op = vec![Op::Write(copy_path(&sp), Key::Length, Datum::U16(n as u16))];
        append_ops(&mut ops, len_op);
        let day = match record.date {
            Some(d) => d,
            None => today,
        };
        let this = Entry {
            uid: record.uid,
            title: Lazy::cached(record.title),
            description: Lazy::cached(record.description),
            notes: Lazy::cached(record.notes),
            tags: Lazy::cached(record.tags),
            date: Lazy::cached(day),
            sections: Lazy::unloaded(),
        };
        let own = this.store_lazy(&p)?;
        append_ops(&mut ops, own);
        let mut this = this;
        this.clear_cache();
        Ok((this, ops))
    }
}

impl Entry {
    /// Whether the entry's own attributes and the title and notes of each of
    /// its sections are loaded, with a date of three numbers.
    pub open spec fn is_loaded(&self) -> bool {
        &&& self.title.cache is Some
        &&& self.description.cache is Some
        &&& self.notes.cache is Some
        &&& self.tags.cache is Some
        &&& self.date.cache is Some
        &&& self.date.cache->Some_0@.len() == 3
        &&& self.sections.cache is Some
        &&& forall|i: int| 0 <= i < self.sections.cache->Some_0@.len()
            ==> (#[trigger] self.sections.cache->Some_0@[i]).is_loaded()
    }

    /// What the loaded entry is, as a validated record whose sections name
    /// `paths` for their text.
    pub open spec fn model(&self, paths: Seq<String>) -> EntryModel {
        EntryModel {
            uid: self.uid,
            title: self.title.cache->Some_0,
            description: self.description.cache->Some_0@,
            notes: self.notes.cache->Some_0@,
            tags: self.tags.cache->Some_0@,
            date: Some(self.date.cache->Some_0@),
            sections: Seq::new(
                self.sections.cache->Some_0@.len(),
                |i: int| section_model(self.sections.cache->Some_0@[i], paths[i]),
            ),
        }
    }

    /// The configuration record of the loaded entry, from which it can be
    /// committed again, with section `i` naming `paths[i]` as the file of its
    /// text; the cache is cleared afterwards. Validating the record gives
    /// back the entry.
    pub fn pull(&mut self, paths: Vec<String>) -> (r: ConfigValue)
        requires
            old(self).is_loaded(),
            paths@.len() == old(self).sections.cache->Some_0@.len(),
        ensures
            r is Table,
            record_spec(r->Table_0@) == Ok::<RecordModel, crate::config::ValidationError>(
                RecordModel::Entry(old(self).model(paths@)),
            ),
            final(self).is_unloaded(),
            final(self).uid == old(self).uid,
    {
        let title = match self.title.get() {
            Some(t) => t.clone(),
            None => String::new(),
        };
        let description = match self.description.get() {
            Some(t) => t.clone(),
            None => String::new(),
        };
        let notes = match self.notes.get() {
            Some(n) => string_array(n),
            None => ConfigValue::Array(Vec::new()),
        };
        let tags = match self.tags.get() {
            Some(n) => string_array(n),
            None => ConfigValue::Array(Vec::new()),
        };
        let day = match self.date.get() {
            Some(d) => ConfigValue::Array(vec![
                ConfigValue::Int(d[0] as i64),
                ConfigValue::Int(d[1] as i64),
                ConfigValue::Int(d[2] as i64),
            ]),
            None => ConfigValue::Array(Vec::new()),
        };
        proof {
            let d = self.date.cache->Some_0@;
            assert(Seq::new(3, |i: int| day->Array_0@[i]->Int_0 as u16) =~= d);
        }
        let mut secs = match self.sections.cache.take() {
            Some(s) => s,
            None => Vec::new(),
        };
        let ghost orig = secs@;
        let ghost wanted = paths@;
        let ghost models = Seq::new(orig.len(), |i: int| section_model(orig[i], wanted[i]));
        let mut rest_paths = paths;
        let mut pulled: Vec<ConfigValue> = Vec::new();
        let mut i: usize = 0;
        let n = secs.len();
        assert(secs@ =~= orig.subrange(0, n as int));
        assert(rest_paths@ =~= wanted.subrange(0, n as int));
        while i < n
            invariant
                i <= n,
                n == orig.len() == wanted.len(),
                secs@ == orig.subrange(i as int, n as int),
                rest_paths@ == wanted.subrange(i as int, n as int),
                forall|j: int| 0 <= j < n ==> (#[trigger] orig[j]).is_loaded(),
                models == Seq::new(orig.len(), |i: int| section_model(orig[i], wanted[i])),
                pulled@.len() == i,
                forall|j: int| 0 <= j < i ==> #[trigger] section_spec(pulled@[j], j as usize)
                    == Ok::<SectionModel, crate::config::ValidationError>(models[j]),
            decreases n - i,
        {
            let mut s = secs.remove(0);
            let path = rest_paths.remove(0);
            assert(s == orig[i as int]);
            assert(path == wanted[i as int]);
            let v = s.pull(path);
            pulled.push(v);
            i = i + 1;
            assert(secs@ =~= orig.subrange(i as int, n as int));
            assert(rest_paths@ =~= wanted.subrange(i as int, n as int));
        }
        proof {
            lemma_sections_valid(pulled@, models);
        }
        let uid = self.uid.clone();
        let entry: Vec<(String, ConfigValue)> = vec![
            ("uid".to_string(), ConfigValue::Str(uid)),
            ("title".to_string(), ConfigValue::Str(title)),
            ("description".to_string(), ConfigValue::Str(description)),
            ("notes".to_string(), notes),
            ("tags".to_string(), tags),
            ("date".to_string(), day),
        ];
        let root: Vec<(String, ConfigValue)> = vec![
            ("entry".to_string(), ConfigValue::Table(entry)),
            ("section".to_string(), ConfigValue::Array(pulled)),
        ];
        proof {
            reveal_with_fuel(lookup, 7);
            reveal_strlit("uid");
            reveal_strlit("title");
            reveal_strlit("description");
            reveal_strlit("notes");
            reveal_strlit("tags");
            reveal_strlit("date");
            reveal_strlit("entry");
            reveal_strlit("section");
            reveal_strlit("is-moc");
            assert("uid"@[0] == 'u' && "title"@[0] == 't' && "description"@[0] == 'd' && "notes"@[0] == 'n');
            assert("tags"@[0] == 't' && "tags"@[1] == 'a' && "title"@[1] == 'i');
            assert("date"@[0] == 'd' && "date"@[1] == 'a' && "description"@[1] == 'e');
            assert("entry"@[0] == 'e' && "section"@[0] == 's' && "is-moc"@[0] == 'i');
            assert(entry@.drop_first()[0] == entry@[1]);
            assert(entry@.drop_first().drop_first()[0] == entry@[2]);
            assert(entry@.drop_first().drop_first().drop_first()[0] == entry@[3]);
            assert(entry@.drop_first().drop_first().drop_first().drop_first()[0] == entry@[4]);
            assert(entry@.drop_first().drop_first().drop_first().drop_first().drop_first()[0] == entry@[5]);
            assert(root@.drop_first()[0] == root@[1]);
            assert(root@.drop_first().drop_first().len() == 0);
            assert(lookup(root@, "is-moc"@) is None);
            assert(lookup(root@, "section"@) == Some(root@[1].1));
            assert(lookup(entry@, "date"@) == Some(entry@[5].1));
            assert(lookup(entry@, "tags"@) == Some(entry@[4].1));
            assert(lookup(entry@, "notes"@) == Some(entry@[3].1));
            assert(lookup(entry@, "description"@) == Some(entry@[2].1));
            assert(lookup(entry@, "title"@) == Some(entry@[1].1));
            assert(orig == old(self).sections.cache->Some_0@);
            assert(models =~= old(self).model(wanted).sections);
        }
        self.clear_cache();
        ConfigValue::Table(root)
    }
}

} // verus!

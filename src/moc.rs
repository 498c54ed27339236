use vstd::prelude::*;
use crate::cache::Lazy;
use crate::entity::{
    Collection, cached_list, cached_text, list_changes, list_fits, list_ops, new_collection_changes, text_changes,
    text_ops,
};
use crate::list::ListError;
use crate::config::{ConfigValue, lookup, string_array};
use crate::entity::collection_model;
use crate::record::{
    CollectionModel, CollectionRecord, MocModel, MocRecord, RecordModel, collection_spec, lemma_collections_valid,
    record_spec,
};
use crate::search::has_tag;
use crate::store::{Change, Key, Leaf, Op, Datum, append_ops, changes, child_path, copy_path};

verus! {

/// A map of contents: a curated grouping of entries and other maps by tag.
#[derive(Debug)]
pub struct MOC {
    pub uid: String,
    pub title: Lazy<String>,
    pub description: Lazy<String>,
    pub notes: Lazy<Vec<String>>,
    pub tags: Lazy<Vec<String>>,
    pub collections: Lazy<Vec<Collection>>,
}

/// Where the map of contents `uid` lives in the store.
pub open spec fn moc_path(uid: String) -> Seq<Key> {
    seq![Key::Mocs, Key::Id(uid)]
}

/// What storing a map at `p` denotes: its cached title, description, notes
/// and tags, in that order.
pub open spec fn moc_changes(p: Seq<Key>, m: MOC) -> Seq<Change> {
    text_changes(p, Key::Title, cached_text(m.title)) + text_changes(p, Key::Description, cached_text(m.description))
        + list_changes(p, Key::Notes, cached_list(m.notes)) + list_changes(p, Key::Tags, cached_list(m.tags))
}

/// What writing the first `k` collections of a new map under the
/// collections container `p` denotes: each in a fresh container at its
/// position.
pub open spec fn new_collections_changes(p: Seq<Key>, cols: Seq<CollectionModel>, k: nat) -> Seq<Change>
    decreases k,
{
    if k == 0 {
        Seq::empty()
    } else {
        let i = (k - 1) as nat;
        let at = p.push(Key::Index(i as u16));
        new_collections_changes(p, cols, i) + seq![Change::Reset(at)] + new_collection_changes(at, cols[i as int])
    }
}

/// Whether every list of a new map fits a 16-bit length.
pub open spec fn moc_fits(rec: MocModel) -> bool {
    &&& rec.notes.len() <= u16::MAX
    &&& rec.tags.len() <= u16::MAX
    &&& rec.collections.len() <= u16::MAX
    &&& forall|i: int| 0 <= i < rec.collections.len() ==> (#[trigger] rec.collections[i]).notes.len() <= u16::MAX
        && rec.collections[i].included.len() <= u16::MAX
}

/// What writing a new map denotes: a fresh container, its collections, then
/// its title, description, notes and tags.
pub open spec fn new_moc_changes(rec: MocModel) -> Seq<Change> {
    let p = moc_path(rec.uid);
    let cp = p.push(Key::Collections);
    seq![Change::Reset(p), Change::Reset(cp)] + new_collections_changes(cp, rec.collections, rec.collections.len())
        + seq![Change::Write(cp, Key::Length, Leaf::U16(rec.collections.len() as u16))]
        + text_changes(p, Key::Title, Some(rec.title@)) + text_changes(p, Key::Description, Some(rec.description))
        + list_changes(p, Key::Notes, Some(rec.notes)) + list_changes(p, Key::Tags, Some(rec.tags))
}

impl MOC {
    /// Whether no attribute is cached.
    pub open spec fn is_unloaded(&self) -> bool {
        &&& self.title.cache is None
        &&& self.description.cache is None
        &&& self.notes.cache is None
        &&& self.tags.cache is None
        &&& self.collections.cache is None
    }

    /// The map `uid`, whose attributes will be read from the store on access.
    pub fn load_lazy(uid: String) -> (r: MOC)
        ensures
            r.uid == uid,
            r.is_unloaded(),
    {
        MOC {
            uid,
            title: Lazy::unloaded(),
            description: Lazy::unloaded(),
            notes: Lazy::unloaded(),
            tags: Lazy::unloaded(),
            collections: Lazy::unloaded(),
        }
    }

    /// The map's identifier.
    pub fn get_uid(&self) -> (r: String)
        ensures
            r == self.uid,
    {
        self.uid.clone()
    }

    /// The operations that write every cached attribute at `path`;
    /// attributes that are not cached are left alone.
    pub fn store_lazy(&self, path: &Vec<Key>) -> (r: Result<Vec<Op>, ListError>)
        ensures
            list_fits(self.notes) && list_fits(self.tags) ==> r is Ok
                && changes(r->Ok_0@) == moc_changes(path@, *self),
            !(list_fits(self.notes) && list_fits(self.tags)) ==> r == Err::<Vec<Op>, ListError>(ListError::TooLong),
    {
        let mut ops = text_ops(path, Key::Title, &self.title);
        append_ops(&mut ops, text_ops(path, Key::Description, &self.description));
        append_ops(&mut ops, list_ops(path, Key::Notes, &self.notes)?);
        append_ops(&mut ops, list_ops(path, Key::Tags, &self.tags)?);
        Ok(ops)
    }

    /// Drops every cached attribute without writing it.
    pub fn clear_cache(&mut self)
        ensures
            final(self).is_unloaded(),
            final(self).uid == old(self).uid,
    {
        self.title.clear();
        self.description.clear();
        self.notes.clear();
        self.tags.clear();
        self.collections.clear();
    }

    /// Whether the map's loaded tags hold `tag`; the tags are dropped from the
    /// cache afterwards.
    pub fn contains_tag(&mut self, tag: &String) -> (r: bool)
        requires
            old(self).tags.cache is Some,
        ensures
            r == has_tag(old(self).tags.cache->Some_0@, tag@),
            final(self).tags.cache is None,
            final(self).uid == old(self).uid,
            final(self).title == old(self).title,
            final(self).description == old(self).description,
            final(self).notes == old(self).notes,
            final(self).collections == old(self).collections,
    {
        let found = match self.tags.get() {
            Some(tags) => crate::search::contains_tag(tags, tag),
            None => false,
        };
        self.tags.clear();
        found
    }

    /// Writes a new map of contents from its record. Returns the map with its
    /// cache cleared and the operations. Fails when a list does not fit a
    /// 16-bit length.
    pub fn new(record: MocRecord) -> (r: Result<(MOC, Vec<Op>), ListError>)
        ensures
            moc_fits(record@) ==> r is Ok && r->Ok_0.0.is_unloaded() && r->Ok_0.0.uid == record.uid
                && changes(r->Ok_0.1@) == new_moc_changes(record@),
            !moc_fits(record@) ==> r == Err::<(MOC, Vec<Op>), ListError>(ListError::TooLong),
    {
        let ghost rec = record@;
        let ghost orig = record.collections@;
        if record.collections.len() > 65535 {
            return Err(ListError::TooLong);
        }
        let p: Vec<Key> = vec![Key::Mocs, Key::Id(record.uid.clone())];
        assert(p@ =~= moc_path(rec.uid));
        let cp = child_path(&p, Key::Collections);
        let mut ops: Vec<Op> = vec![Op::Reset(copy_path(&p)), Op::Reset(copy_path(&cp))];
        assert(changes(ops@) =~= seq![Change::Reset(p@), Change::Reset(cp@)]);
        let n = record.collections.len();
        let mut cols = record.collections;
        assert(cols@ =~= orig.subrange(0, n as int));
        let mut collections: Vec<Collection> = Vec::new();
        let mut i: usize = 0;
        while i < n
            invariant
                i <= n,
                rec == record@,
                orig.len() == n,
                n == rec.collections.len() <= u16::MAX,
                rec.collections == orig.map_values(|c: CollectionRecord| c@),
                cols@ == orig.subrange(i as int, n as int),
                forall|j: int| 0 <= j < i ==> (#[trigger] rec.collections[j]).notes.len() <= u16::MAX
                    && rec.collections[j].included.len() <= u16::MAX,
                cp@ == moc_path(rec.uid).push(Key::Collections),
                changes(ops@) == seq![Change::Reset(moc_path(rec.uid)), Change::Reset(cp@)]
                    + new_collections_changes(cp@, rec.collections, i as nat),
            decreases n - i,
        {
            let col = cols.remove(0);
            assert(col == orig[i as int]);
            assert(col@ == rec.collections[i as int]);
            let at = child_path(&cp, Key::Index(i as u16));
            let reset = vec![Op::Reset(copy_path(&at))];
            assert(changes(reset@) =~= seq![Change::Reset(at@)]);
            append_ops(&mut ops, reset);
            let made = Collection::new(col, &at);
            match made {
                Ok((collection, more)) => {
                    append_ops(&mut ops, more);
                    collections.push(collection);
                },
                Err(e) => {
                    assert(!moc_fits(rec));
                    return Err(e);
                },
            }
            proof {
                let k = (i + 1) as nat;
                assert(k - 1 == i);
                assert(changes(ops@) =~= seq![Change::Reset(moc_path(rec.uid)), Change::Reset(cp@)]
                    + new_collections_changes(cp@, rec.collections, k));
            }
            i = i + 1;
            assert(cols@ =~= orig.subrange(i as int, n as int));
        }
        let len_op = vec![Op::Write(copy_path(&cp), Key::Length, Datum::U16(n as u16))];
        append_ops(&mut ops, len_op);
        let this = MOC {
            uid: record.uid,
            title: Lazy::cached(record.title),
            description: Lazy::cached(record.description),
            notes: Lazy::cached(record.notes),
            tags: Lazy::cached(record.tags),
            collections: Lazy::unloaded(),
        };
        let own = this.store_lazy(&p)?;
        append_ops(&mut ops, own);
        let mut this = this;
        this.clear_cache();
        Ok((this, ops))
    }
}

impl MOC {
    /// Whether the map's own attributes and every attribute of each of its
    /// collections are loaded.
    pub open spec fn is_loaded(&self) -> bool {
        &&& self.title.cache is Some
        &&& self.description.cache is Some
        &&& self.notes.cache is Some
        &&& self.tags.cache is Some
        &&& self.collections.cache is Some
        &&& forall|i: int| 0 <= i < self.collections.cache->Some_0@.len()
            ==> (#[trigger] self.collections.cache->Some_0@[i]).is_loaded()
    }

    /// What the loaded map is, as a validated record.
    pub open spec fn model(&self) -> MocModel {
        MocModel {
            uid: self.uid,
            title: self.title.cache->Some_0,
            description: self.description.cache->Some_0@,
            notes: self.notes.cache->Some_0@,
            tags: self.tags.cache->Some_0@,
            collections: self.collections.cache->Some_0@.map_values(|c: Collection| collection_model(c)),
        }
    }

    /// The configuration record of the loaded map, from which it can be
    /// committed again; the cache is cleared afterwards. Validating the
    /// record gives back the map.
    pub fn pull(&mut self) -> (r: ConfigValue)
        requires
            old(self).is_loaded(),
        ensures
            r is Table,
            record_spec(r->Table_0@) == Ok::<RecordModel, crate::config::ValidationError>(RecordModel::Moc(old(self).model())),
            final(self).is_unloaded(),
            final(self).uid == old(self).uid,
    {
        let title = match self.title.get() {
            Some(t) => t.clone(),
            None => String::new(),
        };
        let description = match self.description.get() {
            Some(t) => t.clone(),
            None => String::new(),
        };
        let notes = match self.notes.get() {
            Some(n) => string_array(n),
            None => ConfigValue::Array(Vec::new()),
        };
        let tags = match self.tags.get() {
            Some(n) => string_array(n),
            None => ConfigValue::Array(Vec::new()),
        };
        let mut cols = match self.collections.cache.take() {
            Some(c) => c,
            None => Vec::new(),
        };
        let ghost orig = cols@;
        let ghost models = orig.map_values(|c: Collection| collection_model(c));
        let mut pulled: Vec<ConfigValue> = Vec::new();
        let mut i: usize = 0;
        let n = cols.len();
        assert(cols@ =~= orig.subrange(0, n as int));
        while i < n
            invariant
                i <= n,
                n == orig.len(),
                cols@ == orig.subrange(i as int, n as int),
                forall|j: int| 0 <= j < n ==> (#[trigger] orig[j]).is_loaded(),
                models == orig.map_values(|c: Collection| collection_model(c)),
                pulled@.len() == i,
                forall|j: int| 0 <= j < i ==> #[trigger] collection_spec(pulled@[j], j as usize)
                    == Ok::<CollectionModel, crate::config::ValidationError>(models[j]),
            decreases n - i,
        {
            let mut c = cols.remove(0);
            assert(c == orig[i as int]);
            let v = c.pull();
            pulled.push(v);
            i = i + 1;
            assert(cols@ =~= orig.subrange(i as int, n as int));
        }
        proof {
            lemma_collections_valid(pulled@, models);
        }
        let uid = self.uid.clone();
        let moc: Vec<(String, ConfigValue)> = vec![
            ("uid".to_string(), ConfigValue::Str(uid)),
            ("title".to_string(), ConfigValue::Str(title)),
            ("description".to_string(), ConfigValue::Str(description)),
            ("notes".to_string(), notes),
            ("tags".to_string(), tags),
        ];
        let root: Vec<(String, ConfigValue)> = vec![
            ("moc".to_string(), ConfigValue::Table(moc)),
            ("is-moc".to_string(), ConfigValue::Bool(true)),
            ("collection".to_string(), ConfigValue::Array(pulled)),
        ];
        proof {
            reveal_with_fuel(lookup, 6);
            reveal_strlit("uid");
            reveal_strlit("title");
            reveal_strlit("description");
            reveal_strlit("notes");
            reveal_strlit("tags");
            reveal_strlit("moc");
            reveal_strlit("is-moc");
            reveal_strlit("collection");
            assert("uid"@[0] == 'u' && "title"@[0] == 't' && "description"@[0] == 'd' && "notes"@[0] == 'n');
            assert("tags"@[0] == 't' && "tags"@[1] == 'a' && "title"@[1] == 'i');
            assert("moc"@[0] == 'm' && "is-moc"@[0] == 'i' && "collection"@[0] == 'c');
            assert(moc@.drop_first()[0] == moc@[1]);
            assert(moc@.drop_first().drop_first()[0] == moc@[2]);
            assert(moc@.drop_first().drop_first().drop_first()[0] == moc@[3]);
            assert(moc@.drop_first().drop_first().drop_first().drop_first()[0] == moc@[4]);
            assert(root@.drop_first()[0] == root@[1]);
            assert(root@.drop_first().drop_first()[0] == root@[2]);
            assert(lookup(root@, "is-moc"@) == Some(ConfigValue::Bool(true)));
            assert(lookup(root@, "collection"@) == Some(root@[2].1));
            assert(lookup(moc@, "tags"@) == Some(moc@[4].1));
            assert(lookup(moc@, "notes"@) == Some(moc@[3].1));
            assert(lookup(moc@, "description"@) == Some(moc@[2].1));
            assert(lookup(moc@, "title"@) == Some(moc@[1].1));
        }
        self.clear_cache();
        ConfigValue::Table(root)
    }
}

} // verus!

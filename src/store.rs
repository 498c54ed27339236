use vstd::prelude::*;

verus! {

/// A key inside a container of the archive's store: either one of the
/// archive's fixed names, the position of an element in an ordered list, or
/// the identifier of an entity.
#[derive(Debug, PartialEq, Eq)]
pub enum Key {
    Uid,
    Itver,
    Entries,
    Mocs,
    Order,
    Sorted,
    Unsorted,
    Length,
    Title,
    Description,
    Content,
    Notes,
    Tags,
    Include,
    Date,
    Sections,
    Collections,
    Index(u16),
    Id(String),
}

/// A typed leaf value of the store.
#[derive(Debug, PartialEq, Eq)]
pub enum Datum {
    U16(u16),
    U64(u64),
    Str(String),
    U16s(Vec<u16>),
}

/// One change to the store, addressed by a path of keys from the archive's
/// root container.
#[derive(Debug, PartialEq, Eq)]
pub enum Op {
    /// Create the container at the path, wiping whatever was there.
    Reset(Vec<Key>),
    /// Delete the container at the path with everything in it.
    Remove(Vec<Key>),
    /// Write the value under the key, in the container at the path.
    Write(Vec<Key>, Key, Datum),
}

} // verus!

verus! {

impl Key {
    /// A copy of the key.
    pub fn copy(&self) -> (r: Key)
        ensures
            r == *self,
    {
        match self {
            Key::Uid => Key::Uid,
            Key::Itver => Key::Itver,
            Key::Entries => Key::Entries,
            Key::Mocs => Key::Mocs,
            Key::Order => Key::Order,
            Key::Sorted => Key::Sorted,
            Key::Unsorted => Key::Unsorted,
            Key::Length => Key::Length,
            Key::Title => Key::Title,
            Key::Description => Key::Description,
            Key::Content => Key::Content,
            Key::Notes => Key::Notes,
            Key::Tags => Key::Tags,
            Key::Include => Key::Include,
            Key::Date => Key::Date,
            Key::Sections => Key::Sections,
            Key::Collections => Key::Collections,
            Key::Index(i) => Key::Index(*i),
            Key::Id(s) => Key::Id(s.clone()),
        }
    }
}

/// What a leaf value denotes.
pub enum Leaf {
    U16(u16),
    U64(u64),
    Str(Seq<char>),
    U16s(Seq<u16>),
}

/// What a store operation denotes.
pub enum Change {
    Reset(Seq<Key>),
    Remove(Seq<Key>),
    Write(Seq<Key>, Key, Leaf),
}

impl View for Datum {
    type V = Leaf;

    open spec fn view(&self) -> Leaf {
        match self {
            Datum::U16(n) => Leaf::U16(*n),
            Datum::U64(n) => Leaf::U64(*n),
            Datum::Str(s) => Leaf::Str(s@),
            Datum::U16s(v) => Leaf::U16s(v@),
        }
    }
}

impl View for Op {
    type V = Change;

    open spec fn view(&self) -> Change {
        match self {
            Op::Reset(p) => Change::Reset(p@),
            Op::Remove(p) => Change::Remove(p@),
            Op::Write(p, k, v) => Change::Write(p@, *k, v@),
        }
    }
}

/// What a sequence of store operations denotes.
pub open spec fn changes(ops: Seq<Op>) -> Seq<Change> {
    ops.map_values(|o: Op| o@)
}

/// A copy of a path of keys.
pub fn copy_path(p: &Vec<Key>) -> (r: Vec<Key>)
    ensures
        r@ == p@,
{
    let mut r: Vec<Key> = Vec::new();
    let mut i: usize = 0;
    while i < p.len()
        invariant
            i <= p@.len(),
            r@ == p@.subrange(0, i as int),
        decreases p@.len() - i,
    {
        r.push(p[i].copy());
        i = i + 1;
        assert(r@ =~= p@.subrange(0, i as int));
    }
    assert(r@ =~= p@);
    r
}

/// The path `p` extended by the key `k`.
pub fn child_path(p: &Vec<Key>, k: Key) -> (r: Vec<Key>)
    ensures
        r@ == p@.push(k),
{
    let mut r = copy_path(p);
    r.push(k);
    r
}

/// Appends all operations of `more` to `ops`.
pub fn append_ops(ops: &mut Vec<Op>, more: Vec<Op>)
    ensures
        final(ops)@ == old(ops)@ + more@,
        changes(final(ops)@) == changes(old(ops)@) + changes(more@),
{
    let ghost added = more@;
    let mut rest = more;
    ops.append(&mut rest);
    assert(changes(ops@) =~= changes(old(ops)@) + changes(added));
}

} // verus!

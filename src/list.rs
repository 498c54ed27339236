use vstd::prelude::*;
use crate::store::{Change, Key, Leaf, Op, Datum, changes, child_path, copy_path};

verus! {

/// One change to an ordered-list container: emptying it, setting its
/// length, setting the element at a position, or deleting the element at a
/// position.
#[derive(Debug, PartialEq, Eq)]
pub enum ListField<T> {
    Clear,
    Length(u16),
    Item(u16, T),
    Drop(u16),
}

/// Why a list could not be written, extended or read.
#[derive(Debug, PartialEq, Eq, Structural)]
pub enum ListError {
    /// The list holds more elements than a 16-bit length can count.
    TooLong,
    /// The element at this position is absent although the length covers it.
    MissingItem(u16),
}

/// What a list container holds: its length field, if present, and the
/// elements present at each position.
pub type ListImage<T> = (Option<nat>, Map<nat, T>);

/// The container after one field is written.
pub open spec fn apply_field<T>(img: ListImage<T>, f: ListField<T>) -> ListImage<T> {
    match f {
        ListField::Clear => (None, Map::empty()),
        ListField::Length(n) => (Some(n as nat), img.1),
        ListField::Item(i, v) => (img.0, img.1.insert(i as nat, v)),
        ListField::Drop(i) => (img.0, img.1.remove(i as nat)),
    }
}

/// The container after the fields are written in order.
pub open spec fn apply_fields<T>(img: ListImage<T>, fs: Seq<ListField<T>>) -> ListImage<T>
    decreases fs.len(),
{
    if fs.len() == 0 {
        img
    } else {
        apply_field(apply_fields(img, fs.drop_last()), fs.last())
    }
}

/// The sequence a list container decodes to: its length must be present and
/// every position below it must hold an element.
pub open spec fn decode<T>(img: ListImage<T>) -> Option<Seq<T>> {
    match img.0 {
        Some(n) => if forall|i: nat| i < n ==> #[trigger] img.1.contains_key(i) {
            Some(Seq::new(n, |i: int| img.1[i as nat]))
        } else {
            None
        },
        None => None,
    }
}

/// Whether a list container is dense: it has a length, and it holds an
/// element at exactly the positions below that length.
pub open spec fn dense<T>(img: ListImage<T>) -> bool {
    img.0 is Some && forall|i: nat| #[trigger] img.1.contains_key(i) <==> i < img.0->Some_0
}

/// The fields that encode a sequence: the container is emptied, then each
/// element is written at its position, then the length.
pub open spec fn write_fields<T>(s: Seq<T>) -> Seq<ListField<T>> {
    seq![ListField::Clear] + item_fields(s, s.len()).push(ListField::Length(s.len() as u16))
}

/// The fields that append `v` to a list whose length field reads `n`.
pub open spec fn push_fields<T>(n: u16, v: T) -> Seq<ListField<T>> {
    seq![ListField::Item(n, v), ListField::Length((n + 1) as u16)]
}

/// The container after each element of `s` is pushed in turn, every push
/// reading the length that the previous one left.
pub open spec fn push_all<T>(img: ListImage<T>, s: Seq<T>) -> ListImage<T>
    decreases s.len(),
{
    if s.len() == 0 {
        img
    } else {
        let before = push_all(img, s.drop_last());
        apply_fields(before, push_fields(before.0.unwrap_or(0) as u16, s.last()))
    }
}

/// The container that elements read at positions `0..items.len()` describe,
/// with `None` for an absent element.
pub open spec fn image_of<T>(length: u16, items: Seq<Option<T>>) -> ListImage<T> {
    (Some(length as nat), Map::new(|i: nat| i < items.len() && items[i as int] is Some, |i: nat| items[i as int].unwrap()))
}

/// The fields that write `values` as a list: the container is emptied, each
/// element is written at its position, then the length. Fails when the
/// length does not fit in 16 bits.
pub fn write(values: &Vec<String>) -> (r: Result<Vec<ListField<String>>, ListError>)
    ensures
        values@.len() <= u16::MAX ==> r == Ok::<Vec<ListField<String>>, ListError>(r->Ok_0)
            && r->Ok_0@ == write_fields(values@),
        values@.len() > u16::MAX ==> r == Err::<Vec<ListField<String>>, ListError>(ListError::TooLong),
{
    if values.len() > 65535 {
        return Err(ListError::TooLong);
    }
    let mut fields: Vec<ListField<String>> = vec![ListField::Clear];
    let mut i: usize = 0;
    assert(fields@ =~= seq![ListField::Clear] + item_fields(values@, 0));
    while i < values.len()
        invariant
            i <= values@.len() <= u16::MAX,
            fields@ == seq![ListField::Clear] + item_fields(values@, i as nat),
        decreases values@.len() - i,
    {
        fields.push(ListField::Item(i as u16, values[i].clone()));
        i = i + 1;
        assert(fields@ =~= seq![ListField::Clear] + item_fields(values@, i as nat));
    }
    fields.push(ListField::Length(values.len() as u16));
    assert(fields@ =~= write_fields(values@));
    Ok(fields)
}

/// The fields that append `value` to a list whose length field reads
/// `length`: the element at position `length`, then the new length. Fails
/// when the list is already full.
pub fn push(length: u16, value: String) -> (r: Result<Vec<ListField<String>>, ListError>)
    ensures
        length < u16::MAX ==> r == Ok::<Vec<ListField<String>>, ListError>(r->Ok_0)
            && r->Ok_0@ == push_fields(length, value),
        length == u16::MAX ==> r == Err::<Vec<ListField<String>>, ListError>(ListError::TooLong),
{
    if length == 65535 {
        return Err(ListError::TooLong);
    }
    let fields = vec![ListField::Item(length, value), ListField::Length(length + 1)];
    assert(fields@ =~= push_fields(length, value));
    Ok(fields)
}

/// The list that a container decodes to, given its length field and the
/// elements read at positions `0..length` (`None` where one is absent).
/// Fails at the first absent element.
pub fn read(length: u16, items: Vec<Option<String>>) -> (r: Result<Vec<String>, ListError>)
    requires
        items@.len() == length,
    ensures
        decode(image_of(length, items@)) is Some ==> r == Ok::<Vec<String>, ListError>(r->Ok_0)
            && r->Ok_0@ == decode(image_of(length, items@))->Some_0,
        decode(image_of(length, items@)) is None ==> exists|i: int| 0 <= i < length
            && items@[i] is None && (forall|j: int| 0 <= j < i ==> #[trigger] items@[j] is Some)
            && r == Err::<Vec<String>, ListError>(ListError::MissingItem(i as u16)),
{
    let ghost img = image_of(length, items@);
    let ghost orig = items@;
    let mut out: Vec<String> = Vec::new();
    let mut rest = items;
    let mut i: usize = 0;
    while i < length as usize
        invariant
            i <= length,
            orig.len() == length,
            orig == items@,
            rest@ == orig.subrange(i as int, orig.len() as int),
            img == image_of(length, orig),
            forall|j: int| 0 <= j < i ==> orig[j] is Some,
            out@ == Seq::new(i as nat, |j: int| orig[j].unwrap()),
        decreases length - i,
    {
        let item = rest.remove(0);
        assert(item == orig[i as int]);
        match item {
            Some(v) => {
                out.push(v);
                i = i + 1;
                assert(rest@ =~= orig.subrange(i as int, orig.len() as int));
                assert(out@ =~= Seq::new(i as nat, |j: int| orig[j].unwrap()));
            },
            None => {
                proof {
                    assert(orig[i as int] is None);
                    assert(!img.1.contains_key(i as nat));
                    assert(!(forall|k: nat| k < length ==> #[trigger] img.1.contains_key(k)));
                    assert(decode(img) is None);
                    assert(0 <= i < length && orig[i as int] is None
                        && (forall|j: int| 0 <= j < i ==> #[trigger] orig[j] is Some));
                }
                return Err(ListError::MissingItem(i as u16));
            },
        }
    }
    proof {
        assert forall|k: nat| k < length implies #[trigger] img.1.contains_key(k) by {
            assert(orig[k as int] is Some);
        }
        assert(out@ =~= Seq::new(length as nat, |j: int| img.1[j as nat]));
    }
    Ok(out)
}

/// What writing one list field in the container at `path` denotes.
pub open spec fn field_change(path: Seq<Key>, f: ListField<String>) -> Change {
    match f {
        ListField::Clear => Change::Reset(path),
        ListField::Length(n) => Change::Write(path, Key::Length, Leaf::U16(n)),
        ListField::Item(i, v) => Change::Write(path, Key::Index(i), Leaf::Str(v@)),
        ListField::Drop(i) => Change::Remove(path.push(Key::Index(i))),
    }
}

/// What writing list fields in the container at `path` denotes.
pub open spec fn field_changes(path: Seq<Key>, fs: Seq<ListField<String>>) -> Seq<Change> {
    fs.map_values(|f: ListField<String>| field_change(path, f))
}

/// Turns list fields into store operations on the list container at `path`.
pub fn field_ops(path: &Vec<Key>, fields: Vec<ListField<String>>) -> (r: Vec<Op>)
    ensures
        changes(r@) == field_changes(path@, fields@),
{
    let mut out: Vec<Op> = Vec::new();
    let ghost orig = fields@;
    let mut fields = fields;
    while fields.len() > 0
        invariant
            out@.len() + fields@.len() == orig.len(),
            fields@ == orig.subrange(out@.len() as int, orig.len() as int),
            changes(out@) == field_changes(path@, orig.subrange(0, out@.len() as int)),
        decreases fields@.len(),
    {
        let ghost k = out@.len();
        let f = fields.remove(0);
        assert(f == orig[k as int]);
        let op = match f {
            ListField::Clear => Op::Reset(copy_path(path)),
            ListField::Length(len) => Op::Write(copy_path(path), Key::Length, Datum::U16(len)),
            ListField::Item(i, v) => Op::Write(copy_path(path), Key::Index(i), Datum::Str(v)),
            ListField::Drop(i) => Op::Remove(child_path(path, Key::Index(i))),
        };
        assert(op@ == field_change(path@, orig[k as int]));
        let ghost before = out@;
        out.push(op);
        assert(fields@ =~= orig.subrange(out@.len() as int, orig.len() as int));
        assert(orig.subrange(0, out@.len() as int) =~= orig.subrange(0, k as int).push(orig[k as int]));
        assert(changes(out@) =~= changes(before).push(op@));
        assert(changes(out@) =~= field_changes(path@, orig.subrange(0, out@.len() as int)));
    }
    assert(orig.subrange(0, orig.len() as int) =~= orig);
    out
}

/// The element fields of `write_fields(s)` for the first `k` elements.
pub open spec fn item_fields<T>(s: Seq<T>, k: nat) -> Seq<ListField<T>> {
    Seq::new(k, |i: int| ListField::Item(i as u16, s[i]))
}

proof fn lemma_apply_concat<T>(img: ListImage<T>, a: Seq<ListField<T>>, b: Seq<ListField<T>>)
    ensures
        apply_fields(img, a + b) == apply_fields(apply_fields(img, a), b),
    decreases b.len(),
{
    if b.len() == 0 {
        assert(a + b =~= a);
    } else {
        assert((a + b).drop_last() =~= a + b.drop_last());
        assert((a + b).last() == b.last());
        lemma_apply_concat(img, a, b.drop_last());
    }
}

proof fn lemma_item_fields<T>(img: ListImage<T>, s: Seq<T>, k: nat)
    requires
        k <= s.len() <= u16::MAX,
    ensures
        apply_fields(img, item_fields(s, k)).0 == img.0,
        forall|i: nat| i < k ==> #[trigger] apply_fields(img, item_fields(s, k)).1.contains_key(i)
            && apply_fields(img, item_fields(s, k)).1[i] == s[i as int],
        forall|i: nat| #[trigger] apply_fields(img, item_fields(s, k)).1.contains_key(i) ==> i < k || img.1.contains_key(i),
    decreases k,
{
    if k > 0 {
        let prev = (k - 1) as nat;
        assert(item_fields(s, k).drop_last() =~= item_fields(s, prev));
        lemma_item_fields(img, s, prev);
        let before = apply_fields(img, item_fields(s, prev));
        let after = apply_fields(img, item_fields(s, k));
        assert(after == apply_field(before, ListField::Item(prev as u16, s[prev as int])));
        assert((prev as u16) as nat == prev);
        assert forall|i: nat| i < k implies #[trigger] after.1.contains_key(i) && after.1[i] == s[i as int] by {
            if i < prev {
                assert(before.1.contains_key(i));
            }
        }
        assert forall|i: nat| #[trigger] after.1.contains_key(i) implies i < k || img.1.contains_key(i) by {
            if i != prev {
                assert(before.1.contains_key(i));
            }
        }
    }
}

/// Writing a sequence of at most `u16::MAX` elements into any list container
/// and reading it back gives the same sequence, the empty one included; the
/// container is then dense, holding no element at or past the new length.
pub proof fn list_round_trip<T>(img: ListImage<T>, s: Seq<T>)
    requires
        s.len() <= u16::MAX,
    ensures
        decode(apply_fields(img, write_fields(s))) == Some(s),
        dense(apply_fields(img, write_fields(s))),
{
    let n = s.len();
    let items = item_fields(s, n);
    let clear = seq![ListField::<T>::Clear];
    assert(write_fields(s) =~= (clear + items).push(ListField::Length(n as u16)));
    let written = apply_fields(img, write_fields(s));
    assert(write_fields(s).drop_last() =~= clear + items);
    assert(clear.drop_last() =~= Seq::<ListField<T>>::empty());
    let cleared = apply_fields(img, clear);
    assert(cleared == apply_field(img, ListField::<T>::Clear));
    lemma_apply_concat(img, clear, items);
    lemma_item_fields(cleared, s, n);
    let filled = apply_fields(cleared, items);
    assert(written == apply_field(filled, ListField::Length(n as u16)));
    assert(forall|i: nat| i < n ==> #[trigger] written.1.contains_key(i));
    assert forall|i: nat| #[trigger] written.1.contains_key(i) <==> i < n by {
        if written.1.contains_key(i) {
            assert(!cleared.1.contains_key(i));
        }
    }
    assert forall|i: int| 0 <= i < n implies Seq::new(n, |j: int| written.1[j as nat])[i] == s[i] by {
        assert(written.1.contains_key(i as nat));
    }
    assert(Seq::new(n, |i: int| written.1[i as nat]) =~= s);
}

/// After `k` pushes of the elements of `s` onto an empty list (`k` at most
/// `u16::MAX`), the length is `k`, the element at each position `i` is the
/// `i`-th pushed value, and the list is still dense.
pub proof fn push_sequence<T>(img: ListImage<T>, s: Seq<T>)
    requires
        img.0 == Some(0nat),
        dense(img),
        s.len() <= u16::MAX,
    ensures
        push_all(img, s).0 == Some(s.len()),
        decode(push_all(img, s)) == Some(s),
        dense(push_all(img, s)),
    decreases s.len(),
{
    lemma_push_prefix(img, s);
    let after = push_all(img, s);
    assert forall|i: int| 0 <= i < s.len() implies Seq::new(s.len(), |j: int| after.1[j as nat])[i] == s[i] by {
        assert(after.1.contains_key(i as nat));
    }
    assert(Seq::new(s.len(), |i: int| after.1[i as nat]) =~= s);
    assert forall|i: nat| #[trigger] after.1.contains_key(i) <==> i < s.len() by {}
}

proof fn lemma_push_prefix<T>(img: ListImage<T>, s: Seq<T>)
    requires
        img.0 == Some(0nat),
        dense(img),
        s.len() <= u16::MAX,
    ensures
        push_all(img, s).0 == Some(s.len()),
        forall|i: nat| i < s.len() ==> #[trigger] push_all(img, s).1.contains_key(i),
        forall|i: nat| i < s.len() ==> #[trigger] push_all(img, s).1[i] == s[i as int],
        forall|i: nat| #[trigger] push_all(img, s).1.contains_key(i) ==> i < s.len(),
    decreases s.len(),
{
    if s.len() > 0 {
        let prev = s.drop_last();
        lemma_push_prefix(img, prev);
        let before = push_all(img, prev);
        let n = prev.len();
        let fs = push_fields(n as u16, s.last());
        assert(fs.drop_last() =~= seq![ListField::Item(n as u16, s.last())]);
        assert(fs.drop_last().drop_last() =~= Seq::<ListField<T>>::empty());
        let after = push_all(img, s);
        assert(before.0.unwrap_or(0) == n);
        assert(after == apply_fields(before, fs));
        assert(apply_fields(before, fs.drop_last().drop_last()) == before);
        assert(apply_fields(before, fs.drop_last()) == apply_field(before, ListField::Item(n as u16, s.last())));
        assert((n as u16) as nat == n);
        assert(after.1 == before.1.insert(n, s.last()));
        assert forall|i: nat| i < s.len() implies #[trigger] after.1.contains_key(i) && after.1[i] == s[i as int] by {
            if i < n {
                assert(before.1.contains_key(i));
                assert(prev[i as int] == s[i as int]);
            } else {
                assert(i == n);
                assert(s.last() == s[i as int]);
            }
        }
        assert forall|i: nat| #[trigger] after.1.contains_key(i) implies i < s.len() by {
            if i != n {
                assert(before.1.contains_key(i));
            }
        }
        assert(after.0 == Some(s.len()));
    } else {
        assert(push_all(img, s) == img);
    }
}

/// The element fields that move every element after position `k` of `s`
/// down by one.
pub open spec fn shift_fields<T>(s: Seq<T>, k: int) -> Seq<ListField<T>> {
    Seq::new((s.len() - 1 - k) as nat, |j: int| ListField::Item((k + j) as u16, s[k + j + 1]))
}

/// The fields that remove the element at position `k` from a list holding
/// `s`, keeping positions dense: every later element moves down by one, the
/// last position is deleted, then the length shrinks by one.
pub open spec fn remove_fields<T>(s: Seq<T>, k: int) -> Seq<ListField<T>> {
    shift_fields(s, k).push(ListField::Drop((s.len() - 1) as u16)).push(ListField::Length((s.len() - 1) as u16))
}

/// The fields that remove the element at `index` from the list `values`,
/// moving every later element down by one position and deleting the last
/// position. Fails when the list is longer than a 16-bit length can count.
pub fn remove_at(values: &Vec<String>, index: usize) -> (r: Result<Vec<ListField<String>>, ListError>)
    requires
        index < values@.len(),
    ensures
        values@.len() <= u16::MAX ==> r == Ok::<Vec<ListField<String>>, ListError>(r->Ok_0)
            && r->Ok_0@ == remove_fields(values@, index as int),
        values@.len() > u16::MAX ==> r == Err::<Vec<ListField<String>>, ListError>(ListError::TooLong),
{
    if values.len() > 65535 {
        return Err(ListError::TooLong);
    }
    let n = values.len();
    let mut fields: Vec<ListField<String>> = Vec::new();
    let mut i: usize = index;
    while i + 1 < n
        invariant
            index <= i < n,
            n == values@.len() <= u16::MAX,
            fields@ == Seq::new((i - index) as nat, |j: int| ListField::Item((index + j) as u16, values@[index + j + 1])),
        decreases n - i,
    {
        fields.push(ListField::Item(i as u16, values[i + 1].clone()));
        i = i + 1;
        assert(fields@ =~= Seq::new((i - index) as nat, |j: int| ListField::Item((index + j) as u16, values@[index + j + 1])));
    }
    fields.push(ListField::Drop((n - 1) as u16));
    fields.push(ListField::Length((n - 1) as u16));
    assert(fields@ =~= remove_fields(values@, index as int));
    Ok(fields)
}

/// The first position of `target` in `values`, if any.
pub fn position(values: &Vec<String>, target: &String) -> (r: Option<usize>)
    ensures
        r is Some ==> r->Some_0 < values@.len() && values@[r->Some_0 as int]@ == target@
            && forall|j: int| 0 <= j < r->Some_0 ==> (#[trigger] values@[j])@ != target@,
        r is None ==> forall|j: int| 0 <= j < values@.len() ==> (#[trigger] values@[j])@ != target@,
{
    let mut i: usize = 0;
    while i < values.len()
        invariant
            i <= values@.len(),
            forall|j: int| 0 <= j < i ==> (#[trigger] values@[j])@ != target@,
        decreases values@.len() - i,
    {
        if values[i] == *target {
            return Some(i);
        }
        i = i + 1;
    }
    None
}

proof fn lemma_shift<T>(img: ListImage<T>, s: Seq<T>, k: int, m: nat)
    requires
        decode(img) == Some(s),
        dense(img),
        0 <= k < s.len() <= u16::MAX,
        k + m <= s.len() - 1,
    ensures
        apply_fields(img, shift_fields(s, k).subrange(0, m as int)).0 == img.0,
        forall|i: nat| #[trigger] apply_fields(img, shift_fields(s, k).subrange(0, m as int)).1.contains_key(i) <==> i < s.len(),
        forall|i: nat| i < s.len() ==> #[trigger] apply_fields(img, shift_fields(s, k).subrange(0, m as int)).1[i]
            == if k <= i < k + m { s[(i + 1) as int] } else { s[i as int] },
    decreases m,
{
    let fs = shift_fields(s, k);
    assert(img.0 == Some(s.len()));
    if m == 0 {
        assert(fs.subrange(0, 0) =~= Seq::<ListField<T>>::empty());
        assert forall|i: nat| i < s.len() implies #[trigger] img.1[i] == s[i as int] by {
            assert(img.1.contains_key(i));
        }
    } else {
        let prev = (m - 1) as nat;
        assert(fs.subrange(0, m as int).drop_last() =~= fs.subrange(0, prev as int));
        lemma_shift(img, s, k, prev);
        let before = apply_fields(img, fs.subrange(0, prev as int));
        let after = apply_fields(img, fs.subrange(0, m as int));
        let at = (k + prev) as nat;
        assert(fs.subrange(0, m as int).last() == ListField::Item(at as u16, s[(at + 1) as int]));
        assert((at as u16) as nat == at);
        assert(after == apply_field(before, ListField::Item(at as u16, s[(at + 1) as int])));
        assert forall|i: nat| #[trigger] after.1.contains_key(i) <==> i < s.len() by {
            if i != at {
                assert(before.1.contains_key(i) <==> i < s.len());
            }
        }
        assert forall|i: nat| i < s.len() implies #[trigger] after.1[i]
            == if k <= i < k + m { s[(i + 1) as int] } else { s[i as int] } by {
            if i != at {
                assert(before.1[i] == if k <= i < k + prev { s[(i + 1) as int] } else { s[i as int] });
            }
        }
    }
}

/// Removing the element at position `k` from a dense list that decodes to
/// `s` leaves a dense list that decodes to `s` without that element: no
/// element remains at or past the new length.
pub proof fn remove_keeps_order<T>(img: ListImage<T>, s: Seq<T>, k: int)
    requires
        decode(img) == Some(s),
        dense(img),
        0 <= k < s.len() <= u16::MAX,
    ensures
        decode(apply_fields(img, remove_fields(s, k))) == Some(s.remove(k)),
        dense(apply_fields(img, remove_fields(s, k))),
{
    let fs = remove_fields(s, k);
    let n = s.len();
    let m = (n - 1 - k) as nat;
    lemma_shift(img, s, k, m);
    let sh = shift_fields(s, k);
    assert(sh.subrange(0, m as int) =~= sh);
    assert(fs.drop_last().drop_last() =~= sh);
    let shifted = apply_fields(img, sh);
    let last = (n - 1) as nat;
    assert((last as u16) as nat == last);
    let dropped = apply_fields(img, fs.drop_last());
    assert(dropped == apply_field(shifted, ListField::Drop(last as u16)));
    let after = apply_fields(img, fs);
    assert(after == apply_field(dropped, ListField::Length(last as u16)));
    let r = s.remove(k);
    assert forall|i: nat| #[trigger] after.1.contains_key(i) <==> i < r.len() by {
        if i != last {
            assert(shifted.1.contains_key(i) <==> i < n);
        }
    }
    assert forall|i: int| 0 <= i < r.len() implies Seq::new(r.len(), |j: int| after.1[j as nat])[i] == r[i] by {
        assert(shifted.1[i as nat] == if k <= i < k + m { s[i + 1] } else { s[i] });
    }
    assert(Seq::new(r.len(), |j: int| after.1[j as nat]) =~= r);
}

} // verus!

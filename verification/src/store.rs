//! The server's in-memory record store: the image table plus the two
//! independent collections, a single-owner id sequence, and the pure decision
//! logic of the upload endpoint (which multipart fields are accepted and
//! where their files are stored).

use crate::batch::{spec_field_name, UploadField};
use std::rc::Rc;
use vstd::prelude::*;
use vstd::string::*;

verus! {

/// One stored image record. `image_id` is assigned by the server and is the
/// record's identity; `path` is the asset's shard path; `foreign_id` zero
/// means ungrouped.
pub struct ImageData {
    pub image_id: u32,
    pub foreign_id: u32,
    pub path: String,
    pub title: Option<String>,
    pub user: String,
}

/// Copy an optional caption.
fn clone_title(t: &Option<String>) -> (r: Option<String>)
    ensures
        r == *t,
{
    match t {
        Some(s) => Some(s.clone()),
        None => None,
    }
}

impl ImageData {
    /// An owned copy of a record behind a shared reference.
    pub fn from_rc_ref(rc_ref: &Rc<Self>) -> (r: Self)
        ensures
            r == **rc_ref,
    {
        Self {
            image_id: rc_ref.image_id,
            foreign_id: rc_ref.foreign_id,
            path: rc_ref.path.clone(),
            title: clone_title(&rc_ref.title),
            user: rc_ref.user.clone(),
        }
    }

    /// An owned copy of a record.
    pub fn duplicate(&self) -> (r: Self)
        ensures
            r == *self,
    {
        Self {
            image_id: self.image_id,
            foreign_id: self.foreign_id,
            path: self.path.clone(),
            title: clone_title(&self.title),
            user: self.user.clone(),
        }
    }
}

impl PartialEq for ImageData {
    /// Records are compared by their server-assigned id alone.
    fn eq(&self, other: &Self) -> (r: bool) {
        self.image_id == other.image_id
    }
}

impl vstd::std_specs::cmp::PartialEqSpecImpl for ImageData {
    open spec fn obeys_eq_spec() -> bool {
        true
    }

    open spec fn eq_spec(&self, other: &Self) -> bool {
        self.image_id == other.image_id
    }
}

/// Index of the first record with the given id, if any.
pub open spec fn find_index(s: Seq<ImageData>, id: u32) -> Option<int>
    decreases s.len(),
{
    if s.len() == 0 {
        None
    } else if s[0].image_id == id {
        Some(0int)
    } else {
        match find_index(s.drop_first(), id) {
            Some(j) => Some(j + 1),
            None => None,
        }
    }
}

/// What `find_index` finds: the first match, or a guarantee that no record
/// has the id.
pub proof fn lemma_find_index_spec(s: Seq<ImageData>, id: u32)
    ensures
        match find_index(s, id) {
            Some(j) => 0 <= j < s.len() && s[j].image_id == id && (forall|i: int|
                0 <= i < j ==> s[i].image_id != id),
            None => forall|i: int| 0 <= i < s.len() ==> s[i].image_id != id,
        },
    decreases s.len(),
{
    if s.len() > 0 && s[0].image_id != id {
        let rest = s.drop_first();
        lemma_find_index_spec(rest, id);
        match find_index(rest, id) {
            Some(j) => {
                assert(s[j + 1] == rest[j]);
                assert forall|i: int| 0 <= i < j + 1 implies s[i].image_id != id by {
                    if i > 0 {
                        assert(rest[i - 1] == s[i]);
                    }
                }
            },
            None => {
                assert forall|i: int| 0 <= i < s.len() implies s[i].image_id != id by {
                    if i > 0 {
                        assert(rest[i - 1] == s[i]);
                    }
                }
            },
        }
    }
}

/// A matching record at `k` after a match-free prefix pins `find_index` down.
pub proof fn lemma_find_index_at(s: Seq<ImageData>, id: u32, k: int)
    requires
        0 <= k < s.len(),
        s[k].image_id == id,
        forall|i: int| 0 <= i < k ==> s[i].image_id != id,
    ensures
        find_index(s, id) == Some(k),
    decreases s.len(),
{
    if k > 0 {
        lemma_find_index_at(s.drop_first(), id, k - 1);
    }
}

/// Locate the first record with the given id.
pub fn find_position(v: &Vec<ImageData>, id: u32) -> (r: Option<usize>)
    ensures
        match r {
            Some(k) => find_index(v@, id) == Some(k as int),
            None => find_index(v@, id) is None,
        },
{
    let mut k: usize = 0;
    while k < v.len()
        invariant
            k <= v@.len(),
            forall|i: int| 0 <= i < k ==> v@[i].image_id != id,
        decreases v@.len() - k,
    {
        if v[k].image_id == id {
            proof {
                lemma_find_index_at(v@, id, k as int);
            }
            return Some(k);
        }
        k = k + 1;
    }
    proof {
        lemma_find_index_spec(v@, id);
    }
    None
}

/// The whole application state: the image table, the two collections, and
/// the id sequence.
pub struct AppState {
    pub images: Vec<ImageData>,
    pub first_table: Vec<ImageData>,
    pub second_table: Vec<ImageData>,
    pub count: u32,
}

impl AppState {
    /// A fresh store: empty tables, ids starting at one.
    pub fn new() -> (r: Self)
        ensures
            r.images@ == Seq::<ImageData>::empty(),
            r.first_table@ == Seq::<ImageData>::empty(),
            r.second_table@ == Seq::<ImageData>::empty(),
            r.count == 1,
    {
        Self { images: Vec::new(), first_table: Vec::new(), second_table: Vec::new(), count: 1 }
    }
}

/// A record as a collection read returns it: its caption is overridden by
/// the caption of the matching record in the image table, when one exists.
pub open spec fn retitled(d: ImageData, images: Seq<ImageData>) -> ImageData {
    match find_index(images, d.image_id) {
        Some(j) => ImageData { title: images[j].title, ..d },
        None => d,
    }
}

/// What a collection read returns: the records of the table with the given
/// foreign id, in table order, each with its caption joined in from the
/// image table.
pub open spec fn collection_view(
    table: Seq<ImageData>,
    images: Seq<ImageData>,
    foreign_id: u32,
) -> Seq<ImageData>
    decreases table.len(),
{
    if table.len() == 0 {
        Seq::empty()
    } else {
        let rest = collection_view(table.drop_last(), images, foreign_id);
        if table.last().foreign_id == foreign_id {
            rest.push(retitled(table.last(), images))
        } else {
            rest
        }
    }
}

/// The id sequence's value after one step: advanced by one, wrapping as a
/// fixed-width counter does.
pub open spec fn next_count(c: u32) -> u32 {
    if c == u32::MAX {
        0u32
    } else {
        (c + 1) as u32
    }
}

/// The id sequence's value after `n` steps from `c`.
pub open spec fn count_at(c: u32, n: nat) -> u32
    decreases n,
{
    if n == 0 {
        c
    } else {
        next_count(count_at(c, (n - 1) as nat))
    }
}

/// The ids a collection post starting at sequence value `c` assigns: one per
/// payload, in payload order.
pub open spec fn assigned_ids(c: u32, n: nat) -> Seq<u32> {
    Seq::new(n, |i: int| count_at(c, i as nat))
}

/// The records a collection post starting at sequence value `c` stores: each
/// payload with a fresh server-assigned id and its group forced to the
/// collection's fixed value, in payload order.
pub open spec fn assigned_records(payloads: Seq<ImageData>, c: u32) -> Seq<ImageData> {
    Seq::new(
        payloads.len(),
        |i: int| ImageData { image_id: count_at(c, i as nat), foreign_id: 1u32, ..payloads[i] },
    )
}

/// A table with the first record of the given id removed, when one exists.
pub open spec fn remove_first_match(s: Seq<ImageData>, id: u32) -> Seq<ImageData> {
    match find_index(s, id) {
        Some(j) => s.remove(j),
        None => s,
    }
}

/// A table after deleting, for each id in order, the first record that
/// carries it.
pub open spec fn remove_all(s: Seq<ImageData>, ids: Seq<u32>) -> Seq<ImageData>
    decreases ids.len(),
{
    if ids.len() == 0 {
        s
    } else {
        remove_all(remove_first_match(s, ids[0]), ids.drop_first())
    }
}

proof fn lemma_remove_all_push(s: Seq<ImageData>, ids: Seq<u32>, id: u32)
    ensures
        remove_all(s, ids.push(id)) == remove_first_match(remove_all(s, ids), id),
    decreases ids.len(),
{
    if ids.len() == 0 {
        assert(ids.push(id).drop_first() =~= Seq::<u32>::empty());
        assert(ids.push(id)[0] == id);
        assert(remove_all(s, ids.push(id)) == remove_all(
            remove_first_match(s, id),
            Seq::<u32>::empty(),
        ));
        assert(remove_all(remove_first_match(s, id), Seq::<u32>::empty()) == remove_first_match(
            s,
            id,
        ));
        assert(remove_all(s, ids) == s);
    } else {
        let tail = ids.drop_first();
        assert(ids.push(id)[0] == ids[0]);
        assert(ids.push(id).drop_first() =~= tail.push(id));
        lemma_remove_all_push(remove_first_match(s, ids[0]), tail, id);
        assert(remove_all(s, ids.push(id)) == remove_all(
            remove_first_match(s, ids[0]),
            tail.push(id),
        ));
        assert(remove_all(s, ids) == remove_all(remove_first_match(s, ids[0]), tail));
    }
}

/// Read one collection: the records grouped under `foreign_id`, in insertion
/// order, with captions joined in from the image table.
fn read_collection(table: &Vec<ImageData>, images: &Vec<ImageData>, foreign_id: u32) -> (r: Vec<
    ImageData,
>)
    ensures
        r@ == collection_view(table@, images@, foreign_id),
{
    let mut results: Vec<ImageData> = Vec::new();
    let mut k: usize = 0;
    while k < table.len()
        invariant
            k <= table@.len(),
            results@ == collection_view(table@.subrange(0, k as int), images@, foreign_id),
        decreases table@.len() - k,
    {
        if table[k].foreign_id == foreign_id {
            let base = table[k].duplicate();
            proof {
                lemma_find_index_spec(images@, base.image_id);
            }
            let rec = match find_position(images, base.image_id) {
                Some(j) => {
                    let mut joined = base;
                    joined.title = clone_title(&images[j].title);
                    joined
                },
                None => base,
            };
            assert(rec == retitled(table@[k as int], images@));
            results.push(rec);
        }
        proof {
            let pre = table@.subrange(0, k + 1 as int);
            assert(pre.drop_last() =~= table@.subrange(0, k as int));
            assert(pre.last() == table@[k as int]);
        }
        k = k + 1;
    }
    proof {
        assert(table@.subrange(0, table@.len() as int) =~= table@);
    }
    results
}

impl AppState {
    /// Create the record for a freshly uploaded asset: the next id from the
    /// sequence, ungrouped, untitled, under the fixed user, appended to the
    /// image table.
    pub fn post_image(&mut self, path: String) -> (r: ImageData)
        ensures
            r.image_id == old(self).count,
            r.foreign_id == 0,
            r.path == path,
            r.title is None,
            r.user@ == "user"@,
            final(self).images@ == old(self).images@.push(r),
            final(self).first_table == old(self).first_table,
            final(self).second_table == old(self).second_table,
            final(self).count == next_count(old(self).count),
    {
        let id = add_count(self);
        let r = ImageData {
            image_id: id,
            foreign_id: 0,
            path,
            title: None,
            user: "user".to_owned(),
        };
        self.images.push(r.duplicate());
        r
    }

    /// Read the first collection.
    pub fn get_first(&self, foreign_id: u32) -> (r: Vec<ImageData>)
        ensures
            r@ == collection_view(self.first_table@, self.images@, foreign_id),
    {
        read_collection(&self.first_table, &self.images, foreign_id)
    }

    /// Read the second collection.
    pub fn get_second(&self, foreign_id: u32) -> (r: Vec<ImageData>)
        ensures
            r@ == collection_view(self.second_table@, self.images@, foreign_id),
    {
        read_collection(&self.second_table, &self.images, foreign_id)
    }

    /// Add records to the first collection: each payload keeps its
    /// client-supplied path and title, is assigned a fresh id from the
    /// sequence and forced into the collection's group, and is appended in
    /// payload order; the created ids are returned.
    pub fn post_first(&mut self, payloads: Vec<ImageData>) -> (created: Vec<u32>)
        ensures
            final(self).first_table@ == old(self).first_table@ + assigned_records(
                payloads@,
                old(self).count,
            ),
            created@ == assigned_ids(old(self).count, payloads@.len()),
            final(self).count == count_at(old(self).count, payloads@.len()),
            final(self).images == old(self).images,
            final(self).second_table == old(self).second_table,
    {
        post_records(&mut self.first_table, &mut self.count, &payloads)
    }

    /// Add records to the second collection: each payload keeps its
    /// client-supplied path and title, is assigned a fresh id from the
    /// sequence and forced into the collection's group, and is appended in
    /// payload order; the created ids are returned.
    pub fn post_second(&mut self, payloads: Vec<ImageData>) -> (created: Vec<u32>)
        ensures
            final(self).second_table@ == old(self).second_table@ + assigned_records(
                payloads@,
                old(self).count,
            ),
            created@ == assigned_ids(old(self).count, payloads@.len()),
            final(self).count == count_at(old(self).count, payloads@.len()),
            final(self).images == old(self).images,
            final(self).first_table == old(self).first_table,
    {
        post_records(&mut self.second_table, &mut self.count, &payloads)
    }

    /// Update the caption of the image-table record matching the payload's
    /// id; every other field, and a store without such a record, stay
    /// unchanged.
    pub fn put_image(&mut self, payload: ImageData)
        ensures
            final(self).images@ == match find_index(old(self).images@, payload.image_id) {
                Some(j) => old(self).images@.update(
                    j,
                    ImageData { title: payload.title, ..old(self).images@[j] },
                ),
                None => old(self).images@,
            },
            final(self).first_table == old(self).first_table,
            final(self).second_table == old(self).second_table,
            final(self).count == old(self).count,
    {
        proof {
            lemma_find_index_spec(self.images@, payload.image_id);
        }
        match find_position(&self.images, payload.image_id) {
            Some(k) => {
                let mut rec = self.images.remove(k);
                rec.title = payload.title;
                self.images.insert(k, rec);
                proof {
                    assert(self.images@ =~= old(self).images@.update(
                        k as int,
                        ImageData { title: payload.title, ..old(self).images@[k as int] },
                    ));
                }
            },
            None => {},
        }
    }

    /// Delete from the first collection: for each id, in order, the first
    /// record carrying it is removed.
    pub fn delete_first(&mut self, ids: &Vec<u32>)
        ensures
            final(self).first_table@ == remove_all(old(self).first_table@, ids@),
            final(self).images == old(self).images,
            final(self).second_table == old(self).second_table,
            final(self).count == old(self).count,
    {
        delete_matching(&mut self.first_table, ids);
    }

    /// Delete from the second collection: for each id, in order, the first
    /// record carrying it is removed.
    pub fn delete_second(&mut self, ids: &Vec<u32>)
        ensures
            final(self).second_table@ == remove_all(old(self).second_table@, ids@),
            final(self).images == old(self).images,
            final(self).first_table == old(self).first_table,
            final(self).count == old(self).count,
    {
        delete_matching(&mut self.second_table, ids);
    }
}

/// Store each payload in a collection table under a fresh id from the
/// sequence, with its group forced to one; returns the assigned ids.
fn post_records(table: &mut Vec<ImageData>, count: &mut u32, payloads: &Vec<ImageData>) -> (created:
    Vec<u32>)
    ensures
        final(table)@ == old(table)@ + assigned_records(payloads@, *old(count)),
        created@ == assigned_ids(*old(count), payloads@.len()),
        *final(count) == count_at(*old(count), payloads@.len()),
{
    let ghost c0 = *count;
    let ghost stored = assigned_records(payloads@, c0);
    let ghost ids = assigned_ids(c0, payloads@.len());
    let mut created: Vec<u32> = Vec::new();
    let mut k: usize = 0;
    proof {
        assert(table@ =~= table@ + stored.subrange(0, 0));
        assert(created@ =~= ids.subrange(0, 0));
    }
    while k < payloads.len()
        invariant
            k <= payloads@.len(),
            stored == assigned_records(payloads@, c0),
            ids == assigned_ids(c0, payloads@.len()),
            table@ == old(table)@ + stored.subrange(0, k as int),
            created@ == ids.subrange(0, k as int),
            *count == count_at(c0, k as nat),
        decreases payloads@.len() - k,
    {
        let id = *count;
        *count = if *count == u32::MAX {
            0
        } else {
            *count + 1
        };
        let mut rec = payloads[k].duplicate();
        rec.image_id = id;
        rec.foreign_id = 1;
        table.push(rec);
        created.push(id);
        proof {
            assert(count_at(c0, (k + 1) as nat) == next_count(count_at(c0, k as nat)));
            assert(rec == stored[k as int]);
            assert(stored.subrange(0, k + 1 as int) =~= stored.subrange(0, k as int).push(
                stored[k as int],
            ));
            assert(ids.subrange(0, k + 1 as int) =~= ids.subrange(0, k as int).push(ids[k as int]));
            assert(table@ =~= old(table)@ + stored.subrange(0, k + 1 as int));
        }
        k = k + 1;
    }
    proof {
        assert(stored.subrange(0, stored.len() as int) =~= stored);
        assert(ids.subrange(0, ids.len() as int) =~= ids);
    }
    created
}

/// Remove, for each id in order, the first record of the table carrying it.
fn delete_matching(table: &mut Vec<ImageData>, ids: &Vec<u32>)
    ensures
        final(table)@ == remove_all(old(table)@, ids@),
{
    let mut k: usize = 0;
    proof {
        assert(ids@.subrange(0, 0) =~= Seq::<u32>::empty());
    }
    while k < ids.len()
        invariant
            k <= ids@.len(),
            table@ == remove_all(old(table)@, ids@.subrange(0, k as int)),
        decreases ids@.len() - k,
    {
        proof {
            lemma_find_index_spec(table@, ids@[k as int]);
        }
        match find_position(table, ids[k]) {
            Some(j) => {
                let _ = table.remove(j);
            },
            None => {},
        }
        proof {
            let pre = ids@.subrange(0, k + 1 as int);
            assert(pre =~= ids@.subrange(0, k as int).push(ids@[k as int]));
            lemma_remove_all_push(old(table)@, ids@.subrange(0, k as int), ids@[k as int]);
        }
        k = k + 1;
    }
    proof {
        assert(ids@.subrange(0, ids@.len() as int) =~= ids@);
    }
}

/// Character-wise string comparison, so that contracts can speak of the
/// views being equal.
fn str_eq(a: &str, b: &str) -> (r: bool)
    ensures
        r == (a@ == b@),
{
    let n = a.unicode_len();
    if n != b.unicode_len() {
        return false;
    }
    let mut k: usize = 0;
    while k < n
        invariant
            k <= n,
            n == a@.len(),
            n == b@.len(),
            forall|i: int| 0 <= i < k ==> a@[i] == b@[i],
        decreases n - k,
    {
        if a.get_char(k) != b.get_char(k) {
            return false;
        }
        k = k + 1;
    }
    proof {
        assert(a@ =~= b@);
    }
    true
}

/// Which upload role a multipart field name denotes, if any: only the two
/// role names are accepted; every other field is ignored.
pub fn classify_field(name: &str) -> (r: Option<UploadField>)
    ensures
        r == if name@ == "images"@ {
            Some(UploadField::Images)
        } else if name@ == "thumbs"@ {
            Some(UploadField::Thumbs)
        } else {
            None::<UploadField>
        },
{
    if str_eq(name, "images") {
        Some(UploadField::Images)
    } else if str_eq(name, "thumbs") {
        Some(UploadField::Thumbs)
    } else {
        None
    }
}

/// Where an accepted field's file is stored on disk: under the volume root,
/// in the role's directory, at the asset's shard path.
pub fn field_storage_path(field: &UploadField, filename: &str) -> (r: String)
    ensures
        r@ == "volume/"@ + spec_field_name(*field) + "/"@ + filename@,
{
    let mut r = "volume/".to_owned();
    r.append(crate::batch::field_name(field));
    r.append("/");
    r.append(filename);
    r
}

/// Take the next record id: returns the current value of the sequence and
/// advances it by one (wrapping, as a fixed-width counter does).
pub fn add_count(state: &mut AppState) -> (r: u32)
    ensures
        r == old(state).count,
        final(state).count == next_count(old(state).count),
        final(state).images == old(state).images,
        final(state).first_table == old(state).first_table,
        final(state).second_table == old(state).second_table,
{
    let r = state.count;
    state.count = if state.count == u32::MAX {
        0
    } else {
        state.count + 1
    };
    r
}

} // verus!

//! Decisions made by the gallery surfaces over the shared record lists:
//! pasting the clipboard without duplicating records, toggling a record in
//! and out of the selection, when a caption editor opens, and how many blank
//! cells pad the last grid row.

use crate::store::{find_index, ImageData};
use vstd::prelude::*;

verus! {

/// Whether some record of `s` carries the id.
pub open spec fn contains_id(s: Seq<ImageData>, id: u32) -> bool {
    exists|i: int| 0 <= i < s.len() && s[i].image_id == id
}

/// The clipboard records that may be pasted: those whose id is not already
/// present, in clipboard order.
pub open spec fn paste_view(recent: Seq<ImageData>, clipboard: Seq<ImageData>) -> Seq<ImageData>
    decreases clipboard.len(),
{
    if clipboard.len() == 0 {
        Seq::empty()
    } else {
        let rest = paste_view(recent, clipboard.drop_last());
        if contains_id(recent, clipboard.last().image_id) {
            rest
        } else {
            rest.push(clipboard.last())
        }
    }
}

/// Whether a record of `v` carries the id.
fn vec_contains_id(v: &Vec<ImageData>, id: u32) -> (r: bool)
    ensures
        r == contains_id(v@, id),
{
    let mut k: usize = 0;
    while k < v.len()
        invariant
            k <= v@.len(),
            forall|i: int| 0 <= i < k ==> v@[i].image_id != id,
        decreases v@.len() - k,
    {
        if v[k].image_id == id {
            return true;
        }
        k = k + 1;
    }
    false
}

/// Select for pasting the clipboard records not already in the recent list,
/// preventing duplicate records in a collection.
pub fn paste_selection(recent: &Vec<ImageData>, clipboard: &Vec<ImageData>) -> (r: Vec<ImageData>)
    ensures
        r@ == paste_view(recent@, clipboard@),
{
    let mut selected: Vec<ImageData> = Vec::new();
    let mut k: usize = 0;
    while k < clipboard.len()
        invariant
            k <= clipboard@.len(),
            selected@ == paste_view(recent@, clipboard@.subrange(0, k as int)),
        decreases clipboard@.len() - k,
    {
        if !vec_contains_id(recent, clipboard[k].image_id) {
            selected.push(clipboard[k].duplicate());
        }
        proof {
            let pre = clipboard@.subrange(0, k + 1 as int);
            assert(pre.drop_last() =~= clipboard@.subrange(0, k as int));
            assert(pre.last() == clipboard@[k as int]);
        }
        k = k + 1;
    }
    proof {
        assert(clipboard@.subrange(0, clipboard@.len() as int) =~= clipboard@);
    }
    selected
}

/// Toggle a record in the selection: remove the first record with the same
/// id when one is selected, otherwise add the record at the end.
pub fn toggle_selected(selected: &mut Vec<ImageData>, item: &ImageData)
    ensures
        final(selected)@ == match find_index(old(selected)@, item.image_id) {
            Some(j) => old(selected)@.remove(j),
            None => old(selected)@.push(*item),
        },
{
    proof {
        crate::store::lemma_find_index_spec(selected@, item.image_id);
    }
    match crate::store::find_position(selected, item.image_id) {
        Some(j) => {
            let _ = selected.remove(j);
        },
        None => {
            selected.push(item.duplicate());
        },
    }
}

/// The ids handed to a delete request: one per selected record, in selection
/// order.
pub fn selected_ids(selected: &Vec<ImageData>) -> (r: Vec<u32>)
    ensures
        r@ == selected@.map_values(|d: ImageData| d.image_id),
{
    let ghost mapped = selected@.map_values(|d: ImageData| d.image_id);
    let mut ids: Vec<u32> = Vec::new();
    let mut k: usize = 0;
    while k < selected.len()
        invariant
            k <= selected@.len(),
            mapped == selected@.map_values(|d: ImageData| d.image_id),
            ids@ == mapped.subrange(0, k as int),
        decreases selected@.len() - k,
    {
        ids.push(selected[k].image_id);
        proof {
            assert(mapped.subrange(0, k + 1 as int) =~= mapped.subrange(0, k as int).push(
                mapped[k as int],
            ));
        }
        k = k + 1;
    }
    proof {
        assert(mapped.subrange(0, mapped.len() as int) =~= mapped);
    }
    ids
}

/// The record whose caption editor opens: the sole selected record, when
/// exactly one is selected.
pub fn single_selection(selected: &Vec<ImageData>) -> (r: Option<ImageData>)
    ensures
        r == if selected@.len() == 1 {
            Some(selected@[0])
        } else {
            None::<ImageData>
        },
{
    if selected.len() == 1 {
        Some(selected[0].duplicate())
    } else {
        None
    }
}

/// How many blank cells square off the last row of the thumbnail grid, with
/// one grid column per 130 pixels of the container's width.
pub fn blank_fill_count(data_len: usize, client_width: usize) -> (r: usize)
    requires
        client_width >= 130,
    ensures
        r == client_width / 130 - data_len % (client_width / 130),
{
    let cols = client_width / 130;
    cols - data_len % cols
}

/// A caption only when the text is non-empty.
pub fn str_some(s: String) -> (r: Option<String>)
    ensures
        r == if s@.len() == 0 {
            None::<String>
        } else {
            Some(s)
        },
{
    if s.as_str().is_empty() {
        None
    } else {
        Some(s)
    }
}

} // verus!

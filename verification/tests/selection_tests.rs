use gallery_core::selection::{
    blank_fill_count, paste_selection, selected_ids, single_selection, str_some, toggle_selected,
};
use gallery_core::store::ImageData;

fn record(id: u32) -> ImageData {
    ImageData {
        image_id: id,
        foreign_id: 0,
        path: String::from("p"),
        title: None,
        user: String::from("user"),
    }
}

#[test]
fn pasting_skips_records_already_present() {
    let recent = vec![record(1), record(3)];
    let clipboard = vec![record(1), record(2), record(3), record(4)];
    let pasted = paste_selection(&recent, &clipboard);
    let ids: Vec<u32> = pasted.iter().map(|d| d.image_id).collect();
    assert_eq!(ids, vec![2, 4]);
}

#[test]
fn pasting_into_an_empty_list_takes_everything_in_order() {
    let recent: Vec<ImageData> = Vec::new();
    let clipboard = vec![record(5), record(6)];
    let pasted = paste_selection(&recent, &clipboard);
    let ids: Vec<u32> = pasted.iter().map(|d| d.image_id).collect();
    assert_eq!(ids, vec![5, 6]);
}

#[test]
fn toggling_twice_restores_the_selection() {
    let mut selected = vec![record(1)];
    toggle_selected(&mut selected, &record(2));
    assert_eq!(selected.len(), 2);
    assert_eq!(selected[1].image_id, 2);
    toggle_selected(&mut selected, &record(2));
    assert_eq!(selected.len(), 1);
    assert_eq!(selected[0].image_id, 1);
}

#[test]
fn toggling_removes_only_the_first_match() {
    let mut selected = vec![record(2), record(1), record(2)];
    toggle_selected(&mut selected, &record(2));
    let ids: Vec<u32> = selected.iter().map(|d| d.image_id).collect();
    assert_eq!(ids, vec![1, 2]);
}

#[test]
fn the_caption_editor_opens_only_for_a_single_selection() {
    assert!(single_selection(&Vec::new()).is_none());
    assert_eq!(single_selection(&vec![record(4)]).unwrap().image_id, 4);
    assert!(single_selection(&vec![record(4), record(5)]).is_none());
}

#[test]
fn the_last_grid_row_is_padded_to_full_columns() {
    // 390 pixels give three columns; seven thumbnails leave one in the last
    // row, so two blanks square it off.
    assert_eq!(blank_fill_count(7, 390), 2);
    // A full row is padded with a whole extra row of blanks.
    assert_eq!(blank_fill_count(6, 390), 3);
    assert_eq!(blank_fill_count(0, 130), 1);
}

#[test]
fn deleting_targets_the_selected_ids_in_order() {
    let selected = vec![record(3), record(1), record(2)];
    assert_eq!(selected_ids(&selected), vec![3, 1, 2]);
    assert_eq!(selected_ids(&Vec::new()), Vec::<u32>::new());
}

#[test]
fn empty_captions_become_none() {
    assert_eq!(str_some(String::new()), None);
    assert_eq!(str_some(String::from("t")), Some(String::from("t")));
}

use vellum::document::{contains_id, ids_equal, index_of_id, Document};
use vellum::history::{apply, Element, Entry, History, HISTORY_LIMIT};

fn ids(document: &Document<u32>) -> Vec<u64> {
    document.elements().iter().map(|e| e.id).collect()
}

fn data(document: &Document<u32>) -> Vec<u32> {
    document.elements().iter().map(|e| e.data).collect()
}

fn three() -> Document<u32> {
    let mut document = Document::new();
    document.insert_kind(10);
    document.insert_kind(20);
    document.insert_kind(30);
    document
}

#[test]
fn new_document_is_empty() {
    let document: Document<u32> = Document::new();
    assert!(document.elements().is_empty());
    assert!(document.selected().is_empty());
}

#[test]
fn insert_assigns_increasing_ids_on_top() {
    let mut document = Document::new();
    assert_eq!(document.insert_kind(7u32), 1);
    assert_eq!(document.insert_kind(8u32), 2);
    assert_eq!(ids(&document), vec![1, 2]);
    assert_eq!(data(&document), vec![7, 8]);
    assert_eq!(document.element(2).map(|e| e.data), Some(8));
    assert!(document.element(3).is_none());
}

#[test]
fn undo_insert_then_redo_brings_it_back() {
    let mut document = three();
    assert!(document.undo());
    assert_eq!(ids(&document), vec![1, 2]);
    assert!(document.redo());
    assert_eq!(ids(&document), vec![1, 2, 3]);
    assert_eq!(data(&document), vec![10, 20, 30]);
    assert!(!document.redo());
}

#[test]
fn ids_are_not_reused_after_undo() {
    let mut document = three();
    assert!(document.undo());
    assert_eq!(document.insert_kind(40), 4);
    assert_eq!(ids(&document), vec![1, 2, 4]);
}

#[test]
fn new_edit_drops_redo() {
    let mut document = three();
    assert!(document.undo());
    document.insert_kind(40);
    assert!(!document.redo());
}

#[test]
fn remove_then_undo_restores_positions() {
    let mut document = three();
    document.toggle_selected(2);
    document.toggle_selected(3);
    assert!(document.remove_ids(&[1, 3, 99]));
    assert_eq!(ids(&document), vec![2]);
    assert_eq!(document.selected(), &vec![2]);
    assert!(document.undo());
    assert_eq!(ids(&document), vec![1, 2, 3]);
    assert_eq!(data(&document), vec![10, 20, 30]);
    assert!(document.selected().is_empty());
    assert!(document.redo());
    assert_eq!(ids(&document), vec![2]);
}

#[test]
fn remove_of_missing_ids_records_nothing() {
    let mut document = three();
    assert!(!document.remove_ids(&[42]));
    assert!(!document.remove_id(42));
    assert_eq!(ids(&document), vec![1, 2, 3]);
    assert!(document.undo());
    assert_eq!(ids(&document), vec![1, 2]);
}

#[test]
fn remove_one_id() {
    let mut document = three();
    assert!(document.remove_id(2));
    assert_eq!(ids(&document), vec![1, 3]);
    assert!(document.undo());
    assert_eq!(ids(&document), vec![1, 2, 3]);
}

#[test]
fn clear_and_undo() {
    let mut document = three();
    document.select_all();
    assert!(document.clear());
    assert!(document.elements().is_empty());
    assert!(document.selected().is_empty());
    assert!(!document.clear());
    assert!(document.undo());
    assert_eq!(ids(&document), vec![1, 2, 3]);
    assert!(document.redo());
    assert!(document.elements().is_empty());
}

#[test]
fn delete_selection_of_everything_clears() {
    let mut document = three();
    assert!(document.select_all());
    assert!(document.delete_selection());
    assert!(document.elements().is_empty());
    assert!(document.undo());
    assert_eq!(ids(&document), vec![1, 2, 3]);
}

#[test]
fn delete_selection_of_some() {
    let mut document = three();
    document.toggle_selected(2);
    assert!(document.delete_selection());
    assert_eq!(ids(&document), vec![1, 3]);
    assert!(document.selected().is_empty());
    assert!(!document.delete_selection());
    assert!(document.undo());
    assert_eq!(ids(&document), vec![1, 2, 3]);
}

#[test]
fn select_all_reports_change() {
    let mut document = three();
    assert!(document.select_all());
    assert_eq!(document.selected(), &vec![1, 2, 3]);
    assert!(!document.select_all());
}

#[test]
fn toggle_selection() {
    let mut document = three();
    document.toggle_selected(3);
    document.toggle_selected(1);
    assert_eq!(document.selected(), &vec![3, 1]);
    assert!(document.is_selected(1));
    document.toggle_selected(3);
    assert_eq!(document.selected(), &vec![1]);
    assert!(!document.is_selected(3));
}

#[test]
fn select_hit_and_miss() {
    let mut document = three();
    assert!(document.select_hit(Some(2)));
    assert_eq!(document.selected(), &vec![2]);
    assert!(!document.select_hit(Some(2)));
    document.toggle_selected(3);
    assert!(!document.select_hit(Some(3)));
    assert_eq!(document.selected(), &vec![2, 3]);
    assert!(document.select_hit(Some(1)));
    assert_eq!(document.selected(), &vec![1]);
    assert!(document.select_hit(None));
    assert!(document.selected().is_empty());
}

#[test]
fn replace_data_and_undo() {
    let mut document = three();
    assert!(document.replace_data(vec![(3, 33), (1, 11), (77, 0)]));
    assert_eq!(data(&document), vec![11, 20, 33]);
    assert!(document.undo());
    assert_eq!(data(&document), vec![10, 20, 30]);
    assert!(document.redo());
    assert_eq!(data(&document), vec![11, 20, 33]);
    assert!(!document.replace_data(vec![(77, 1)]));
}

#[test]
fn undo_is_limited() {
    let mut document = Document::new();
    for i in 0..(HISTORY_LIMIT as u32 + 10) {
        document.insert_kind(i);
    }
    let mut undone = 0;
    while document.undo() {
        undone += 1;
    }
    assert_eq!(undone, HISTORY_LIMIT);
    assert_eq!(document.elements().len(), 10);
}

#[test]
fn id_list_helpers() {
    assert!(contains_id(&[4, 5, 6], 5));
    assert!(!contains_id(&[], 5));
    assert_eq!(index_of_id(&[4, 5, 5], 5), Some(1));
    assert_eq!(index_of_id(&[4], 5), None);
    assert!(ids_equal(&[1, 2], &[1, 2]));
    assert!(!ids_equal(&[1, 2], &[2, 1]));
    assert!(!ids_equal(&[1], &[1, 2]));
}

#[test]
fn history_applies_reverse_entries() {
    let mut elements = vec![
        Element { id: 1, data: 'a' },
        Element { id: 2, data: 'b' },
        Element { id: 3, data: 'c' },
    ];
    let reverse = apply(Entry::Insert(vec![(1, 2)]), &mut elements);
    assert_eq!(elements.iter().map(|e| e.id).collect::<Vec<_>>(), vec![1, 3]);
    let again = apply(reverse, &mut elements);
    assert_eq!(elements.iter().map(|e| e.data).collect::<Vec<_>>(), vec!['a', 'b', 'c']);
    match again {
        Entry::Insert(v) => assert_eq!(v, vec![(1, 2)]),
        _ => panic!("expected an insertion"),
    }

    let mut history = History::new();
    history.record(Entry::Update(vec![(3, 'z')]));
    assert!(history.undo(&mut elements));
    assert_eq!(elements[2].data, 'z');
    assert!(history.redo(&mut elements));
    assert_eq!(elements[2].data, 'c');
    assert!(!history.redo(&mut elements));
}

#[test]
fn entries_find_elements_by_id() {
    let mut elements = vec![
        Element { id: 1, data: 'a' },
        Element { id: 2, data: 'b' },
        Element { id: 3, data: 'c' },
    ];
    let reverse = apply(Entry::Insert(vec![(0, 3)]), &mut elements);
    assert_eq!(elements.iter().map(|e| e.id).collect::<Vec<_>>(), vec![1, 2]);
    apply(reverse, &mut elements);
    assert_eq!(elements.iter().map(|e| e.id).collect::<Vec<_>>(), vec![3, 1, 2]);

    let reverse = apply(Entry::Update(vec![(1, 'x'), (1, 'y')]), &mut elements);
    assert_eq!(elements[1].data, 'y');
    match reverse {
        Entry::Update(olds) => assert_eq!(olds, vec![(1, 'a'), (1, 'x')]),
        _ => panic!("expected an update"),
    }

    let reverse = apply(Entry::Remove(vec![(9, Element { id: 4, data: 'd' })]), &mut elements);
    assert_eq!(elements.last().map(|e| e.id), Some(4));
    match reverse {
        Entry::Insert(inserted) => assert_eq!(inserted, vec![(9, 4)]),
        _ => panic!("expected an insertion"),
    }

    let reverse = apply(Entry::Clear(Vec::new()), &mut elements);
    assert!(elements.is_empty());
    apply(reverse, &mut elements);
    assert_eq!(elements.len(), 4);
}

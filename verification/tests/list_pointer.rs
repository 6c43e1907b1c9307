use accordion_task::list_pointer::{ListPointer, ScrollError};
use accordion_task::routine::Routine;
use accordion_task::task::{CompletionStatus, Task};

#[test]
fn selectable_navigation() {
    // three tasks, the one in the middle is done
    let mut list = Routine::default();
    list.push(Task::new("a", 120));
    list.push(Task::new("b", 80));
    list.push(Task::new("c", 60));
    assert_eq!(list.toggle(Some(1)), Ok(CompletionStatus::Done));
    let selectable = list.get_checkboxes();
    assert_eq!(selectable, vec![true, false, true]);
    let mut pointer = ListPointer::new(list.tasks.len());
    assert_eq!(pointer.selected(), Some(0));
    assert_eq!(pointer.try_next_selectable(&selectable), Ok(()));
    assert_eq!(pointer.selected(), Some(2));
    assert_eq!(pointer.try_prev_selectable(&selectable), Ok(()));
    assert_eq!(pointer.selected(), Some(0));
}

#[test]
fn new_pointer() {
    let pointer = ListPointer::new(0);
    assert_eq!(pointer.selected(), None);
    assert_eq!(pointer.length(), 0);
    assert_eq!(pointer.offset(), 0);
    assert!(!pointer.is_paused());
    let pointer = ListPointer::new(4);
    assert_eq!(pointer.selected(), Some(0));
    assert_eq!(pointer.length(), 4);
}

#[test]
fn select_within_and_beyond_the_list() {
    let mut pointer = ListPointer::new(3);
    assert_eq!(pointer.select(Some(2)), Ok(()));
    assert_eq!(pointer.selected(), Some(2));
    assert_eq!(pointer.select(Some(3)), Err(ScrollError::EndOfList));
    assert_eq!(pointer.selected(), Some(2));
    assert_eq!(pointer.select(None), Ok(()));
    assert_eq!(pointer.selected(), None);
    let mut empty = ListPointer::new(0);
    assert_eq!(empty.select(Some(0)), Err(ScrollError::EndOfList));
    assert_eq!(empty.select(None), Ok(()));
}

#[test]
fn step_by_step() {
    let mut pointer = ListPointer::new(3);
    assert_eq!(pointer.try_prev(), Err(ScrollError::EndOfList));
    assert_eq!(pointer.try_next(), Ok(()));
    assert_eq!(pointer.try_next(), Ok(()));
    assert_eq!(pointer.selected(), Some(2));
    assert_eq!(pointer.try_next(), Err(ScrollError::EndOfList));
    assert_eq!(pointer.selected(), Some(2));
    assert_eq!(pointer.try_prev(), Ok(()));
    assert_eq!(pointer.selected(), Some(1));
}

#[test]
fn nothing_selected_cannot_move() {
    let mut pointer = ListPointer::new(0);
    assert_eq!(pointer.try_next(), Err(ScrollError::EmptyList));
    assert_eq!(pointer.try_prev(), Err(ScrollError::EmptyList));
    assert_eq!(pointer.try_next_selectable(&[]), Err(ScrollError::EmptyList));
    assert_eq!(pointer.try_prev_selectable(&[]), Err(ScrollError::EmptyList));
    let mut pointer = ListPointer::new(2);
    pointer.select(None).unwrap();
    assert_eq!(pointer.try_next(), Err(ScrollError::EmptyList));
    assert_eq!(pointer.try_next_selectable(&[true, true]), Err(ScrollError::EmptyList));
    assert_eq!(pointer.try_prev_selectable(&[true, true]), Err(ScrollError::EmptyList));
}

#[test]
fn selectable_scan_skips_rows_and_stops_at_the_ends() {
    let selectable = [true, false, false, true, false];
    let mut pointer = ListPointer::new(5);
    assert_eq!(pointer.try_prev_selectable(&selectable), Err(ScrollError::EndOfList));
    assert_eq!(pointer.try_next_selectable(&selectable), Ok(()));
    assert_eq!(pointer.selected(), Some(3));
    assert_eq!(pointer.try_next_selectable(&selectable), Err(ScrollError::EndOfList));
    assert_eq!(pointer.selected(), Some(3));
    pointer.select(Some(4)).unwrap();
    assert_eq!(pointer.try_prev_selectable(&selectable), Ok(()));
    assert_eq!(pointer.selected(), Some(3));
    assert_eq!(pointer.try_prev_selectable(&selectable), Ok(()));
    assert_eq!(pointer.selected(), Some(0));
    pointer.select(Some(2)).unwrap();
    assert_eq!(pointer.try_next_selectable(&[false; 5]), Err(ScrollError::EndOfList));
    assert_eq!(pointer.try_prev_selectable(&[false; 5]), Err(ScrollError::EndOfList));
    assert_eq!(pointer.selected(), Some(2));
}

#[test]
fn the_selected_row_itself_does_not_count() {
    let selectable = [false, true, false];
    let mut pointer = ListPointer::new(3);
    pointer.select(Some(1)).unwrap();
    assert_eq!(pointer.try_next_selectable(&selectable), Err(ScrollError::EndOfList));
    assert_eq!(pointer.try_prev_selectable(&selectable), Err(ScrollError::EndOfList));
}

#[test]
fn pausing_hides_the_row_and_keeps_it() {
    let mut pointer = ListPointer::new(3);
    pointer.select(Some(1)).unwrap();
    pointer.pause();
    assert!(pointer.is_paused());
    assert_eq!(pointer.selected(), None);
    assert_eq!(pointer.position(), Some(1));
    assert_eq!(pointer.try_next(), Ok(()));
    pointer.unpause();
    assert_eq!(pointer.selected(), Some(2));
}

#[test]
fn prepending_keeps_the_cursor_on_its_row() {
    let mut pointer = ListPointer::new(2);
    pointer.select(Some(1)).unwrap();
    pointer.prepend_item();
    assert_eq!(pointer.length(), 3);
    assert_eq!(pointer.selected(), Some(2));
    let mut empty = ListPointer::new(0);
    empty.prepend_item();
    assert_eq!(empty.length(), 1);
    assert_eq!(empty.selected(), None);
}

#[test]
fn appending_keeps_the_index() {
    let mut pointer = ListPointer::new(2);
    pointer.select(Some(1)).unwrap();
    pointer.append_item();
    assert_eq!(pointer.length(), 3);
    assert_eq!(pointer.selected(), Some(1));
    assert_eq!(pointer.try_next(), Ok(()));
    let mut empty = ListPointer::new(0);
    empty.append_item();
    assert_eq!(empty.selected(), None);
    assert_eq!(empty.select(Some(0)), Ok(()));
}

#[test]
fn scroll_offset_keeps_the_selected_row_in_sight() {
    let mut pointer = ListPointer::new(10);
    assert_eq!(pointer.scroll_offset(5), 0);
    pointer.select(Some(4)).unwrap();
    assert_eq!(pointer.scroll_offset(5), 2);
    assert_eq!(pointer.scroll_offset(4), 3);
    assert_eq!(pointer.scroll_offset(3), 3);
    assert_eq!(pointer.scroll_offset(2), 4);
    assert_eq!(pointer.scroll_offset(0), 4);
    pointer.select(Some(9)).unwrap();
    assert_eq!(pointer.scroll_offset(5), 5);
    assert_eq!(pointer.scroll_offset(20), 0);
    pointer.pause();
    assert_eq!(pointer.scroll_offset(2), 0);
}

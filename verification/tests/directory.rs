use intelligent_sight::directory::{BufferInfo, SlotDirectory};

fn slot(freshness: usize, occupied: bool) -> BufferInfo {
    BufferInfo { freshness, occupied }
}

fn snapshot(directory: &SlotDirectory) -> Vec<(usize, bool)> {
    (0..directory.len())
        .map(|i| {
            let info = directory.get(i).unwrap();
            (info.freshness, info.occupied)
        })
        .collect()
}

#[test]
fn default_slot_is_free_and_fresh() {
    let info = BufferInfo::default();
    assert_eq!(info.freshness, 0);
    assert!(!info.occupied);
}

#[test]
fn new_directory_is_pristine() {
    let directory = SlotDirectory::new(4);
    assert_eq!(directory.len(), 4);
    assert_eq!(snapshot(&directory), vec![(0, false); 4]);
    assert!(directory.get(4).is_none());
}

#[test]
fn empty_directory_has_nothing_to_lend() {
    let mut directory = SlotDirectory::new(0);
    assert_eq!(directory.len(), 0);
    assert_eq!(directory.choose_for_read(), None);
    assert_eq!(directory.choose_for_write(), None);
}

#[test]
fn from_slots_keeps_the_slots() {
    let directory = SlotDirectory::from_slots(vec![slot(3, true), slot(7, false)]);
    assert_eq!(snapshot(&directory), vec![(3, true), (7, false)]);
}

#[test]
fn reader_gets_the_smallest_freshness_among_free_slots() {
    let mut directory = SlotDirectory::from_slots(vec![
        slot(5, false),
        slot(0, true),
        slot(2, false),
        slot(9, false),
        slot(1, true),
    ]);
    assert_eq!(directory.choose_for_read(), Some(2));
    assert_eq!(
        snapshot(&directory),
        vec![(5, false), (0, true), (2, true), (9, false), (1, true)]
    );
    assert_eq!(directory.choose_for_read(), Some(0));
    assert_eq!(directory.choose_for_read(), Some(3));
    assert_eq!(directory.choose_for_read(), None);
}

#[test]
fn writer_gets_the_largest_freshness_among_free_slots() {
    let mut directory = SlotDirectory::from_slots(vec![
        slot(5, false),
        slot(12, true),
        slot(2, false),
        slot(9, false),
        slot(30, true),
    ]);
    assert_eq!(directory.choose_for_write(), Some(3));
    assert_eq!(
        snapshot(&directory),
        vec![(5, false), (12, true), (2, false), (9, true), (30, true)]
    );
    assert_eq!(directory.choose_for_write(), Some(0));
    assert_eq!(directory.choose_for_write(), Some(2));
    assert_eq!(directory.choose_for_write(), None);
}

#[test]
fn reader_takes_the_first_of_equally_fresh_slots() {
    let mut directory =
        SlotDirectory::from_slots(vec![slot(4, false), slot(1, false), slot(1, false)]);
    assert_eq!(directory.choose_for_read(), Some(1));
    assert_eq!(directory.choose_for_read(), Some(2));
    assert_eq!(directory.choose_for_read(), Some(0));
}

#[test]
fn writer_takes_the_first_of_equally_stale_slots() {
    let mut directory =
        SlotDirectory::from_slots(vec![slot(1, false), slot(6, false), slot(6, false)]);
    assert_eq!(directory.choose_for_write(), Some(1));
    assert_eq!(directory.choose_for_write(), Some(2));
    assert_eq!(directory.choose_for_write(), Some(0));
}

#[test]
fn failed_choice_changes_nothing() {
    let mut directory = SlotDirectory::from_slots(vec![slot(3, true), slot(8, true)]);
    assert_eq!(directory.choose_for_read(), None);
    assert_eq!(directory.choose_for_write(), None);
    assert_eq!(snapshot(&directory), vec![(3, true), (8, true)]);
}

#[test]
fn read_release_frees_the_slot_and_keeps_every_freshness() {
    let mut directory =
        SlotDirectory::from_slots(vec![slot(3, true), slot(8, true), slot(0, false)]);
    directory.release_read(1);
    assert_eq!(snapshot(&directory), vec![(3, true), (8, false), (0, false)]);
}

#[test]
fn write_release_resets_the_slot_and_ages_the_others() {
    let mut directory = SlotDirectory::from_slots(vec![
        slot(3, true),
        slot(8, true),
        slot(0, false),
        slot(41, false),
    ]);
    directory.release_write(1);
    assert_eq!(
        snapshot(&directory),
        vec![(4, true), (0, false), (1, false), (42, false)]
    );
}

#[test]
fn write_release_of_a_free_slot_still_resets_it() {
    let mut directory = SlotDirectory::from_slots(vec![slot(3, false), slot(8, false)]);
    directory.release_write(0);
    assert_eq!(snapshot(&directory), vec![(0, false), (9, false)]);
}

#[test]
fn freshness_stays_at_its_ceiling() {
    let mut directory =
        SlotDirectory::from_slots(vec![slot(usize::MAX, false), slot(usize::MAX - 1, true)]);
    directory.release_write(1);
    assert_eq!(snapshot(&directory), vec![(usize::MAX, false), (0, false)]);
    directory.release_write(1);
    assert_eq!(snapshot(&directory), vec![(usize::MAX, false), (0, false)]);
    let mut other =
        SlotDirectory::from_slots(vec![slot(usize::MAX - 1, false), slot(0, true)]);
    other.release_write(1);
    assert_eq!(snapshot(&other), vec![(usize::MAX, false), (0, false)]);
}

#[test]
fn as_many_acquires_as_slots_exhaust_the_directory() {
    for slots in 1..6 {
        let mut directory = SlotDirectory::new(slots);
        let mut handed_out = Vec::new();
        for turn in 0..slots {
            let chosen = if turn % 2 == 0 {
                directory.choose_for_read()
            } else {
                directory.choose_for_write()
            };
            let index = chosen.unwrap();
            assert!(index < slots);
            assert!(!handed_out.contains(&index));
            handed_out.push(index);
        }
        assert_eq!(directory.choose_for_read(), None);
        assert_eq!(directory.choose_for_write(), None);
    }
}

#[test]
fn handles_never_share_a_slot() {
    let mut directory = SlotDirectory::new(4);
    let mut held: Vec<usize> = Vec::new();
    for turn in 0..200usize {
        let acquire = held.len() < 3 && (turn * 7 + turn / 3) % 5 != 0;
        if acquire {
            let chosen = if turn % 2 == 0 {
                directory.choose_for_read()
            } else {
                directory.choose_for_write()
            };
            let index = chosen.unwrap();
            assert!(!held.contains(&index));
            held.push(index);
        } else if !held.is_empty() {
            let index = held.remove(turn % held.len());
            if turn % 3 == 0 {
                directory.release_read(index);
            } else {
                directory.release_write(index);
            }
        }
        let occupied: Vec<usize> = (0..directory.len())
            .filter(|i| directory.get(*i).unwrap().occupied)
            .collect();
        let mut sorted = held.clone();
        sorted.sort();
        assert_eq!(occupied, sorted);
        assert!(occupied.len() <= directory.len());
    }
}

#[test]
fn writers_rotate_through_the_slots_and_readers_follow_the_newest() {
    let mut directory = SlotDirectory::new(3);
    let first = directory.choose_for_write().unwrap();
    assert_eq!(first, 0);
    directory.release_write(first);
    assert_eq!(snapshot(&directory), vec![(0, false), (1, false), (1, false)]);
    let second = directory.choose_for_write().unwrap();
    assert_eq!(second, 1);
    directory.release_write(second);
    assert_eq!(snapshot(&directory), vec![(1, false), (0, false), (2, false)]);
    let reader = directory.choose_for_read().unwrap();
    assert_eq!(reader, 1);
    let third = directory.choose_for_write().unwrap();
    assert_eq!(third, 2);
    directory.release_write(third);
    assert_eq!(snapshot(&directory), vec![(2, false), (1, true), (0, false)]);
    directory.release_read(reader);
    assert_eq!(directory.choose_for_read(), Some(2));
}

#[test]
fn directory_of_the_pool_lends_as_it_would_by_itself() {
    let mut directory = SlotDirectory::from_slots(vec![
        slot(5, false),
        slot(0, true),
        slot(2, false),
        slot(9, false),
    ]);
    assert_eq!(directory.choose_for_read_among(4), Some(2));
    assert_eq!(
        snapshot(&directory),
        vec![(5, false), (0, true), (2, true), (9, false)]
    );
    assert_eq!(directory.choose_for_write_among(4), Some(3));
    assert_eq!(
        snapshot(&directory),
        vec![(5, false), (0, true), (2, true), (9, true)]
    );
    assert_eq!(directory.choose_for_write_among(4), Some(0));
    assert_eq!(directory.choose_for_read_among(4), None);
    assert_eq!(directory.choose_for_write_among(4), None);
}

#[test]
fn directory_of_another_length_lends_nothing() {
    let mut directory = SlotDirectory::from_slots(vec![slot(5, false), slot(1, false)]);
    assert_eq!(directory.choose_for_read_among(3), None);
    assert_eq!(directory.choose_for_read_among(1), None);
    assert_eq!(directory.choose_for_read_among(0), None);
    assert_eq!(directory.choose_for_write_among(3), None);
    assert_eq!(directory.choose_for_write_among(1), None);
    assert_eq!(snapshot(&directory), vec![(5, false), (1, false)]);
    assert_eq!(directory.choose_for_read_among(2), Some(1));
    assert_eq!(directory.choose_for_write_among(2), Some(0));
    let mut empty = SlotDirectory::new(0);
    assert_eq!(empty.choose_for_read_among(0), None);
    assert_eq!(empty.choose_for_write_among(0), None);
}

#[test]
fn known_free_slot_is_chosen_without_an_option() {
    let mut directory = SlotDirectory::from_slots(vec![
        slot(5, false),
        slot(0, true),
        slot(2, false),
        slot(9, false),
    ]);
    assert_eq!(directory.choose_free_for_read(), 2);
    assert_eq!(
        snapshot(&directory),
        vec![(5, false), (0, true), (2, true), (9, false)]
    );
    assert_eq!(directory.choose_free_for_write(), 3);
    assert_eq!(
        snapshot(&directory),
        vec![(5, false), (0, true), (2, true), (9, true)]
    );
    assert_eq!(directory.choose_free_for_write(), 0);
    assert_eq!(directory.choose_for_read(), None);
}

#[test]
fn known_free_slots_tie_on_the_lowest_index() {
    let mut directory =
        SlotDirectory::from_slots(vec![slot(4, false), slot(4, false), slot(4, false)]);
    assert_eq!(directory.choose_free_for_write(), 0);
    assert_eq!(directory.choose_free_for_read(), 1);
    assert_eq!(directory.choose_free_for_write(), 2);
}

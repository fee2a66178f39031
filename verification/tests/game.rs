use kyber_numbers::server::{pickups_for, Player, Room};
use kyber_numbers::{Error, ErrorKind, Nums};

#[test]
fn nums_new_keeps_numbers() {
    let n = Nums::new(vec![3, 1, 2]);
    assert_eq!(n.nums, vec![3, 1, 2]);
}

#[test]
fn player_new_pop_and_set() {
    let mut p = Player::new("ann".to_string(), Nums::new(vec![5, 9]), true);
    assert_eq!(p.nick(), "ann");
    assert_eq!(p.id(), 0);
    assert!(p.is_host());
    assert_eq!(p.pop_num(), Some(9));
    assert_eq!(p.pop_num(), Some(5));
    assert_eq!(p.pop_num(), None);
    p.set_nums(vec![1, 2, 3]);
    assert_eq!(p.nums.nums, vec![1, 2, 3]);
    assert_eq!(p.pop_num(), Some(3));
    assert_eq!(p.nick(), "ann");
}

#[test]
fn room_new_is_empty_at_level_zero() {
    let room = Room::new().unwrap();
    let expected: Vec<u8> = (0..=100).collect();
    assert_eq!(room.raw(), &expected);
    assert!(room.stack().is_empty());
    assert_eq!(room.stars(), 0);
    assert_eq!(room.health(), 0);
    assert_eq!(room.level(), 0);
}

#[test]
fn lvl_up_shuffles_the_pool() {
    let mut room = Room::new().unwrap();
    room.lvl_up();
    let mut pool = room.raw().clone();
    assert_eq!(pool.len(), 101);
    pool.sort();
    let expected: Vec<u8> = (0..=100).collect();
    assert_eq!(pool, expected);
    assert!(room.stack().is_empty());
    assert_eq!(room.stars(), 0);
    assert_eq!(room.health(), 0);
    assert_eq!(room.level(), 0);
}

#[test]
fn pickups_at_level_zero_change_nothing() {
    let mut room = Room::new().unwrap();
    room.pickups();
    assert_eq!(room.stars(), 0);
    assert_eq!(room.health(), 0);
}

#[test]
fn pickups_for_star_levels() {
    assert_eq!(pickups_for(2, 0, 0), (1, 0));
    assert_eq!(pickups_for(5, 2, 4), (3, 4));
    assert_eq!(pickups_for(8, 3, 1), (3, 1));
}

#[test]
fn pickups_for_health_levels() {
    assert_eq!(pickups_for(3, 0, 0), (0, 1));
    assert_eq!(pickups_for(6, 1, 4), (1, 5));
    assert_eq!(pickups_for(9, 1, 5), (1, 5));
}

#[test]
fn pickups_for_other_levels() {
    for level in [0, 1, 4, 7, 10, 100] {
        assert_eq!(pickups_for(level, 2, 3), (2, 3));
    }
}

#[test]
fn error_text_and_parts() {
    let e = Error::new("Received corrupted data".to_string(), ErrorKind::CorrData);
    assert_eq!(e.description(), "Received corrupted data");
    assert_eq!(e.kind(), &ErrorKind::CorrData);
    assert_eq!(e.to_string(), "Received corrupted data on CorrData");
}

#[test]
fn error_kind_texts() {
    assert_eq!(ErrorKind::CorrData.text(), "CorrData");
    assert_eq!(ErrorKind::WrongNum.text(), "WrongNum");
    assert_eq!(ErrorKind::OutOfBounds.text(), "OutOfBounds");
    assert_eq!(ErrorKind::Disconnected(0).text(), "Disconnected(0)");
    assert_eq!(ErrorKind::Disconnected(7).text(), "Disconnected(7)");
    assert_eq!(ErrorKind::Disconnected(1024).text(), "Disconnected(1024)");
    assert_eq!(
        ErrorKind::Disconnected(usize::MAX).text(),
        format!("Disconnected({})", usize::MAX)
    );
}

#[test]
fn error_text_matches_debug_of_kind() {
    for kind in [ErrorKind::WrongNum, ErrorKind::Disconnected(42)] {
        let expected = format!("boom on {:?}", kind);
        let e = Error::new("boom".to_string(), kind);
        assert_eq!(e.to_string(), expected);
    }
}

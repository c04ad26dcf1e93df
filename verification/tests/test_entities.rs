use wmonitor::entities::{ChunkWithoutImgs, Fief, FiefMember, Member, Position, User};

#[test]
fn user_it_can_be_compiled() {
    let row = User { id: 42, is_admin: true };
    assert_eq!(row.clone(), User { id: 42, is_admin: true });
    assert_ne!(row, User { id: 42, is_admin: false });
}

#[test]
fn member_it_can_be_compiled() {
    let row = Member { fief_id: 1, user_id: 2, permissions: 0b101 };
    assert_eq!(row.clone(), Member { fief_id: 1, user_id: 2, permissions: 5 });
    assert_ne!(row, Member { fief_id: 1, user_id: 2, permissions: 4 });
}

#[test]
fn fief_member_it_can_be_compiled() {
    let row = FiefMember { fief_id: 1, user_id: 2, permissions: 0b101 };
    assert_eq!(row.clone(), FiefMember { fief_id: 1, user_id: 2, permissions: 5 });
    assert_ne!(row, FiefMember { fief_id: 3, user_id: 2, permissions: 5 });
}

#[test]
fn fief_it_can_be_compiled() {
    let row = Fief {
        id: 7,
        name: "north".to_string(),
        check_interval_min: 5,
        last_check: 1_700_000_000,
        skip_check_until: 0,
        should_check_now: false,
    };
    assert_eq!(row.clone(), row);
    assert_eq!(row.name, "north");
}

#[test]
fn chunk_it_can_be_compiled() {
    let row = ChunkWithoutImgs {
        id: 3,
        name: "gate".to_string(),
        fief_id: 7,
        position: Position { x: 1687, y: 888 },
        diff_count: 0,
    };
    assert_eq!(row.clone(), row);
    assert_eq!(row.position, Position { x: 1687, y: 888 });
}

use wmonitor::domains::{
    AppErrorEvent, CheckErrorEvent, Chunk, ChunkId, DiffFoundEvent, EventId, EventKind, FiefId,
    RawKind, SkipCheckBeginEvent, SkipCheckEndEvent, User, UserId,
};
use wmonitor::common::Position;
use wmonitor::repos::db::{
    conv_create_result, conv_fetch_one_result, QueryError, QueryResult, ViolationKind,
};
use wmonitor::Repositories;

#[test]
fn a_new_row_gives_its_key() {
    let done = QueryResult { rows_affected: 1, last_insert_rowid: 17 };
    assert_eq!(conv_create_result::<FiefId>(Ok(done)), Ok(Some(FiefId(17))));
    assert_eq!(conv_create_result::<ChunkId>(Ok(done)), Ok(Some(ChunkId(17))));
    assert_eq!(conv_create_result::<i64>(Ok(done)), Ok(Some(17)));
}

#[test]
fn a_row_that_the_database_refuses_gives_no_key() {
    for kind in [
        ViolationKind::Unique,
        ViolationKind::ForeignKey,
        ViolationKind::NotNull,
        ViolationKind::Check,
        ViolationKind::Other,
    ] {
        assert_eq!(conv_create_result::<UserId>(Err(QueryError::Database(kind))), Ok(None));
    }
}

#[test]
fn other_failures_of_an_insertion_are_handed_on() {
    assert_eq!(conv_create_result::<UserId>(Err(QueryError::RowNotFound)), Err(QueryError::RowNotFound));
    let lost = QueryError::Other("connection lost".to_string());
    assert_eq!(conv_create_result::<UserId>(Err(lost.clone())), Err(lost));
}

#[test]
fn a_missing_row_is_no_failure() {
    assert_eq!(conv_fetch_one_result(Ok(5)), Ok(Some(5)));
    assert_eq!(conv_fetch_one_result::<i32>(Err(QueryError::RowNotFound)), Ok(None));
    let refused = QueryError::Database(ViolationKind::Unique);
    assert_eq!(conv_fetch_one_result::<i32>(Err(refused.clone())), Err(refused));
    let lost = QueryError::Other("connection lost".to_string());
    assert_eq!(conv_fetch_one_result::<i32>(Err(lost.clone())), Err(lost));
}

#[test]
fn the_stores_are_handed_out_as_they_were_put_in() {
    let repos = Repositories::new("users", 2u8, vec![3], 4.5f64);
    assert_eq!(*repos.user(), "users");
    assert_eq!(*repos.fief(), 2);
    assert_eq!(*repos.chunk(), vec![3]);
    assert_eq!(*repos.event(), 4.5);
}

#[test]
fn keys_are_made_of_numbers() {
    assert_eq!(ChunkId::from(3), ChunkId(3));
    assert_eq!(FiefId::from(-3), FiefId(-3));
    assert_eq!(UserId::from(i64::MAX), UserId(i64::MAX));
    assert_eq!(EventId::from(0), EventId(0));
    assert!(FiefId(1) < FiefId(2));
    let id: ChunkId = 9.into();
    assert_eq!(id.0, 9);
}

#[test]
fn domain_values_compare_by_their_fields() {
    let chunk = Chunk { id: ChunkId(1), name: "gate".to_string(), fief_id: FiefId(2), position: Position::new(3, 4) };
    assert_eq!(chunk.clone(), chunk);
    assert_eq!(User { id: UserId(1), is_admin: true }, User { id: UserId(1), is_admin: true });
    assert_ne!(DiffFoundEvent { fief: FiefId(1), diff_count: 2 }, DiffFoundEvent { fief: FiefId(1), diff_count: 3 });
    assert_ne!(
        SkipCheckEndEvent { fief: FiefId(1), is_cancellation: true },
        SkipCheckEndEvent { fief: FiefId(1), is_cancellation: false }
    );
    assert_eq!(AppErrorEvent { description: "a".to_string() }.description, "a");
    assert_eq!(CheckErrorEvent { description: "b".to_string() }.description, "b");
}

#[test]
fn a_place_is_made_of_two_numbers() {
    assert_eq!(Position::from([1687, 888]), Position::new(1687, 888));
    assert_eq!(Position::new(1, 2), Position { x: 1, y: 2 });
    assert!(Position::new(1, 9) < Position::new(2, 0));
    assert!(Position::new(1, 1) < Position::new(1, 2));
}

#[test]
fn every_kind_of_event_is_stored_under_its_name() {
    let kinds = [
        (EventKind::AppStart, RawKind::AppStart, "APP_START"),
        (EventKind::AppStop, RawKind::AppStop, "APP_STOP"),
        (
            EventKind::DiffFound(DiffFoundEvent { fief: FiefId(1), diff_count: 2 }),
            RawKind::DiffFound,
            "DIFF_FOUND",
        ),
        (
            EventKind::SkipCheckBegin(SkipCheckBeginEvent { fief: FiefId(1), who: UserId(2), until: 3 }),
            RawKind::SkipCheckBegin,
            "SKIP_CHECK_BEGIN",
        ),
        (
            EventKind::SkipCheckEnd(SkipCheckEndEvent { fief: FiefId(1), is_cancellation: false }),
            RawKind::SkipCheckEnd,
            "SKIP_CHECK_END",
        ),
        (
            EventKind::AppError(AppErrorEvent { description: "a".to_string() }),
            RawKind::AppError,
            "APP_ERROR",
        ),
        (
            EventKind::CheckError(CheckErrorEvent { description: "b".to_string() }),
            RawKind::CheckError,
            "CHECK_ERROR",
        ),
    ];
    for (event, kind, name) in kinds {
        assert_eq!(event.raw_kind(), kind);
        assert_eq!(kind.name(), name);
        assert_eq!(RawKind::from_name(name), Some(kind));
    }
}

#[test]
fn an_unknown_name_is_no_kind_of_event() {
    for name in ["", "APP", "APP_START ", "app_start", "CHECK_ERRORS", "DIFF-FOUND", "检查"] {
        assert_eq!(RawKind::from_name(name), None);
    }
}

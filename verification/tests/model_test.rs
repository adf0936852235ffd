//! Domain types.

use my_task_sync::date::{Date, Timestamp};
use my_task_sync::model::{Status, Task, TaskDto};

fn dt(s: &str) -> Timestamp {
    Timestamp::parse(s).expect("parse ISO 8601")
}

fn date(s: &str) -> Date {
    Date::parse(s).expect("parse YYYY-MM-DD")
}

#[test]
fn task_dto_from_task_maps_fields_and_promotes_date_to_utc_midnight() {
    let t = Task {
        id: 3,
        title: "hello".into(),
        status: Status::Done,
        source: "cli".into(),
        project: Some("work".into()),
        due: Some(date("2026-05-10")),
        done_at: Some(date("2026-04-17")),
        created: date("2026-04-01"),
        updated: date("2026-04-15"),
        important: false,
    };
    let reminds = vec![date("2026-04-20"), date("2026-04-25")];
    let dto = TaskDto::from_task(t, reminds.clone());
    assert_eq!(dto.task_number, 3);
    assert_eq!(dto.status, "done");
    assert_eq!(dto.project_name.as_deref(), Some("work"));
    assert_eq!(dto.updated_at, dt("2026-04-15T00:00:00Z"));
    assert_eq!(dto.created_at, dt("2026-04-01T00:00:00Z"));
    assert_eq!(dto.reminds, reminds);
    assert_eq!(dto.title, "hello");
    assert_eq!(dto.source, "cli");
    assert_eq!(dto.due, Some(date("2026-05-10")));
    assert_eq!(dto.done_at, Some(date("2026-04-17")));
    assert!(!dto.important);
}

#[test]
fn status_words_read_back() {
    for status in [Status::Open, Status::Done, Status::Closed] {
        assert_eq!(Status::from_db_str(status.as_str()), status);
    }
    assert_eq!(Status::Open.as_str(), "open");
    assert_eq!(Status::from_db_str("nonsense"), Status::Open);
    assert_eq!(Status::from_db_str("Done"), Status::Open);
}

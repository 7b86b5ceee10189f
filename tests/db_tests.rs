use job_tracker::db::{
    check_rows_affected, database_directory, fetched_job, job_to_row, row_to_job_application,
    rows_to_jobs, update_target, DbError, JobRow,
};
use job_tracker::model::{JobApplication, SalaryRange, Status};

fn create_test_job() -> JobApplication {
    JobApplication::new()
        .company("Test Corp")
        .position("Software Engineer")
        .location("Remote")
        .salary(SalaryRange::new(80_000, 120_000))
        .status(Status::Applied)
        .date(2024, 1, 15)
}

fn plain_row(status: &str) -> JobRow {
    JobRow {
        date: None,
        cv_path: None,
        company: "Row Corp".to_string(),
        position: "Tester".to_string(),
        status: status.to_string(),
        location: "Lab".to_string(),
        salary_min: 1,
        salary_max: 2,
    }
}

#[test]
fn row_of_a_record() {
    let job = create_test_job().cv("path/to/resume.pdf").status(Status::Interview(3));
    let row = job_to_row(&job);
    assert_eq!(row.date.as_deref(), Some("2024-01-15"));
    assert_eq!(row.cv_path.as_deref(), Some("path/to/resume.pdf"));
    assert_eq!(row.company, "Test Corp");
    assert_eq!(row.position, "Software Engineer");
    assert_eq!(row.status, "interview:3");
    assert_eq!(row.location, "Remote");
    assert_eq!(row.salary_min, 80_000);
    assert_eq!(row.salary_max, 120_000);
}

#[test]
fn record_survives_its_row() {
    for status in [
        Status::Applied,
        Status::Interview(1),
        Status::Interview(3),
        Status::Offer(95_000),
        Status::Rejected,
    ] {
        let job = create_test_job().status(status).cv("path/to/complex_cv.pdf");
        let back = row_to_job_application(7, &job_to_row(&job)).unwrap();
        assert_eq!(back.id, Some(7));
        assert_eq!(back.company, job.company);
        assert_eq!(back.position, job.position);
        assert_eq!(back.location, job.location);
        assert_eq!(back.salary, job.salary);
        assert_eq!(back.status, job.status);
        assert_eq!(back.date, job.date);
        assert_eq!(back.cv, job.cv);
    }
}

#[test]
fn offer_record_read_back_from_its_row() {
    let job = JobApplication::new()
        .company("TechCorp")
        .position("Engineer")
        .location("Remote")
        .salary(SalaryRange::new(80_000, 120_000))
        .status(Status::Offer(95_000))
        .date(2024, 1, 15);
    let rows = vec![(1, job_to_row(&job))];
    let jobs = rows_to_jobs(&rows).unwrap();
    assert_eq!(jobs.len(), 1);
    assert_eq!(jobs[0].status, Status::Offer(95_000));
    assert_eq!(jobs[0].salary.to_string(), "80000 - 120000");
}

#[test]
fn no_rows_read_as_no_records() {
    let rows: Vec<(i64, JobRow)> = Vec::new();
    assert!(rows_to_jobs(&rows).unwrap().is_empty());
}

#[test]
fn rows_keep_their_order() {
    let rows = vec![(2, plain_row("rejected")), (1, plain_row("applied"))];
    let jobs = rows_to_jobs(&rows).unwrap();
    assert_eq!(jobs.len(), 2);
    assert_eq!(jobs[0].id, Some(2));
    assert_eq!(jobs[0].status, Status::Rejected);
    assert_eq!(jobs[1].id, Some(1));
    assert_eq!(jobs[1].status, Status::Applied);
}

#[test]
fn first_bad_row_fails_the_fetch() {
    let rows = vec![
        (3, plain_row("applied")),
        (2, plain_row("hired")),
        (1, plain_row("offer:x")),
    ];
    match rows_to_jobs(&rows) {
        Err(DbError::InvalidStatus(msg)) => assert_eq!(msg, "Unknown status: hired"),
        other => panic!("unexpected result: {other:?}"),
    }
}

#[test]
fn bad_stored_date_is_a_decode_error() {
    let mut row = plain_row("applied");
    row.date = Some("2024-13-01".to_string());
    match row_to_job_application(1, &row) {
        Err(DbError::InvalidStatus(msg)) => assert_eq!(msg, "Invalid date format: 2024-13-01"),
        other => panic!("unexpected result: {other:?}"),
    }
}

#[test]
fn bad_stored_status_is_a_decode_error() {
    match row_to_job_application(1, &plain_row("interview:abc")) {
        Err(DbError::InvalidStatus(msg)) => assert_eq!(msg, "Invalid interview round: abc"),
        other => panic!("unexpected result: {other:?}"),
    }
}

#[test]
fn stored_salary_out_of_range_reads_as_zero() {
    let mut row = plain_row("applied");
    row.salary_min = -5;
    row.salary_max = 4_294_967_296;
    let job = row_to_job_application(1, &row).unwrap();
    assert_eq!(job.salary, SalaryRange::new(0, 0));
    row.salary_max = 4_294_967_295;
    let job = row_to_job_application(1, &row).unwrap();
    assert_eq!(job.salary.max, u32::MAX);
}

#[test]
fn fetch_by_missing_id_is_not_found() {
    assert!(matches!(fetched_job(999, None), Err(DbError::NotFound(999))));
    let row = plain_row("applied");
    assert_eq!(fetched_job(5, Some(&row)).unwrap().id, Some(5));
}

#[test]
fn update_of_unstored_record_is_not_found_under_zero() {
    let job = create_test_job();
    assert!(matches!(update_target(&job), Err(DbError::NotFound(0))));
    let mut stored = job.clone();
    stored.id = Some(999);
    let (id, row) = update_target(&stored).unwrap();
    assert_eq!(id, 999);
    assert_eq!(row.company, "Test Corp");
}

#[test]
fn no_affected_rows_is_not_found() {
    assert!(matches!(check_rows_affected(999, 0), Err(DbError::NotFound(999))));
    assert!(check_rows_affected(4, 1).is_ok());
}

#[test]
fn directory_of_a_database_url() {
    assert_eq!(database_directory("sqlite::memory:"), None);
    assert_eq!(database_directory("postgres://host/db"), None);
    assert_eq!(database_directory("sqlite:test.db"), None);
    assert_eq!(
        database_directory("sqlite:dir/deeply/nested/test_dir.db").as_deref(),
        Some("dir/deeply/nested")
    );
    assert_eq!(database_directory("sqlite:level1/nested.db").as_deref(), Some("level1"));
}

//! What the store decides around its queries: the column values written for
//! a record, the record read back from a row, and the not-found outcomes.
use vstd::prelude::*;
use crate::date::{
    date_of_text, date_text, four_digit_date, lemma_canonical_date_text,
    CalendarDate,
};
use crate::model::{
    date_view, status_error_text, status_of_text, status_round_trip, status_text, JobApplication,
    JobRecord, SalaryRange, Status,
};
use crate::text::{has_prefix, same_text, starts_with_text, text_after};

verus! {

#[verifier::external_type_specification]
#[verifier::external_body]
pub struct ExSqlxError(sqlx::Error);

/// What can go wrong in the store.
#[derive(Debug)]
pub enum DbError {
    /// The database engine failed or could not be reached.
    Connection(sqlx::Error),
    /// A stored date or status text could not be read; the message names it.
    InvalidStatus(String),
    /// No record has the given id.
    NotFound(i64),
}

impl From<sqlx::Error> for DbError {
    fn from(e: sqlx::Error) -> (r: DbError)
        ensures
            r == DbError::Connection(e),
    {
        DbError::Connection(e)
    }
}

impl vstd::std_specs::convert::FromSpecImpl<sqlx::Error> for DbError {
    open spec fn obeys_from_spec() -> bool {
        true
    }

    open spec fn from_spec(e: sqlx::Error) -> DbError {
        DbError::Connection(e)
    }
}

/// The column values of a row, as the store holds them.
pub struct RowRecord {
    pub date: Option<Seq<char>>,
    pub cv_path: Option<Seq<char>>,
    pub company: Seq<char>,
    pub position: Seq<char>,
    pub status: Seq<char>,
    pub location: Seq<char>,
    pub salary_min: i64,
    pub salary_max: i64,
}

/// The columns of the `job_applications` table that a record fills: the
/// date as ISO text, the CV path as text, the status in its stored text,
/// the salary bounds as integers.
#[derive(Debug, Clone)]
pub struct JobRow {
    pub date: Option<String>,
    pub cv_path: Option<String>,
    pub company: String,
    pub position: String,
    pub status: String,
    pub location: String,
    pub salary_min: i64,
    pub salary_max: i64,
}

impl View for JobRow {
    type V = RowRecord;

    open spec fn view(&self) -> RowRecord {
        RowRecord {
            date: self.date.deep_view(),
            cv_path: self.cv_path.deep_view(),
            company: self.company@,
            position: self.position@,
            status: self.status@,
            location: self.location@,
            salary_min: self.salary_min,
            salary_max: self.salary_max,
        }
    }
}

pub open spec fn date_column(d: Option<(i32, u8, u8)>) -> Option<Seq<char>> {
    match d {
        Some(p) => Some(date_text(p.0 as int, p.1 as int, p.2 as int)),
        None => None,
    }
}

/// The row written for a record; its id is not part of it.
pub open spec fn row_of_record(j: JobRecord) -> RowRecord {
    RowRecord {
        date: date_column(j.date),
        cv_path: j.cv,
        company: j.company,
        position: j.position,
        status: status_text(j.status),
        location: j.location,
        salary_min: j.salary.min as i64,
        salary_max: j.salary.max as i64,
    }
}

/// A stored salary bound as `u32`: one out of that range reads as 0.
pub open spec fn salary_bound(v: i64) -> u32 {
    if 0 <= v <= u32::MAX {
        v as u32
    } else {
        0
    }
}

pub open spec fn stored_date(t: Option<Seq<char>>) -> Option<(i32, u8, u8)> {
    match t {
        Some(x) => date_of_text(x),
        None => None,
    }
}

/// The record read from the row with the given id, or the message of the
/// error: a date text that does not read as a date comes first, then a
/// status text that does not read as a status.
pub open spec fn record_of_row(id: i64, r: RowRecord) -> Result<JobRecord, Seq<char>> {
    if r.date is Some && date_of_text(r.date->0) is None {
        Err("Invalid date format: "@ + r.date->0)
    } else if status_of_text(r.status) is None {
        Err(status_error_text(r.status))
    } else {
        Ok(
            JobRecord {
                id: Some(id),
                date: stored_date(r.date),
                cv: r.cv_path,
                company: r.company,
                position: r.position,
                status: status_of_text(r.status)->0,
                location: r.location,
                salary: SalaryRange {
                    min: salary_bound(r.salary_min),
                    max: salary_bound(r.salary_max),
                },
            },
        )
    }
}

/// Whether a result is the given outcome of reading a row: the record, or a
/// decode error with the given message.
pub open spec fn read_as(
    r: Result<JobApplication, DbError>,
    expected: Result<JobRecord, Seq<char>>,
) -> bool {
    match expected {
        Ok(j) => r is Ok && r->Ok_0@ == j,
        Err(m) => r is Err && r->Err_0 is InvalidStatus && r->Err_0->InvalidStatus_0@ == m,
    }
}

fn copy_text(s: &Option<String>) -> (r: Option<String>)
    ensures
        r.deep_view() == s.deep_view(),
{
    match s {
        Some(t) => Some(t.clone()),
        None => None,
    }
}

fn stored_bound(v: i64) -> (r: u32)
    ensures
        r == salary_bound(v),
{
    if 0 <= v && v <= 4294967295 {
        v as u32
    } else {
        0
    }
}

/// The column values written for a record, on insert and on update.
pub fn job_to_row(job: &JobApplication) -> (r: JobRow)
    ensures
        r@ == row_of_record(job@),
{
    let date = match &job.date {
        Some(d) => Some(d.to_string()),
        None => None,
    };
    JobRow {
        date,
        cv_path: copy_text(&job.cv),
        company: job.company.clone(),
        position: job.position.clone(),
        status: job.status.to_db_string(),
        location: job.location.clone(),
        salary_min: job.salary.min as i64,
        salary_max: job.salary.max as i64,
    }
}

/// Reads back the record held in the row with the given id.
pub fn row_to_job_application(id: i64, row: &JobRow) -> (r: Result<JobApplication, DbError>)
    ensures
        read_as(r, record_of_row(id, row@)),
{
    let date = match &row.date {
        Some(text) => match CalendarDate::parse_iso(text.as_str()) {
            Some(d) => Some(d),
            None => {
                let mut msg = String::from_str("Invalid date format: ");
                msg.append(text.as_str());
                return Err(DbError::InvalidStatus(msg));
            },
        },
        None => None,
    };
    let status = match Status::from_db_string(row.status.as_str()) {
        Ok(s) => s,
        Err(msg) => {
            return Err(DbError::InvalidStatus(msg));
        },
    };
    let job = JobApplication {
        id: Some(id),
        date,
        cv: copy_text(&row.cv_path),
        company: row.company.clone(),
        position: row.position.clone(),
        status,
        location: row.location.clone(),
        salary: SalaryRange::new(stored_bound(row.salary_min), stored_bound(row.salary_max)),
    };
    proof {
        assert(date_view(job.date) == stored_date(row@.date));
    }
    Ok(job)
}

/// Reading back the row written for a record gives the record, under the id
/// that the row was stored with.  This holds for every record whose date, if
/// any, is valid with a year from 0 to 9999, written as `YYYY`.
pub proof fn row_round_trip(job: JobRecord, id: i64)
    requires
        job.date is Some ==> four_digit_date(job.date->0),
    ensures
        record_of_row(id, row_of_record(job)) == Ok::<JobRecord, Seq<char>>(
            JobRecord { id: Some(id), ..job },
        ),
{
    status_round_trip(job.status);
    match job.date {
        Some(p) => {
            lemma_canonical_date_text(p);
        },
        None => {},
    }
}

/// What reading a sequence of rows in order gives: the records, or the
/// message of the first row that cannot be read.
pub open spec fn records_of_rows(rows: Seq<(i64, JobRow)>) -> Result<Seq<JobRecord>, Seq<char>>
    decreases rows.len(),
{
    if rows.len() == 0 {
        Ok(Seq::empty())
    } else {
        match records_of_rows(rows.drop_last()) {
            Err(m) => Err(m),
            Ok(js) => match record_of_row(rows.last().0, rows.last().1@) {
                Ok(j) => Ok(js.push(j)),
                Err(m) => Err(m),
            },
        }
    }
}

pub open spec fn records(jobs: Seq<JobApplication>) -> Seq<JobRecord> {
    jobs.map_values(|j: JobApplication| j@)
}

/// Reads back the rows of a fetch of all records, keeping their order.
pub fn rows_to_jobs(rows: &Vec<(i64, JobRow)>) -> (r: Result<Vec<JobApplication>, DbError>)
    ensures
        match records_of_rows(rows@) {
            Ok(js) => r is Ok && records(r->Ok_0@) == js,
            Err(m) => r is Err && r->Err_0 is InvalidStatus && r->Err_0->InvalidStatus_0@ == m,
        },
{
    let mut jobs: Vec<JobApplication> = Vec::new();
    let mut i: usize = 0;
    proof {
        assert(rows@.subrange(0, 0) =~= Seq::<(i64, JobRow)>::empty());
        assert(records(jobs@) =~= Seq::<JobRecord>::empty());
    }
    while i < rows.len()
        invariant
            0 <= i <= rows.len(),
            records_of_rows(rows@.subrange(0, i as int)) == Ok::<Seq<JobRecord>, Seq<char>>(
                records(jobs@),
            ),
        decreases rows.len() - i,
    {
        let (id, row) = (rows[i].0, &rows[i].1);
        let job = row_to_job_application(id, row);
        proof {
            assert(rows@.subrange(0, i + 1).drop_last() =~= rows@.subrange(0, i as int));
        }
        match job {
            Ok(job) => {
                let ghost before = jobs@;
                let ghost record = job@;
                jobs.push(job);
                proof {
                    assert(records(jobs@) =~= records(before).push(record));
                }
            },
            Err(e) => {
                proof {
                    lemma_first_error_stays(rows@, i as int + 1);
                }
                return Err(e);
            },
        }
        i = i + 1;
    }
    proof {
        assert(rows@.subrange(0, i as int) =~= rows@);
    }
    Ok(jobs)
}

/// Once a prefix of the rows fails to read, all of them fail with the same
/// message.
proof fn lemma_first_error_stays(rows: Seq<(i64, JobRow)>, k: int)
    requires
        0 <= k <= rows.len(),
        records_of_rows(rows.subrange(0, k)) is Err,
    ensures
        records_of_rows(rows) == records_of_rows(rows.subrange(0, k)),
    decreases rows.len() - k,
{
    if k < rows.len() {
        let p = rows.subrange(0, k + 1);
        assert(p.drop_last() =~= rows.subrange(0, k));
        lemma_first_error_stays(rows, k + 1);
    } else {
        assert(rows.subrange(0, k) =~= rows);
    }
}

/// The outcome of a fetch by id, from the row that the query found, if any.
pub fn fetched_job(id: i64, row: Option<&JobRow>) -> (r: Result<JobApplication, DbError>)
    ensures
        row is None ==> r == Err::<JobApplication, DbError>(DbError::NotFound(id)),
        row is Some ==> read_as(r, record_of_row(id, row->0@)),
{
    match row {
        Some(row) => row_to_job_application(id, row),
        None => Err(DbError::NotFound(id)),
    }
}

/// The id under which an update is made, with the columns it writes.  A
/// record that was never stored is not found, under the id 0.
pub fn update_target(job: &JobApplication) -> (r: Result<(i64, JobRow), DbError>)
    ensures
        job.id is None ==> r == Err::<(i64, JobRow), DbError>(DbError::NotFound(0)),
        job.id is Some ==> r is Ok && r->Ok_0.0 == job.id->0 && r->Ok_0.1@ == row_of_record(
            job@,
        ),
{
    match job.id {
        Some(id) => Ok((id, job_to_row(job))),
        None => Err(DbError::NotFound(0)),
    }
}

/// The outcome of an update or a delete by id, from the number of rows it
/// changed: none means that no record has that id.
pub fn check_rows_affected(id: i64, rows_affected: u64) -> (r: Result<(), DbError>)
    ensures
        rows_affected == 0 ==> r == Err::<(), DbError>(DbError::NotFound(id)),
        rows_affected > 0 ==> r is Ok,
{
    if rows_affected == 0 {
        Err(DbError::NotFound(id))
    } else {
        Ok(())
    }
}

/// What `std::path::Path::parent` gives for a path: the path without its
/// last component, if it has one.
pub uninterp spec fn parent_of(p: Seq<char>) -> Option<Seq<char>>;

/// The parent of a file's path, when it is not empty: the directory that
/// must exist before the file is created.
pub open spec fn directory_to_create(path: Seq<char>) -> Option<Seq<char>> {
    match parent_of(path) {
        Some(d) => if d.len() > 0 {
            Some(d)
        } else {
            None
        },
        None => None,
    }
}

/// Relies on `std::path::Path::parent`: the path without its last
/// component, a proper prefix of it; none for an empty path.  The result
/// depends on the path alone.
#[verifier::external_body]
fn path_parent(path: &str) -> (r: Option<String>)
    ensures
        r.deep_view() == parent_of(path@),
        path@.len() == 0 ==> r is None,
        r is Some ==> r->0@.len() < path@.len() && has_prefix(path@, r->0@),
{
    std::path::Path::new(path).parent().map(|p| p.to_string_lossy().into_owned())
}

/// The directory to create before the database file named by `url` is
/// opened: none for the in-memory database (`sqlite::memory:`), for a URL
/// without the `sqlite:` scheme, or for a file with no parent directory.
/// Otherwise it is the parent of the file's path, a leading part of it.
pub fn database_directory(url: &str) -> (r: Option<String>)
    ensures
        url@ == "sqlite::memory:"@ ==> r is None,
        !has_prefix(url@, "sqlite:"@) ==> r is None,
        url@ != "sqlite::memory:"@ && has_prefix(url@, "sqlite:"@) ==> r.deep_view()
            == directory_to_create(url@.subrange("sqlite:"@.len() as int, url@.len() as int)),
        r is Some ==> {
            let path = url@.subrange("sqlite:"@.len() as int, url@.len() as int);
            0 < r->0@.len() < path.len() && has_prefix(path, r->0@)
        },
{
    if same_text(url, "sqlite::memory:") || !starts_with_text(url, "sqlite:") {
        return None;
    }
    let path = text_after(url, "sqlite:".unicode_len());
    match path_parent(path) {
        Some(dir) => if dir.unicode_len() == 0 {
            None
        } else {
            Some(dir)
        },
        None => None,
    }
}

} // verus!

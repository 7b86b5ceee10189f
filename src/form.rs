//! The editing form of a job application: text fields as typed, and their
//! conversion to and from a record.
use vstd::prelude::*;
use crate::date::{date_of_text, four_digit_date, lemma_canonical_date_text, CalendarDate};
use crate::db::date_column;
use crate::model::{JobApplication, JobRecord, SalaryRange, Status};
use crate::text::{
    decimal_text, int_text, lemma_parse_int_text, lemma_parse_nat_text, nat_text, parse_i32,
    parse_i32_text, parse_u32, parse_u32_text, parse_u8, parse_u8_text, signed_decimal_text,
};

verus! {

/// The colour scheme of the interface.
#[derive(Debug, Clone, Copy, PartialEq, Eq, Structural)]
pub enum AppTheme {
    Light,
    Dark,
}

/// The kind of a status, without its data, as a form offers it.
#[derive(Debug, Clone, Copy, PartialEq, Eq, Structural)]
pub enum StatusSelection {
    Applied,
    Interview,
    Offer,
    Rejected,
}

pub open spec fn selection_of(s: Status) -> StatusSelection {
    match s {
        Status::Applied => StatusSelection::Applied,
        Status::Interview(_) => StatusSelection::Interview,
        Status::Offer(_) => StatusSelection::Offer,
        Status::Rejected => StatusSelection::Rejected,
    }
}

pub open spec fn selection_label(s: StatusSelection) -> Seq<char> {
    match s {
        StatusSelection::Applied => "Applied"@,
        StatusSelection::Interview => "Interview"@,
        StatusSelection::Offer => "Offer"@,
        StatusSelection::Rejected => "Rejected"@,
    }
}

impl StatusSelection {
    /// The kind of a status.
    pub fn from_status(status: &Status) -> (r: Self)
        ensures
            r == selection_of(*status),
    {
        match status {
            Status::Applied => StatusSelection::Applied,
            Status::Interview(_) => StatusSelection::Interview,
            Status::Offer(_) => StatusSelection::Offer,
            Status::Rejected => StatusSelection::Rejected,
        }
    }

    /// The name shown for the kind.
    pub fn to_string(&self) -> (r: String)
        ensures
            r@ == selection_label(*self),
    {
        match self {
            StatusSelection::Applied => String::from_str("Applied"),
            StatusSelection::Interview => String::from_str("Interview"),
            StatusSelection::Offer => String::from_str("Offer"),
            StatusSelection::Rejected => String::from_str("Rejected"),
        }
    }
}

/// The texts of a form.
pub struct FormRecord {
    pub company: Seq<char>,
    pub position: Seq<char>,
    pub location: Seq<char>,
    pub date: Seq<char>,
    pub salary_min: Seq<char>,
    pub salary_max: Seq<char>,
    pub status: StatusSelection,
    pub cv_path: Seq<char>,
    pub interview_round: Seq<char>,
    pub offer_amount: Seq<char>,
}

/// The fields of the form that edits a job application, as typed.
#[derive(Debug, Clone)]
pub struct EditForm {
    pub company: String,
    pub position: String,
    pub location: String,
    pub date: String,
    pub salary_min: String,
    pub salary_max: String,
    pub status: StatusSelection,
    pub cv_path: String,
    pub interview_round: String,
    pub offer_amount: String,
}

impl View for EditForm {
    type V = FormRecord;

    open spec fn view(&self) -> FormRecord {
        FormRecord {
            company: self.company@,
            position: self.position@,
            location: self.location@,
            date: self.date@,
            salary_min: self.salary_min@,
            salary_max: self.salary_max@,
            status: self.status,
            cv_path: self.cv_path@,
            interview_round: self.interview_round@,
            offer_amount: self.offer_amount@,
        }
    }
}

/// The form of a new record: every text empty but the interview round,
/// `"1"`, and the status kind `Applied`.
pub open spec fn empty_form() -> FormRecord {
    FormRecord {
        company: Seq::empty(),
        position: Seq::empty(),
        location: Seq::empty(),
        date: Seq::empty(),
        salary_min: Seq::empty(),
        salary_max: Seq::empty(),
        status: StatusSelection::Applied,
        cv_path: Seq::empty(),
        interview_round: "1"@,
        offer_amount: Seq::empty(),
    }
}

/// The form that shows a record.
pub open spec fn form_of_record(j: JobRecord) -> FormRecord {
    FormRecord {
        company: j.company,
        position: j.position,
        location: j.location,
        date: match date_column(j.date) {
            Some(t) => t,
            None => Seq::empty(),
        },
        salary_min: nat_text(j.salary.min as nat),
        salary_max: nat_text(j.salary.max as nat),
        status: selection_of(j.status),
        cv_path: match j.cv {
            Some(p) => p,
            None => Seq::empty(),
        },
        interview_round: match j.status {
            Status::Interview(n) => nat_text(n as nat),
            _ => Seq::empty(),
        },
        offer_amount: match j.status {
            Status::Offer(n) => int_text(n as int),
            _ => Seq::empty(),
        },
    }
}

/// The status that a form describes, if its round or amount reads.
pub open spec fn form_status(f: FormRecord) -> Option<Status> {
    match f.status {
        StatusSelection::Applied => Some(Status::Applied),
        StatusSelection::Interview => match parse_u8_text(f.interview_round) {
            Some(n) => Some(Status::Interview(n)),
            None => None,
        },
        StatusSelection::Offer => match parse_i32_text(f.offer_amount) {
            Some(n) => Some(Status::Offer(n)),
            None => None,
        },
        StatusSelection::Rejected => Some(Status::Rejected),
    }
}

/// The record that a form describes, with the given id, or the message of
/// the first field that does not read: the date (when not empty), the
/// minimum salary, the maximum salary, then the round or the amount.
pub open spec fn record_of_form(f: FormRecord, id: Option<i64>) -> Result<JobRecord, Seq<char>> {
    if f.date.len() > 0 && date_of_text(f.date) is None {
        Err("Invalid date format. Use YYYY-MM-DD"@)
    } else if parse_u32_text(f.salary_min) is None {
        Err("Invalid minimum salary"@)
    } else if parse_u32_text(f.salary_max) is None {
        Err("Invalid maximum salary"@)
    } else if form_status(f) is None {
        if f.status == StatusSelection::Interview {
            Err("Invalid interview round"@)
        } else {
            Err("Invalid offer amount"@)
        }
    } else {
        Ok(
            JobRecord {
                id,
                date: if f.date.len() > 0 {
                    date_of_text(f.date)
                } else {
                    None
                },
                cv: if f.cv_path.len() > 0 {
                    Some(f.cv_path)
                } else {
                    None
                },
                company: f.company,
                position: f.position,
                status: form_status(f)->0,
                location: f.location,
                salary: SalaryRange {
                    min: parse_u32_text(f.salary_min)->0,
                    max: parse_u32_text(f.salary_max)->0,
                },
            },
        )
    }
}

impl Default for EditForm {
    fn default() -> (r: Self)
        ensures
            r@ == empty_form(),
    {
        EditForm::new()
    }
}

impl EditForm {
    /// An empty form, for a new record.
    pub fn new() -> (r: Self)
        ensures
            r@ == empty_form(),
    {
        EditForm {
            company: String::new(),
            position: String::new(),
            location: String::new(),
            date: String::new(),
            salary_min: String::new(),
            salary_max: String::new(),
            status: StatusSelection::Applied,
            cv_path: String::new(),
            interview_round: String::from_str("1"),
            offer_amount: String::new(),
        }
    }

    /// The form that shows a record.
    pub fn from_job(job: &JobApplication) -> (r: Self)
        ensures
            r@ == form_of_record(job@),
    {
        let (interview_round, offer_amount) = match &job.status {
            Status::Interview(round) => (decimal_text(*round as u64), String::new()),
            Status::Offer(amount) => (String::new(), signed_decimal_text(*amount as i64)),
            _ => (String::new(), String::new()),
        };
        let date = match &job.date {
            Some(d) => d.to_string(),
            None => String::new(),
        };
        let cv_path = match &job.cv {
            Some(p) => p.clone(),
            None => String::new(),
        };
        EditForm {
            company: job.company.clone(),
            position: job.position.clone(),
            location: job.location.clone(),
            date,
            salary_min: decimal_text(job.salary.min as u64),
            salary_max: decimal_text(job.salary.max as u64),
            status: StatusSelection::from_status(&job.status),
            cv_path,
            interview_round,
            offer_amount,
        }
    }

    /// The record that the form describes, with the given id, or the message
    /// of the first field that does not read.
    pub fn to_job(&self, id: Option<i64>) -> (r: Result<JobApplication, String>)
        ensures
            match record_of_form(self@, id) {
                Ok(j) => r is Ok && r->Ok_0@ == j,
                Err(m) => r is Err && r->Err_0@ == m,
            },
    {
        let date = if self.date.unicode_len() == 0 {
            None
        } else {
            match CalendarDate::parse_iso(self.date.as_str()) {
                Some(d) => Some(d),
                None => {
                    return Err(String::from_str("Invalid date format. Use YYYY-MM-DD"));
                },
            }
        };
        let salary_min = match parse_u32(self.salary_min.as_str()) {
            Some(v) => v,
            None => {
                return Err(String::from_str("Invalid minimum salary"));
            },
        };
        let salary_max = match parse_u32(self.salary_max.as_str()) {
            Some(v) => v,
            None => {
                return Err(String::from_str("Invalid maximum salary"));
            },
        };
        let status = match self.status {
            StatusSelection::Applied => Status::Applied,
            StatusSelection::Interview => match parse_u8(self.interview_round.as_str()) {
                Some(round) => Status::Interview(round),
                None => {
                    return Err(String::from_str("Invalid interview round"));
                },
            },
            StatusSelection::Offer => match parse_i32(self.offer_amount.as_str()) {
                Some(amount) => Status::Offer(amount),
                None => {
                    return Err(String::from_str("Invalid offer amount"));
                },
            },
            StatusSelection::Rejected => Status::Rejected,
        };
        let cv = if self.cv_path.unicode_len() == 0 {
            None
        } else {
            Some(self.cv_path.clone())
        };
        Ok(
            JobApplication {
                id,
                date,
                cv,
                company: self.company.clone(),
                position: self.position.clone(),
                status,
                location: self.location.clone(),
                salary: SalaryRange::new(salary_min, salary_max),
            },
        )
    }
}

/// Reading back the form that shows a record gives the record, under the
/// id given.  This holds for every record whose date, if any, is valid with
/// a year from 0 to 9999, and whose CV path, if any, is not empty.
pub proof fn form_round_trip(job: JobRecord, id: Option<i64>)
    requires
        job.date is Some ==> four_digit_date(job.date->0),
        job.cv is Some ==> job.cv->0.len() > 0,
    ensures
        record_of_form(form_of_record(job), id) == Ok::<JobRecord, Seq<char>>(
            JobRecord { id, ..job },
        ),
{
    let f = form_of_record(job);
    lemma_parse_nat_text(job.salary.min as nat);
    lemma_parse_nat_text(job.salary.max as nat);
    match job.status {
        Status::Interview(n) => {
            lemma_parse_nat_text(n as nat);
        },
        Status::Offer(n) => {
            lemma_parse_int_text(n as int);
        },
        _ => {},
    }
    match job.date {
        Some(p) => {
            lemma_canonical_date_text(p);
        },
        None => {},
    }
    assert(form_status(f) == Some(job.status));
}

} // verus!

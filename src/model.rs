//! The job application record, its status and its salary range.
use vstd::prelude::*;
use crate::date::{valid_date, CalendarDate};
use crate::text::{
    decimal_text, has_prefix, int_text, lemma_nat_text, lemma_parse_int_text,
    lemma_parse_nat_text, nat_text, parse_i32, parse_i32_text, parse_u8, parse_u8_text,
    same_text, signed_decimal_text, starts_with_text, text_after,
};

verus! {

/// Where an application stands.  The derived order follows the declaration
/// order of the variants.
#[derive(Debug, Clone, Copy, PartialEq, Eq, Structural, PartialOrd, Ord, Hash)]
pub enum Status {
    Applied,
    /// The interview round.
    Interview(u8),
    /// The amount offered.
    Offer(i32),
    Rejected,
}

impl Default for Status {
    fn default() -> (r: Self)
        ensures
            r == Status::Applied,
    {
        Status::Applied
    }
}

/// The stored text of a status.
pub open spec fn status_text(s: Status) -> Seq<char> {
    match s {
        Status::Applied => "applied"@,
        Status::Interview(n) => "interview:"@ + nat_text(n as nat),
        Status::Offer(n) => "offer:"@ + int_text(n as int),
        Status::Rejected => "rejected"@,
    }
}

/// The status that a stored text stands for, if any.
pub open spec fn status_of_text(t: Seq<char>) -> Option<Status> {
    if t == "applied"@ {
        Some(Status::Applied)
    } else if t == "rejected"@ {
        Some(Status::Rejected)
    } else if has_prefix(t, "interview:"@) {
        match parse_u8_text(t.subrange("interview:"@.len() as int, t.len() as int)) {
            Some(n) => Some(Status::Interview(n)),
            None => None,
        }
    } else if has_prefix(t, "offer:"@) {
        match parse_i32_text(t.subrange("offer:"@.len() as int, t.len() as int)) {
            Some(n) => Some(Status::Offer(n)),
            None => None,
        }
    } else {
        None
    }
}

/// The message for a stored text that stands for no status: it names the
/// token that could not be read.
pub open spec fn status_error_text(t: Seq<char>) -> Seq<char> {
    if has_prefix(t, "interview:"@) {
        "Invalid interview round: "@ + t.subrange("interview:"@.len() as int, t.len() as int)
    } else if has_prefix(t, "offer:"@) {
        "Invalid offer amount: "@ + t.subrange("offer:"@.len() as int, t.len() as int)
    } else {
        "Unknown status: "@ + t
    }
}

impl Status {
    /// The text under which the status is stored.
    pub fn to_db_string(&self) -> (r: String)
        ensures
            r@ == status_text(*self),
    {
        match self {
            Status::Applied => String::from_str("applied"),
            Status::Interview(round) => {
                let mut out = String::from_str("interview:");
                let digits = decimal_text(*round as u64);
                out.append(digits.as_str());
                out
            },
            Status::Offer(amount) => {
                let mut out = String::from_str("offer:");
                let digits = signed_decimal_text(*amount as i64);
                out.append(digits.as_str());
                out
            },
            Status::Rejected => String::from_str("rejected"),
        }
    }

    /// Reads a stored status text back.
    pub fn from_db_string(s: &str) -> (r: Result<Status, String>)
        ensures
            r is Ok <==> status_of_text(s@) is Some,
            r is Ok ==> status_of_text(s@) == Some(r->Ok_0),
            r is Err ==> r->Err_0@ == status_error_text(s@),
    {
        if same_text(s, "applied") {
            Ok(Status::Applied)
        } else if same_text(s, "rejected") {
            Ok(Status::Rejected)
        } else if starts_with_text(s, "interview:") {
            let rest = text_after(s, "interview:".unicode_len());
            match parse_u8(rest) {
                Some(n) => Ok(Status::Interview(n)),
                None => {
                    let mut msg = String::from_str("Invalid interview round: ");
                    msg.append(rest);
                    Err(msg)
                },
            }
        } else if starts_with_text(s, "offer:") {
            let rest = text_after(s, "offer:".unicode_len());
            match parse_i32(rest) {
                Some(n) => Ok(Status::Offer(n)),
                None => {
                    let mut msg = String::from_str("Invalid offer amount: ");
                    msg.append(rest);
                    Err(msg)
                },
            }
        } else {
            let mut msg = String::from_str("Unknown status: ");
            msg.append(s);
            Err(msg)
        }
    }
}

/// Reading back the stored text of any status gives that status.
pub proof fn status_round_trip(s: Status)
    ensures
        status_of_text(status_text(s)) == Some(s),
{
    reveal_strlit("applied");
    reveal_strlit("rejected");
    reveal_strlit("interview:");
    reveal_strlit("offer:");
    let t = status_text(s);
    match s {
        Status::Applied => {},
        Status::Rejected => {
            assert(t[0] != "applied"@[0]);
        },
        Status::Interview(n) => {
            lemma_nat_text(n as nat);
            lemma_parse_nat_text(n as nat);
            assert(t[0] == 'i');
            assert(t.subrange(0, 10) =~= "interview:"@);
            assert(t.subrange(10, t.len() as int) =~= nat_text(n as nat));
        },
        Status::Offer(n) => {
            lemma_parse_int_text(n as int);
            assert(t[0] == 'o');
            assert(t.subrange(0, 6) =~= "offer:"@);
            assert(t.subrange(6, t.len() as int) =~= int_text(n as int));
        },
    }
}

/// A pair of salary bounds; nothing relates the two.
#[derive(Debug, Clone, Copy, PartialEq, Eq, Structural, PartialOrd, Ord, Hash)]
pub struct SalaryRange {
    pub min: u32,
    pub max: u32,
}

impl Default for SalaryRange {
    fn default() -> (r: Self)
        ensures
            r == (SalaryRange { min: 0, max: 0 }),
    {
        SalaryRange { min: 0, max: 0 }
    }
}

/// The display text of a salary range: `"<min> - <max>"`.
pub open spec fn salary_text(s: SalaryRange) -> Seq<char> {
    nat_text(s.min as nat) + " - "@ + nat_text(s.max as nat)
}

impl SalaryRange {
    pub fn new(min: u32, max: u32) -> (r: Self)
        ensures
            r == (SalaryRange { min, max }),
    {
        SalaryRange { min, max }
    }

    /// The display text of the range, `"<min> - <max>"`.
    pub fn to_string(&self) -> (r: String)
        ensures
            r@ == salary_text(*self),
    {
        let mut out = decimal_text(self.min as u64);
        out.append(" - ");
        let max = decimal_text(self.max as u64);
        out.append(max.as_str());
        out
    }
}

/// The mathematical content of a job application.
pub struct JobRecord {
    pub id: Option<i64>,
    pub date: Option<(i32, u8, u8)>,
    pub cv: Option<Seq<char>>,
    pub company: Seq<char>,
    pub position: Seq<char>,
    pub status: Status,
    pub location: Seq<char>,
    pub salary: SalaryRange,
}

pub open spec fn date_view(d: Option<CalendarDate>) -> Option<(i32, u8, u8)> {
    match d {
        Some(x) => Some(x@),
        None => None,
    }
}

/// One job application.  `id` is set by the store: absent on a record that
/// was never stored.
#[derive(Debug, Clone)]
pub struct JobApplication {
    pub id: Option<i64>,
    pub date: Option<CalendarDate>,
    /// The path of the CV file, as text.
    pub cv: Option<String>,
    pub company: String,
    pub position: String,
    pub status: Status,
    pub location: String,
    pub salary: SalaryRange,
}

impl View for JobApplication {
    type V = JobRecord;

    open spec fn view(&self) -> JobRecord {
        JobRecord {
            id: self.id,
            date: date_view(self.date),
            cv: self.cv.deep_view(),
            company: self.company@,
            position: self.position@,
            status: self.status,
            location: self.location@,
            salary: self.salary,
        }
    }
}

impl Default for JobApplication {
    fn default() -> (r: Self)
        ensures
            r@.id is None,
            r@.date is Some,
            r@.cv is None,
            r@.company == Seq::<char>::empty(),
            r@.position == Seq::<char>::empty(),
            r@.status == Status::Applied,
            r@.location == Seq::<char>::empty(),
            r@.salary == (SalaryRange { min: 0, max: 0 }),
    {
        JobApplication::new()
    }
}

impl JobApplication {
    /// A record that was never stored, dated today (UTC), with empty texts,
    /// status `Applied` and a zero salary range.
    pub fn new() -> (r: Self)
        ensures
            r@.id is None,
            r@.date is Some,
            r@.cv is None,
            r@.company == Seq::<char>::empty(),
            r@.position == Seq::<char>::empty(),
            r@.status == Status::Applied,
            r@.location == Seq::<char>::empty(),
            r@.salary == (SalaryRange { min: 0, max: 0 }),
    {
        JobApplication {
            id: None,
            date: Some(CalendarDate::today()),
            cv: None,
            company: String::new(),
            position: String::new(),
            status: Status::Applied,
            location: String::new(),
            salary: SalaryRange { min: 0, max: 0 },
        }
    }

    /// Sets the date; the parts must name a valid date.
    pub fn date(self, year: i32, month: u8, day: u8) -> (r: Self)
        requires
            valid_date(year as int, month as int, day as int),
        ensures
            r@ == (JobRecord { date: Some((year, month, day)), ..self@ }),
    {
        let mut job = self;
        job.date = Some(CalendarDate::from_calendar_date(year, month, day).unwrap());
        job
    }

    pub fn company(self, company: &str) -> (r: Self)
        ensures
            r@ == (JobRecord { company: company@, ..self@ }),
    {
        let mut job = self;
        job.company = String::from_str(company);
        job
    }

    pub fn position(self, position: &str) -> (r: Self)
        ensures
            r@ == (JobRecord { position: position@, ..self@ }),
    {
        let mut job = self;
        job.position = String::from_str(position);
        job
    }

    pub fn location(self, location: &str) -> (r: Self)
        ensures
            r@ == (JobRecord { location: location@, ..self@ }),
    {
        let mut job = self;
        job.location = String::from_str(location);
        job
    }

    pub fn salary(self, salary: SalaryRange) -> (r: Self)
        ensures
            r@ == (JobRecord { salary, ..self@ }),
    {
        let mut job = self;
        job.salary = salary;
        job
    }

    /// Sets the path of the CV file.
    pub fn cv(self, cv: &str) -> (r: Self)
        ensures
            r@ == (JobRecord { cv: Some(cv@), ..self@ }),
    {
        let mut job = self;
        job.cv = Some(String::from_str(cv));
        job
    }

    pub fn status(self, status: Status) -> (r: Self)
        ensures
            r@ == (JobRecord { status, ..self@ }),
    {
        let mut job = self;
        job.status = status;
        job
    }
}

/// The texts that read as no status: the empty text; `interview:` followed
/// by anything but a round from 0 to 255; `offer:` followed by anything but
/// an `i32` amount; and any text of none of the four shapes.
pub proof fn status_text_rejections(x: Seq<char>, t: Seq<char>)
    ensures
        status_of_text(Seq::empty()) is None,
        parse_u8_text(x) is None ==> status_of_text("interview:"@ + x) is None,
        parse_i32_text(x) is None ==> status_of_text("offer:"@ + x) is None,
        t != "applied"@ && t != "rejected"@ && !has_prefix(t, "interview:"@) && !has_prefix(
            t,
            "offer:"@,
        ) ==> status_of_text(t) is None,
{
    reveal_strlit("applied");
    reveal_strlit("rejected");
    reveal_strlit("interview:");
    reveal_strlit("offer:");
    assert(Seq::<char>::empty() != "applied"@);
    assert(Seq::<char>::empty() != "rejected"@);
    let i = "interview:"@ + x;
    assert(i[0] == 'i');
    assert(i.subrange(0, 10) =~= "interview:"@);
    assert(i.subrange(10, i.len() as int) =~= x);
    let o = "offer:"@ + x;
    assert(o[0] == 'o');
    assert(o.subrange(0, 6) =~= "offer:"@);
    assert(o.subrange(6, o.len() as int) =~= x);
}

} // verus!

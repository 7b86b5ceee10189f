use job_tracker::form::{AppTheme, EditForm, StatusSelection};
use job_tracker::model::{JobApplication, SalaryRange, Status};

fn filled_form() -> EditForm {
    let mut form = EditForm::new();
    form.company = "Test Corp".to_string();
    form.position = "Developer".to_string();
    form.location = "Remote".to_string();
    form.salary_min = "50000".to_string();
    form.salary_max = "80000".to_string();
    form
}

#[test]
fn test_status_selection_conversion() {
    assert_eq!(StatusSelection::Applied.to_string(), "Applied");
    assert_eq!(StatusSelection::Interview.to_string(), "Interview");
    assert_eq!(StatusSelection::Offer.to_string(), "Offer");
    assert_eq!(StatusSelection::Rejected.to_string(), "Rejected");
}

#[test]
fn test_status_selection_from_status() {
    assert_eq!(
        StatusSelection::from_status(&Status::Applied),
        StatusSelection::Applied
    );
    assert_eq!(
        StatusSelection::from_status(&Status::Interview(1)),
        StatusSelection::Interview
    );
    assert_eq!(
        StatusSelection::from_status(&Status::Offer(50_000)),
        StatusSelection::Offer
    );
    assert_eq!(
        StatusSelection::from_status(&Status::Rejected),
        StatusSelection::Rejected
    );
}

#[test]
fn test_edit_form_new() {
    let form = EditForm::new();
    assert_eq!(form.company, "");
    assert_eq!(form.position, "");
    assert_eq!(form.location, "");
    assert_eq!(form.date, "");
    assert_eq!(form.salary_min, "");
    assert_eq!(form.salary_max, "");
    assert_eq!(form.status, StatusSelection::Applied);
    assert_eq!(form.cv_path, "");
    assert_eq!(form.interview_round, "1");
    assert_eq!(form.offer_amount, "");
}

#[test]
fn test_edit_form_from_job() {
    let job = JobApplication::new()
        .company("Test Corp")
        .position("Developer")
        .location("Remote")
        .salary(SalaryRange::new(50_000, 80_000))
        .status(Status::Interview(2))
        .date(2024, 1, 15)
        .cv("path/to/cv.pdf");

    let form = EditForm::from_job(&job);
    assert_eq!(form.company, "Test Corp");
    assert_eq!(form.position, "Developer");
    assert_eq!(form.location, "Remote");
    assert_eq!(form.salary_min, "50000");
    assert_eq!(form.salary_max, "80000");
    assert_eq!(form.status, StatusSelection::Interview);
    assert_eq!(form.interview_round, "2");
    assert_eq!(form.cv_path, "path/to/cv.pdf");
}

#[test]
fn test_edit_form_to_job_applied() {
    let mut form = filled_form();
    form.date = "2024-01-15".to_string();

    let job = form.to_job(Some(1)).unwrap();
    assert_eq!(job.id, Some(1));
    assert_eq!(job.company, "Test Corp");
    assert_eq!(job.position, "Developer");
    assert_eq!(job.location, "Remote");
    assert_eq!(job.salary.min, 50_000);
    assert_eq!(job.salary.max, 80_000);
    assert_eq!(job.status, Status::Applied);
    assert_eq!(job.date.unwrap().to_string(), "2024-01-15");
}

#[test]
fn test_edit_form_to_job_interview() {
    let mut form = filled_form();
    form.status = StatusSelection::Interview;
    form.interview_round = "3".to_string();

    let job = form.to_job(None).unwrap();
    assert_eq!(job.status, Status::Interview(3));
}

#[test]
fn test_edit_form_to_job_offer() {
    let mut form = filled_form();
    form.status = StatusSelection::Offer;
    form.offer_amount = "75000".to_string();

    let job = form.to_job(None).unwrap();
    assert_eq!(job.status, Status::Offer(75000));
}

#[test]
fn test_edit_form_to_job_invalid_salary() {
    let mut form = EditForm::new();
    form.company = "Test Corp".to_string();
    form.position = "Developer".to_string();
    form.salary_min = "invalid".to_string();
    form.salary_max = "80000".to_string();

    let result = form.to_job(None);
    assert!(result.is_err());
    assert!(result.unwrap_err().contains("Invalid minimum salary"));
}

#[test]
fn test_edit_form_to_job_invalid_date() {
    let mut form = EditForm::new();
    form.company = "Test Corp".to_string();
    form.position = "Developer".to_string();
    form.salary_min = "50000".to_string();
    form.salary_max = "80000".to_string();
    form.date = "invalid-date".to_string();

    let result = form.to_job(None);
    assert!(result.is_err());
    assert!(result.unwrap_err().contains("Invalid date format"));
}

#[test]
fn test_edit_form_to_job_invalid_interview_round() {
    let mut form = EditForm::new();
    form.company = "Test Corp".to_string();
    form.position = "Developer".to_string();
    form.salary_min = "50000".to_string();
    form.salary_max = "80000".to_string();
    form.status = StatusSelection::Interview;
    form.interview_round = "invalid".to_string();

    let result = form.to_job(None);
    assert!(result.is_err());
    assert!(result.unwrap_err().contains("Invalid interview round"));
}

#[test]
fn test_edit_form_to_job_invalid_offer_amount() {
    let mut form = EditForm::new();
    form.company = "Test Corp".to_string();
    form.position = "Developer".to_string();
    form.salary_min = "50000".to_string();
    form.salary_max = "80000".to_string();
    form.status = StatusSelection::Offer;
    form.offer_amount = "invalid".to_string();

    let result = form.to_job(None);
    assert!(result.is_err());
    assert!(result.unwrap_err().contains("Invalid offer amount"));
}

#[test]
fn form_invalid_maximum_salary() {
    let mut form = filled_form();
    form.salary_max = "-1".to_string();
    assert_eq!(form.to_job(None).unwrap_err(), "Invalid maximum salary");
}

#[test]
fn form_errors_come_in_field_order() {
    let mut form = filled_form();
    form.date = "15/01/2024".to_string();
    form.salary_min = "x".to_string();
    assert_eq!(
        form.to_job(None).unwrap_err(),
        "Invalid date format. Use YYYY-MM-DD"
    );
}

#[test]
fn form_interview_round_out_of_range() {
    let mut form = filled_form();
    form.status = StatusSelection::Interview;
    form.interview_round = "256".to_string();
    assert_eq!(form.to_job(None).unwrap_err(), "Invalid interview round");
}

#[test]
fn form_empty_date_and_cv_give_none() {
    let job = filled_form().to_job(None).unwrap();
    assert_eq!(job.date, None);
    assert_eq!(job.cv, None);
    assert_eq!(job.id, None);
}

#[test]
fn form_round_trip_of_offer() {
    let job = JobApplication::new()
        .company("Offer Corp")
        .status(Status::Offer(-5))
        .date(2023, 12, 1)
        .salary(SalaryRange::new(1, 2));
    let form = EditForm::from_job(&job);
    assert_eq!(form.offer_amount, "-5");
    assert_eq!(form.interview_round, "");
    assert_eq!(form.date, "2023-12-01");
    let back = form.to_job(Some(9)).unwrap();
    assert_eq!(back.status, Status::Offer(-5));
    assert_eq!(back.date, job.date);
    assert_eq!(back.salary, job.salary);
    assert_eq!(back.id, Some(9));
}

#[test]
fn form_default_is_new() {
    let form = EditForm::default();
    assert_eq!(form.interview_round, "1");
    assert_eq!(form.status, StatusSelection::Applied);
}

#[test]
fn themes_differ() {
    assert_ne!(AppTheme::Light, AppTheme::Dark);
}

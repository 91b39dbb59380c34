use paintbrush::announcement::{self, Announcement, AnnouncementLocator, AnnouncementSpec};
use paintbrush::assignment::{self, Assignment, AssignmentSpec, Submission};
use paintbrush::auth::Session;
use paintbrush::client::CanvasClient;
use paintbrush::resource::{ClientFactory, Locator, Resource, ResourceSpec};

fn client() -> CanvasClient {
    CanvasClient::connect(
        "work".to_string(),
        Session { domain: "canvas.example".to_string(), access_token: "tok".to_string() },
    )
}

fn announcement(id: i64, published: bool) -> Announcement {
    Announcement {
        id,
        title: "Welcome".into(),
        message: None,
        posted_at: None,
        published,
        locked_for_user: false,
        lock_explanation: None,
        html_url: "https://canvas.example/courses/1/discussion_topics/9".into(),
    }
}

fn assignment(id: i64, published: bool) -> Assignment {
    Assignment {
        id,
        name: "Essay".into(),
        description: None,
        due_at: None,
        lock_at: None,
        unlock_at: None,
        points_possible: None,
        grading_type: "points".into(),
        submission_types: vec!["online_text_entry".into(), "online_upload".into()],
        allowed_attempts: Some(-1),
        published,
        locked_for_user: true,
        lock_explanation: Some("not yet".into()),
        html_url: "https://canvas.example/courses/1/assignments/3".into(),
        submission: None,
    }
}

#[test]
fn announcement_rows_and_details() {
    let mut a = announcement(9, true);
    assert_eq!(a.row().to_string(), "9\tnot yet posted\tunlocked\tWelcome");
    a.posted_at = Some("2024-02-01".into());
    a.message = Some("Hello".into());
    a.locked_for_user = true;
    assert_eq!(a.row().to_string(), "9\t2024-02-01\tlocked\tWelcome");
    assert_eq!(
        a.detail().to_string(),
        "id: 9\ntitle: Welcome\npublished: true\nlock_state: locked\nposted_at: 2024-02-01\n\
         url: https://canvas.example/courses/1/discussion_topics/9\n\nmessage:\nHello"
    );
}

#[test]
fn only_published_announcements_are_listed() {
    let c = client();
    let listed = AnnouncementSpec::list(
        &c,
        announcement::ListArgs::new(1),
        vec![announcement(1, true), announcement(2, false), announcement(3, true)],
    );
    let ids: Vec<i64> = listed.iter().map(|l| l.resource().id).collect();
    assert_eq!(ids, vec![1, 3]);
    assert_eq!(listed[1].web_url(&c), "https://canvas.example/courses/1/discussion_topics/3");
    let req = AnnouncementSpec::list_request(&c, &announcement::ListArgs::new(12));
    assert_eq!(req.url, "https://canvas.example/api/v1/announcements");
    assert_eq!(
        req.query,
        vec![
            ("per_page".to_string(), "100".to_string()),
            ("context_codes[]".to_string(), "course_12".to_string())
        ]
    );
    let loc = AnnouncementLocator { course_id: 4, announcement_id: 8 };
    assert_eq!(
        loc.fetch_request(&c).unwrap().url,
        "https://canvas.example/api/v1/courses/4/discussion_topics/8"
    );
}

#[test]
fn assignment_rows_and_details() {
    let mut a = assignment(3, true);
    assert_eq!(a.row().to_string(), "3\tno due date\tlocked\t-\tEssay");
    a.points_possible = Some("10".into());
    a.due_at = Some("2024-03-01".into());
    assert_eq!(a.row().to_string(), "3\t2024-03-01\tlocked\t10\tEssay");
    a.submission = Some(Submission { workflow_state: "submitted".into(), submitted_at: None });
    a.description = Some("Write it".into());
    assert_eq!(
        a.detail().to_string(),
        "id: 3\nname: Essay\npublished: true\nlock_state: locked\nlock_explanation: not yet\n\
         due_at: 2024-03-01\nlock_at: -\nunlock_at: -\npoints_possible: 10\ngrading_type: points\n\
         submission_types: online_text_entry, online_upload\nallowed_attempts: unlimited\n\
         url: https://canvas.example/courses/1/assignments/3\nsubmission_state: submitted\n\
         submitted_at: -\n\ndescription:\nWrite it"
    );
    a.allowed_attempts = Some(2);
    a.submission = None;
    a.description = None;
    assert!(a.detail().to_string().contains("allowed_attempts: 2\n"));
    assert!(a.detail().to_string().ends_with("submission_state: unsubmitted"));
}

#[test]
fn only_published_assignments_are_listed() {
    let c = client();
    let listed = AssignmentSpec::list(
        &c,
        assignment::ListArgs::new(1),
        vec![assignment(1, false), assignment(2, true)],
    );
    assert_eq!(listed.len(), 1);
    assert_eq!(listed[0].resource().id, 2);
    let req = AssignmentSpec::list_request(&c, &assignment::ListArgs::new(7));
    assert_eq!(req.url, "https://canvas.example/api/v1/courses/7/assignments");
    assert_eq!(
        req.query,
        vec![
            ("per_page".to_string(), "100".to_string()),
            ("include[]".to_string(), "submission".to_string())
        ]
    );
    let loc = AssignmentSpec::locate(assignment::ViewArgs::new(7, 11));
    assert_eq!(loc.web_url(&c), "https://canvas.example/courses/7/assignments/11");
}

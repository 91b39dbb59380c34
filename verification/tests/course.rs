use paintbrush::auth::Session;
use paintbrush::client::CanvasClient;
use paintbrush::course::{Course, CourseLocator, CourseSpec, ListArgs, Manager, ViewArgs};
use paintbrush::resource::{ClientFactory, Locator, Resource, ResourceSpec, ViewPlan, ViewTarget};

fn client() -> CanvasClient {
    CanvasClient::connect(
        "work".to_string(),
        Session { domain: "canvas.example".to_string(), access_token: "tok".to_string() },
    )
}

fn course(id: i64) -> Course {
    Course {
        id,
        name: "Rust 101".into(),
        course_code: "RS101".into(),
        workflow_state: "available".into(),
        default_view: Some("modules".into()),
        start_at: None,
        end_at: None,
        html_url: String::new(),
    }
}

#[test]
fn renders_rows_and_details() {
    let course = Course {
        id: 42,
        name: "Rust 101".into(),
        course_code: "RS101".into(),
        workflow_state: "available".into(),
        default_view: Some("modules".into()),
        start_at: None,
        end_at: None,
        html_url: "https://canvas.example/courses/42".into(),
    };

    assert_eq!(course.row().to_string(), "42\tRS101\tRust 101");
    assert!(course.detail().to_string().contains("workflow_state: available"));
}

#[test]
fn course_detail_lists_every_field() {
    let mut c = course(-7);
    c.html_url = "https://canvas.example/courses/7".into();
    c.start_at = Some("2024-01-01".into());
    assert_eq!(
        c.detail().to_string(),
        "id: -7\nname: Rust 101\ncourse_code: RS101\nworkflow_state: available\n\
         default_view: modules\nstart_at: 2024-01-01\nend_at: -\nurl: https://canvas.example/courses/7"
    );
}

#[test]
fn listing_fills_in_course_urls() {
    let c = client();
    let listed = CourseSpec::list(&c, ListArgs, vec![course(1), course(20)]);
    assert_eq!(listed.len(), 2);
    assert_eq!(listed[1].resource().html_url, "https://canvas.example/courses/20");
    assert_eq!(listed[0].web_url(&c), "https://canvas.example/courses/1");
    let req = CourseSpec::list_request(&c, &ListArgs);
    assert_eq!(req.url, "https://canvas.example/api/v1/courses");
    assert_eq!(req.query, vec![("per_page".to_string(), "100".to_string())]);
}

#[test]
fn a_located_course_is_fetched_then_given_its_url() {
    let c = client();
    let loc = CourseLocator { id: 42 };
    let req = loc.fetch_request(&c).unwrap();
    assert_eq!(req.url, "https://canvas.example/api/v1/courses/42");
    assert_eq!(req.authorization, "Bearer tok");
    let resolved = loc.resolve(&c, Some(course(42)));
    assert_eq!(resolved.html_url, "https://canvas.example/courses/42");
}

#[test]
fn viewing_on_the_web_opens_the_course_page() {
    let m = Manager::connect(
        "work".to_string(),
        Session { domain: "canvas.example".to_string(), access_token: "tok".to_string() },
    );
    match m.view(ViewArgs::new(5), ViewTarget::from(true)) {
        ViewPlan::Open { url, notice } => {
            assert_eq!(url, "https://canvas.example/courses/5");
            assert_eq!(notice, "Opening https://canvas.example/courses/5 in your browser...");
        }
        ViewPlan::Show(_) => panic!("expected to open the browser"),
    }
    match m.view(ViewArgs::new(5), ViewTarget::from(false)) {
        ViewPlan::Show(l) => assert_eq!(l.id, 5),
        ViewPlan::Open { .. } => panic!("expected to show details"),
    }
    assert_eq!(m.list(&vec![course(3)]), vec!["3\tRS101\tRust 101".to_string()]);
}

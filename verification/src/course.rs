use vstd::prelude::*;

use crate::client::{api_url_of, bearer_of, query_view, web_url_of, ApiRequest, CanvasClient, Query};
use crate::resource::{Loaded, Locator, Resource, ResourceManager, ResourceSpec};
use crate::text::{
    decimal, has_text, int_decimal, lemma_has_middle, lemma_has_text_grows, or_text, push_decimal,
    push_int, push_or, push_str,
};

verus! {

/// A course, as Canvas describes it; `html_url` is filled in from the
/// client's domain.
pub struct Course {
    pub id: i64,
    pub name: String,
    pub course_code: String,
    pub workflow_state: String,
    pub default_view: Option<String>,
    pub start_at: Option<String>,
    pub end_at: Option<String>,
    pub html_url: String,
}

/// `id\tcourse_code\tname`.
pub open spec fn course_row(c: Course) -> Seq<char> {
    int_decimal(c.id as int) + "\t"@ + c.course_code@ + "\t"@ + c.name@
}

/// One `key: value` line per field, `-` for a missing date or view, and the
/// URL last.
pub open spec fn course_detail(c: Course) -> Seq<char> {
    "id: "@ + int_decimal(c.id as int) + "\n"@ + "name: "@ + c.name@ + "\n"@ + "course_code: "@
        + c.course_code@ + "\n"@ + "workflow_state: "@ + c.workflow_state@ + "\n"@
        + "default_view: "@ + or_text(c.default_view, "-"@) + "\n"@ + "start_at: "@ + or_text(
        c.start_at,
        "-"@,
    ) + "\n"@ + "end_at: "@ + or_text(c.end_at, "-"@) + "\n"@ + "url: "@ + c.html_url@
}

impl Resource for Course {
    open spec fn row_text(&self) -> Seq<char> {
        course_row(*self)
    }

    open spec fn detail_text(&self) -> Seq<char> {
        course_detail(*self)
    }

    fn fmt_row(&self) -> (s: String) {
        let mut s = String::new();
        push_int(&mut s, self.id);
        push_str(&mut s, "\t");
        push_str(&mut s, self.course_code.as_str());
        push_str(&mut s, "\t");
        push_str(&mut s, self.name.as_str());
        assert(s@ =~= course_row(*self));
        s
    }

    fn fmt_detail(&self) -> (s: String) {
        let mut s = "id: ".to_owned();
        push_int(&mut s, self.id);
        push_str(&mut s, "\n");
        push_str(&mut s, "name: ");
        push_str(&mut s, self.name.as_str());
        push_str(&mut s, "\n");
        push_str(&mut s, "course_code: ");
        push_str(&mut s, self.course_code.as_str());
        push_str(&mut s, "\n");
        push_str(&mut s, "workflow_state: ");
        push_str(&mut s, self.workflow_state.as_str());
        push_str(&mut s, "\n");
        push_str(&mut s, "default_view: ");
        push_or(&mut s, &self.default_view, "-");
        push_str(&mut s, "\n");
        push_str(&mut s, "start_at: ");
        push_or(&mut s, &self.start_at, "-");
        push_str(&mut s, "\n");
        push_str(&mut s, "end_at: ");
        push_or(&mut s, &self.end_at, "-");
        push_str(&mut s, "\n");
        push_str(&mut s, "url: ");
        push_str(&mut s, self.html_url.as_str());
        assert(s@ =~= course_detail(*self));
        s
    }
}

/// `/courses/{id}`.
pub open spec fn course_path(id: Seq<char>) -> Seq<char> {
    "/courses/"@ + id
}

fn course_path_u64(id: u64) -> (r: String)
    ensures
        r@ == course_path(decimal(id as nat)),
{
    let mut r = "/courses/".to_owned();
    push_decimal(&mut r, id);
    r
}

fn course_path_i64(id: i64) -> (r: String)
    ensures
        r@ == course_path(int_decimal(id as int)),
{
    let mut r = "/courses/".to_owned();
    push_int(&mut r, id);
    r
}

/// Finds a course by its ID.
pub struct CourseLocator {
    pub id: u64,
}

impl Locator<Course, CanvasClient> for CourseLocator {
    open spec fn needs_fetch(&self) -> bool {
        true
    }

    open spec fn web_url_of(&self, client: &CanvasClient) -> Seq<char> {
        web_url_of(client.domain@, course_path(decimal(self.id as nat)))
    }

    fn fetch_request(&self, client: &CanvasClient) -> (r: Option<ApiRequest>)
        ensures
            r matches Some(q) && q.url@ == api_url_of(client.domain@, course_path(decimal(self.id as nat)))
                && q.authorization@ == bearer_of(client.access_token@) && q.query@.len() == 0,
    {
        let path = course_path_u64(self.id);
        let none: Query = Vec::new();
        let q = client.get(path.as_str(), &none);
        assert(query_view(q.query@).len() == 0);
        Some(q)
    }

    fn resolve(self, client: &CanvasClient, fetched: Option<Course>) -> (r: Course)
        ensures
            fetched matches Some(c) && same_course(r, c) && r.html_url@ == web_url_of(
                client.domain@,
                course_path(decimal(self.id as nat)),
            ),
    {
        let mut course = fetched.unwrap();
        let path = course_path_u64(self.id);
        course.html_url = client.web_url(path.as_str());
        course
    }

    fn web_url(&self, client: &CanvasClient) -> (r: String) {
        let path = course_path_u64(self.id);
        client.web_url(path.as_str())
    }
}

/// The two courses agree on everything Canvas reported (all but the URL).
pub open spec fn same_course(a: Course, b: Course) -> bool {
    &&& a.id == b.id
    &&& a.name@ == b.name@
    &&& a.course_code@ == b.course_code@
    &&& a.workflow_state@ == b.workflow_state@
    &&& a.default_view == b.default_view
    &&& a.start_at == b.start_at
    &&& a.end_at == b.end_at
}

/// Listing courses takes no arguments.
pub struct ListArgs;

/// Viewing a course takes its ID.
pub struct ViewArgs {
    pub id: u64,
}

impl ViewArgs {
    pub fn new(id: u64) -> (r: Self)
        ensures
            r.id == id,
    {
        ViewArgs { id }
    }
}

/// Courses: all of the user's, and one by ID.
pub struct CourseSpec;

impl ResourceSpec<Course> for CourseSpec {
    type Client = CanvasClient;
    type ListArgs = ListArgs;
    type ViewArgs = ViewArgs;
    type ListedLocator = Loaded<CourseLocator, Course>;
    type ViewLocator = CourseLocator;

    open spec fn located(args: ViewArgs) -> CourseLocator {
        CourseLocator { id: args.id }
    }

    fn list_request(client: &CanvasClient, args: &ListArgs) -> (r: ApiRequest)
        ensures
            r.url@ == api_url_of(client.domain@, "/courses"@),
            r.authorization@ == bearer_of(client.access_token@),
            query_view(r.query@) == seq![("per_page"@, "100"@)],
    {
        let none: Query = Vec::new();
        let r = client.first_page("/courses", &none);
        assert(query_view(r.query@) =~= seq![("per_page"@, "100"@)] + query_view(none@));
        r
    }

    /// Every course fetched, in order, each with its URL filled in.
    fn list(client: &CanvasClient, args: ListArgs, fetched: Vec<Course>) -> (r: Vec<
        Loaded<CourseLocator, Course>,
    >)
        ensures
            r.len() == fetched.len(),
            forall|i: int|
                0 <= i < r.len() ==> {
                    let c = #[trigger] r[i].resource_of();
                    &&& same_course(c, fetched[i])
                    &&& c.html_url@ == web_url_of(
                        client.domain@,
                        course_path(int_decimal(fetched[i].id as int)),
                    )
                    &&& r[i].locator_of().id == fetched[i].id as u64
                },
    {
        let ghost all = fetched@;
        let mut r: Vec<Loaded<CourseLocator, Course>> = Vec::new();
        for course in it: fetched.into_iter()
            invariant
                it.seq() == all,
                r.len() == it.index(),
                forall|j: int|
                    0 <= j < r.len() ==> {
                        let c = #[trigger] r[j].resource_of();
                        &&& same_course(c, all[j])
                        &&& c.html_url@ == web_url_of(
                            client.domain@,
                            course_path(int_decimal(all[j].id as int)),
                        )
                        &&& r[j].locator_of().id == all[j].id as u64
                    },
        {
            let mut course = course;
            let locator = CourseLocator { id: course.id as u64 };
            let path = course_path_i64(course.id);
            course.html_url = client.web_url(path.as_str());
            r.push(Loaded::new(locator, course));
        }
        r
    }

    fn locate(args: ViewArgs) -> (r: CourseLocator) {
        CourseLocator { id: args.id }
    }
}

pub type Manager = ResourceManager<CourseSpec, Course>;

} // verus!

verus! {

/// A course's detail shows its workflow state, its default view, its start
/// date, its end date and its URL on consecutive labelled lines, in that
/// order, each with the course's own value; `-` stands only for a view or
/// date that is unset.
pub proof fn lemma_detail_lines(c: Course)
    ensures
        has_text(
            c.detail_text(),
            "\n"@ + "workflow_state: "@ + c.workflow_state@ + "\n"@ + "default_view: "@
                + match c.default_view {
                Some(v) => v@,
                None => "-"@,
            } + "\n"@ + "start_at: "@ + match c.start_at {
                Some(d) => d@,
                None => "-"@,
            } + "\n"@ + "end_at: "@ + match c.end_at {
                Some(d) => d@,
                None => "-"@,
            } + "\n"@ + "url: "@ + c.html_url@,
        ),
{
    let pre = "id: "@ + int_decimal(c.id as int) + "\n"@ + "name: "@ + c.name@ + "\n"@
        + "course_code: "@ + c.course_code@;
    let mid = "\n"@ + "workflow_state: "@ + c.workflow_state@ + "\n"@ + "default_view: "@
        + or_text(c.default_view, "-"@) + "\n"@ + "start_at: "@ + or_text(c.start_at, "-"@) + "\n"@
        + "end_at: "@ + or_text(c.end_at, "-"@) + "\n"@ + "url: "@ + c.html_url@;
    assert(c.detail_text() =~= pre + mid + Seq::empty());
    lemma_has_middle(pre, mid, Seq::empty());
}

} // verus!

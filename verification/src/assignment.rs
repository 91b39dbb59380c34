use vstd::prelude::*;

use crate::announcement::{lock_state, push_lock_state};
use crate::client::{api_url_of, bearer_of, query_view, web_url_of, ApiRequest, CanvasClient, Query};
use crate::resource::{Loaded, Locator, Resource, ResourceManager, ResourceSpec};
use crate::text::{
    bool_text, decimal, has_text, int_decimal, join, lemma_has_middle, lemma_has_text_grows, or_text, push_bool, push_decimal, push_int, push_joined,
    push_or, push_str,
};

verus! {

/// The user's submission for an assignment.
pub struct Submission {
    pub workflow_state: String,
    pub submitted_at: Option<String>,
}

/// An assignment, as Canvas describes it. `points_possible` holds the
/// text of Canvas's (floating-point) points value, as `{}` prints it.
pub struct Assignment {
    pub id: i64,
    pub name: String,
    pub description: Option<String>,
    pub due_at: Option<String>,
    pub lock_at: Option<String>,
    pub unlock_at: Option<String>,
    pub points_possible: Option<String>,
    pub grading_type: String,
    pub submission_types: Vec<String>,
    pub allowed_attempts: Option<i64>,
    pub published: bool,
    pub locked_for_user: bool,
    pub lock_explanation: Option<String>,
    pub html_url: String,
    pub submission: Option<Submission>,
}

/// `id\tdue_at\tlock_state\tpoints_possible\tname`.
pub open spec fn assignment_row(a: Assignment) -> Seq<char> {
    int_decimal(a.id as int) + "\t"@ + or_text(a.due_at, "no due date"@) + "\t"@ + lock_state(
        a.locked_for_user,
    ) + "\t"@ + or_text(a.points_possible, "-"@) + "\t"@ + a.name@
}

/// `unlimited` for -1, the number otherwise, `-` if unknown.
pub open spec fn attempts_text(a: Option<i64>) -> Seq<char> {
    match a {
        None => "-"@,
        Some(n) => if n == -1 {
            "unlimited"@
        } else {
            int_decimal(n as int)
        },
    }
}

/// The submission state and time, or `unsubmitted`.
pub open spec fn submission_text(s: Option<Submission>) -> Seq<char> {
    match s {
        Some(sub) => "submission_state: "@ + sub.workflow_state@ + "\n"@ + "submitted_at: "@
            + or_text(sub.submitted_at, "-"@),
        None => "submission_state: unsubmitted"@,
    }
}

/// One `key: value` line per field (the lock explanation only if there is
/// one), the submission, then the description if there is one.
pub open spec fn assignment_detail(a: Assignment) -> Seq<char> {
    "id: "@ + int_decimal(a.id as int) + "\n"@ + "name: "@ + a.name@ + "\n"@ + "published: "@
        + bool_text(a.published) + "\n"@ + "lock_state: "@ + lock_state(a.locked_for_user) + "\n"@
        + match a.lock_explanation {
        Some(e) => "lock_explanation: "@ + e@ + "\n"@,
        None => Seq::empty(),
    } + "due_at: "@ + or_text(a.due_at, "-"@) + "\n"@ + "lock_at: "@ + or_text(a.lock_at, "-"@)
        + "\n"@ + "unlock_at: "@ + or_text(a.unlock_at, "-"@) + "\n"@ + "points_possible: "@
        + or_text(a.points_possible, "-"@) + "\n"@ + "grading_type: "@ + a.grading_type@ + "\n"@
        + "submission_types: "@ + join(a.submission_types@.map_values(|p: String| p@), ", "@)
        + "\n"@ + "allowed_attempts: "@ + attempts_text(a.allowed_attempts) + "\n"@ + "url: "@
        + a.html_url@ + "\n"@ + submission_text(a.submission) + match a.description {
        Some(d) => "\n\ndescription:\n"@ + d@,
        None => Seq::empty(),
    }
}

impl Resource for Assignment {
    open spec fn row_text(&self) -> Seq<char> {
        assignment_row(*self)
    }

    open spec fn detail_text(&self) -> Seq<char> {
        assignment_detail(*self)
    }

    fn fmt_row(&self) -> (s: String) {
        let mut s = String::new();
        push_int(&mut s, self.id);
        push_str(&mut s, "\t");
        push_or(&mut s, &self.due_at, "no due date");
        push_str(&mut s, "\t");
        push_lock_state(&mut s, self.locked_for_user);
        push_str(&mut s, "\t");
        push_or(&mut s, &self.points_possible, "-");
        push_str(&mut s, "\t");
        push_str(&mut s, self.name.as_str());
        assert(s@ =~= assignment_row(*self));
        s
    }

    fn fmt_detail(&self) -> (s: String) {
        let mut s = "id: ".to_owned();
        push_int(&mut s, self.id);
        push_str(&mut s, "\n");
        push_str(&mut s, "name: ");
        push_str(&mut s, self.name.as_str());
        push_str(&mut s, "\n");
        push_str(&mut s, "published: ");
        push_bool(&mut s, self.published);
        push_str(&mut s, "\n");
        push_str(&mut s, "lock_state: ");
        push_lock_state(&mut s, self.locked_for_user);
        push_str(&mut s, "\n");
        let ghost b1 = s@;
        match &self.lock_explanation {
            Some(e) => {
                push_str(&mut s, "lock_explanation: ");
                push_str(&mut s, e.as_str());
                push_str(&mut s, "\n");
            },
            None => {},
        }
        assert(s@ =~= b1 + match self.lock_explanation {
            Some(e) => "lock_explanation: "@ + e@ + "\n"@,
            None => Seq::empty(),
        });
        push_str(&mut s, "due_at: ");
        push_or(&mut s, &self.due_at, "-");
        push_str(&mut s, "\n");
        push_str(&mut s, "lock_at: ");
        push_or(&mut s, &self.lock_at, "-");
        push_str(&mut s, "\n");
        push_str(&mut s, "unlock_at: ");
        push_or(&mut s, &self.unlock_at, "-");
        push_str(&mut s, "\n");
        push_str(&mut s, "points_possible: ");
        push_or(&mut s, &self.points_possible, "-");
        push_str(&mut s, "\n");
        push_str(&mut s, "grading_type: ");
        push_str(&mut s, self.grading_type.as_str());
        push_str(&mut s, "\n");
        push_str(&mut s, "submission_types: ");
        push_joined(&mut s, &self.submission_types, ", ");
        push_str(&mut s, "\n");
        push_str(&mut s, "allowed_attempts: ");
        let ghost b2 = s@;
        match self.allowed_attempts {
            None => push_str(&mut s, "-"),
            Some(n) => {
                if n == -1 {
                    push_str(&mut s, "unlimited");
                } else {
                    push_int(&mut s, n);
                }
            },
        }
        assert(s@ =~= b2 + attempts_text(self.allowed_attempts));
        push_str(&mut s, "\n");
        push_str(&mut s, "url: ");
        push_str(&mut s, self.html_url.as_str());
        push_str(&mut s, "\n");
        let ghost b3 = s@;
        match &self.submission {
            Some(sub) => {
                push_str(&mut s, "submission_state: ");
                push_str(&mut s, sub.workflow_state.as_str());
                push_str(&mut s, "\n");
                push_str(&mut s, "submitted_at: ");
                push_or(&mut s, &sub.submitted_at, "-");
            },
            None => push_str(&mut s, "submission_state: unsubmitted"),
        }
        assert(s@ =~= b3 + submission_text(self.submission));
        let ghost b4 = s@;
        match &self.description {
            Some(d) => {
                push_str(&mut s, "\n\ndescription:\n");
                push_str(&mut s, d.as_str());
            },
            None => {},
        }
        assert(s@ =~= b4 + match self.description {
            Some(d) => "\n\ndescription:\n"@ + d@,
            None => Seq::empty(),
        });
        assert(s@ =~= assignment_detail(*self));
        s
    }
}

/// `/courses/{course_id}/assignments`.
pub open spec fn assignments_path(course_id: u64) -> Seq<char> {
    "/courses/"@ + decimal(course_id as nat) + "/assignments"@
}

/// `/courses/{course_id}/assignments/{assignment_id}`.
pub open spec fn assignment_path(course_id: u64, assignment_id: u64) -> Seq<char> {
    assignments_path(course_id) + "/"@ + decimal(assignment_id as nat)
}

fn assignments_path_exec(course_id: u64) -> (r: String)
    ensures
        r@ == assignments_path(course_id),
{
    let mut r = "/courses/".to_owned();
    push_decimal(&mut r, course_id);
    push_str(&mut r, "/assignments");
    r
}

/// `include[]=submission`, so that Canvas reports the user's submission.
pub open spec fn include_submission() -> Seq<(Seq<char>, Seq<char>)> {
    seq![("include[]"@, "submission"@)]
}

fn include_submission_query() -> (q: Query)
    ensures
        query_view(q@) == include_submission(),
{
    let mut q: Query = Vec::new();
    q.push(("include[]".to_owned(), "submission".to_owned()));
    assert(query_view(q@) =~= include_submission());
    q
}

/// Finds an assignment by course and ID.
pub struct AssignmentLocator {
    pub course_id: u64,
    pub assignment_id: u64,
}

impl AssignmentLocator {
    pub fn path(&self) -> (r: String)
        ensures
            r@ == assignment_path(self.course_id, self.assignment_id),
    {
        let mut r = assignments_path_exec(self.course_id);
        push_str(&mut r, "/");
        push_decimal(&mut r, self.assignment_id);
        r
    }
}

impl Locator<Assignment, CanvasClient> for AssignmentLocator {
    open spec fn needs_fetch(&self) -> bool {
        true
    }

    open spec fn web_url_of(&self, client: &CanvasClient) -> Seq<char> {
        web_url_of(client.domain@, assignment_path(self.course_id, self.assignment_id))
    }

    fn fetch_request(&self, client: &CanvasClient) -> (r: Option<ApiRequest>)
        ensures
            r matches Some(q) && q.url@ == api_url_of(
                client.domain@,
                assignment_path(self.course_id, self.assignment_id),
            ) && q.authorization@ == bearer_of(client.access_token@) && query_view(q.query@)
                == include_submission(),
    {
        let path = self.path();
        let q = client.get(path.as_str(), &include_submission_query());
        Some(q)
    }

    fn resolve(self, client: &CanvasClient, fetched: Option<Assignment>) -> (r: Assignment)
        ensures
            fetched == Some(r),
    {
        fetched.unwrap()
    }

    fn web_url(&self, client: &CanvasClient) -> (r: String) {
        let path = self.path();
        client.web_url(path.as_str())
    }
}

/// Listing assignments takes the course.
pub struct ListArgs {
    pub course_id: u64,
}

impl ListArgs {
    pub fn new(course_id: u64) -> (r: Self)
        ensures
            r.course_id == course_id,
    {
        ListArgs { course_id }
    }
}

/// Viewing an assignment takes the course and its ID.
pub struct ViewArgs {
    pub course_id: u64,
    pub assignment_id: u64,
}

impl ViewArgs {
    pub fn new(course_id: u64, assignment_id: u64) -> (r: Self)
        ensures
            r.course_id == course_id,
            r.assignment_id == assignment_id,
    {
        ViewArgs { course_id, assignment_id }
    }
}

/// The published assignments, in order.
pub open spec fn published_only(s: Seq<Assignment>) -> Seq<Assignment>
    decreases s.len(),
{
    if s.len() == 0 {
        Seq::empty()
    } else if s.last().published {
        published_only(s.drop_last()).push(s.last())
    } else {
        published_only(s.drop_last())
    }
}

/// Assignments of a course: the published ones, and one by ID.
pub struct AssignmentSpec;

impl ResourceSpec<Assignment> for AssignmentSpec {
    type Client = CanvasClient;
    type ListArgs = ListArgs;
    type ViewArgs = ViewArgs;
    type ListedLocator = Loaded<AssignmentLocator, Assignment>;
    type ViewLocator = AssignmentLocator;

    open spec fn located(args: ViewArgs) -> AssignmentLocator {
        AssignmentLocator { course_id: args.course_id, assignment_id: args.assignment_id }
    }

    fn list_request(client: &CanvasClient, args: &ListArgs) -> (r: ApiRequest)
        ensures
            r.url@ == api_url_of(client.domain@, assignments_path(args.course_id)),
            r.authorization@ == bearer_of(client.access_token@),
            query_view(r.query@) == seq![("per_page"@, "100"@)] + include_submission(),
    {
        let path = assignments_path_exec(args.course_id);
        client.first_page(path.as_str(), &include_submission_query())
    }

    /// The published assignments fetched, in order, each located in the
    /// course.
    fn list(client: &CanvasClient, args: ListArgs, fetched: Vec<Assignment>) -> (r: Vec<
        Loaded<AssignmentLocator, Assignment>,
    >)
        ensures
            r.len() == published_only(fetched@).len(),
            forall|i: int|
                0 <= i < r.len() ==> #[trigger] r[i].resource_of() == published_only(fetched@)[i]
                    && r[i].locator_of().course_id == args.course_id
                    && r[i].locator_of().assignment_id == published_only(fetched@)[i].id as u64,
    {
        let ghost all = fetched@;
        let mut r: Vec<Loaded<AssignmentLocator, Assignment>> = Vec::new();
        for a in it: fetched.into_iter()
            invariant
                it.seq() == all,
                r.len() == published_only(all.take(it.index() as int)).len(),
                forall|i: int|
                    0 <= i < r.len() ==> #[trigger] r[i].resource_of() == published_only(
                        all.take(it.index() as int),
                    )[i] && r[i].locator_of().course_id == args.course_id
                        && r[i].locator_of().assignment_id == published_only(
                        all.take(it.index() as int),
                    )[i].id as u64,
        {
            let ghost k = it.index() as int;
            proof {
                assert(all.take(k + 1).drop_last() =~= all.take(k));
                assert(all.take(k + 1).last() == a);
            }
            if a.published {
                let locator = AssignmentLocator {
                    course_id: args.course_id,
                    assignment_id: a.id as u64,
                };
                r.push(Loaded::new(locator, a));
            }
        }
        assert(all.take(all.len() as int) =~= all);
        r
    }

    fn locate(args: ViewArgs) -> (r: AssignmentLocator) {
        AssignmentLocator { course_id: args.course_id, assignment_id: args.assignment_id }
    }
}

pub type Manager = ResourceManager<AssignmentSpec, Assignment>;

} // verus!

verus! {

/// A listing holds exactly the published items: each one kept is
/// published, and each published one is kept.
pub proof fn lemma_listing_is_the_published_ones(s: Seq<Assignment>)
    ensures
        forall|i: int| 0 <= i < published_only(s).len() ==> #[trigger] published_only(s)[i].published,
        forall|j: int| 0 <= j < s.len() && #[trigger] s[j].published ==> published_only(s).contains(s[j]),
    decreases s.len(),
{
    if s.len() > 0 {
        let init = s.drop_last();
        lemma_listing_is_the_published_ones(init);
        let p = published_only(s);
        let q = published_only(init);
        assert forall|j: int| 0 <= j < s.len() && #[trigger] s[j].published implies p.contains(s[j]) by {
            if j < s.len() - 1 {
                assert(init[j] == s[j]);
                assert(q.contains(init[j]));
                let k = choose|k: int| 0 <= k < q.len() && q[k] == init[j];
                assert(p[k] == q[k]);
            } else {
                assert(p[p.len() - 1] == s.last());
            }
        }
    }
}

/// An assignment's row begins with its ID, its due date (`no due date` if
/// it has none) and its lock state, each followed by a tab: the lock state
/// is `locked` when the assignment is locked for the user and `unlocked`
/// otherwise.
pub proof fn lemma_row_lock_state(a: Assignment)
    ensures
        ({
            let head = int_decimal(a.id as int) + "\t"@ + match a.due_at {
                Some(d) => d@,
                None => "no due date"@,
            } + "\t"@ + (if a.locked_for_user {
                "locked"@
            } else {
                "unlocked"@
            }) + "\t"@;
            a.row_text().take(head.len() as int) == head
        }),
{
    let head = int_decimal(a.id as int) + "\t"@ + or_text(a.due_at, "no due date"@) + "\t"@
        + lock_state(a.locked_for_user) + "\t"@;
    let tail = or_text(a.points_possible, "-"@) + "\t"@ + a.name@;
    assert(a.row_text() =~= head + tail);
    assert((head + tail).take(head.len() as int) =~= head);
}

/// Whether an assignment is published does not show in its row.
pub proof fn lemma_row_ignores_published(a: Assignment, published: bool)
    ensures
        (Assignment { published, ..a }).row_text() == a.row_text(),
{
}

/// An assignment's detail has a line `published: true` or `published:
/// false`, as the assignment is published or not, and below it a line
/// `lock_state: locked` when the assignment is locked for the user and
/// `lock_state: unlocked` otherwise: each line follows its own field.
pub proof fn lemma_detail_lock_state(a: Assignment)
    ensures
        has_text(
            a.detail_text(),
            "\n"@ + "published: "@ + (if a.published {
                "true"@
            } else {
                "false"@
            }) + "\n"@ + "lock_state: "@ + (if a.locked_for_user {
                "locked"@
            } else {
                "unlocked"@
            }) + "\n"@,
        ),
{
    let pre = "id: "@ + int_decimal(a.id as int) + "\n"@ + "name: "@ + a.name@;
    let shown = bool_text(a.published);
    let word = lock_state(a.locked_for_user);
    let mid = "\n"@ + "published: "@ + shown + "\n"@ + "lock_state: "@ + word + "\n"@;
    let q = "id: "@ + int_decimal(a.id as int) + "\n"@ + "name: "@ + a.name@ + "\n"@
        + "published: "@ + bool_text(a.published) + "\n"@ + "lock_state: "@ + lock_state(
        a.locked_for_user,
    ) + "\n"@;
    assert(pre + mid + Seq::empty() =~= q);
    lemma_has_middle(pre, mid, Seq::empty());
    lemma_has_text_grows(mid);
}

/// An assignment's detail shows its own lock date and then its own unlock
/// date, on consecutive lines (`-` for one that is unset).
pub proof fn lemma_detail_lock_dates(a: Assignment)
    ensures
        has_text(
            a.detail_text(),
            "\n"@ + "lock_at: "@ + match a.lock_at {
                Some(d) => d@,
                None => "-"@,
            } + "\n"@ + "unlock_at: "@ + match a.unlock_at {
                Some(d) => d@,
                None => "-"@,
            } + "\n"@,
        ),
{
    let pre = "id: "@ + int_decimal(a.id as int) + "\n"@ + "name: "@ + a.name@ + "\n"@
        + "published: "@ + bool_text(a.published) + "\n"@ + "lock_state: "@ + lock_state(
        a.locked_for_user,
    ) + "\n"@ + match a.lock_explanation {
        Some(e) => "lock_explanation: "@ + e@ + "\n"@,
        None => Seq::empty(),
    } + "due_at: "@ + or_text(a.due_at, "-"@);
    let mid = "\n"@ + "lock_at: "@ + or_text(a.lock_at, "-"@) + "\n"@ + "unlock_at: "@ + or_text(
        a.unlock_at,
        "-"@,
    ) + "\n"@;
    lemma_has_middle(pre, mid, Seq::empty());
    assert(pre + mid + Seq::empty() =~= "id: "@ + int_decimal(a.id as int) + "\n"@ + "name: "@ + a.name@ + "\n"@
        + "published: "@ + bool_text(a.published) + "\n"@ + "lock_state: "@ + lock_state(
        a.locked_for_user,
    ) + "\n"@ + match a.lock_explanation {
        Some(e) => "lock_explanation: "@ + e@ + "\n"@,
        None => Seq::empty(),
    } + "due_at: "@ + or_text(a.due_at, "-"@) + "\n"@ + "lock_at: "@ + or_text(a.lock_at, "-"@)
        + "\n"@ + "unlock_at: "@ + or_text(a.unlock_at, "-"@) + "\n"@);
    lemma_has_text_grows(mid);
}

} // verus!

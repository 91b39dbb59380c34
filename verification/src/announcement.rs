use vstd::prelude::*;

use crate::client::{api_url_of, bearer_of, query_view, web_url_of, ApiRequest, CanvasClient, Query};
use crate::resource::{Loaded, Locator, Resource, ResourceManager, ResourceSpec};
use crate::text::{
    bool_text, has_text, lemma_has_middle, lemma_has_text_grows, decimal, int_decimal, or_text, push_bool, push_decimal, push_int, push_or, push_str,
};

verus! {

/// An announcement (a discussion topic), as Canvas describes it.
pub struct Announcement {
    pub id: i64,
    pub title: String,
    pub message: Option<String>,
    pub posted_at: Option<String>,
    pub published: bool,
    pub locked_for_user: bool,
    pub lock_explanation: Option<String>,
    pub html_url: String,
}

/// `locked` or `unlocked`.
pub open spec fn lock_state(locked: bool) -> Seq<char> {
    if locked {
        "locked"@
    } else {
        "unlocked"@
    }
}

pub fn push_lock_state(s: &mut String, locked: bool)
    ensures
        final(s)@ == old(s)@ + lock_state(locked),
{
    if locked {
        push_str(s, "locked");
    } else {
        push_str(s, "unlocked");
    }
}

/// `id\tposted_at\tlock_state\ttitle`.
pub open spec fn announcement_row(a: Announcement) -> Seq<char> {
    int_decimal(a.id as int) + "\t"@ + or_text(a.posted_at, "not yet posted"@) + "\t"@ + lock_state(
        a.locked_for_user,
    ) + "\t"@ + a.title@
}

/// One `key: value` line per field (the lock explanation only if there is
/// one), the URL, then the message if there is one.
pub open spec fn announcement_detail(a: Announcement) -> Seq<char> {
    "id: "@ + int_decimal(a.id as int) + "\n"@ + "title: "@ + a.title@ + "\n"@ + "published: "@
        + bool_text(a.published) + "\n"@ + "lock_state: "@ + lock_state(a.locked_for_user) + "\n"@
        + match a.lock_explanation {
        Some(e) => "lock_explanation: "@ + e@ + "\n"@,
        None => Seq::empty(),
    } + "posted_at: "@ + or_text(a.posted_at, "not yet posted"@) + "\n"@ + "url: "@ + a.html_url@
        + match a.message {
        Some(m) => "\n\nmessage:\n"@ + m@,
        None => Seq::empty(),
    }
}

impl Resource for Announcement {
    open spec fn row_text(&self) -> Seq<char> {
        announcement_row(*self)
    }

    open spec fn detail_text(&self) -> Seq<char> {
        announcement_detail(*self)
    }

    fn fmt_row(&self) -> (s: String) {
        let mut s = String::new();
        push_int(&mut s, self.id);
        push_str(&mut s, "\t");
        push_or(&mut s, &self.posted_at, "not yet posted");
        push_str(&mut s, "\t");
        push_lock_state(&mut s, self.locked_for_user);
        push_str(&mut s, "\t");
        push_str(&mut s, self.title.as_str());
        assert(s@ =~= announcement_row(*self));
        s
    }

    fn fmt_detail(&self) -> (s: String) {
        let mut s = "id: ".to_owned();
        push_int(&mut s, self.id);
        push_str(&mut s, "\n");
        push_str(&mut s, "title: ");
        push_str(&mut s, self.title.as_str());
        push_str(&mut s, "\n");
        push_str(&mut s, "published: ");
        push_bool(&mut s, self.published);
        push_str(&mut s, "\n");
        push_str(&mut s, "lock_state: ");
        push_lock_state(&mut s, self.locked_for_user);
        push_str(&mut s, "\n");
        let ghost before = s@;
        match &self.lock_explanation {
            Some(e) => {
                push_str(&mut s, "lock_explanation: ");
                push_str(&mut s, e.as_str());
                push_str(&mut s, "\n");
            },
            None => {},
        }
        assert(s@ =~= before + match self.lock_explanation {
            Some(e) => "lock_explanation: "@ + e@ + "\n"@,
            None => Seq::empty(),
        });
        push_str(&mut s, "posted_at: ");
        push_or(&mut s, &self.posted_at, "not yet posted");
        push_str(&mut s, "\n");
        push_str(&mut s, "url: ");
        push_str(&mut s, self.html_url.as_str());
        let ghost before2 = s@;
        match &self.message {
            Some(m) => {
                push_str(&mut s, "\n\nmessage:\n");
                push_str(&mut s, m.as_str());
            },
            None => {},
        }
        assert(s@ =~= before2 + match self.message {
            Some(m) => "\n\nmessage:\n"@ + m@,
            None => Seq::empty(),
        });
        assert(s@ =~= announcement_detail(*self));
        s
    }
}

/// `/courses/{course_id}/discussion_topics/{announcement_id}`.
pub open spec fn announcement_path(course_id: u64, announcement_id: u64) -> Seq<char> {
    "/courses/"@ + decimal(course_id as nat) + "/discussion_topics/"@ + decimal(
        announcement_id as nat,
    )
}

/// Finds an announcement by course and ID.
pub struct AnnouncementLocator {
    pub course_id: u64,
    pub announcement_id: u64,
}

impl AnnouncementLocator {
    pub fn path(&self) -> (r: String)
        ensures
            r@ == announcement_path(self.course_id, self.announcement_id),
    {
        let mut r = "/courses/".to_owned();
        push_decimal(&mut r, self.course_id);
        push_str(&mut r, "/discussion_topics/");
        push_decimal(&mut r, self.announcement_id);
        r
    }
}

impl Locator<Announcement, CanvasClient> for AnnouncementLocator {
    open spec fn needs_fetch(&self) -> bool {
        true
    }

    open spec fn web_url_of(&self, client: &CanvasClient) -> Seq<char> {
        web_url_of(client.domain@, announcement_path(self.course_id, self.announcement_id))
    }

    fn fetch_request(&self, client: &CanvasClient) -> (r: Option<ApiRequest>)
        ensures
            r matches Some(q) && q.url@ == api_url_of(
                client.domain@,
                announcement_path(self.course_id, self.announcement_id),
            ) && q.authorization@ == bearer_of(client.access_token@) && q.query@.len() == 0,
    {
        let path = self.path();
        let none: Query = Vec::new();
        let q = client.get(path.as_str(), &none);
        assert(query_view(q.query@).len() == 0);
        Some(q)
    }

    fn resolve(self, client: &CanvasClient, fetched: Option<Announcement>) -> (r: Announcement)
        ensures
            fetched == Some(r),
    {
        fetched.unwrap()
    }

    fn web_url(&self, client: &CanvasClient) -> (r: String) {
        let path = self.path();
        client.web_url(path.as_str())
    }
}

/// Listing announcements takes the course.
pub struct ListArgs {
    pub course_id: u64,
}

impl ListArgs {
    pub fn new(course_id: u64) -> (r: Self)
        ensures
            r.course_id == course_id,
    {
        ListArgs { course_id }
    }
}

/// Viewing an announcement takes the course and its ID.
pub struct ViewArgs {
    pub course_id: u64,
    pub announcement_id: u64,
}

impl ViewArgs {
    pub fn new(course_id: u64, announcement_id: u64) -> (r: Self)
        ensures
            r.course_id == course_id,
            r.announcement_id == announcement_id,
    {
        ViewArgs { course_id, announcement_id }
    }
}

/// The published announcements, in order.
pub open spec fn published_only(s: Seq<Announcement>) -> Seq<Announcement>
    decreases s.len(),
{
    if s.len() == 0 {
        Seq::empty()
    } else if s.last().published {
        published_only(s.drop_last()).push(s.last())
    } else {
        published_only(s.drop_last())
    }
}

/// `course_{id}`, the context code of a course.
pub open spec fn context_code(course_id: u64) -> Seq<char> {
    "course_"@ + decimal(course_id as nat)
}

/// Announcements of a course: the published ones (Canvas's default date
/// range), and one by ID.
pub struct AnnouncementSpec;

impl ResourceSpec<Announcement> for AnnouncementSpec {
    type Client = CanvasClient;
    type ListArgs = ListArgs;
    type ViewArgs = ViewArgs;
    type ListedLocator = Loaded<AnnouncementLocator, Announcement>;
    type ViewLocator = AnnouncementLocator;

    open spec fn located(args: ViewArgs) -> AnnouncementLocator {
        AnnouncementLocator { course_id: args.course_id, announcement_id: args.announcement_id }
    }

    fn list_request(client: &CanvasClient, args: &ListArgs) -> (r: ApiRequest)
        ensures
            r.url@ == api_url_of(client.domain@, "/announcements"@),
            r.authorization@ == bearer_of(client.access_token@),
            query_view(r.query@) == seq![
                ("per_page"@, "100"@),
                ("context_codes[]"@, context_code(args.course_id)),
            ],
    {
        let mut code = "course_".to_owned();
        push_decimal(&mut code, args.course_id);
        let mut query: Query = Vec::new();
        query.push(("context_codes[]".to_owned(), code));
        let r = client.first_page("/announcements", &query);
        assert(query_view(r.query@) =~= seq![
            ("per_page"@, "100"@),
            ("context_codes[]"@, context_code(args.course_id)),
        ]);
        r
    }

    /// The published announcements fetched, in order, each located in the
    /// course.
    fn list(client: &CanvasClient, args: ListArgs, fetched: Vec<Announcement>) -> (r: Vec<
        Loaded<AnnouncementLocator, Announcement>,
    >)
        ensures
            r.len() == published_only(fetched@).len(),
            forall|i: int|
                0 <= i < r.len() ==> #[trigger] r[i].resource_of() == published_only(fetched@)[i]
                    && r[i].locator_of().course_id == args.course_id
                    && r[i].locator_of().announcement_id == published_only(fetched@)[i].id as u64,
    {
        let ghost all = fetched@;
        let mut r: Vec<Loaded<AnnouncementLocator, Announcement>> = Vec::new();
        for a in it: fetched.into_iter()
            invariant
                it.seq() == all,
                r.len() == published_only(all.take(it.index() as int)).len(),
                forall|i: int|
                    0 <= i < r.len() ==> #[trigger] r[i].resource_of() == published_only(
                        all.take(it.index() as int),
                    )[i] && r[i].locator_of().course_id == args.course_id
                        && r[i].locator_of().announcement_id == published_only(
                        all.take(it.index() as int),
                    )[i].id as u64,
        {
            let ghost k = it.index() as int;
            proof {
                assert(all.take(k + 1).drop_last() =~= all.take(k));
                assert(all.take(k + 1).last() == a);
            }
            if a.published {
                let locator = AnnouncementLocator {
                    course_id: args.course_id,
                    announcement_id: a.id as u64,
                };
                r.push(Loaded::new(locator, a));
            }
        }
        assert(all.take(all.len() as int) =~= all);
        r
    }

    fn locate(args: ViewArgs) -> (r: AnnouncementLocator) {
        AnnouncementLocator { course_id: args.course_id, announcement_id: args.announcement_id }
    }
}

pub type Manager = ResourceManager<AnnouncementSpec, Announcement>;

} // verus!

verus! {

/// A listing holds exactly the published items: each one kept is
/// published, and each published one is kept.
pub proof fn lemma_listing_is_the_published_ones(s: Seq<Announcement>)
    ensures
        forall|i: int| 0 <= i < published_only(s).len() ==> #[trigger] published_only(s)[i].published,
        forall|j: int| 0 <= j < s.len() && #[trigger] s[j].published ==> published_only(s).contains(s[j]),
    decreases s.len(),
{
    if s.len() > 0 {
        let init = s.drop_last();
        lemma_listing_is_the_published_ones(init);
        let p = published_only(s);
        let q = published_only(init);
        assert forall|j: int| 0 <= j < s.len() && #[trigger] s[j].published implies p.contains(s[j]) by {
            if j < s.len() - 1 {
                assert(init[j] == s[j]);
                assert(q.contains(init[j]));
                let k = choose|k: int| 0 <= k < q.len() && q[k] == init[j];
                assert(p[k] == q[k]);
            } else {
                assert(p[p.len() - 1] == s.last());
            }
        }
    }
}

/// An announcement's row begins with its ID, when it was posted (`not yet
/// posted` if it was not) and its lock state, each followed by a tab: the
/// lock state is `locked` when the announcement is locked for the user and
/// `unlocked` otherwise.
pub proof fn lemma_row_lock_state(a: Announcement)
    ensures
        ({
            let head = int_decimal(a.id as int) + "\t"@ + match a.posted_at {
                Some(d) => d@,
                None => "not yet posted"@,
            } + "\t"@ + (if a.locked_for_user {
                "locked"@
            } else {
                "unlocked"@
            }) + "\t"@;
            a.row_text().take(head.len() as int) == head
        }),
{
    let head = int_decimal(a.id as int) + "\t"@ + or_text(a.posted_at, "not yet posted"@) + "\t"@
        + lock_state(a.locked_for_user) + "\t"@;
    assert(a.row_text() =~= head + a.title@);
    assert((head + a.title@).take(head.len() as int) =~= head);
}

/// Whether an announcement is published does not show in its row.
pub proof fn lemma_row_ignores_published(a: Announcement, published: bool)
    ensures
        (Announcement { published, ..a }).row_text() == a.row_text(),
{
}

/// An announcement's detail has a line `published: true` or `published:
/// false`, as the announcement is published or not, and below it a line
/// `lock_state: locked` when the announcement is locked for the user and
/// `lock_state: unlocked` otherwise: each line follows its own field.
pub proof fn lemma_detail_lock_state(a: Announcement)
    ensures
        has_text(
            a.detail_text(),
            "\n"@ + "published: "@ + (if a.published {
                "true"@
            } else {
                "false"@
            }) + "\n"@ + "lock_state: "@ + (if a.locked_for_user {
                "locked"@
            } else {
                "unlocked"@
            }) + "\n"@,
        ),
{
    let pre = "id: "@ + int_decimal(a.id as int) + "\n"@ + "title: "@ + a.title@;
    let shown = bool_text(a.published);
    let word = lock_state(a.locked_for_user);
    let mid = "\n"@ + "published: "@ + shown + "\n"@ + "lock_state: "@ + word + "\n"@;
    let q = "id: "@ + int_decimal(a.id as int) + "\n"@ + "title: "@ + a.title@ + "\n"@
        + "published: "@ + bool_text(a.published) + "\n"@ + "lock_state: "@ + lock_state(
        a.locked_for_user,
    ) + "\n"@;
    assert(pre + mid + Seq::empty() =~= q);
    lemma_has_middle(pre, mid, Seq::empty());
    lemma_has_text_grows(mid);
}

} // verus!

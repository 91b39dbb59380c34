use vstd::prelude::*;

use std::marker::PhantomData;

use crate::client::ApiRequest;
use crate::text::push_str;

verus! {

/// Something Canvas serves that prints as one row in a listing and as a
/// detail block on its own.
pub trait Resource: Sized {
    /// The row text.
    spec fn row_text(&self) -> Seq<char>;

    /// The detail text.
    spec fn detail_text(&self) -> Seq<char>;

    fn fmt_row(&self) -> (s: String)
        ensures
            s@ == self.row_text(),
    ;

    fn fmt_detail(&self) -> (s: String)
        ensures
            s@ == self.detail_text(),
    ;

    fn row(&self) -> (r: Row<'_, Self>)
        ensures
            *r.0 == *self,
    {
        Row(self)
    }

    fn detail(&self) -> (r: Detail<'_, Self>)
        ensures
            *r.0 == *self,
    {
        Detail(self)
    }
}

/// A resource shown as a row.
pub struct Row<'a, R: Resource>(pub &'a R);

/// A resource shown in detail.
pub struct Detail<'a, R: Resource>(pub &'a R);

impl<'a, R: Resource> Row<'a, R> {
    /// The row text.
    pub fn to_string(&self) -> (s: String)
        ensures
            s@ == self.0.row_text(),
    {
        self.0.fmt_row()
    }
}

impl<'a, R: Resource> Detail<'a, R> {
    /// The detail text.
    pub fn to_string(&self) -> (s: String)
        ensures
            s@ == self.0.detail_text(),
    {
        self.0.fmt_detail()
    }
}

/// Finds one resource: what to fetch for it, how to finish it from what was
/// fetched, and its browser URL.
pub trait Locator<R: Resource, C>: Sized {
    /// Whether resolving needs a fetch.
    spec fn needs_fetch(&self) -> bool;

    /// The browser URL, for a client.
    spec fn web_url_of(&self, client: &C) -> Seq<char>;

    /// The request to fetch the resource, if one is needed.
    fn fetch_request(&self, client: &C) -> (r: Option<ApiRequest>)
        ensures
            r is Some == self.needs_fetch(),
    ;

    /// The resource, finished from what was fetched (`fetched` is the
    /// fetched resource exactly when a fetch was needed).
    fn resolve(self, client: &C, fetched: Option<R>) -> R
        requires
            fetched is Some == self.needs_fetch(),
    ;

    /// The resource's page in a browser.
    fn web_url(&self, client: &C) -> (r: String)
        ensures
            r@ == self.web_url_of(client),
    ;
}

/// A locator together with the resource it already found (as listings
/// produce them): resolving hands the resource back without a fetch.
pub struct Loaded<L, R> {
    locator: L,
    resource: R,
}

impl<L, R> Loaded<L, R> {
    pub closed spec fn locator_of(&self) -> L {
        self.locator
    }

    pub closed spec fn resource_of(&self) -> R {
        self.resource
    }

    pub fn new(locator: L, resource: R) -> (r: Self)
        ensures
            r.locator_of() == locator,
            r.resource_of() == resource,
    {
        Loaded { locator, resource }
    }

    /// The resource found.
    pub fn resource(&self) -> (r: &R)
        ensures
            *r == self.resource_of(),
    {
        &self.resource
    }
}

impl<L: Locator<R, C>, R: Resource, C> Locator<R, C> for Loaded<L, R> {
    open spec fn needs_fetch(&self) -> bool {
        false
    }

    open spec fn web_url_of(&self, client: &C) -> Seq<char> {
        self.locator_of().web_url_of(client)
    }

    fn fetch_request(&self, client: &C) -> (r: Option<ApiRequest>) {
        None
    }

    fn resolve(self, client: &C, fetched: Option<R>) -> (r: R)
        ensures
            r == self.resource_of(),
    {
        self.resource
    }

    fn web_url(&self, client: &C) -> (r: String) {
        self.locator.web_url(client)
    }
}

/// Where `view` shows a resource.
#[derive(Clone, Copy, Debug, PartialEq, Eq)]
pub enum ViewTarget {
    Terminal,
    Web,
}

impl From<bool> for ViewTarget {
    fn from(web: bool) -> (r: Self) {
        if web {
            ViewTarget::Web
        } else {
            ViewTarget::Terminal
        }
    }
}

impl vstd::std_specs::convert::FromSpecImpl<bool> for ViewTarget {
    open spec fn obeys_from_spec() -> bool {
        true
    }

    open spec fn from_spec(web: bool) -> ViewTarget {
        if web {
            ViewTarget::Web
        } else {
            ViewTarget::Terminal
        }
    }
}

} // verus!

verus! {

/// A client that can be made for a profile from its session.
pub trait ClientFactory: Sized {
    /// The client was made for this profile, domain and token.
    spec fn made_for(&self, profile: Seq<char>, domain: Seq<char>, token: Seq<char>) -> bool;

    fn connect(profile: String, session: crate::auth::Session) -> (c: Self)
        ensures
            c.made_for(profile@, session.domain@, session.access_token@),
    ;
}

/// A kind of resource: how to list it and how to locate one for viewing.
pub trait ResourceSpec<R: Resource> {
    type Client: ClientFactory;
    type ListArgs;
    type ViewArgs;
    type ListedLocator: Locator<R, Self::Client>;
    type ViewLocator: Locator<R, Self::Client>;

    /// The locator `locate` makes from view arguments.
    spec fn located(args: Self::ViewArgs) -> Self::ViewLocator;

    /// The collection request whose pages a listing fetches.
    fn list_request(client: &Self::Client, args: &Self::ListArgs) -> ApiRequest;

    /// The listing, from every item of the fetched collection.
    fn list(client: &Self::Client, args: Self::ListArgs, fetched: Vec<R>) -> Vec<Self::ListedLocator>;

    fn locate(args: Self::ViewArgs) -> (r: Self::ViewLocator)
        ensures
            r == Self::located(args),
    ;
}

/// How `view` shows a resource.
pub enum ViewPlan<L> {
    /// Resolve this locator and print the resource in detail.
    Show(L),
    /// Print `notice` and open `url` in the browser.
    Open { url: String, notice: String },
}

/// `Opening {url} in your browser...`.
pub open spec fn opening_notice(url: Seq<char>) -> Seq<char> {
    "Opening "@ + url + " in your browser..."@
}

pub fn opening(url: &str) -> (r: String)
    ensures
        r@ == opening_notice(url@),
{
    let mut r = "Opening ".to_owned();
    push_str(&mut r, url);
    push_str(&mut r, " in your browser...");
    r
}

/// Lists and views one kind of resource through a connected client.
pub struct ResourceManager<S, R> where R: Resource, S: ResourceSpec<R> {
    client: S::Client,
    marker: PhantomData<(S, R)>,
}

impl<S, R> ResourceManager<S, R> where R: Resource, S: ResourceSpec<R> {
    pub closed spec fn client_of(&self) -> S::Client {
        self.client
    }

    /// A manager whose client is connected for `profile` with its session.
    pub fn connect(profile: String, session: crate::auth::Session) -> (r: Self)
        ensures
            r.client_of().made_for(profile@, session.domain@, session.access_token@),
    {
        ResourceManager { client: S::Client::connect(profile, session), marker: PhantomData }
    }

    pub fn client(&self) -> (r: &S::Client)
        ensures
            *r == self.client_of(),
    {
        &self.client
    }

    /// The lines a listing prints: one row per resource, in order.
    pub fn list(&self, resources: &Vec<R>) -> (r: Vec<String>)
        ensures
            r.len() == resources.len(),
            forall|i: int| 0 <= i < r.len() ==> #[trigger] r[i]@ == resources[i].row_text(),
    {
        let mut r: Vec<String> = Vec::new();
        let mut i: usize = 0;
        while i < resources.len()
            invariant
                i <= resources.len(),
                r.len() == i,
                forall|j: int| 0 <= j < i ==> #[trigger] r[j]@ == resources[j].row_text(),
            decreases resources.len() - i,
        {
            r.push(resources[i].row().to_string());
            i = i + 1;
        }
        r
    }

    /// How to view the resource the arguments locate: in detail on the
    /// terminal, or by opening its page in the browser.
    pub fn view(&self, args: S::ViewArgs, target: ViewTarget) -> (r: ViewPlan<S::ViewLocator>)
        ensures
            match target {
                ViewTarget::Terminal => r matches ViewPlan::Show(l) && l == S::located(args),
                ViewTarget::Web => r matches ViewPlan::Open { url, notice } && url@
                    == S::located(args).web_url_of(&self.client_of()) && notice@ == opening_notice(
                    url@,
                ),
            },
    {
        let locator = S::locate(args);
        match target {
            ViewTarget::Terminal => ViewPlan::Show(locator),
            ViewTarget::Web => {
                let url = locator.web_url(&self.client);
                let notice = opening(url.as_str());
                ViewPlan::Open { url, notice }
            },
        }
    }
}

} // verus!

use vstd::prelude::*;

use crate::text::{
    chars_eq, chars_of, lemma_lt_irreflexive, lemma_lt_total, lemma_lt_transitive, less_than,
    push_str, str_lt,
};

verus! {

/// The profile names in strictly increasing order (so none occurs twice).
pub open spec fn sorted(s: Seq<Seq<char>>) -> bool {
    forall|i: int, j: int| 0 <= i < j < s.len() ==> #[trigger] str_lt(s[i], s[j])
}

/// The known profile names and which one is the default. The names are kept
/// sorted, as a set ordered by name.
pub struct ProfilesFile {
    pub default: Option<String>,
    pub profiles: Vec<String>,
}

/// A profile file as plain values: the default, and the set of names.
pub type ProfilesView = (Option<Seq<char>>, Set<Seq<char>>);

/// An optional string as plain values.
pub open spec fn name_view(o: Option<String>) -> Option<Seq<char>> {
    match o {
        Some(s) => Some(s@),
        None => None,
    }
}

impl ProfilesFile {
    /// The names, in order.
    pub open spec fn names(&self) -> Seq<Seq<char>> {
        self.profiles@.map_values(|s: String| s@)
    }

    /// The names are sorted without repetition.
    pub open spec fn wf(&self) -> bool {
        sorted(self.names())
    }
}

impl View for ProfilesFile {
    type V = ProfilesView;

    open spec fn view(&self) -> ProfilesView {
        (name_view(self.default), Set::new(|x: Seq<char>| self.names().contains(x)))
    }
}

/// `register`: the name joins the set; the default becomes the name if there
/// was none and the name is new.
pub open spec fn registered(v: ProfilesView, name: Seq<char>) -> ProfilesView {
    (
        if !v.1.contains(name) && v.0 is None {
            Some(name)
        } else {
            v.0
        },
        v.1.insert(name),
    )
}

/// `remove`: refused (`None`) for an unknown name; otherwise the name leaves
/// the set, and the default is cleared if it was the name.
pub open spec fn removed(v: ProfilesView, name: Seq<char>) -> Option<ProfilesView> {
    if !v.1.contains(name) {
        None
    } else {
        Some(
            (
                if v.0 == Some(name) {
                    None
                } else {
                    v.0
                },
                v.1.remove(name),
            ),
        )
    }
}

/// `set_default`: refused (`None`) for an unknown name; otherwise the name
/// becomes the default.
pub open spec fn defaulted(v: ProfilesView, name: Seq<char>) -> Option<ProfilesView> {
    if !v.1.contains(name) {
        None
    } else {
        Some((Some(name), v.1))
    }
}

/// `resolve`: the explicit profile if given, otherwise the default (`None`
/// if there is neither).
pub open spec fn resolved(explicit: Option<Seq<char>>, default: Option<Seq<char>>) -> Option<Seq<char>> {
    match explicit {
        Some(p) => Some(p),
        None => default,
    }
}

/// Why a profile operation was refused.
#[derive(Debug, PartialEq, Eq)]
pub enum ProfileError {
    /// No `--profile` was given and no default is set.
    NoDefault,
    /// The named profile is not known.
    NoSuchProfile { name: String },
}

proof fn lemma_sorted_distinct(s: Seq<Seq<char>>, i: int, j: int)
    requires
        sorted(s),
        0 <= i < s.len(),
        0 <= j < s.len(),
        i != j,
    ensures
        s[i] != s[j],
{
    if i < j {
        assert(str_lt(s[i], s[j]));
        if s[i] == s[j] {
            lemma_lt_irreflexive(s[i], 0);
        }
    } else {
        assert(str_lt(s[j], s[i]));
        if s[i] == s[j] {
            lemma_lt_irreflexive(s[i], 0);
        }
    }
}

proof fn lemma_insert_sorted(s: Seq<Seq<char>>, k: int, x: Seq<char>)
    requires
        sorted(s),
        0 <= k <= s.len(),
        forall|j: int| 0 <= j < k ==> str_lt(#[trigger] s[j], x),
        forall|j: int| k <= j < s.len() ==> str_lt(x, #[trigger] s[j]),
    ensures
        sorted(s.insert(k, x)),
{
    let t = s.insert(k, x);
    assert forall|i: int, j: int| 0 <= i < j < t.len() implies #[trigger] str_lt(t[i], t[j])
        by {
        if i < k && j < k {
            assert(str_lt(s[i], s[j]));
        } else if i < k && j == k {
        } else if i < k && j > k {
            assert(str_lt(s[i], s[j - 1]));
        } else if i == k {
            assert(t[j] == s[j - 1]);
        } else {
            assert(str_lt(s[i - 1], s[j - 1]));
        }
    }
}

proof fn lemma_remove_sorted(s: Seq<Seq<char>>, k: int)
    requires
        sorted(s),
        0 <= k < s.len(),
    ensures
        sorted(s.remove(k)),
{
    let t = s.remove(k);
    assert forall|i: int, j: int| 0 <= i < j < t.len() implies #[trigger] str_lt(t[i], t[j])
        by {
        let ii = if i < k { i } else { i + 1 };
        let jj = if j < k { j } else { j + 1 };
        assert(t[i] == s[ii] && t[j] == s[jj]);
        assert(str_lt(s[ii], s[jj]));
    }
}

/// Whether two strings are equal.
pub fn same_str(a: &str, b: &str) -> (r: bool)
    ensures
        r == (a@ == b@),
{
    let x = chars_of(a);
    let y = chars_of(b);
    chars_eq(&x, &y)
}

/// Whether an optional name is `Some(name)`.
fn is_name(o: &Option<String>, name: &str) -> (r: bool)
    ensures
        r == (name_view(*o) == Some(name@)),
{
    match o {
        Some(d) => same_str(d.as_str(), name),
        None => false,
    }
}

impl ProfilesFile {
    /// An empty profile file.
    pub fn new() -> (f: ProfilesFile)
        ensures
            f.wf(),
            f@.0 is None,
            f@.1 == Set::<Seq<char>>::empty(),
    {
        let f = ProfilesFile { default: None, profiles: Vec::new() };
        assert(f@.1 =~= Set::<Seq<char>>::empty());
        f
    }

    /// Where `name` stands in the sorted names: the names before `k` sort
    /// before it, and `found` says whether the name at `k` is it; if not,
    /// every name from `k` on sorts after it.
    fn find_slot(&self, name: &str) -> (r: (usize, bool))
        requires
            self.wf(),
        ensures
            r.0 <= self.profiles.len(),
            forall|j: int| 0 <= j < r.0 ==> str_lt(#[trigger] self.names()[j], name@),
            r.1 <==> (r.0 < self.profiles.len() && self.names()[r.0 as int] == name@),
            !r.1 ==> forall|j: int|
                r.0 <= j < self.names().len() ==> str_lt(name@, #[trigger] self.names()[j]),
            r.1 <==> self.names().contains(name@),
    {
        let n = self.profiles.len();
        let mut k: usize = 0;
        while k < n && less_than(self.profiles[k].as_str(), name)
            invariant
                n == self.profiles.len(),
                k <= n,
                forall|j: int| 0 <= j < k ==> str_lt(#[trigger] self.names()[j], name@),
            decreases n - k,
        {
            k = k + 1;
        }
        let found = k < n && same_str(self.profiles[k].as_str(), name);
        proof {
            let s = self.names();
            if !found {
                if k < n {
                    assert(s[k as int] == self.profiles@[k as int]@);
                    assert(s[k as int].subrange(0, 0) =~= name@.subrange(0, 0));
                    lemma_lt_total(s[k as int], name@, 0);
                    assert forall|j: int| k <= j < s.len() implies str_lt(name@, #[trigger] s[j]) by {
                        if j > k {
                            assert(str_lt(s[k as int], s[j]));
                            lemma_lt_transitive(name@, s[k as int], s[j], 0);
                        }
                    }
                }
                assert forall|j: int| 0 <= j < s.len() implies s[j] != name@ by {
                    if j < k {
                        assert(str_lt(s[j], name@));
                        if s[j] == name@ {
                            lemma_lt_irreflexive(name@, 0);
                        }
                    } else {
                        assert(str_lt(name@, s[j]));
                        if s[j] == name@ {
                            lemma_lt_irreflexive(name@, 0);
                        }
                    }
                }
            } else {
                assert(s[k as int] == name@);
            }
        }
        (k, found)
    }

    /// Whether `name` is a known profile.
    pub fn contains(&self, name: &str) -> (r: bool)
        requires
            self.wf(),
        ensures
            r == self@.1.contains(name@),
    {
        let (_, found) = self.find_slot(name);
        found
    }




    /// A profile file holding `names` (in any order, repetitions allowed)
    /// and `default`.
    pub fn from_parts(default: Option<String>, names: Vec<String>) -> (f: ProfilesFile)
        ensures
            f.wf(),
            f@.0 == name_view(default),
            f@.1 == Set::new(|x: Seq<char>| names@.map_values(|s: String| s@).contains(x)),
    {
        let mut f = ProfilesFile::new();
        let ghost all = names@.map_values(|s: String| s@);
        let mut i: usize = 0;
        while i < names.len()
            invariant
                f.wf(),
                f@.0 is None,
                i <= names.len(),
                all == names@.map_values(|s: String| s@),
                f@.1 == Set::new(|x: Seq<char>| all.take(i as int).contains(x)),
            decreases names.len() - i,
        {
            let ghost before = f@;
            register(&mut f, names[i].as_str());
            proof {
                assert(all.take(i + 1) =~= all.take(i as int).push(all[i as int]));
                assert forall|x: Seq<char>| #[trigger] all.take(i + 1).contains(x) <==> (all.take(
                    i as int,
                ).contains(x) || x == all[i as int]) by {
                    let t = all.take(i as int);
                    let t1 = all.take(i + 1);
                    if t1.contains(x) {
                        let j = choose|j: int| 0 <= j < t1.len() && t1[j] == x;
                        if j < i {
                            assert(t[j] == x);
                        }
                    }
                    if t.contains(x) {
                        let j = choose|j: int| 0 <= j < t.len() && t[j] == x;
                        assert(t1[j] == x);
                    }
                    if x == all[i as int] {
                        assert(t1[i as int] == x);
                    }
                }
                assert(f@.1 =~= Set::new(|x: Seq<char>| all.take(i + 1).contains(x)));
            }
            f.default = None;
            i = i + 1;
        }
        assert(all.take(names.len() as int) =~= all);
        f.default = default;
        f
    }
}

} // verus!

verus! {

/// The line `list` prints for one profile: `*` marks the default, then the
/// name and the domain it is logged into (`?` if unknown).
pub open spec fn list_line_of(default: Option<Seq<char>>, name: Seq<char>, domain: Option<Seq<char>>) -> Seq<char> {
    (if default == Some(name) {
        "*"@
    } else {
        " "@
    }) + " "@ + name + "\t"@ + match domain {
        Some(d) => d,
        None => "?"@,
    }
}

/// What `list` prints when there are no profiles.
pub open spec fn no_profiles_line() -> Seq<char> {
    "No profiles configured; run `paintbrush login --domain <domain>`."@
}

/// Registers `name` as a known profile, if not already present. The
/// first profile ever registered becomes the default.
pub fn register(file: &mut ProfilesFile, name: &str)
    requires
        old(file).wf(),
    ensures
        final(file).wf(),
        final(file)@ == registered(old(file)@, name@),
{
    let (k, found) = file.find_slot(name);
    if !found {
        let ghost s = file.names();
        file.profiles.insert(k, name.to_owned());
        proof {
            assert(file.names() =~= s.insert(k as int, name@));
            lemma_insert_sorted(s, k as int, name@);
        }
        if file.default.is_none() {
            file.default = Some(name.to_owned());
        }
        proof {
            let t = s.insert(k as int, name@);
            assert forall|x: Seq<char>| #[trigger] t.contains(x) <==> (s.contains(x) || x == name@) by {
                if t.contains(x) {
                    let i = choose|i: int| 0 <= i < t.len() && t[i] == x;
                    if i < k {
                        assert(s[i] == x);
                    } else if i > k {
                        assert(s[i - 1] == x);
                    }
                }
                if s.contains(x) {
                    let i = choose|i: int| 0 <= i < s.len() && s[i] == x;
                    if i < k {
                        assert(t[i] == x);
                    } else {
                        assert(t[i + 1] == x);
                    }
                }
                if x == name@ {
                    assert(t[k as int] == x);
                }
            }
        }
    }
    assert(file@.1 =~= registered(old(file)@, name@).1);
}

/// Forgets `name`, and clears the default if it was `name`; refused for
/// an unknown name, which leaves the file as it was.
pub fn remove(file: &mut ProfilesFile, name: &str) -> (r: Result<(), ProfileError>)
    requires
        old(file).wf(),
    ensures
        final(file).wf(),
        match removed(old(file)@, name@) {
            None => r matches Err(ProfileError::NoSuchProfile { name: n }) && n@ == name@
                && final(file)@ == old(file)@,
            Some(v) => r is Ok && final(file)@ == v,
        },
{
    let (k, found) = file.find_slot(name);
    if !found {
        return Err(ProfileError::NoSuchProfile { name: name.to_owned() });
    }
    let ghost s = file.names();
    let _gone = file.profiles.remove(k);
    proof {
        assert(file.names() =~= s.remove(k as int));
        lemma_remove_sorted(s, k as int);
        let t = s.remove(k as int);
        assert forall|x: Seq<char>| #[trigger] t.contains(x) <==> (s.contains(x) && x != name@) by {
            if t.contains(x) {
                let i = choose|i: int| 0 <= i < t.len() && t[i] == x;
                let ii = if i < k { i } else { i + 1 };
                assert(s[ii] == x);
                lemma_sorted_distinct(s, ii, k as int);
            }
            if s.contains(x) && x != name@ {
                let i = choose|i: int| 0 <= i < s.len() && s[i] == x;
                if i < k {
                    assert(t[i] == x);
                } else {
                    assert(i != k);
                    assert(t[i - 1] == x);
                }
            }
        }
    }
    if is_name(&file.default, name) {
        file.default = None;
    }
    assert(file@.1 =~= old(file)@.1.remove(name@));
    Ok(())
}

/// Makes `name` the default; refused for an unknown name, which leaves
/// the file as it was.
pub fn set_default(file: &mut ProfilesFile, name: &str) -> (r: Result<(), ProfileError>)
    requires
        old(file).wf(),
    ensures
        final(file).wf(),
        match defaulted(old(file)@, name@) {
            None => r matches Err(ProfileError::NoSuchProfile { name: n }) && n@ == name@
                && final(file)@ == old(file)@,
            Some(v) => r is Ok && final(file)@ == v,
        },
{
    if !file.contains(name) {
        return Err(ProfileError::NoSuchProfile { name: name.to_owned() });
    }
    file.default = Some(name.to_owned());
    Ok(())
}

/// The lines `profile list` prints, given the domain each profile (in
/// order) is logged into.
pub fn list(file: &ProfilesFile, domains: &Vec<Option<String>>) -> (r: Vec<String>)
    requires
        domains.len() == file.profiles.len(),
    ensures
        file.profiles.len() == 0 ==> r.len() == 1 && r[0]@ == no_profiles_line(),
        file.profiles.len() > 0 ==> r.len() == file.profiles.len() && forall|i: int|
            0 <= i < r.len() ==> #[trigger] r[i]@ == list_line_of(
                name_view(file.default),
                file.names()[i],
                name_view(domains[i]),
            ),
{
    let mut r: Vec<String> = Vec::new();
    if file.profiles.len() == 0 {
        r.push("No profiles configured; run `paintbrush login --domain <domain>`.".to_owned());
        return r;
    }
    let mut i: usize = 0;
    while i < file.profiles.len()
        invariant
            domains.len() == file.profiles.len(),
            i <= file.profiles.len(),
            r.len() == i,
            forall|j: int|
                0 <= j < i ==> #[trigger] r[j]@ == list_line_of(
                    name_view(file.default),
                    file.names()[j],
                    name_view(domains[j]),
                ),
        decreases file.profiles.len() - i,
    {
        let name = file.profiles[i].as_str();
        let mut line = if is_name(&file.default, name) {
            "*".to_owned()
        } else {
            " ".to_owned()
        };
        push_str(&mut line, " ");
        push_str(&mut line, name);
        push_str(&mut line, "\t");
        match &domains[i] {
            Some(d) => push_str(&mut line, d.as_str()),
            None => push_str(&mut line, "?"),
        }
        assert(line@ =~= list_line_of(
            name_view(file.default),
            file.names()[i as int],
            name_view(domains[i as int]),
        ));
        r.push(line);
        i = i + 1;
    }
    r
}

/// Resolves the profile to use for a command: `explicit` if given
/// (`--profile`), otherwise the configured default.
pub fn resolve(explicit: Option<&str>, default: Option<String>) -> (r: Result<String, ProfileError>)
    ensures
        match resolved(
            match explicit {
                Some(p) => Some(p@),
                None => None,
            },
            name_view(default),
        ) {
            Some(p) => r matches Ok(q) && q@ == p,
            None => r == Err::<String, ProfileError>(ProfileError::NoDefault),
        },
{
    match explicit {
        Some(name) => Ok(name.to_owned()),
        None => match default {
            Some(d) => Ok(d),
            None => Err(ProfileError::NoDefault),
        },
    }
}

/// The text a profile error is reported with.
pub open spec fn profile_error_text(e: ProfileError) -> Seq<char> {
    match e {
        ProfileError::NoDefault =>
            "no default profile set and no --profile given; run `paintbrush login --domain <domain>` or `paintbrush profile default <name>`"@,
        ProfileError::NoSuchProfile { name } => "no such profile: "@ + name@,
    }
}

impl ProfileError {
    pub fn message(&self) -> (r: String)
        ensures
            r@ == profile_error_text(*self),
    {
        match self {
            ProfileError::NoDefault =>
                "no default profile set and no --profile given; run `paintbrush login --domain <domain>` or `paintbrush profile default <name>`".to_owned(),
            ProfileError::NoSuchProfile { name } => {
                let mut r = "no such profile: ".to_owned();
                push_str(&mut r, name.as_str());
                r
            },
        }
    }
}

// ---------------------------------------------------------------------------
// Laws
// ---------------------------------------------------------------------------

/// The first profile ever registered becomes the default, and so is what a
/// command without `--profile` uses.
pub proof fn lemma_first_profile_becomes_default(name: Seq<char>)
    ensures
        registered((None, Set::empty()), name).0 == Some(name),
        resolved(None, registered((None, Set::empty()), name).0) == Some(name),
{
}

/// Registering is idempotent: registering a profile twice is registering it
/// once.
pub proof fn lemma_register_idempotent(v: ProfilesView, name: Seq<char>)
    ensures
        registered(registered(v, name), name) == registered(v, name),
{
    assert(registered(v, name).1.insert(name) =~= registered(v, name).1);
}

/// Registering a profile makes it known, keeps every other profile, and
/// never changes a default that was already set.
pub proof fn lemma_register_keeps_profiles(v: ProfilesView, name: Seq<char>, other: Seq<char>)
    ensures
        registered(v, name).1.contains(name),
        v.1.contains(other) ==> registered(v, name).1.contains(other),
        v.0 is Some ==> registered(v, name).0 == v.0,
{
}

/// After a profile is removed it is neither known nor the default.
pub proof fn lemma_removed_profile_is_gone(v: ProfilesView, name: Seq<char>)
    ensures
        removed(v, name) matches Some(w) ==> !w.1.contains(name) && w.0 != Some(name),
{
}

/// After `profile default` succeeds, a command without `--profile` uses
/// that profile; an explicit `--profile` always wins.
pub proof fn lemma_default_then_resolve(v: ProfilesView, name: Seq<char>, explicit: Seq<char>)
    ensures
        defaulted(v, name) matches Some(w) ==> resolved(None, w.0) == Some(name),
        resolved(Some(explicit), v.0) == Some(explicit),
{
}

/// The default, when set, is a known profile: `register`, `remove` and
/// `set_default` all keep this.
pub open spec fn default_is_known(v: ProfilesView) -> bool {
    v.0 matches Some(d) ==> v.1.contains(d)
}

pub proof fn lemma_default_stays_known(v: ProfilesView, name: Seq<char>)
    requires
        default_is_known(v),
    ensures
        default_is_known(registered(v, name)),
        removed(v, name) matches Some(w) ==> default_is_known(w),
        defaulted(v, name) matches Some(w) ==> default_is_known(w),
{
}

} // verus!

verus! {

/// Removing a profile that was just registered undoes the registration,
/// when the name was new and the default (if any) was a known profile.
pub proof fn lemma_remove_undoes_register(v: ProfilesView, name: Seq<char>)
    requires
        !v.1.contains(name),
        default_is_known(v),
    ensures
        removed(registered(v, name), name) == Some(v),
{
    assert(registered(v, name).1.remove(name) =~= v.1);
}

} // verus!

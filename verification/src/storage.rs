//! An in-memory store for users, scholarships, match results and
//! applications.
//!
//! Each collection behaves as a keyed table: users by identity, scholarships
//! by id, match results by the (user, scholarship) pair, applications by id.
//! Insertion order is kept, so listing the catalog always yields the
//! scholarships in the order they were added.

use vstd::prelude::*;

use crate::matching::{
    spec_all_matches, spec_good_matches, spec_match_of, spec_sort_desc, MatchingEngine,
};
use crate::types::{
    ApplicationStatus, ApplicationStatusView, Education, MatchResult, MatchResultView,
    Preferences, Scholarship, ScholarshipError, Status, UserProfile,
};
use vstd::math::min;

verus! {

/// The first user with the given identity, searching from the front.
pub open spec fn spec_find_user(users: Seq<UserProfile>, id: Seq<char>) -> Option<UserProfile>
    decreases users.len(),
{
    if users.len() == 0 {
        None
    } else if users.first().id@ == id {
        Some(users.first())
    } else {
        spec_find_user(users.drop_first(), id)
    }
}

/// A user that stands at the first position carrying its identity is what
/// the search finds.
proof fn lemma_find_user_at(users: Seq<UserProfile>, id: Seq<char>, i: int)
    requires
        0 <= i < users.len(),
        users[i].id@ == id,
        forall|k: int| 0 <= k < i ==> (#[trigger] users[k]).id@ != id,
    ensures
        spec_find_user(users, id) == Some(users[i]),
    decreases i,
{
    if i > 0 {
        assert(users.first().id@ != id);
        lemma_find_user_at(users.drop_first(), id, i - 1);
        assert(users.drop_first()[i - 1] == users[i]);
    }
}

/// When no user carries the identity, the search finds nothing.
proof fn lemma_find_user_none(users: Seq<UserProfile>, id: Seq<char>)
    requires
        forall|k: int| 0 <= k < users.len() ==> (#[trigger] users[k]).id@ != id,
    ensures
        spec_find_user(users, id) is None,
    decreases users.len(),
{
    if users.len() > 0 {
        assert(forall|k: int|
            0 <= k < users.drop_first().len() ==> (#[trigger] users.drop_first()[k]).id@ != id);
        lemma_find_user_none(users.drop_first(), id);
    }
}

/// Replacing the first user that carries an identity changes what the search
/// finds for that identity and nothing else.
proof fn lemma_find_user_update(users: Seq<UserProfile>, i: int, user: UserProfile, id: Seq<char>)
    requires
        0 <= i < users.len(),
        users[i].id@ == user.id@,
        forall|k: int| 0 <= k < i ==> (#[trigger] users[k]).id@ != user.id@,
    ensures
        spec_find_user(users.update(i, user), id) == if id == user.id@ {
            Some(user)
        } else {
            spec_find_user(users, id)
        },
    decreases i,
{
    let updated = users.update(i, user);
    if i == 0 {
        assert(updated.first() == user);
        if id != user.id@ {
            assert(updated.drop_first() =~= users.drop_first());
        }
    } else {
        assert(updated.first() == users.first());
        assert(users.first().id@ != user.id@);
        if users.first().id@ == id {
        } else {
            assert(updated.drop_first() =~= users.drop_first().update(i - 1, user));
            lemma_find_user_update(users.drop_first(), i - 1, user, id);
        }
    }
}

/// Appending a user with a fresh identity changes what the search finds for
/// that identity and nothing else.
proof fn lemma_find_user_push(users: Seq<UserProfile>, user: UserProfile, id: Seq<char>)
    requires
        forall|k: int| 0 <= k < users.len() ==> (#[trigger] users[k]).id@ != user.id@,
    ensures
        spec_find_user(users.push(user), id) == if id == user.id@ {
            Some(user)
        } else {
            spec_find_user(users, id)
        },
    decreases users.len(),
{
    let appended = users.push(user);
    if users.len() == 0 {
        assert(appended.first() == user);
        if id != user.id@ {
            assert(appended.drop_first() =~= users);
        }
    } else {
        assert(appended.first() == users.first());
        if users.first().id@ == id {
            assert(users.first().id@ != user.id@);
        } else {
            assert(appended.drop_first() =~= users.drop_first().push(user));
            assert(forall|k: int|
                0 <= k < users.drop_first().len() ==> (#[trigger] users.drop_first()[k]).id@
                    != user.id@);
            lemma_find_user_push(users.drop_first(), user, id);
        }
    }
}

/// The first scholarship with the given id, searching from the front.
pub open spec fn spec_find_scholarship(catalog: Seq<Scholarship>, id: Seq<char>) -> Option<
    Scholarship,
>
    decreases catalog.len(),
{
    if catalog.len() == 0 {
        None
    } else if catalog.first().id@ == id {
        Some(catalog.first())
    } else {
        spec_find_scholarship(catalog.drop_first(), id)
    }
}

/// A scholarship at the first position carrying its id is what the search
/// finds.
proof fn lemma_find_scholarship_at(catalog: Seq<Scholarship>, id: Seq<char>, i: int)
    requires
        0 <= i < catalog.len(),
        catalog[i].id@ == id,
        forall|k: int| 0 <= k < i ==> (#[trigger] catalog[k]).id@ != id,
    ensures
        spec_find_scholarship(catalog, id) == Some(catalog[i]),
    decreases i,
{
    if i > 0 {
        lemma_find_scholarship_at(catalog.drop_first(), id, i - 1);
        assert(catalog.drop_first()[i - 1] == catalog[i]);
    }
}

/// When no scholarship carries the id, the search finds nothing.
proof fn lemma_find_scholarship_none(catalog: Seq<Scholarship>, id: Seq<char>)
    requires
        forall|k: int| 0 <= k < catalog.len() ==> (#[trigger] catalog[k]).id@ != id,
    ensures
        spec_find_scholarship(catalog, id) is None,
    decreases catalog.len(),
{
    if catalog.len() > 0 {
        assert(forall|k: int|
            0 <= k < catalog.drop_first().len() ==> (#[trigger] catalog.drop_first()[k]).id@
                != id);
        lemma_find_scholarship_none(catalog.drop_first(), id);
    }
}

/// Replacing the first scholarship that carries an id changes what the
/// search finds for that id and nothing else.
proof fn lemma_find_scholarship_update(
    catalog: Seq<Scholarship>,
    i: int,
    scholarship: Scholarship,
    id: Seq<char>,
)
    requires
        0 <= i < catalog.len(),
        catalog[i].id@ == scholarship.id@,
        forall|k: int| 0 <= k < i ==> (#[trigger] catalog[k]).id@ != scholarship.id@,
    ensures
        spec_find_scholarship(catalog.update(i, scholarship), id) == if id == scholarship.id@ {
            Some(scholarship)
        } else {
            spec_find_scholarship(catalog, id)
        },
    decreases i,
{
    let updated = catalog.update(i, scholarship);
    if i == 0 {
        if id != scholarship.id@ {
            assert(updated.drop_first() =~= catalog.drop_first());
        }
    } else {
        assert(updated.first() == catalog.first());
        if catalog.first().id@ != id {
            assert(updated.drop_first() =~= catalog.drop_first().update(i - 1, scholarship));
            lemma_find_scholarship_update(catalog.drop_first(), i - 1, scholarship, id);
        }
    }
}

/// Appending a scholarship with a fresh id changes what the search finds for
/// that id and nothing else.
proof fn lemma_find_scholarship_push(
    catalog: Seq<Scholarship>,
    scholarship: Scholarship,
    id: Seq<char>,
)
    requires
        forall|k: int| 0 <= k < catalog.len() ==> (#[trigger] catalog[k]).id@ != scholarship.id@,
    ensures
        spec_find_scholarship(catalog.push(scholarship), id) == if id == scholarship.id@ {
            Some(scholarship)
        } else {
            spec_find_scholarship(catalog, id)
        },
    decreases catalog.len(),
{
    let appended = catalog.push(scholarship);
    if catalog.len() == 0 {
        if id != scholarship.id@ {
            assert(appended.drop_first() =~= catalog);
        }
    } else {
        assert(appended.first() == catalog.first());
        if catalog.first().id@ != id {
            assert(appended.drop_first() =~= catalog.drop_first().push(scholarship));
            assert(forall|k: int|
                0 <= k < catalog.drop_first().len() ==> (#[trigger] catalog.drop_first()[k]).id@
                    != scholarship.id@);
            lemma_find_scholarship_push(catalog.drop_first(), scholarship, id);
        }
    }
}

/// The first match result for the given user and scholarship, searching
/// from the front.
pub open spec fn spec_find_match(
    results: Seq<MatchResult>,
    user_id: Seq<char>,
    scholarship_id: Seq<char>,
) -> Option<MatchResult>
    decreases results.len(),
{
    if results.len() == 0 {
        None
    } else if results.first().user_id@ == user_id && results.first().scholarship_id@
        == scholarship_id {
        Some(results.first())
    } else {
        spec_find_match(results.drop_first(), user_id, scholarship_id)
    }
}

/// Whether two match results concern the same user and scholarship.
pub open spec fn spec_same_match_key(a: MatchResult, b: MatchResult) -> bool {
    a.user_id@ == b.user_id@ && a.scholarship_id@ == b.scholarship_id@
}

/// Replacing the first match result that carries a key changes what the
/// search finds for that key and nothing else.
proof fn lemma_find_match_update(
    results: Seq<MatchResult>,
    i: int,
    m: MatchResult,
    user_id: Seq<char>,
    scholarship_id: Seq<char>,
)
    requires
        0 <= i < results.len(),
        spec_same_match_key(results[i], m),
        forall|k: int| 0 <= k < i ==> !spec_same_match_key(#[trigger] results[k], m),
    ensures
        spec_find_match(results.update(i, m), user_id, scholarship_id) == if user_id == m.user_id@
            && scholarship_id == m.scholarship_id@ {
            Some(m)
        } else {
            spec_find_match(results, user_id, scholarship_id)
        },
    decreases i,
{
    let updated = results.update(i, m);
    if i == 0 {
        if !(user_id == m.user_id@ && scholarship_id == m.scholarship_id@) {
            assert(updated.drop_first() =~= results.drop_first());
        }
    } else {
        assert(updated.first() == results.first());
        if !(results.first().user_id@ == user_id && results.first().scholarship_id@
            == scholarship_id) {
            assert(updated.drop_first() =~= results.drop_first().update(i - 1, m));
            lemma_find_match_update(results.drop_first(), i - 1, m, user_id, scholarship_id);
        }
    }
}

/// Appending a match result with a fresh key changes what the search finds
/// for that key and nothing else.
proof fn lemma_find_match_push(
    results: Seq<MatchResult>,
    m: MatchResult,
    user_id: Seq<char>,
    scholarship_id: Seq<char>,
)
    requires
        forall|k: int| 0 <= k < results.len() ==> !spec_same_match_key(#[trigger] results[k], m),
    ensures
        spec_find_match(results.push(m), user_id, scholarship_id) == if user_id == m.user_id@
            && scholarship_id == m.scholarship_id@ {
            Some(m)
        } else {
            spec_find_match(results, user_id, scholarship_id)
        },
    decreases results.len(),
{
    let appended = results.push(m);
    if results.len() == 0 {
        if !(user_id == m.user_id@ && scholarship_id == m.scholarship_id@) {
            assert(appended.drop_first() =~= results);
        }
    } else {
        assert(appended.first() == results.first());
        if !(results.first().user_id@ == user_id && results.first().scholarship_id@
            == scholarship_id) {
            assert(appended.drop_first() =~= results.drop_first().push(m));
            assert(forall|k: int|
                0 <= k < results.drop_first().len() ==> !spec_same_match_key(
                    #[trigger] results.drop_first()[k],
                    m,
                ));
            lemma_find_match_push(results.drop_first(), m, user_id, scholarship_id);
        }
    }
}

/// The stored match results of one user, as views, in insertion order.
pub open spec fn spec_user_matches(results: Seq<MatchResult>, user_id: Seq<char>) -> Seq<
    MatchResultView,
>
    decreases results.len(),
{
    if results.len() == 0 {
        Seq::empty()
    } else {
        let rest = spec_user_matches(results.drop_last(), user_id);
        if results.last().user_id@ == user_id {
            rest.push(results.last().deep_view())
        } else {
            rest
        }
    }
}

/// Appending one match result extends a user's selection exactly when it is
/// theirs.
proof fn lemma_user_matches_push(results: Seq<MatchResult>, user_id: Seq<char>, m: MatchResult)
    ensures
        spec_user_matches(results.push(m), user_id) == if m.user_id@ == user_id {
            spec_user_matches(results, user_id).push(m.deep_view())
        } else {
            spec_user_matches(results, user_id)
        },
{
    assert(results.push(m).drop_last() =~= results);
    assert(results.push(m).last() == m);
}

/// The first application with the given id, searching from the front.
pub open spec fn spec_find_application(apps: Seq<ApplicationStatus>, id: Seq<char>) -> Option<
    ApplicationStatus,
>
    decreases apps.len(),
{
    if apps.len() == 0 {
        None
    } else if apps.first().id@ == id {
        Some(apps.first())
    } else {
        spec_find_application(apps.drop_first(), id)
    }
}

/// An application at the first position carrying its id is what the search
/// finds.
proof fn lemma_find_application_at(apps: Seq<ApplicationStatus>, id: Seq<char>, i: int)
    requires
        0 <= i < apps.len(),
        apps[i].id@ == id,
        forall|k: int| 0 <= k < i ==> (#[trigger] apps[k]).id@ != id,
    ensures
        spec_find_application(apps, id) == Some(apps[i]),
    decreases i,
{
    if i > 0 {
        lemma_find_application_at(apps.drop_first(), id, i - 1);
        assert(apps.drop_first()[i - 1] == apps[i]);
    }
}

/// When no application carries the id, the search finds nothing.
proof fn lemma_find_application_none(apps: Seq<ApplicationStatus>, id: Seq<char>)
    requires
        forall|k: int| 0 <= k < apps.len() ==> (#[trigger] apps[k]).id@ != id,
    ensures
        spec_find_application(apps, id) is None,
    decreases apps.len(),
{
    if apps.len() > 0 {
        assert(forall|k: int|
            0 <= k < apps.drop_first().len() ==> (#[trigger] apps.drop_first()[k]).id@ != id);
        lemma_find_application_none(apps.drop_first(), id);
    }
}

/// Replacing the first application that carries an id changes what the
/// search finds for that id and nothing else.
proof fn lemma_find_application_update(
    apps: Seq<ApplicationStatus>,
    i: int,
    app: ApplicationStatus,
    id: Seq<char>,
)
    requires
        0 <= i < apps.len(),
        apps[i].id@ == app.id@,
        forall|k: int| 0 <= k < i ==> (#[trigger] apps[k]).id@ != app.id@,
    ensures
        spec_find_application(apps.update(i, app), id) == if id == app.id@ {
            Some(app)
        } else {
            spec_find_application(apps, id)
        },
    decreases i,
{
    let updated = apps.update(i, app);
    if i == 0 {
        if id != app.id@ {
            assert(updated.drop_first() =~= apps.drop_first());
        }
    } else {
        assert(updated.first() == apps.first());
        if apps.first().id@ != id {
            assert(updated.drop_first() =~= apps.drop_first().update(i - 1, app));
            lemma_find_application_update(apps.drop_first(), i - 1, app, id);
        }
    }
}

/// Appending an application with a fresh id changes what the search finds
/// for that id and nothing else.
proof fn lemma_find_application_push(
    apps: Seq<ApplicationStatus>,
    app: ApplicationStatus,
    id: Seq<char>,
)
    requires
        forall|k: int| 0 <= k < apps.len() ==> (#[trigger] apps[k]).id@ != app.id@,
    ensures
        spec_find_application(apps.push(app), id) == if id == app.id@ {
            Some(app)
        } else {
            spec_find_application(apps, id)
        },
    decreases apps.len(),
{
    let appended = apps.push(app);
    if apps.len() == 0 {
        if id != app.id@ {
            assert(appended.drop_first() =~= apps);
        }
    } else {
        assert(appended.first() == apps.first());
        if apps.first().id@ != id {
            assert(appended.drop_first() =~= apps.drop_first().push(app));
            assert(forall|k: int|
                0 <= k < apps.drop_first().len() ==> (#[trigger] apps.drop_first()[k]).id@
                    != app.id@);
            lemma_find_application_push(apps.drop_first(), app, id);
        }
    }
}

/// The stored applications of one user, as views, in insertion order.
pub open spec fn spec_user_applications(apps: Seq<ApplicationStatus>, user_id: Seq<char>) -> Seq<
    ApplicationStatusView,
>
    decreases apps.len(),
{
    if apps.len() == 0 {
        Seq::empty()
    } else {
        let rest = spec_user_applications(apps.drop_last(), user_id);
        if apps.last().user_id@ == user_id {
            rest.push(apps.last().deep_view())
        } else {
            rest
        }
    }
}

/// Appending one application extends a user's selection exactly when it is
/// theirs.
proof fn lemma_user_applications_push(
    apps: Seq<ApplicationStatus>,
    user_id: Seq<char>,
    app: ApplicationStatus,
)
    ensures
        spec_user_applications(apps.push(app), user_id) == if app.user_id@ == user_id {
            spec_user_applications(apps, user_id).push(app.deep_view())
        } else {
            spec_user_applications(apps, user_id)
        },
{
    assert(apps.push(app).drop_last() =~= apps);
    assert(apps.push(app).last() == app);
}

/// The scholarship ids a user has bookmarked, in insertion order.
pub open spec fn spec_user_bookmarks(apps: Seq<ApplicationStatus>, user_id: Seq<char>) -> Seq<
    Seq<char>,
>
    decreases apps.len(),
{
    if apps.len() == 0 {
        Seq::empty()
    } else {
        let rest = spec_user_bookmarks(apps.drop_last(), user_id);
        if apps.last().user_id@ == user_id && apps.last().status is Bookmarked {
            rest.push(apps.last().scholarship_id@)
        } else {
            rest
        }
    }
}

/// Appending one application extends a user's bookmarks exactly when it is
/// their bookmark.
proof fn lemma_user_bookmarks_push(
    apps: Seq<ApplicationStatus>,
    user_id: Seq<char>,
    app: ApplicationStatus,
)
    ensures
        spec_user_bookmarks(apps.push(app), user_id) == if app.user_id@ == user_id
            && app.status is Bookmarked {
            spec_user_bookmarks(apps, user_id).push(app.scholarship_id@)
        } else {
            spec_user_bookmarks(apps, user_id)
        },
{
    assert(apps.push(app).drop_last() =~= apps);
    assert(apps.push(app).last() == app);
}

/// A stored profile with the provided fields replaced and the rest kept;
/// the update is stamped.
pub open spec fn spec_merged_profile(
    user: UserProfile,
    name: Option<String>,
    email: Option<String>,
    education: Option<Education>,
    skills: Option<Vec<String>>,
    preferences: Option<Preferences>,
    now: u64,
) -> UserProfile {
    UserProfile {
        id: user.id,
        name: match name {
            Some(n) => n,
            None => user.name,
        },
        email: match email {
            Some(e) => e,
            None => user.email,
        },
        education: match education {
            Some(e) => e,
            None => user.education,
        },
        skills: match skills {
            Some(s) => s,
            None => user.skills,
        },
        preferences: match preferences {
            Some(p) => p,
            None => user.preferences,
        },
        created_at: user.created_at,
        updated_at: now,
    }
}

/// The store behind every operation: four keyed collections.
pub struct Store {
    users: Vec<UserProfile>,
    scholarships: Vec<Scholarship>,
    matches: Vec<MatchResult>,
    applications: Vec<ApplicationStatus>,
}

impl Store {
    /// The stored user profiles, in insertion order.
    pub closed spec fn spec_users(self) -> Seq<UserProfile> {
        self.users@
    }

    /// The stored scholarships, in insertion order: the catalog.
    pub closed spec fn spec_scholarships(self) -> Seq<Scholarship> {
        self.scholarships@
    }

    /// The cached match results, in insertion order.
    pub closed spec fn spec_matches(self) -> Seq<MatchResult> {
        self.matches@
    }

    /// The stored applications and bookmarks, in insertion order.
    pub closed spec fn spec_applications(self) -> Seq<ApplicationStatus> {
        self.applications@
    }

    /// Every key occurs at most once in its collection.
    pub open spec fn wf(self) -> bool {
        &&& forall|i: int, j: int|
            0 <= i < j < self.spec_users().len() ==> (#[trigger] self.spec_users()[i]).id@ != (
            #[trigger] self.spec_users()[j]).id@
        &&& forall|i: int, j: int|
            0 <= i < j < self.spec_scholarships().len() ==> (
            #[trigger] self.spec_scholarships()[i]).id@ != (
            #[trigger] self.spec_scholarships()[j]).id@
        &&& forall|i: int, j: int|
            0 <= i < j < self.spec_applications().len() ==> (
            #[trigger] self.spec_applications()[i]).id@ != (
            #[trigger] self.spec_applications()[j]).id@
        &&& forall|i: int, j: int|
            0 <= i < j < self.spec_matches().len() ==> !spec_same_match_key(
                #[trigger] self.spec_matches()[i],
                #[trigger] self.spec_matches()[j],
            )
    }

    /// An empty store.
    pub fn new() -> (s: Store)
        ensures
            s.wf(),
            s.spec_users().len() == 0,
            s.spec_scholarships().len() == 0,
            s.spec_matches().len() == 0,
            s.spec_applications().len() == 0,
    {
        Store {
            users: Vec::new(),
            scholarships: Vec::new(),
            matches: Vec::new(),
            applications: Vec::new(),
        }
    }

    /// The position of the first user with the given identity.
    fn find_user_index(&self, id: &String) -> (r: Option<usize>)
        ensures
            match r {
                Some(i) => i < self.spec_users().len() && self.spec_users()[i as int].id@ == id@
                    && forall|k: int|
                    0 <= k < i ==> (#[trigger] self.spec_users()[k]).id@ != id@,
                None => forall|k: int|
                    0 <= k < self.spec_users().len() ==> (#[trigger] self.spec_users()[k]).id@
                        != id@,
            },
    {
        let mut i: usize = 0;
        while i < self.users.len()
            invariant
                i <= self.users@.len(),
                forall|k: int| 0 <= k < i ==> (#[trigger] self.users@[k]).id@ != id@,
            decreases self.users@.len() - i,
        {
            if self.users[i].id.eq(id) {
                return Some(i);
            }
            i = i + 1;
        }
        None
    }

    /// Store a profile under its identity, replacing any profile already
    /// stored there and leaving every other identity as it was.
    pub fn insert_user(&mut self, user: UserProfile) -> (r: Result<(), ScholarshipError>)
        requires
            old(self).wf(),
        ensures
            r is Ok,
            final(self).wf(),
            spec_find_user(final(self).spec_users(), user.id@) == Some(user),
            forall|other: Seq<char>|
                other != user.id@ ==> spec_find_user(final(self).spec_users(), other)
                    == spec_find_user(old(self).spec_users(), other),
            final(self).spec_scholarships() == old(self).spec_scholarships(),
            final(self).spec_matches() == old(self).spec_matches(),
            final(self).spec_applications() == old(self).spec_applications(),
    {
        let ghost users0 = self.spec_users();
        let ghost uid = user.id@;
        match self.find_user_index(&user.id) {
            Some(i) => {
                self.users[i] = user;
                proof {
                    assert(self.spec_users() == users0.update(i as int, user));
                    lemma_find_user_update(users0, i as int, user, uid);
                    assert forall|other: Seq<char>| other != uid implies spec_find_user(
                        self.spec_users(),
                        other,
                    ) == spec_find_user(users0, other) by {
                        lemma_find_user_update(users0, i as int, user, other);
                    }
                    assert(self.wf()) by {
                        assert(forall|j: int|
                            0 <= j < self.spec_users().len() ==> (#[trigger] self.spec_users()[j]).id@
                                == users0[j].id@);
                        assert(self.spec_matches() == old(self).spec_matches());
                        assert(self.spec_scholarships() == old(self).spec_scholarships());
                        assert(self.spec_applications() == old(self).spec_applications());
                    }
                }
                Ok(())
            },
            None => {
                self.users.push(user);
                proof {
                    assert(self.spec_users() == users0.push(user));
                    assert(self.wf()) by {
                        assert forall|i: int, j: int|
                            0 <= i < j < self.spec_users().len() implies (
                        #[trigger] self.spec_users()[i]).id@ != (
                        #[trigger] self.spec_users()[j]).id@ by {
                            if j == users0.len() {
                                assert(users0[i].id@ != user.id@);
                            }
                        }
                        assert(self.spec_matches() == old(self).spec_matches());
                        assert(self.spec_scholarships() == old(self).spec_scholarships());
                        assert(self.spec_applications() == old(self).spec_applications());
                    }
                    lemma_find_user_push(users0, user, uid);
                    assert forall|other: Seq<char>| other != uid implies spec_find_user(
                        self.spec_users(),
                        other,
                    ) == spec_find_user(users0, other) by {
                        lemma_find_user_push(users0, user, other);
                    }
                }
                Ok(())
            },
        }
    }

    /// Look a profile up by identity.
    pub fn get_user(&self, id: &String) -> (r: Option<&UserProfile>)
        ensures
            match r {
                Some(u) => spec_find_user(self.spec_users(), id@) == Some(*u),
                None => spec_find_user(self.spec_users(), id@) is None,
            },
    {
        match self.find_user_index(id) {
            Some(i) => {
                proof {
                    lemma_find_user_at(self.spec_users(), id@, i as int);
                }
                Some(&self.users[i])
            },
            None => {
                proof {
                    lemma_find_user_none(self.spec_users(), id@);
                }
                None
            },
        }
    }

    /// Replace a stored profile; like an insert, the identity keeps at most
    /// one profile.
    pub fn update_user(&mut self, user: UserProfile) -> (r: Result<(), ScholarshipError>)
        requires
            old(self).wf(),
        ensures
            r is Ok,
            final(self).wf(),
            spec_find_user(final(self).spec_users(), user.id@) == Some(user),
            forall|other: Seq<char>|
                other != user.id@ ==> spec_find_user(final(self).spec_users(), other)
                    == spec_find_user(old(self).spec_users(), other),
            final(self).spec_scholarships() == old(self).spec_scholarships(),
            final(self).spec_matches() == old(self).spec_matches(),
            final(self).spec_applications() == old(self).spec_applications(),
    {
        self.insert_user(user)
    }

    /// The position of the first scholarship with the given id.
    fn find_scholarship_index(&self, id: &String) -> (r: Option<usize>)
        ensures
            match r {
                Some(i) => i < self.spec_scholarships().len()
                    && self.spec_scholarships()[i as int].id@ == id@ && forall|k: int|
                    0 <= k < i ==> (#[trigger] self.spec_scholarships()[k]).id@ != id@,
                None => forall|k: int|
                    0 <= k < self.spec_scholarships().len() ==> (
                    #[trigger] self.spec_scholarships()[k]).id@ != id@,
            },
    {
        let mut i: usize = 0;
        while i < self.scholarships.len()
            invariant
                i <= self.scholarships@.len(),
                forall|k: int| 0 <= k < i ==> (#[trigger] self.scholarships@[k]).id@ != id@,
            decreases self.scholarships@.len() - i,
        {
            if self.scholarships[i].id.eq(id) {
                return Some(i);
            }
            i = i + 1;
        }
        None
    }

    /// Store a scholarship under its id, replacing any record already there
    /// and leaving every other id as it was; a new id goes to the end of the
    /// catalog.
    pub fn insert_scholarship(&mut self, scholarship: Scholarship) -> (r: Result<
        (),
        ScholarshipError,
    >)
        requires
            old(self).wf(),
        ensures
            r is Ok,
            final(self).wf(),
            spec_find_scholarship(final(self).spec_scholarships(), scholarship.id@) == Some(
                scholarship,
            ),
            forall|other: Seq<char>|
                other != scholarship.id@ ==> spec_find_scholarship(
                    final(self).spec_scholarships(),
                    other,
                ) == spec_find_scholarship(old(self).spec_scholarships(), other),
            final(self).spec_users() == old(self).spec_users(),
            final(self).spec_matches() == old(self).spec_matches(),
            final(self).spec_applications() == old(self).spec_applications(),
    {
        let ghost catalog0 = self.spec_scholarships();
        let ghost sid = scholarship.id@;
        match self.find_scholarship_index(&scholarship.id) {
            Some(i) => {
                self.scholarships[i] = scholarship;
                proof {
                    assert(self.spec_scholarships() == catalog0.update(i as int, scholarship));
                    lemma_find_scholarship_update(catalog0, i as int, scholarship, sid);
                    assert forall|other: Seq<char>| other != sid implies spec_find_scholarship(
                        self.spec_scholarships(),
                        other,
                    ) == spec_find_scholarship(catalog0, other) by {
                        lemma_find_scholarship_update(catalog0, i as int, scholarship, other);
                    }
                    assert(self.wf()) by {
                        assert(forall|j: int|
                            0 <= j < self.spec_scholarships().len() ==> (
                            #[trigger] self.spec_scholarships()[j]).id@ == catalog0[j].id@);
                        assert(self.spec_matches() == old(self).spec_matches());
                        assert(self.spec_users() == old(self).spec_users());
                        assert(self.spec_applications() == old(self).spec_applications());
                    }
                }
                Ok(())
            },
            None => {
                self.scholarships.push(scholarship);
                proof {
                    assert(self.spec_scholarships() == catalog0.push(scholarship));
                    assert(self.wf()) by {
                        assert forall|i: int, j: int|
                            0 <= i < j < self.spec_scholarships().len() implies (
                        #[trigger] self.spec_scholarships()[i]).id@ != (
                        #[trigger] self.spec_scholarships()[j]).id@ by {
                            if j == catalog0.len() {
                                assert(catalog0[i].id@ != scholarship.id@);
                            }
                        }
                        assert(self.spec_matches() == old(self).spec_matches());
                        assert(self.spec_users() == old(self).spec_users());
                        assert(self.spec_applications() == old(self).spec_applications());
                    }
                    lemma_find_scholarship_push(catalog0, scholarship, sid);
                    assert forall|other: Seq<char>| other != sid implies spec_find_scholarship(
                        self.spec_scholarships(),
                        other,
                    ) == spec_find_scholarship(catalog0, other) by {
                        lemma_find_scholarship_push(catalog0, scholarship, other);
                    }
                }
                Ok(())
            },
        }
    }

    /// Look a scholarship up by id.
    pub fn get_scholarship(&self, id: &String) -> (r: Option<&Scholarship>)
        ensures
            match r {
                Some(s) => spec_find_scholarship(self.spec_scholarships(), id@) == Some(*s),
                None => spec_find_scholarship(self.spec_scholarships(), id@) is None,
            },
    {
        match self.find_scholarship_index(id) {
            Some(i) => {
                proof {
                    lemma_find_scholarship_at(self.spec_scholarships(), id@, i as int);
                }
                Some(&self.scholarships[i])
            },
            None => {
                proof {
                    lemma_find_scholarship_none(self.spec_scholarships(), id@);
                }
                None
            },
        }
    }

    /// The whole catalog, in insertion order.
    pub fn get_all_scholarships(&self) -> (r: &Vec<Scholarship>)
        ensures
            r@ == self.spec_scholarships(),
    {
        &self.scholarships
    }

    /// How many scholarships the catalog holds.
    pub fn count_scholarships(&self) -> (r: usize)
        ensures
            r == self.spec_scholarships().len(),
    {
        self.scholarships.len()
    }

    /// The position of the first match result with the given key pair.
    fn find_match_index(&self, user_id: &String, scholarship_id: &String) -> (r: Option<usize>)
        ensures
            match r {
                Some(i) => i < self.spec_matches().len()
                    && self.spec_matches()[i as int].user_id@ == user_id@
                    && self.spec_matches()[i as int].scholarship_id@ == scholarship_id@ && forall|
                    k: int,
                |
                    0 <= k < i ==> !((#[trigger] self.spec_matches()[k]).user_id@ == user_id@
                        && self.spec_matches()[k].scholarship_id@ == scholarship_id@),
                None => forall|k: int|
                    0 <= k < self.spec_matches().len() ==> !((
                    #[trigger] self.spec_matches()[k]).user_id@ == user_id@
                        && self.spec_matches()[k].scholarship_id@ == scholarship_id@),
            },
    {
        let mut i: usize = 0;
        while i < self.matches.len()
            invariant
                i <= self.matches@.len(),
                forall|k: int|
                    0 <= k < i ==> !((#[trigger] self.matches@[k]).user_id@ == user_id@
                        && self.matches@[k].scholarship_id@ == scholarship_id@),
            decreases self.matches@.len() - i,
        {
            if self.matches[i].user_id.eq(user_id) && self.matches[i].scholarship_id.eq(
                scholarship_id,
            ) {
                return Some(i);
            }
            i = i + 1;
        }
        None
    }

    /// Cache a match result under its (user, scholarship) pair, replacing
    /// any result already cached for that pair.
    pub fn insert_match(&mut self, result: MatchResult) -> (r: Result<(), ScholarshipError>)
        requires
            old(self).wf(),
        ensures
            r is Ok,
            final(self).wf(),
            spec_find_match(final(self).spec_matches(), result.user_id@, result.scholarship_id@)
                == Some(result),
            forall|u: Seq<char>, s: Seq<char>|
                !(u == result.user_id@ && s == result.scholarship_id@) ==> spec_find_match(
                    final(self).spec_matches(),
                    u,
                    s,
                ) == spec_find_match(old(self).spec_matches(), u, s),
            final(self).spec_users() == old(self).spec_users(),
            final(self).spec_scholarships() == old(self).spec_scholarships(),
            final(self).spec_applications() == old(self).spec_applications(),
    {
        let ghost results0 = self.spec_matches();
        match self.find_match_index(&result.user_id, &result.scholarship_id) {
            Some(i) => {
                self.matches[i] = result;
                proof {
                    assert(self.spec_matches() == results0.update(i as int, result));
                    lemma_find_match_update(
                        results0,
                        i as int,
                        result,
                        result.user_id@,
                        result.scholarship_id@,
                    );
                    assert forall|u: Seq<char>, s: Seq<char>|
                        !(u == result.user_id@ && s == result.scholarship_id@) implies
                        spec_find_match(self.spec_matches(), u, s) == spec_find_match(
                        results0,
                        u,
                        s,
                    ) by {
                        lemma_find_match_update(results0, i as int, result, u, s);
                    }
                    assert(self.wf()) by {
                        assert(forall|j: int, l: int|
                            0 <= j < l < self.spec_matches().len() ==> !spec_same_match_key(
                                #[trigger] self.spec_matches()[j],
                                #[trigger] self.spec_matches()[l],
                            ));
                    }
                }
                Ok(())
            },
            None => {
                self.matches.push(result);
                proof {
                    assert(self.spec_matches() == results0.push(result));
                    lemma_find_match_push(
                        results0,
                        result,
                        result.user_id@,
                        result.scholarship_id@,
                    );
                    assert forall|u: Seq<char>, s: Seq<char>|
                        !(u == result.user_id@ && s == result.scholarship_id@) implies
                        spec_find_match(self.spec_matches(), u, s) == spec_find_match(
                        results0,
                        u,
                        s,
                    ) by {
                        lemma_find_match_push(results0, result, u, s);
                    }
                }
                Ok(())
            },
        }
    }

    /// The cached match results of one user, in insertion order.
    pub fn get_user_matches(&self, user_id: &String) -> (results: Vec<&MatchResult>)
        ensures
            results.deep_view() == spec_user_matches(self.spec_matches(), user_id@),
    {
        let mut results: Vec<&MatchResult> = Vec::new();
        let mut i: usize = 0;
        while i < self.matches.len()
            invariant
                i <= self.matches@.len(),
                results.deep_view() == spec_user_matches(self.matches@.take(i as int), user_id@),
            decreases self.matches@.len() - i,
        {
            proof {
                assert(self.matches@.take(i + 1).drop_last() =~= self.matches@.take(i as int));
                assert(self.matches@.take(i + 1) =~= self.matches@.take(i as int).push(
                    self.matches@[i as int],
                ));
                lemma_user_matches_push(
                    self.matches@.take(i as int),
                    user_id@,
                    self.matches@[i as int],
                );
            }
            if self.matches[i].user_id.eq(user_id) {
                results.push(&self.matches[i]);
                proof {
                    assert(results.deep_view() =~= spec_user_matches(
                        self.matches@.take(i + 1),
                        user_id@,
                    ));
                }
            }
            i = i + 1;
        }
        proof {
            assert(self.matches@.take(self.matches@.len() as int) =~= self.matches@);
        }
        results
    }

    /// The position of the first application with the given id.
    fn find_application_index(&self, id: &String) -> (r: Option<usize>)
        ensures
            match r {
                Some(i) => i < self.spec_applications().len()
                    && self.spec_applications()[i as int].id@ == id@ && forall|k: int|
                    0 <= k < i ==> (#[trigger] self.spec_applications()[k]).id@ != id@,
                None => forall|k: int|
                    0 <= k < self.spec_applications().len() ==> (
                    #[trigger] self.spec_applications()[k]).id@ != id@,
            },
    {
        let mut i: usize = 0;
        while i < self.applications.len()
            invariant
                i <= self.applications@.len(),
                forall|k: int| 0 <= k < i ==> (#[trigger] self.applications@[k]).id@ != id@,
            decreases self.applications@.len() - i,
        {
            if self.applications[i].id.eq(id) {
                return Some(i);
            }
            i = i + 1;
        }
        None
    }

    /// Store an application under its id, replacing any record already
    /// there and leaving every other id as it was.
    pub fn insert_application(&mut self, application: ApplicationStatus) -> (r: Result<
        (),
        ScholarshipError,
    >)
        requires
            old(self).wf(),
        ensures
            r is Ok,
            final(self).wf(),
            spec_find_application(final(self).spec_applications(), application.id@) == Some(
                application,
            ),
            forall|other: Seq<char>|
                other != application.id@ ==> spec_find_application(
                    final(self).spec_applications(),
                    other,
                ) == spec_find_application(old(self).spec_applications(), other),
            final(self).spec_users() == old(self).spec_users(),
            final(self).spec_scholarships() == old(self).spec_scholarships(),
            final(self).spec_matches() == old(self).spec_matches(),
    {
        let ghost apps0 = self.spec_applications();
        let ghost aid = application.id@;
        match self.find_application_index(&application.id) {
            Some(i) => {
                self.applications[i] = application;
                proof {
                    assert(self.spec_applications() == apps0.update(i as int, application));
                    lemma_find_application_update(apps0, i as int, application, aid);
                    assert forall|other: Seq<char>| other != aid implies spec_find_application(
                        self.spec_applications(),
                        other,
                    ) == spec_find_application(apps0, other) by {
                        lemma_find_application_update(apps0, i as int, application, other);
                    }
                    assert(self.wf()) by {
                        assert(forall|j: int|
                            0 <= j < self.spec_applications().len() ==> (
                            #[trigger] self.spec_applications()[j]).id@ == apps0[j].id@);
                        assert(self.spec_matches() == old(self).spec_matches());
                        assert(self.spec_users() == old(self).spec_users());
                        assert(self.spec_scholarships() == old(self).spec_scholarships());
                    }
                }
                Ok(())
            },
            None => {
                self.applications.push(application);
                proof {
                    assert(self.spec_applications() == apps0.push(application));
                    assert(self.wf()) by {
                        assert forall|i: int, j: int|
                            0 <= i < j < self.spec_applications().len() implies (
                        #[trigger] self.spec_applications()[i]).id@ != (
                        #[trigger] self.spec_applications()[j]).id@ by {
                            if j == apps0.len() {
                                assert(apps0[i].id@ != application.id@);
                            }
                        }
                        assert(self.spec_matches() == old(self).spec_matches());
                        assert(self.spec_users() == old(self).spec_users());
                        assert(self.spec_scholarships() == old(self).spec_scholarships());
                    }
                    lemma_find_application_push(apps0, application, aid);
                    assert forall|other: Seq<char>| other != aid implies spec_find_application(
                        self.spec_applications(),
                        other,
                    ) == spec_find_application(apps0, other) by {
                        lemma_find_application_push(apps0, application, other);
                    }
                }
                Ok(())
            },
        }
    }

    /// Set the status of a stored application and stamp it; an unknown id
    /// reports `NotFound` and changes nothing.
    pub fn update_application_status(&mut self, id: &String, status: Status, now: u64) -> (r:
        Result<(), ScholarshipError>)
        requires
            old(self).wf(),
        ensures
            final(self).wf(),
            match spec_find_application(old(self).spec_applications(), id@) {
                Some(app) => {
                    &&& r is Ok
                    &&& spec_find_application(final(self).spec_applications(), id@) == Some(
                        ApplicationStatus {
                            status,
                            updated_at: now,
                            id: app.id,
                            user_id: app.user_id,
                            scholarship_id: app.scholarship_id,
                            notes: app.notes,
                            created_at: app.created_at,
                        },
                    )
                    &&& forall|other: Seq<char>|
                        other != id@ ==> spec_find_application(
                            final(self).spec_applications(),
                            other,
                        ) == spec_find_application(old(self).spec_applications(), other)
                    &&& final(self).spec_users() == old(self).spec_users()
                    &&& final(self).spec_scholarships() == old(self).spec_scholarships()
                    &&& final(self).spec_matches() == old(self).spec_matches()
                },
                None => {
                    &&& r == Err::<(), ScholarshipError>(ScholarshipError::NotFound)
                    &&& *final(self) == *old(self)
                },
            },
    {
        let ghost apps0 = self.spec_applications();
        match self.find_application_index(id) {
            Some(i) => {
                proof {
                    lemma_find_application_at(apps0, id@, i as int);
                }
                let mut app = self.applications.remove(i);
                app.status = status;
                app.updated_at = now;
                let ghost updated = app;
                self.applications.insert(i, app);
                proof {
                    assert(self.spec_applications() =~= apps0.update(i as int, updated));
                    lemma_find_application_update(apps0, i as int, updated, id@);
                    assert forall|other: Seq<char>| other != id@ implies spec_find_application(
                        self.spec_applications(),
                        other,
                    ) == spec_find_application(apps0, other) by {
                        lemma_find_application_update(apps0, i as int, updated, other);
                    }
                    assert(self.wf()) by {
                        assert(forall|j: int|
                            0 <= j < self.spec_applications().len() ==> (
                            #[trigger] self.spec_applications()[j]).id@ == apps0[j].id@);
                        assert(self.spec_matches() == old(self).spec_matches());
                        assert(self.spec_users() == old(self).spec_users());
                        assert(self.spec_scholarships() == old(self).spec_scholarships());
                    }
                }
                Ok(())
            },
            None => {
                proof {
                    lemma_find_application_none(apps0, id@);
                }
                Err(ScholarshipError::NotFound)
            },
        }
    }

    /// The stored applications of one user, in insertion order.
    pub fn get_user_applications(&self, user_id: &String) -> (results: Vec<&ApplicationStatus>)
        ensures
            results.deep_view() == spec_user_applications(self.spec_applications(), user_id@),
    {
        let mut results: Vec<&ApplicationStatus> = Vec::new();
        let mut i: usize = 0;
        while i < self.applications.len()
            invariant
                i <= self.applications@.len(),
                results.deep_view() == spec_user_applications(
                    self.applications@.take(i as int),
                    user_id@,
                ),
            decreases self.applications@.len() - i,
        {
            proof {
                assert(self.applications@.take(i + 1) =~= self.applications@.take(i as int).push(
                    self.applications@[i as int],
                ));
                lemma_user_applications_push(
                    self.applications@.take(i as int),
                    user_id@,
                    self.applications@[i as int],
                );
            }
            if self.applications[i].user_id.eq(user_id) {
                results.push(&self.applications[i]);
                proof {
                    assert(results.deep_view() =~= spec_user_applications(
                        self.applications@.take(i + 1),
                        user_id@,
                    ));
                }
            }
            i = i + 1;
        }
        proof {
            assert(self.applications@.take(self.applications@.len() as int)
                =~= self.applications@);
        }
        results
    }

    /// The scholarship ids one user has bookmarked, in insertion order.
    pub fn get_user_bookmarks(&self, user_id: &String) -> (results: Vec<String>)
        ensures
            results.deep_view() == spec_user_bookmarks(self.spec_applications(), user_id@),
    {
        let mut results: Vec<String> = Vec::new();
        let mut i: usize = 0;
        while i < self.applications.len()
            invariant
                i <= self.applications@.len(),
                results.deep_view() == spec_user_bookmarks(
                    self.applications@.take(i as int),
                    user_id@,
                ),
            decreases self.applications@.len() - i,
        {
            proof {
                assert(self.applications@.take(i + 1) =~= self.applications@.take(i as int).push(
                    self.applications@[i as int],
                ));
                lemma_user_bookmarks_push(
                    self.applications@.take(i as int),
                    user_id@,
                    self.applications@[i as int],
                );
            }
            let is_bookmark = match self.applications[i].status {
                Status::Bookmarked => true,
                _ => false,
            };
            if self.applications[i].user_id.eq(user_id) && is_bookmark {
                results.push(self.applications[i].scholarship_id.clone());
                proof {
                    assert(results.deep_view() =~= spec_user_bookmarks(
                        self.applications@.take(i + 1),
                        user_id@,
                    ));
                }
            }
            i = i + 1;
        }
        proof {
            assert(self.applications@.take(self.applications@.len() as int)
                =~= self.applications@);
        }
        results
    }

    /// Register a new profile under the caller's identity; an identity that
    /// already has a profile reports `AlreadyExists` and changes nothing.
    pub fn register_user(
        &mut self,
        id: String,
        name: String,
        email: String,
        education: Education,
        skills: Vec<String>,
        preferences: Preferences,
        now: u64,
    ) -> (r: Result<(), ScholarshipError>)
        requires
            old(self).wf(),
        ensures
            final(self).wf(),
            match spec_find_user(old(self).spec_users(), id@) {
                Some(_) => r == Err::<(), ScholarshipError>(ScholarshipError::AlreadyExists)
                    && *final(self) == *old(self),
                None => {
                    &&& r is Ok
                    &&& spec_find_user(final(self).spec_users(), id@) == Some(
                        UserProfile {
                            id,
                            name,
                            email,
                            education,
                            skills,
                            preferences,
                            created_at: now,
                            updated_at: now,
                        },
                    )
                    &&& forall|other: Seq<char>|
                        other != id@ ==> spec_find_user(final(self).spec_users(), other)
                            == spec_find_user(old(self).spec_users(), other)
                    &&& final(self).spec_scholarships() == old(self).spec_scholarships()
                    &&& final(self).spec_matches() == old(self).spec_matches()
                    &&& final(self).spec_applications() == old(self).spec_applications()
                },
            },
    {
        let exists = match self.get_user(&id) {
            Some(_) => true,
            None => false,
        };
        if exists {
            return Err(ScholarshipError::AlreadyExists);
        }
        let user = UserProfile {
            id,
            name,
            email,
            education,
            skills,
            preferences,
            created_at: now,
            updated_at: now,
        };
        self.insert_user(user)
    }

    /// Replace the provided fields of a stored profile and stamp the
    /// update; an unknown identity reports `NotFound` and changes nothing.
    pub fn update_user_profile(
        &mut self,
        id: &String,
        name: Option<String>,
        email: Option<String>,
        education: Option<Education>,
        skills: Option<Vec<String>>,
        preferences: Option<Preferences>,
        now: u64,
    ) -> (r: Result<(), ScholarshipError>)
        requires
            old(self).wf(),
        ensures
            final(self).wf(),
            match spec_find_user(old(self).spec_users(), id@) {
                Some(user) => {
                    &&& r is Ok
                    &&& spec_find_user(final(self).spec_users(), id@) == Some(
                        spec_merged_profile(user, name, email, education, skills, preferences, now),
                    )
                    &&& forall|other: Seq<char>|
                        other != id@ ==> spec_find_user(final(self).spec_users(), other)
                            == spec_find_user(old(self).spec_users(), other)
                    &&& final(self).spec_scholarships() == old(self).spec_scholarships()
                    &&& final(self).spec_matches() == old(self).spec_matches()
                    &&& final(self).spec_applications() == old(self).spec_applications()
                },
                None => r == Err::<(), ScholarshipError>(ScholarshipError::NotFound) && *final(self)
                    == *old(self),
            },
    {
        let ghost users0 = self.spec_users();
        match self.find_user_index(id) {
            Some(i) => {
                proof {
                    lemma_find_user_at(users0, id@, i as int);
                }
                let mut user = self.users.remove(i);
                let ghost found = user;
                match name {
                    Some(n) => { user.name = n },
                    None => {},
                }
                match email {
                    Some(e) => { user.email = e },
                    None => {},
                }
                match education {
                    Some(e) => { user.education = e },
                    None => {},
                }
                match skills {
                    Some(s) => { user.skills = s },
                    None => {},
                }
                match preferences {
                    Some(p) => { user.preferences = p },
                    None => {},
                }
                user.updated_at = now;
                let ghost merged = user;
                self.users.insert(i, user);
                proof {
                    assert(merged == spec_merged_profile(
                        found,
                        name,
                        email,
                        education,
                        skills,
                        preferences,
                        now,
                    ));
                    assert(self.spec_users() =~= users0.update(i as int, merged));
                    lemma_find_user_update(users0, i as int, merged, id@);
                    assert forall|other: Seq<char>| other != id@ implies spec_find_user(
                        self.spec_users(),
                        other,
                    ) == spec_find_user(users0, other) by {
                        lemma_find_user_update(users0, i as int, merged, other);
                    }
                    assert(self.wf()) by {
                        assert(forall|j: int|
                            0 <= j < self.spec_users().len() ==> (#[trigger] self.spec_users()[j]).id@
                                == users0[j].id@);
                        assert(self.spec_matches() == old(self).spec_matches());
                        assert(self.spec_scholarships() == old(self).spec_scholarships());
                        assert(self.spec_applications() == old(self).spec_applications());
                    }
                }
                Ok(())
            },
            None => {
                proof {
                    lemma_find_user_none(users0, id@);
                }
                Err(ScholarshipError::NotFound)
            },
        }
    }

    /// File an application for a scholarship; an unknown scholarship or
    /// user reports `NotFound` and changes nothing.
    pub fn create_application(
        &mut self,
        id: String,
        user_id: String,
        scholarship_id: String,
        notes: String,
        now: u64,
    ) -> (r: Result<(), ScholarshipError>)
        requires
            old(self).wf(),
        ensures
            final(self).wf(),
            spec_find_scholarship(old(self).spec_scholarships(), scholarship_id@) is None ==> r
                == Err::<(), ScholarshipError>(ScholarshipError::NotFound) && *final(self) == *old(
                self,
            ),
            spec_find_scholarship(old(self).spec_scholarships(), scholarship_id@) is Some
                && spec_find_user(old(self).spec_users(), user_id@) is None ==> r == Err::<
                (),
                ScholarshipError,
            >(ScholarshipError::NotFound) && *final(self) == *old(self),
            spec_find_scholarship(old(self).spec_scholarships(), scholarship_id@) is Some
                && spec_find_user(old(self).spec_users(), user_id@) is Some ==> {
                &&& r is Ok
                &&& spec_find_application(final(self).spec_applications(), id@) == Some(
                    ApplicationStatus {
                        id,
                        user_id,
                        scholarship_id,
                        status: Status::InProgress,
                        notes,
                        created_at: now,
                        updated_at: now,
                    },
                )
                &&& forall|other: Seq<char>|
                    other != id@ ==> spec_find_application(final(self).spec_applications(), other)
                        == spec_find_application(old(self).spec_applications(), other)
                &&& final(self).spec_users() == old(self).spec_users()
                &&& final(self).spec_scholarships() == old(self).spec_scholarships()
                &&& final(self).spec_matches() == old(self).spec_matches()
            },
    {
        let scholarship_known = match self.get_scholarship(&scholarship_id) {
            Some(_) => true,
            None => false,
        };
        if !scholarship_known {
            return Err(ScholarshipError::NotFound);
        }
        let user_known = match self.get_user(&user_id) {
            Some(_) => true,
            None => false,
        };
        if !user_known {
            return Err(ScholarshipError::NotFound);
        }
        let application = ApplicationStatus {
            id,
            user_id,
            scholarship_id,
            status: Status::InProgress,
            notes,
            created_at: now,
            updated_at: now,
        };
        self.insert_application(application)
    }

    /// Bookmark a scholarship for a user, filed as an application in the
    /// `Bookmarked` state; an unknown scholarship reports `NotFound` and
    /// changes nothing.
    pub fn bookmark_scholarship(
        &mut self,
        id: String,
        user_id: String,
        scholarship_id: String,
        now: u64,
    ) -> (r: Result<(), ScholarshipError>)
        requires
            old(self).wf(),
        ensures
            final(self).wf(),
            spec_find_scholarship(old(self).spec_scholarships(), scholarship_id@) is None ==> r
                == Err::<(), ScholarshipError>(ScholarshipError::NotFound) && *final(self) == *old(
                self,
            ),
            spec_find_scholarship(old(self).spec_scholarships(), scholarship_id@) is Some ==> {
                &&& r is Ok
                &&& spec_find_application(final(self).spec_applications(), id@) matches Some(app)
                    && app.deep_view() == (ApplicationStatusView {
                    id: id@,
                    user_id: user_id@,
                    scholarship_id: scholarship_id@,
                    status: Status::Bookmarked,
                    notes: "Bookmarked by user"@,
                    created_at: now,
                    updated_at: now,
                })
                &&& forall|other: Seq<char>|
                    other != id@ ==> spec_find_application(final(self).spec_applications(), other)
                        == spec_find_application(old(self).spec_applications(), other)
                &&& final(self).spec_users() == old(self).spec_users()
                &&& final(self).spec_scholarships() == old(self).spec_scholarships()
                &&& final(self).spec_matches() == old(self).spec_matches()
            },
    {
        let scholarship_known = match self.get_scholarship(&scholarship_id) {
            Some(_) => true,
            None => false,
        };
        if !scholarship_known {
            return Err(ScholarshipError::NotFound);
        }
        let application = ApplicationStatus {
            id,
            user_id,
            scholarship_id,
            status: Status::Bookmarked,
            notes: "Bookmarked by user".to_owned(),
            created_at: now,
            updated_at: now,
        };
        self.insert_application(application)
    }

    /// The top scholarship recommendations for a stored user: the whole
    /// catalog scored, sorted by descending score with ties in catalog
    /// order, cut to the first `top_n`; an unknown user gets none.
    pub fn recommend(
        &self,
        user_id: &String,
        top_n: usize,
        current_year: u32,
        now: u64,
    ) -> (results: Vec<MatchResult>)
        ensures
            match spec_find_user(self.spec_users(), user_id@) {
                Some(user) => results.deep_view() == spec_sort_desc(
                    spec_all_matches(user, self.spec_scholarships(), current_year, now),
                ).take(min(top_n as int, self.spec_scholarships().len() as int)),
                None => results@.len() == 0,
            },
    {
        match self.get_user(user_id) {
            Some(user) => MatchingEngine::get_recommendations(
                user,
                &self.scholarships,
                current_year,
                now,
                top_n,
            ),
            None => Vec::new(),
        }
    }

    /// The good matches for a stored user: every catalog scholarship whose
    /// score exceeds the good-match threshold, in catalog order; an unknown
    /// user gets none.
    pub fn my_matches(&self, user_id: &String, current_year: u32, now: u64) -> (results: Vec<
        MatchResult,
    >)
        ensures
            match spec_find_user(self.spec_users(), user_id@) {
                Some(user) => results.deep_view() == spec_good_matches(
                    spec_all_matches(user, self.spec_scholarships(), current_year, now),
                ),
                None => results@.len() == 0,
            },
    {
        match self.get_user(user_id) {
            Some(user) => MatchingEngine::get_good_matches(
                user,
                &self.scholarships,
                current_year,
                now,
            ),
            None => Vec::new(),
        }
    }

    /// Score one stored user against one stored scholarship, with the full
    /// matched and missing detail; the missing entity is reported first.
    pub fn score_one(
        &self,
        user_id: &String,
        scholarship_id: &String,
        current_year: u32,
        now: u64,
    ) -> (r: Result<MatchResult, ScholarshipError>)
        ensures
            match spec_find_user(self.spec_users(), user_id@) {
                Some(user) => match spec_find_scholarship(
                    self.spec_scholarships(),
                    scholarship_id@,
                ) {
                    Some(scholarship) => r matches Ok(m) && m.deep_view() == spec_match_of(
                        user,
                        scholarship,
                        current_year,
                        now,
                    ),
                    None => r == Err::<MatchResult, ScholarshipError>(ScholarshipError::NotFound),
                },
                None => r == Err::<MatchResult, ScholarshipError>(ScholarshipError::NotFound),
            },
    {
        let user = match self.get_user(user_id) {
            Some(user) => user,
            None => {
                return Err(ScholarshipError::NotFound);
            },
        };
        match self.get_scholarship(scholarship_id) {
            Some(scholarship) => Ok(
                MatchingEngine::calculate_compatibility(user, scholarship, current_year, now),
            ),
            None => Err(ScholarshipError::NotFound),
        }
    }
}

} // verus!

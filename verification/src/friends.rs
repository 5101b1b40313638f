//! The friend list that goes back to clients: which friends are shown,
//! with which picture, and in which order.

use vstd::prelude::*;
use crate::text::{text_less, text_lt, lemma_text_lt_irreflexive, lemma_text_lt_transitive, lemma_text_lt_total, lemma_filter_member};
use crate::text::contains_text;
use crate::user::{User, has_tag, supporter_tag};

verus! {

/// One friend as the friend list shows it.
#[allow(non_snake_case)]
pub struct ResFriend {
    pub currentAvatarThumbnailImageUrl: String,
    pub id: String,
    pub status: String,
    pub location: String,
}

/// The picture shown for `u`: a VRC+ supporter's own icon, else their
/// profile picture override, where set; else the avatar thumbnail. VRC+
/// supporters are told by the `system_supporter` tag, the same tag that
/// adds " VRC+" to a profile's rank.
pub open spec fn friend_picture(u: User) -> String {
    if has_tag(u.tags@, supporter_tag()) && u.userIcon@.len() > 0 {
        u.userIcon
    } else if has_tag(u.tags@, supporter_tag()) && u.profilePicOverride@.len() > 0 {
        u.profilePicOverride
    } else {
        u.currentAvatarThumbnailImageUrl
    }
}

/// The picture a friend is shown with: a friend without the supporter tag
/// always with the avatar thumbnail; a supporter with their icon when it is
/// set, else with their profile picture override when that is set, else
/// with the thumbnail.
pub proof fn lemma_friend_picture(u: User)
    ensures
        !has_tag(u.tags@, supporter_tag()) ==> friend_picture(u) == u.currentAvatarThumbnailImageUrl,
        has_tag(u.tags@, supporter_tag()) && u.userIcon@.len() > 0 ==> friend_picture(u) == u.userIcon,
        has_tag(u.tags@, supporter_tag()) && u.userIcon@.len() == 0 && u.profilePicOverride@.len() > 0
            ==> friend_picture(u) == u.profilePicOverride,
        u.userIcon@.len() == 0 && u.profilePicOverride@.len() == 0 ==> friend_picture(u)
            == u.currentAvatarThumbnailImageUrl,
{
}

/// The list entry for `u`.
pub open spec fn friend_of(u: User) -> ResFriend {
    ResFriend {
        currentAvatarThumbnailImageUrl: friend_picture(u),
        id: u.id,
        status: u.status,
        location: u.location,
    }
}

/// `u` is not offline.
pub open spec fn is_online(u: User) -> bool {
    u.location@ != "offline"@
}

pub open spec fn online_pred() -> spec_fn(User) -> bool {
    |u: User| is_online(u)
}

pub open spec fn entry_fn() -> spec_fn(User) -> ResFriend {
    |u: User| friend_of(u)
}

/// The entries of the friends in `friends` that are not offline, in their order.
pub open spec fn online_entries(friends: Seq<User>) -> Seq<ResFriend> {
    friends.filter(online_pred()).map_values(entry_fn())
}

/// Entries sort by id, `String` order.
pub open spec fn sorted_by_id(s: Seq<ResFriend>) -> bool {
    forall|i: int, j: int| 0 <= i < j < s.len() ==> !text_lt(#[trigger] s[j].id@, #[trigger] s[i].id@)
}

pub open spec fn id_is(k: Seq<char>) -> spec_fn(ResFriend) -> bool {
    |f: ResFriend| f.id@ == k
}

/// `r` is `s` sorted by id by a stable sort: sorted, as long, and holding
/// the entries of each id in the order `s` holds them.
pub open spec fn stable_sort_by_id(r: Seq<ResFriend>, s: Seq<ResFriend>) -> bool {
    &&& sorted_by_id(r)
    &&& r.len() == s.len()
    &&& forall|k: Seq<char>| #[trigger] r.filter(id_is(k)) == s.filter(id_is(k))
}

impl ResFriend {
    /// The list entry for `friend`.
    pub fn from(friend: &User) -> (r: ResFriend)
        ensures
            r == friend_of(*friend),
    {
        let supporter = contains_text(&friend.tags, "system_supporter");
        let img = if supporter && friend.userIcon.as_str().unicode_len() > 0 {
            friend.userIcon.clone()
        } else if supporter && friend.profilePicOverride.as_str().unicode_len() > 0 {
            friend.profilePicOverride.clone()
        } else {
            friend.currentAvatarThumbnailImageUrl.clone()
        };
        ResFriend {
            currentAvatarThumbnailImageUrl: img,
            id: friend.id.clone(),
            status: friend.status.clone(),
            location: friend.location.clone(),
        }
    }
}

/// Inserting `x` after every entry whose id does not sort after it keeps the
/// list sorted.
proof fn lemma_insert_sorted(r: Seq<ResFriend>, p: int, x: ResFriend)
    requires
        sorted_by_id(r),
        0 <= p <= r.len(),
        forall|q: int| 0 <= q < p ==> !text_lt(x.id@, #[trigger] r[q].id@),
        p < r.len() ==> text_lt(x.id@, r[p].id@),
    ensures
        sorted_by_id(r.insert(p, x)),
{
    let n = r.insert(p, x);
    assert forall|a: int, b: int| 0 <= a < b < n.len() implies !text_lt(
        #[trigger] n[b].id@,
        #[trigger] n[a].id@,
    ) by {
        if a < p && b == p {
        } else if a < p && b > p {
            assert(n[b] == r[b - 1]);
        } else if a == p && b > p {
            assert(n[b] == r[b - 1]);
            if text_lt(r[b - 1].id@, x.id@) {
                lemma_text_lt_transitive(r[b - 1].id@, x.id@, r[p].id@);
                if b - 1 == p {
                    lemma_text_lt_irreflexive(r[p].id@);
                }
            }
        } else if a > p {
            assert(n[a] == r[a - 1]);
            assert(n[b] == r[b - 1]);
        }
    }
}

/// Inserting `x` after every entry whose id does not sort after it appends
/// `x` to the entries of its id and leaves the entries of other ids alone.
proof fn lemma_insert_groups(r: Seq<ResFriend>, p: int, x: ResFriend, k: Seq<char>)
    requires
        sorted_by_id(r),
        0 <= p <= r.len(),
        forall|q: int| p <= q < r.len() ==> text_lt(x.id@, #[trigger] r[q].id@),
    ensures
        r.insert(p, x).filter(id_is(k)) == if x.id@ == k {
            r.filter(id_is(k)).push(x)
        } else {
            r.filter(id_is(k))
        },
{
    let f = id_is(k);
    let head = r.take(p);
    let tail = r.skip(p);
    assert(r =~= head + tail);
    assert(r.insert(p, x) =~= (head + seq![x]) + tail);
    Seq::filter_distributes_over_add(head + seq![x], tail, f);
    Seq::filter_distributes_over_add(head, tail, f);
    head.lemma_filter_push(x, f);
    assert(head.push(x) =~= head + seq![x]);
    if x.id@ == k {
        assert forall|q: int| 0 <= q < tail.len() implies !f(#[trigger] tail[q]) by {
            assert(tail[q] == r[p + q]);
            lemma_text_lt_irreflexive(k);
        }
        tail.lemma_all_neg_filter_empty(f);
        assert(tail.filter(f) =~= Seq::<ResFriend>::empty());
        assert(head.filter(f).push(x) + Seq::<ResFriend>::empty() =~= head.filter(f).push(x));
        assert(head.filter(f) + Seq::<ResFriend>::empty() =~= head.filter(f));
    }
}

/// The friend list for `friends`: the friends that are not offline, sorted
/// by id, friends with one id keeping their order.
pub fn modify_friends(friends: &Vec<User>) -> (r: Vec<ResFriend>)
    ensures
        stable_sort_by_id(r@, online_entries(friends@)),
{
    let mut r: Vec<ResFriend> = Vec::new();
    let offline = String::from_str("offline");
    let mut i: usize = 0;
    proof {
        assert(friends@.take(0) =~= Seq::<User>::empty());
        assert(online_entries(Seq::<User>::empty()) =~= Seq::<ResFriend>::empty()) by {
            reveal(Seq::filter);
        }
    }
    while i < friends.len()
        invariant
            i <= friends.len(),
            offline@ == "offline"@,
            stable_sort_by_id(r@, online_entries(friends@.take(i as int))),
        decreases friends.len() - i,
    {
        let ghost before = online_entries(friends@.take(i as int));
        let u = &friends[i];
        proof {
            assert(friends@.take(i + 1) =~= friends@.take(i as int).push(*u));
            friends@.take(i as int).lemma_filter_push(*u, online_pred());
        }
        if !(u.location == offline) {
            let x = ResFriend::from(u);
            let mut p: usize = 0;
            while p < r.len() && !text_less(x.id.as_str(), r[p].id.as_str())
                invariant
                    p <= r.len(),
                    forall|q: int| 0 <= q < p ==> !text_lt(x.id@, #[trigger] r@[q].id@),
                decreases r.len() - p,
            {
                p = p + 1;
            }
            proof {
                assert forall|q: int| p <= q < r@.len() implies text_lt(x.id@, #[trigger] r@[q].id@) by {
                    if q > p {
                        assert(!text_lt(r@[q].id@, r@[p as int].id@));
                        crate::text::lemma_text_lt_total(r@[q].id@, r@[p as int].id@);
                        if r@[q].id@ != r@[p as int].id@ {
                            lemma_text_lt_transitive(x.id@, r@[p as int].id@, r@[q].id@);
                        }
                    }
                }
                lemma_insert_sorted(r@, p as int, x);
                let after = online_entries(friends@.take(i + 1));
                let fl = friends@.take(i as int).filter(online_pred());
                fl.lemma_push_map_commute(entry_fn(), *u);
                assert(after =~= before.push(x));
                assert forall|k: Seq<char>| #[trigger] r@.insert(p as int, x).filter(id_is(k))
                    == after.filter(id_is(k)) by {
                    lemma_insert_groups(r@, p as int, x, k);
                    before.lemma_filter_push(x, id_is(k));
                }
            }
            r.insert(p, x);
        } else {
            proof {
                assert(online_entries(friends@.take(i + 1)) =~= before);
            }
        }
        i = i + 1;
    }
    proof {
        assert(friends@.take(friends@.len() as int) =~= friends@);
    }
    r
}

/// What a client that asks for its friend list is told: the list for the
/// friends kept under its credentials, or that it is not signed in.
pub fn friends_for(found: Option<&Vec<User>>) -> (r: Result<Vec<ResFriend>, String>)
    ensures
        match found {
            Some(friends) => r matches Ok(list) && stable_sort_by_id(list@, online_entries(friends@)),
            None => r matches Err(msg) && msg@ == "failed to auth."@,
        },
{
    match found {
        Some(friends) => Ok(modify_friends(friends)),
        None => Err(String::from_str("failed to auth.")),
    }
}

/// `x` is the entry of a friend in `friends` that is not offline.
pub open spec fn is_entry_of_online(x: ResFriend, friends: Seq<User>) -> bool {
    exists|j: int| 0 <= j < friends.len() && is_online(friends[j]) && x == friend_of(friends[j])
}

/// Every entry of the friend list is the entry of a friend that is not
/// offline, and each such friend has an entry.
pub proof fn lemma_friend_list_entries(r: Seq<ResFriend>, friends: Seq<User>)
    requires
        stable_sort_by_id(r, online_entries(friends)),
    ensures
        forall|i: int| 0 <= i < r.len() ==> is_entry_of_online(#[trigger] r[i], friends),
        forall|j: int| 0 <= j < friends.len() && is_online(#[trigger] friends[j]) ==> r.contains(friend_of(friends[j])),
{
    let s = online_entries(friends);
    let on = friends.filter(online_pred());
    broadcast use Seq::lemma_filter_pred, Seq::lemma_filter_contains;
    assert forall|i: int| 0 <= i < r.len() implies is_entry_of_online(#[trigger] r[i], friends) by {
        let k = r[i].id@;
        let f = id_is(k);
        r.lemma_filter_contains(f, i);
        assert(s.filter(f).contains(r[i]));
        lemma_filter_member(s, f, r[i]);
        let q = choose|q: int| 0 <= q < s.len() && s[q] == r[i];
        assert(s[q] == friend_of(on[q]));
        assert(on.contains(on[q]));
        lemma_filter_member(friends, online_pred(), on[q]);
        friends.lemma_filter_pred(online_pred(), q);
        let j = choose|j: int| 0 <= j < friends.len() && friends[j] == on[q];
        assert(is_online(friends[j]));
        assert(r[i] == friend_of(friends[j]));
    }
    assert forall|j: int| 0 <= j < friends.len() && is_online(#[trigger] friends[j]) implies r.contains(friend_of(friends[j])) by {
        friends.lemma_filter_contains(online_pred(), j);
        let q = choose|q: int| 0 <= q < on.len() && on[q] == friends[j];
        let x = friend_of(friends[j]);
        assert(s[q] == x);
        let f = id_is(x.id@);
        s.lemma_filter_contains(f, q);
        assert(r.filter(f).contains(x));
        lemma_filter_member(r, f, x);
    }
}

/// Two lists sorted by id and holding the entries of each id in one order
/// are the same list.
proof fn lemma_sorted_groups_unique(r1: Seq<ResFriend>, r2: Seq<ResFriend>)
    requires
        sorted_by_id(r1),
        sorted_by_id(r2),
        forall|k: Seq<char>| #[trigger] r1.filter(id_is(k)) == r2.filter(id_is(k)),
    ensures
        r1 == r2,
    decreases r1.len(),
{
    if r1.len() == 0 || r2.len() == 0 {
        reveal(Seq::filter);
        if r2.len() > 0 {
            let y = r2[0];
            assert(r2 =~= seq![y] + r2.drop_first());
            r2.drop_first().lemma_filter_prepend(y, id_is(y.id@));
            assert(r1.filter(id_is(y.id@)).len() == 0);
        }
        if r1.len() > 0 {
            let x = r1[0];
            assert(r1 =~= seq![x] + r1.drop_first());
            r1.drop_first().lemma_filter_prepend(x, id_is(x.id@));
            assert(r2.filter(id_is(x.id@)).len() == 0);
        }
        assert(r1 =~= r2);
    } else {
        let x = r1[0];
        let y = r2[0];
        let t1 = r1.drop_first();
        let t2 = r2.drop_first();
        assert(r1 =~= seq![x] + t1);
        assert(r2 =~= seq![y] + t2);
        // y's id does not sort before x's, nor x's before y's
        let fx = id_is(x.id@);
        t1.lemma_filter_prepend(x, fx);
        assert(r2.filter(fx).len() > 0);
        let e = r2.filter(fx)[0];
        r2.lemma_filter_pred(fx, 0);
        assert(r2.filter(fx).contains(e));
        lemma_filter_member(r2, fx, e);
        let j = choose|j: int| 0 <= j < r2.len() && r2[j] == e;
        if j > 0 {
            assert(!text_lt(r2[j].id@, r2[0].id@));
        } else {
            lemma_text_lt_irreflexive(y.id@);
        }
        let fy = id_is(y.id@);
        t2.lemma_filter_prepend(y, fy);
        assert(r1.filter(fy).len() > 0);
        let d = r1.filter(fy)[0];
        r1.lemma_filter_pred(fy, 0);
        assert(r1.filter(fy).contains(d));
        lemma_filter_member(r1, fy, d);
        let i = choose|i: int| 0 <= i < r1.len() && r1[i] == d;
        if i > 0 {
            assert(!text_lt(r1[i].id@, r1[0].id@));
        } else {
            lemma_text_lt_irreflexive(x.id@);
        }
        lemma_text_lt_total(x.id@, y.id@);
        assert(x.id@ == y.id@);
        // so the groups of that id both start with them
        t2.lemma_filter_prepend(y, fx);
        assert((seq![x] + t1.filter(fx))[0] == x);
        assert((seq![y] + t2.filter(fx))[0] == y);
        assert(x == y);
        assert forall|k: Seq<char>| #[trigger] t1.filter(id_is(k)) == t2.filter(id_is(k)) by {
            t1.lemma_filter_prepend(x, id_is(k));
            t2.lemma_filter_prepend(y, id_is(k));
            let a = r1.filter(id_is(k));
            if x.id@ == k {
                assert(t1.filter(id_is(k)) =~= a.drop_first());
                assert(t2.filter(id_is(k)) =~= a.drop_first());
            } else {
                assert(Seq::<ResFriend>::empty() + t1.filter(id_is(k)) =~= t1.filter(id_is(k)));
                assert(Seq::<ResFriend>::empty() + t2.filter(id_is(k)) =~= t2.filter(id_is(k)));
            }
        }
        assert forall|a: int, b: int| 0 <= a < b < t1.len() implies !text_lt(
            #[trigger] t1[b].id@,
            #[trigger] t1[a].id@,
        ) by {
            assert(t1[a] == r1[a + 1] && t1[b] == r1[b + 1]);
        }
        assert forall|a: int, b: int| 0 <= a < b < t2.len() implies !text_lt(
            #[trigger] t2[b].id@,
            #[trigger] t2[a].id@,
        ) by {
            assert(t2[a] == r2[a + 1] && t2[b] == r2[b + 1]);
        }
        lemma_sorted_groups_unique(t1, t2);
    }
}

/// The friend list is fully determined: two lists that both meet the
/// contract of `modify_friends` for the same friends are the same.
pub proof fn lemma_friend_list_unique(r1: Seq<ResFriend>, r2: Seq<ResFriend>, friends: Seq<User>)
    requires
        stable_sort_by_id(r1, online_entries(friends)),
        stable_sort_by_id(r2, online_entries(friends)),
    ensures
        r1 == r2,
{
    assert forall|k: Seq<char>| #[trigger] r1.filter(id_is(k)) == r2.filter(id_is(k)) by {
        assert(r1.filter(id_is(k)) == online_entries(friends).filter(id_is(k)));
    }
    lemma_sorted_groups_unique(r1, r2);
}

/// No two users in `s` share an id.
pub open spec fn distinct_ids(s: Seq<User>) -> bool {
    forall|i: int, j: int| 0 <= i < s.len() && 0 <= j < s.len() && i != j ==> s[i].id@ != s[j].id@
}

pub open spec fn online_with_id(k: Seq<char>) -> spec_fn(User) -> bool {
    |u: User| is_online(u) && u.id@ == k
}

/// The entries of one id are the entries of the online friends with that id.
proof fn lemma_entries_with_id(f: Seq<User>, k: Seq<char>)
    ensures
        online_entries(f).filter(id_is(k)) == f.filter(online_with_id(k)).map_values(entry_fn()),
    decreases f.len(),
{
    if f.len() == 0 {
        reveal(Seq::filter);
        assert(online_entries(f).filter(id_is(k)) =~= f.filter(online_with_id(k)).map_values(
            entry_fn(),
        ));
    } else {
        let d = f.drop_last();
        let u = f.last();
        lemma_entries_with_id(d, k);
        assert(d.push(u) =~= f);
        d.lemma_filter_push(u, online_pred());
        d.lemma_filter_push(u, online_with_id(k));
        if is_online(u) {
            d.filter(online_pred()).lemma_push_map_commute(entry_fn(), u);
            online_entries(d).lemma_filter_push(friend_of(u), id_is(k));
            if u.id@ == k {
                d.filter(online_with_id(k)).lemma_push_map_commute(entry_fn(), u);
            }
        }
    }
}

/// Filtering keeps nothing when nothing passes.
proof fn lemma_filter_none<A>(s: Seq<A>, p: spec_fn(A) -> bool)
    requires
        forall|j: int| 0 <= j < s.len() ==> !p(#[trigger] s[j]),
    ensures
        s.filter(p) == Seq::<A>::empty(),
    decreases s.len(),
{
    reveal(Seq::filter);
    if s.len() > 0 {
        assert forall|j: int| 0 <= j < s.drop_last().len() implies !p(#[trigger] s.drop_last()[j]) by {
            assert(s.drop_last()[j] == s[j]);
        }
        lemma_filter_none(s.drop_last(), p);
        assert(!p(s[s.len() - 1]));
    }
    assert(s.filter(p) =~= Seq::<A>::empty());
}

/// Among users with distinct ids, the one online user with id `k` is all
/// that the filter for it keeps.
proof fn lemma_unique_with_id(f: Seq<User>, k: Seq<char>, i: int)
    requires
        distinct_ids(f),
        0 <= i < f.len(),
        online_with_id(k)(f[i]),
    ensures
        f.filter(online_with_id(k)) == seq![f[i]],
    decreases f.len(),
{
    let p = online_with_id(k);
    let d = f.drop_last();
    let u = f.last();
    assert(d.push(u) =~= f);
    d.lemma_filter_push(u, p);
    if i == f.len() - 1 {
        assert forall|j: int| 0 <= j < d.len() implies !p(#[trigger] d[j]) by {
            assert(d[j] == f[j]);
        }
        lemma_filter_none(d, p);
        assert(Seq::<User>::empty().push(u) =~= seq![f[i]]);
    } else {
        assert(!p(u));
        assert forall|a: int, b: int| 0 <= a < d.len() && 0 <= b < d.len() && a != b implies d[a].id@
            != d[b].id@ by {
            assert(d[a] == f[a] && d[b] == f[b]);
        }
        assert(d[i] == f[i]);
        lemma_unique_with_id(d, k, i);
    }
}

/// A permutation of users with distinct ids has distinct ids and holds the
/// same users.
proof fn lemma_permutation_distinct(f: Seq<User>, g: Seq<User>)
    requires
        distinct_ids(f),
        f.to_multiset() == g.to_multiset(),
    ensures
        distinct_ids(g),
        forall|u: User| f.contains(u) == g.contains(u),
{
    f.to_multiset_ensures();
    g.to_multiset_ensures();
    assert(f.no_duplicates());
    f.lemma_multiset_has_no_duplicates();
    g.lemma_multiset_has_no_duplicates_conv();
    assert forall|u: User| f.contains(u) == g.contains(u) by {
        if f.contains(u) {
            assert(f.to_multiset().count(u) > 0);
        }
        if g.contains(u) {
            assert(g.to_multiset().count(u) > 0);
        }
    }
    assert forall|i: int, j: int| 0 <= i < g.len() && 0 <= j < g.len() && i != j implies g[i].id@
        != g[j].id@ by {
        assert(g.contains(g[i]));
        assert(g.contains(g[j]));
        assert(g.to_multiset().count(g[i]) > 0);
        assert(g.to_multiset().count(g[j]) > 0);
        assert(f.to_multiset().count(g[i]) > 0);
        assert(f.to_multiset().count(g[j]) > 0);
        assert(f.contains(g[i]));
        assert(f.contains(g[j]));
        let a = choose|a: int| 0 <= a < f.len() && f[a] == g[i];
        let b = choose|b: int| 0 <= b < f.len() && f[b] == g[j];
    }
}

/// Among friends with distinct ids, the order in which they are given does
/// not change the friend list: a permutation of them gets the same list.
pub proof fn lemma_friend_list_permutation(
    r1: Seq<ResFriend>,
    r2: Seq<ResFriend>,
    f: Seq<User>,
    g: Seq<User>,
)
    requires
        distinct_ids(f),
        f.to_multiset() == g.to_multiset(),
        stable_sort_by_id(r1, online_entries(f)),
        stable_sort_by_id(r2, online_entries(g)),
    ensures
        r1 == r2,
{
    lemma_permutation_distinct(f, g);
    assert forall|k: Seq<char>| #[trigger] r1.filter(id_is(k)) == r2.filter(id_is(k)) by {
        lemma_entries_with_id(f, k);
        lemma_entries_with_id(g, k);
        let p = online_with_id(k);
        if exists|i: int| 0 <= i < f.len() && p(f[i]) {
            let i = choose|i: int| 0 <= i < f.len() && p(f[i]);
            assert(f.contains(f[i]));
            assert(g.contains(f[i]));
            let j = choose|j: int| 0 <= j < g.len() && g[j] == f[i];
            lemma_unique_with_id(f, k, i);
            lemma_unique_with_id(g, k, j);
        } else {
            assert forall|j: int| 0 <= j < g.len() implies !p(#[trigger] g[j]) by {
                assert(g.contains(g[j]));
                assert(f.contains(g[j]));
                let i = choose|i: int| 0 <= i < f.len() && f[i] == g[j];
            }
            lemma_filter_none(f, p);
            lemma_filter_none(g, p);
        }
    }
    lemma_sorted_groups_unique(r1, r2);
}

} // verus!

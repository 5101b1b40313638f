//! Profiles of VRChat users as this service keeps them, and the profile
//! answer (`ResUser`) that goes back to clients.

use vstd::prelude::*;
use crate::text::{has_text, texts, contains_text, lemma_filter_member};
use crate::session::FriendLists;
use crate::sanitize::{unsanitized, unsanitized_text};

verus! {

/// A VRChat user as the service keeps it.
#[allow(non_snake_case)]
pub struct User {
    pub bio: String,
    pub bioLinks: Vec<String>,
    pub currentAvatarThumbnailImageUrl: String,
    pub displayName: String,
    pub id: String,
    pub isFriend: bool,
    pub location: String,
    pub travelingToLocation: Option<String>,
    pub status: String,
    pub statusDescription: String,
    pub tags: Vec<String>,
    pub userIcon: String,
    pub profilePicOverride: String,
}

/// `tags` holds `tag`.
pub open spec fn has_tag(tags: Seq<String>, tag: Seq<char>) -> bool {
    has_text(tags, tag)
}

/// The tag that VRChat gives to VRC+ supporters.
pub open spec fn supporter_tag() -> Seq<char> {
    "system_supporter"@
}

/// A copy of `v` with the same contents.
pub fn copy_texts(v: &Vec<String>) -> (r: Vec<String>)
    ensures
        r@ == v@,
{
    let r = v.clone();
    proof {
        assert forall|i: int| 0 <= i < v.len() implies r@[i] == v@[i] by {
            assert(cloned::<String>(v[i], r[i]));
        }
        assert(r@ =~= v@);
    }
    r
}

/// A copy of an optional `String`, equal to it.
pub fn copy_optional(s: &Option<String>) -> (r: Option<String>)
    ensures
        r == *s,
{
    match s {
        Some(t) => Some(t.clone()),
        None => None,
    }
}

/// The profile answer for one user.
#[allow(non_snake_case)]
pub struct ResUser {
    pub id: String,
    pub bio: String,
    pub bioLinks: Vec<String>,
    pub currentAvatarThumbnailImageUrl: String,
    pub displayName: String,
    pub isFriend: bool,
    pub location: String,
    pub travelingToLocation: Option<String>,
    pub status: String,
    pub statusDescription: String,
    pub rank: String,
    pub userIcon: String,
    pub profilePicOverride: String,
}

/// The rank that a trust tag stands for, if it is one.
pub open spec fn rank_name(tag: Seq<char>) -> Option<Seq<char>> {
    if tag == "system_trust_veteran"@ {
        Some("Trusted"@)
    } else if tag == "system_trust_trusted"@ {
        Some("Known"@)
    } else if tag == "system_trust_known"@ {
        Some("User"@)
    } else if tag == "system_trust_basic"@ {
        Some("New User"@)
    } else if tag == "system_troll"@ {
        Some("Troll"@)
    } else {
        None
    }
}

/// The rank of the last trust tag in `tags`, if any.
pub open spec fn trust_rank(tags: Seq<Seq<char>>) -> Option<Seq<char>>
    decreases tags.len(),
{
    if tags.len() == 0 {
        None
    } else {
        match rank_name(tags.last()) {
            Some(r) => Some(r),
            None => trust_rank(tags.drop_last()),
        }
    }
}

/// The rank shown for a user with `tags`: that of their last trust tag, or
/// "Visitor"; with " VRC+" after it for supporters.
pub open spec fn rank_of(tags: Seq<String>) -> Seq<char> {
    let base = match trust_rank(texts(tags)) {
        Some(r) => r,
        None => "Visitor"@,
    };
    if has_tag(tags, supporter_tag()) {
        base + " VRC+"@
    } else {
        base
    }
}

/// `r` is the profile answer for `u`.
pub open spec fn shows(r: ResUser, u: User) -> bool {
    &&& r.id == u.id
    &&& r.bio == u.bio
    &&& r.bioLinks@ == u.bioLinks@
    &&& r.currentAvatarThumbnailImageUrl == u.currentAvatarThumbnailImageUrl
    &&& r.displayName == u.displayName
    &&& r.isFriend == u.isFriend
    &&& r.location == u.location
    &&& r.travelingToLocation == u.travelingToLocation
    &&& r.status == u.status
    &&& r.statusDescription == u.statusDescription
    &&& r.rank@ == rank_of(u.tags@)
    &&& r.userIcon == u.userIcon
    &&& r.profilePicOverride == u.profilePicOverride
}

/// `r` is the profile answer for `u` with the text the user wrote (bio,
/// display name, status description) unsanitized.
pub open spec fn shows_plain(r: ResUser, u: User) -> bool {
    &&& r.id == u.id
    &&& r.bio@ == unsanitized(u.bio@)
    &&& r.bioLinks@ == u.bioLinks@
    &&& r.currentAvatarThumbnailImageUrl == u.currentAvatarThumbnailImageUrl
    &&& r.displayName@ == unsanitized(u.displayName@)
    &&& r.isFriend == u.isFriend
    &&& r.location == u.location
    &&& r.travelingToLocation == u.travelingToLocation
    &&& r.status == u.status
    &&& r.statusDescription@ == unsanitized(u.statusDescription@)
    &&& r.rank@ == rank_of(u.tags@)
    &&& r.userIcon == u.userIcon
    &&& r.profilePicOverride == u.profilePicOverride
}

/// `after` is `before` with the text the user wrote unsanitized.
pub open spec fn unsanitized_user(after: User, before: User) -> bool {
    &&& after.bio@ == unsanitized(before.bio@)
    &&& after.bioLinks == before.bioLinks
    &&& after.currentAvatarThumbnailImageUrl == before.currentAvatarThumbnailImageUrl
    &&& after.displayName@ == unsanitized(before.displayName@)
    &&& after.id == before.id
    &&& after.isFriend == before.isFriend
    &&& after.location == before.location
    &&& after.travelingToLocation == before.travelingToLocation
    &&& after.status == before.status
    &&& after.statusDescription@ == unsanitized(before.statusDescription@)
    &&& after.tags == before.tags
    &&& after.userIcon == before.userIcon
    &&& after.profilePicOverride == before.profilePicOverride
}

/// Undoes VRChat's sanitizing of the text `user` wrote: bio, display name
/// and status description.
pub fn unsanitize(user: &mut User)
    ensures
        unsanitized_user(*final(user), *old(user)),
{
    let bio = unsanitized_text(user.bio.as_str());
    user.bio = bio;
    let name = unsanitized_text(user.displayName.as_str());
    user.displayName = name;
    let status = unsanitized_text(user.statusDescription.as_str());
    user.statusDescription = status;
}

/// The rank that `tag` stands for, if it is a trust tag.
fn rank_name_of(tag: &String) -> (r: Option<&'static str>)
    ensures
        r is Some == rank_name(tag@) is Some,
        r is Some ==> r->0@ == rank_name(tag@)->0,
{
    if *tag == String::from_str("system_trust_veteran") {
        Some("Trusted")
    } else if *tag == String::from_str("system_trust_trusted") {
        Some("Known")
    } else if *tag == String::from_str("system_trust_known") {
        Some("User")
    } else if *tag == String::from_str("system_trust_basic") {
        Some("New User")
    } else if *tag == String::from_str("system_troll") {
        Some("Troll")
    } else {
        None
    }
}

/// A tag that the rank depends on: a trust tag or the supporter tag.
pub open spec fn rank_relevant(tag: Seq<char>) -> bool {
    rank_name(tag) is Some || tag == supporter_tag()
}

pub open spec fn rank_relevant_pred() -> spec_fn(Seq<char>) -> bool {
    |t: Seq<char>| rank_relevant(t)
}

/// The trust rank of a tag list is that of its rank-relevant tags.
proof fn lemma_trust_rank_filter(ts: Seq<Seq<char>>)
    ensures
        trust_rank(ts) == trust_rank(ts.filter(rank_relevant_pred())),
    decreases ts.len(),
{
    if ts.len() > 0 {
        let f = rank_relevant_pred();
        lemma_trust_rank_filter(ts.drop_last());
        assert(ts.drop_last().push(ts.last()) =~= ts);
        ts.drop_last().lemma_filter_push(ts.last(), f);
        if f(ts.last()) {
            let p = ts.drop_last().filter(f).push(ts.last());
            assert(p.last() == ts.last());
            assert(p.drop_last() =~= ts.drop_last().filter(f));
        }
    } else {
        reveal(Seq::filter);
    }
}

/// A rank-relevant tag is among the tags exactly when it is among the
/// rank-relevant ones.
proof fn lemma_relevant_contains(ts: Seq<Seq<char>>, x: Seq<char>)
    requires
        rank_relevant(x),
    ensures
        ts.contains(x) == ts.filter(rank_relevant_pred()).contains(x),
{
    let f = rank_relevant_pred();
    if ts.contains(x) {
        let i = choose|i: int| 0 <= i < ts.len() && ts[i] == x;
        ts.lemma_filter_contains(f, i);
    }
    if ts.filter(f).contains(x) {
        lemma_filter_member(ts, f, x);
    }
}

/// The rank depends on the rank-relevant tags alone, in their order: tags
/// of any other kind, wherever they stand, leave it unchanged.
pub proof fn lemma_rank_ignores_unrelated_tags(a: Seq<String>, b: Seq<String>)
    requires
        texts(a).filter(rank_relevant_pred()) == texts(b).filter(rank_relevant_pred()),
    ensures
        rank_of(a) == rank_of(b),
{
    lemma_trust_rank_filter(texts(a));
    lemma_trust_rank_filter(texts(b));
    lemma_relevant_contains(texts(a), supporter_tag());
    lemma_relevant_contains(texts(b), supporter_tag());
}

/// Inserting a tag that is neither a trust tag nor the supporter tag, at any
/// position, leaves the rank unchanged.
pub proof fn lemma_rank_insert_unrelated(tags: Seq<String>, i: int, tag: String)
    requires
        0 <= i <= tags.len(),
        !rank_relevant(tag@),
    ensures
        rank_of(tags.insert(i, tag)) == rank_of(tags),
{
    let f = rank_relevant_pred();
    let t = texts(tags);
    let head = t.take(i);
    let tail = t.skip(i);
    assert(texts(tags.insert(i, tag)) =~= (head + seq![tag@]) + tail);
    assert(t =~= head + tail);
    Seq::filter_distributes_over_add(head + seq![tag@], tail, f);
    Seq::filter_distributes_over_add(head, tail, f);
    head.lemma_filter_push(tag@, f);
    assert(head.push(tag@) =~= head + seq![tag@]);
    lemma_rank_ignores_unrelated_tags(tags.insert(i, tag), tags);
}

/// `tags` without any supporter tag.
pub open spec fn without_supporter(tags: Seq<String>) -> Seq<String> {
    tags.filter(|t: String| t@ != supporter_tag())
}

/// The supporter tag is no trust tag.
proof fn lemma_supporter_not_rank()
    ensures
        rank_name(supporter_tag()) is None,
{
    reveal_strlit("system_supporter");
    reveal_strlit("system_trust_veteran");
    reveal_strlit("system_trust_trusted");
    reveal_strlit("system_trust_known");
    reveal_strlit("system_trust_basic");
    reveal_strlit("system_troll");
    assert(supporter_tag().len() == 16);
    assert("system_trust_veteran"@.len() == 20);
    assert("system_trust_trusted"@.len() == 20);
    assert("system_trust_known"@.len() == 18);
    assert("system_trust_basic"@.len() == 18);
    assert("system_troll"@.len() == 12);
}

/// Taking the supporter tags out keeps the trust rank and leaves no
/// supporter tag.
proof fn lemma_trust_rank_without_supporter(tags: Seq<String>)
    ensures
        trust_rank(texts(tags)) == trust_rank(texts(without_supporter(tags))),
        !has_tag(without_supporter(tags), supporter_tag()),
    decreases tags.len(),
{
    let p = |t: String| t@ != supporter_tag();
    let w = without_supporter(tags);
    if tags.len() == 0 {
        reveal(Seq::filter);
        assert(texts(w) =~= Seq::<Seq<char>>::empty());
    } else {
        let d = tags.drop_last();
        let x = tags.last();
        lemma_trust_rank_without_supporter(d);
        assert(d.push(x) =~= tags);
        d.lemma_filter_push(x, p);
        assert(texts(tags) =~= texts(d).push(x@));
        assert(texts(tags).drop_last() =~= texts(d));
        lemma_supporter_not_rank();
        if x@ != supporter_tag() {
            assert(texts(w) =~= texts(without_supporter(d)).push(x@));
            assert(texts(w).drop_last() =~= texts(without_supporter(d)));
        }
        assert forall|i: int| 0 <= i < texts(w).len() implies texts(w)[i] != supporter_tag() by {
            tags.lemma_filter_pred(p, i);
        }
    }
}

/// The rank ends in " VRC+" exactly for supporters, wherever their
/// supporter tag stands: a supporter's rank is the rank of their tags
/// without the supporter tag, followed by " VRC+".
pub proof fn lemma_rank_supporter_suffix(tags: Seq<String>)
    requires
        has_tag(tags, supporter_tag()),
    ensures
        rank_of(tags) == rank_of(without_supporter(tags)) + " VRC+"@,
{
    lemma_trust_rank_without_supporter(tags);
}

/// The trust rank of any tags is one of the five rank names.
proof fn lemma_trust_rank_names(ts: Seq<Seq<char>>)
    ensures
        trust_rank(ts) matches Some(r) ==> (r == "Trusted"@ || r == "Known"@ || r == "User"@ || r
            == "New User"@ || r == "Troll"@),
    decreases ts.len(),
{
    if ts.len() > 0 {
        lemma_trust_rank_names(ts.drop_last());
    }
}

/// Without the supporter tag the rank is just one of the six rank names,
/// with nothing after it.
pub proof fn lemma_rank_names(tags: Seq<String>)
    requires
        !has_tag(tags, supporter_tag()),
    ensures
        rank_of(tags) == "Trusted"@ || rank_of(tags) == "Known"@ || rank_of(tags) == "User"@
            || rank_of(tags) == "New User"@ || rank_of(tags) == "Troll"@ || rank_of(tags)
            == "Visitor"@,
{
    lemma_trust_rank_names(texts(tags));
}

/// The rank shown for a user with `tags`.
pub fn rank_from_tags(tags: &Vec<String>) -> (r: String)
    ensures
        r@ == rank_of(tags@),
{
    let ghost all = texts(tags@);
    let mut i: usize = tags.len();
    let mut found: Option<&'static str> = None;
    proof {
        assert(all.take(all.len() as int) =~= all);
    }
    while i > 0 && found.is_none()
        invariant
            i <= tags.len(),
            all == texts(tags@),
            found is None ==> trust_rank(all) == trust_rank(all.take(i as int)),
            found is Some ==> trust_rank(all) == Some(found->0@),
        decreases i,
    {
        i = i - 1;
        let named = rank_name_of(&tags[i]);
        proof {
            let t = all.take(i + 1);
            assert(t.last() == tags@[i as int]@);
            assert(t.drop_last() =~= all.take(i as int));
        }
        found = named;
    }
    let mut rank = match found {
        Some(r) => String::from_str(r),
        None => {
            proof {
                assert(all.take(0) =~= Seq::<Seq<char>>::empty());
            }
            String::from_str("Visitor")
        },
    };
    if contains_text(tags, "system_supporter") {
        rank.append(" VRC+");
    }
    rank
}

impl ResUser {
    /// The profile answer for `user`, with its fields as given.
    pub fn from(user: User) -> (r: ResUser)
        ensures
            shows(r, user),
    {
        let rank = rank_from_tags(&user.tags);
        ResUser {
            id: user.id,
            bio: user.bio,
            bioLinks: user.bioLinks,
            currentAvatarThumbnailImageUrl: user.currentAvatarThumbnailImageUrl,
            displayName: user.displayName,
            isFriend: user.isFriend,
            location: user.location,
            travelingToLocation: user.travelingToLocation,
            status: user.status,
            statusDescription: user.statusDescription,
            rank,
            userIcon: user.userIcon,
            profilePicOverride: user.profilePicOverride,
        }
    }

    /// The answer with a profile fetched from VRChat: unsanitized, then
    /// turned into the profile answer.
    pub fn from_fetched(user: User) -> (r: ResUser)
        ensures
            shows_plain(r, user),
    {
        let mut user = user;
        unsanitize(&mut user);
        ResUser::from(user)
    }

    /// The answer with the client's own kept profile, unsanitized.
    pub fn from_kept_plain(user: &User) -> (r: ResUser)
        ensures
            shows_plain(r, *user),
    {
        let mut r = ResUser::from_kept(user);
        let bio = unsanitized_text(r.bio.as_str());
        r.bio = bio;
        let name = unsanitized_text(r.displayName.as_str());
        r.displayName = name;
        let status = unsanitized_text(r.statusDescription.as_str());
        r.statusDescription = status;
        r
    }

    /// The profile answer for a user kept by the service.
    pub fn from_kept(user: &User) -> (r: ResUser)
        ensures
            shows(r, *user),
    {
        let rank = rank_from_tags(&user.tags);
        ResUser {
            id: user.id.clone(),
            bio: user.bio.clone(),
            bioLinks: copy_texts(&user.bioLinks),
            currentAvatarThumbnailImageUrl: user.currentAvatarThumbnailImageUrl.clone(),
            displayName: user.displayName.clone(),
            isFriend: user.isFriend,
            location: user.location.clone(),
            travelingToLocation: copy_optional(&user.travelingToLocation),
            status: user.status.clone(),
            statusDescription: user.statusDescription.clone(),
            rank,
            userIcon: user.userIcon.clone(),
            profilePicOverride: user.profilePicOverride.clone(),
        }
    }
}

/// Position of the first user in `s` with id `id`, or `s.len()` when none has it.
pub open spec fn index_of_id(s: Seq<User>, id: Seq<char>) -> nat
    decreases s.len(),
{
    if s.len() == 0 {
        0
    } else if s[0].id@ == id {
        0
    } else {
        1 + index_of_id(s.drop_first(), id)
    }
}

pub proof fn lemma_index_of_id(s: Seq<User>, id: Seq<char>, i: int)
    requires
        0 <= i <= s.len(),
        forall|j: int| 0 <= j < i ==> (#[trigger] s[j]).id@ != id,
        i == s.len() || s[i].id@ == id,
    ensures
        index_of_id(s, id) == i,
    decreases s.len(),
{
    if s.len() > 0 && i > 0 {
        assert forall|j: int| 0 <= j < i - 1 implies (#[trigger] s.drop_first()[j]).id@ != id by {
            assert(s.drop_first()[j] == s[j + 1]);
        }
        lemma_index_of_id(s.drop_first(), id, i - 1);
    }
}

pub proof fn lemma_index_of_id_bounds(s: Seq<User>, id: Seq<char>)
    ensures
        index_of_id(s, id) <= s.len(),
        index_of_id(s, id) < s.len() ==> s[index_of_id(s, id) as int].id@ == id,
        forall|j: int| 0 <= j < index_of_id(s, id) ==> (#[trigger] s[j]).id@ != id,
    decreases s.len(),
{
    if s.len() > 0 && s[0].id@ != id {
        lemma_index_of_id_bounds(s.drop_first(), id);
        let k = index_of_id(s.drop_first(), id);
        assert forall|j: int| 0 <= j < index_of_id(s, id) implies (#[trigger] s[j]).id@ != id by {
            if j > 0 {
                assert(s[j] == s.drop_first()[j - 1]);
            }
        }
        if k < s.drop_first().len() {
            assert(s[k as int + 1] == s.drop_first()[k as int]);
        }
    }
}

/// Searching two lists one after the other is searching their concatenation.
pub proof fn lemma_index_of_id_concat(a: Seq<User>, b: Seq<User>, id: Seq<char>)
    ensures
        index_of_id(a + b, id) == if index_of_id(a, id) < a.len() {
            index_of_id(a, id)
        } else {
            a.len() + index_of_id(b, id)
        },
{
    lemma_index_of_id_bounds(a, id);
    lemma_index_of_id_bounds(b, id);
    let ab = a + b;
    let ia = index_of_id(a, id);
    if ia < a.len() {
        assert forall|j: int| 0 <= j < ia implies (#[trigger] ab[j]).id@ != id by {
            assert(ab[j] == a[j]);
        }
        assert(ab[ia as int] == a[ia as int]);
        lemma_index_of_id(ab, id, ia as int);
    } else {
        let ib = index_of_id(b, id);
        let t = (a.len() + ib) as int;
        assert forall|j: int| 0 <= j < t implies (#[trigger] ab[j]).id@ != id by {
            if j < a.len() {
                assert(ab[j] == a[j]);
            } else {
                assert(ab[j] == b[j - a.len()]);
            }
        }
        if ib < b.len() {
            assert(ab[t] == b[ib as int]);
        }
        lemma_index_of_id(ab, id, t);
    }
}

/// The position of the first user in `list` with id `id`, or its length.
pub fn find_by_id(list: &Vec<User>, id: &String) -> (r: usize)
    ensures
        r == index_of_id(list@, id@),
{
    let mut i: usize = 0;
    while i < list.len() && !(list[i].id == *id)
        invariant
            i <= list.len(),
            forall|j: int| 0 <= j < i ==> (#[trigger] list@[j]).id@ != id@,
        decreases list.len() - i,
    {
        i = i + 1;
    }
    proof {
        lemma_index_of_id(list@, id@, i as int);
    }
    i
}

/// The friends kept by the service, in the order they are searched.
pub open spec fn kept_friends(f: FriendLists) -> Seq<User> {
    f.online@ + f.web@ + f.offline@
}

/// The address of a user's profile at VRChat, without the id.
pub open spec fn users_url() -> Seq<char> {
    "https://api.vrchat.cloud/api/1/users/"@
}

/// What a client is told when its own profile is not known yet.
pub open spec fn profile_unavailable_text() -> Seq<char> {
    "プロフィールの取得に失敗しました。トークンが無効か、ユーザー情報の取得が完了していません。後者の場合は、オンラインになると取得されます。"@
}

/// How a profile request is answered.
pub enum UserLookup {
    /// Fetch the profile from this address.
    Fetch(String),
    /// Answer with this profile, known to the service.
    Found(ResUser),
    /// Refuse, with this message.
    Unavailable(String),
}

/// How a request for the profile of `user_id` (the client's own one when
/// `None`) is answered: fetched from VRChat when `force` is set or the user
/// is not among the kept friends (in the game, on the website, offline,
/// searched in that order), the fetched profile then being answered with
/// `ResUser::from_fetched`; else the first kept friend with that id, as
/// kept. The client's own profile is answered unsanitized.
pub fn lookup_user(
    user_id: Option<String>,
    force: bool,
    friends: &FriendLists,
    myself: &Option<User>,
) -> (r: UserLookup)
    ensures
        match user_id {
            Some(id) => {
                let kept = kept_friends(*friends);
                if force || index_of_id(kept, id@) >= kept.len() {
                    r matches UserLookup::Fetch(url) && url@ == users_url() + id@
                } else {
                    r matches UserLookup::Found(res) && shows(
                        res,
                        kept[index_of_id(kept, id@) as int],
                    )
                }
            },
            None => match *myself {
                Some(m) => r matches UserLookup::Found(res) && shows_plain(res, m),
                None => r matches UserLookup::Unavailable(msg) && msg@
                    == profile_unavailable_text(),
            },
        },
{
    match user_id {
        Some(id) => {
            let ghost kept = kept_friends(*friends);
            proof {
                lemma_index_of_id_concat(friends.online@, friends.web@, id@);
                lemma_index_of_id_concat(friends.online@ + friends.web@, friends.offline@, id@);
                lemma_index_of_id_bounds(kept, id@);
            }
            if !force {
                let i = find_by_id(&friends.online, &id);
                if i < friends.online.len() {
                    proof {
                        assert(kept[i as int] == friends.online@[i as int]);
                    }
                    return UserLookup::Found(ResUser::from_kept(&friends.online[i]));
                }
                let j = find_by_id(&friends.web, &id);
                if j < friends.web.len() {
                    proof {
                        assert(kept[friends.online@.len() + j] == friends.web@[j as int]);
                    }
                    return UserLookup::Found(ResUser::from_kept(&friends.web[j]));
                }
                let k = find_by_id(&friends.offline, &id);
                if k < friends.offline.len() {
                    proof {
                        assert(kept[friends.online@.len() + friends.web@.len() + k]
                            == friends.offline@[k as int]);
                    }
                    return UserLookup::Found(ResUser::from_kept(&friends.offline[k]));
                }
            }
            let mut url = String::from_str("https://api.vrchat.cloud/api/1/users/");
            url.append(id.as_str());
            UserLookup::Fetch(url)
        },
        None => match myself {
            Some(m) => UserLookup::Found(ResUser::from_kept_plain(m)),
            None => UserLookup::Unavailable(
                String::from_str(
                    "プロフィールの取得に失敗しました。トークンが無効か、ユーザー情報の取得が完了していません。後者の場合は、オンラインになると取得されます。",
                ),
            ),
        },
    }
}

/// A profile answered from the kept friends is the profile of the user
/// asked for, and no kept friend before it has that id.
pub proof fn lemma_found_is_asked(friends: FriendLists, id: Seq<char>)
    requires
        index_of_id(kept_friends(friends), id) < kept_friends(friends).len(),
    ensures
        kept_friends(friends)[index_of_id(kept_friends(friends), id) as int].id@ == id,
        forall|j: int| 0 <= j < index_of_id(kept_friends(friends), id) ==> (#[trigger] kept_friends(friends)[j]).id@ != id,
{
    lemma_index_of_id_bounds(kept_friends(friends), id);
}

} // verus!

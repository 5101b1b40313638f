//! What the service keeps after signing in: the user's own profile and the
//! friend lists, sorted into friends in the game, friends on the website,
//! and offline friends.

use vstd::prelude::*;
use crate::text::{contains_text, has_text, lacks_char};
use crate::user::User;

verus! {

/// Where the signed-in user is and where they are heading.
#[allow(non_snake_case)]
pub struct Presence {
    pub world: String,
    pub instance: String,
    pub travelingToWorld: String,
    pub travelingToInstance: String,
}

/// The signed-in user's own profile, as VRChat sends it.
#[allow(non_snake_case)]
pub struct UserProfile {
    pub bio: String,
    pub bioLinks: Vec<String>,
    pub currentAvatarThumbnailImageUrl: String,
    pub displayName: String,
    pub id: String,
    pub isFriend: bool,
    pub presence: Presence,
    pub status: String,
    pub statusDescription: String,
    pub tags: Vec<String>,
    pub userIcon: String,
    pub profilePicOverride: String,
    pub activeFriends: Vec<String>,
}

/// The friend lists: in the game, on the website, offline.
pub struct FriendLists {
    pub online: Vec<User>,
    pub web: Vec<User>,
    pub offline: Vec<User>,
}

/// `world:instance`, or empty when either part is empty.
pub open spec fn location_text(world: Seq<char>, instance: Seq<char>) -> Seq<char> {
    if world.len() == 0 || instance.len() == 0 {
        Seq::empty()
    } else {
        world + seq![':'] + instance
    }
}

/// `world:instance` when both parts are set.
pub open spec fn traveling_text(world: Seq<char>, instance: Seq<char>) -> Option<Seq<char>> {
    if world.len() > 0 && instance.len() > 0 {
        Some(world + seq![':'] + instance)
    } else {
        None
    }
}

/// `world:instance`.
fn join_location(world: &String, instance: &String) -> (r: String)
    ensures
        r@ == world@ + seq![':'] + instance@,
{
    let mut r = world.clone();
    r.append(":");
    r.append(instance.as_str());
    proof {
        reveal_strlit(":");
    }
    r
}

/// The location of a user from where they are.
pub fn location_of(world: &String, instance: &String) -> (r: String)
    ensures
        r@ == location_text(world@, instance@),
{
    if world.as_str().unicode_len() == 0 || instance.as_str().unicode_len() == 0 {
        String::new()
    } else {
        join_location(world, instance)
    }
}

/// Where a user is heading, when they are.
pub fn traveling_of(world: &String, instance: &String) -> (r: Option<String>)
    ensures
        r is Some == traveling_text(world@, instance@) is Some,
        r is Some ==> r->0@ == traveling_text(world@, instance@)->0,
{
    if world.as_str().unicode_len() > 0 && instance.as_str().unicode_len() > 0 {
        Some(join_location(world, instance))
    } else {
        None
    }
}

/// `u` is the user record kept for the signed-in user with `profile`: the
/// profile's fields, with the location and destination built from where
/// the user is and is heading.
pub open spec fn kept_myself(u: User, profile: UserProfile) -> bool {
    &&& u.bio == profile.bio
    &&& u.bioLinks == profile.bioLinks
    &&& u.currentAvatarThumbnailImageUrl == profile.currentAvatarThumbnailImageUrl
    &&& u.displayName == profile.displayName
    &&& u.id == profile.id
    &&& u.isFriend == profile.isFriend
    &&& u.location@ == location_text(profile.presence.world@, profile.presence.instance@)
    &&& u.travelingToLocation is Some == traveling_text(
        profile.presence.travelingToWorld@,
        profile.presence.travelingToInstance@,
    ) is Some
    &&& u.travelingToLocation is Some ==> u.travelingToLocation->0@ == traveling_text(
        profile.presence.travelingToWorld@,
        profile.presence.travelingToInstance@,
    )->0
    &&& u.status == profile.status
    &&& u.statusDescription == profile.statusDescription
    &&& u.tags == profile.tags
    &&& u.userIcon == profile.userIcon
    &&& u.profilePicOverride == profile.profilePicOverride
}

/// The user record kept for the signed-in user, built from their profile.
pub fn myself_from_profile(profile: UserProfile) -> (u: User)
    ensures
        kept_myself(u, profile),
{
    let location = location_of(&profile.presence.world, &profile.presence.instance);
    let traveling = traveling_of(
        &profile.presence.travelingToWorld,
        &profile.presence.travelingToInstance,
    );
    User {
        bio: profile.bio,
        bioLinks: profile.bioLinks,
        currentAvatarThumbnailImageUrl: profile.currentAvatarThumbnailImageUrl,
        displayName: profile.displayName,
        id: profile.id,
        isFriend: profile.isFriend,
        location,
        travelingToLocation: traveling,
        status: profile.status,
        statusDescription: profile.statusDescription,
        tags: profile.tags,
        userIcon: profile.userIcon,
        profilePicOverride: profile.profilePicOverride,
    }
}

/// The user is among the friends that VRChat reports as in the game.
pub open spec fn in_game(active: Seq<String>) -> spec_fn(User) -> bool {
    |u: User| has_text(active, u.id@)
}

/// The user is not among them.
pub open spec fn not_in_game(active: Seq<String>) -> spec_fn(User) -> bool {
    |u: User| !has_text(active, u.id@)
}

/// Splits the online friends into those in the game (their id is in
/// `active`) and those on the website, each keeping its order.
pub fn partition_online(online: Vec<User>, active: &Vec<String>) -> (r: (Vec<User>, Vec<User>))
    ensures
        r.0@ == online@.filter(in_game(active@)),
        r.1@ == online@.filter(not_in_game(active@)),
{
    let ghost all = online@;
    assert(all.len() == online.len());
    let mut rest = online;
    let mut game: Vec<User> = Vec::new();
    let mut web: Vec<User> = Vec::new();
    let mut i: usize = 0;
    proof {
        assert(all.take(0) =~= Seq::<User>::empty());
        reveal(Seq::filter);
        assert(all.skip(0) =~= all);
    }
    while rest.len() > 0
        invariant
            i <= all.len() <= usize::MAX,
            rest@ == all.skip(i as int),
            game@ == all.take(i as int).filter(in_game(active@)),
            web@ == all.take(i as int).filter(not_in_game(active@)),
        decreases rest.len(),
    {
        let u = rest.remove(0);
        proof {
            assert(u == all[i as int]);
            assert(all.take(i + 1) =~= all.take(i as int).push(u));
            all.take(i as int).lemma_filter_push(u, in_game(active@));
            all.take(i as int).lemma_filter_push(u, not_in_game(active@));
            assert(all.skip(i + 1) =~= all.skip(i as int).remove(0));
        }
        if contains_text(active, u.id.as_str()) {
            game.push(u);
        } else {
            web.push(u);
        }
        i = i + 1;
    }
    proof {
        assert(all.take(i as int) =~= all);
    }
    (game, web)
}

/// Every friend lands in exactly one of the two lists.
pub proof fn lemma_partition_sizes(s: Seq<User>, active: Seq<String>)
    ensures
        s.filter(in_game(active)).len() + s.filter(not_in_game(active)).len() == s.len(),
    decreases s.len(),
{
    reveal(Seq::filter);
    if s.len() > 0 {
        lemma_partition_sizes(s.drop_last(), active);
    }
}

/// The friend lists and the user record kept after signing in, from the
/// user's profile and the online and offline friends fetched for them.
pub fn arrange_session(profile: UserProfile, online: Vec<User>, offline: Vec<User>) -> (r: (FriendLists, User))
    ensures
        r.0.online@ == online@.filter(in_game(profile.activeFriends@)),
        r.0.web@ == online@.filter(not_in_game(profile.activeFriends@)),
        r.0.offline == offline,
        kept_myself(r.1, profile),
{
    let (game, web) = partition_online(online, &profile.activeFriends);
    let myself = myself_from_profile(profile);
    (FriendLists { online: game, web, offline }, myself)
}

/// The location kept for a user is read back as its world and instance by
/// the instance request's splitting at the first colon.
pub proof fn lemma_location_splits(world: Seq<char>, instance: Seq<char>)
    requires
        world.len() > 0,
        instance.len() > 0,
        lacks_char(world, ':'),
    ensures
        crate::request::split_first_colon(location_text(world, instance)) == Some((world, instance)),
{
    crate::request::lemma_split_first_colon(world, instance);
}

} // verus!

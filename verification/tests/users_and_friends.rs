use vrc_api::auth::{
    auth_credential, authorization_header, basic_credentials, first_two_factor_method,
    session_token, two_factor_kind, AuthError,
};
use vrc_api::friends::{friends_for, modify_friends, ResFriend};
use vrc_api::instance::{InstanceData, World};
use vrc_api::session::{
    arrange_session, location_of, myself_from_profile, partition_online, traveling_of, FriendLists,
    Presence, UserProfile,
};
use vrc_api::user::{find_by_id, lookup_user, rank_from_tags, unsanitize, ResUser, User, UserLookup};
use vrc_api::sanitize::unsanitized_text;

fn s(x: &str) -> String {
    String::from(x)
}

fn user(id: &str, location: &str, tags: &[&str]) -> User {
    User {
        bio: s("bio"),
        bioLinks: vec![s("https://example.com")],
        currentAvatarThumbnailImageUrl: format!("thumb-{}", id),
        displayName: format!("name-{}", id),
        id: s(id),
        isFriend: true,
        location: s(location),
        travelingToLocation: None,
        status: s("active"),
        statusDescription: s(""),
        tags: tags.iter().map(|t| s(t)).collect(),
        userIcon: String::new(),
        profilePicOverride: String::new(),
    }
}

#[test]
fn friend_picture_prefers_supporter_icon() {
    let mut u = user("usr_a", "wrld:1", &["system_supporter"]);
    u.userIcon = s("icon");
    u.profilePicOverride = s("override");
    assert_eq!(ResFriend::from(&u).currentAvatarThumbnailImageUrl, "icon");
    u.userIcon = String::new();
    assert_eq!(ResFriend::from(&u).currentAvatarThumbnailImageUrl, "override");
    u.profilePicOverride = String::new();
    assert_eq!(ResFriend::from(&u).currentAvatarThumbnailImageUrl, "thumb-usr_a");
    let mut plain = user("usr_b", "wrld:1", &[]);
    plain.userIcon = s("icon");
    let f = ResFriend::from(&plain);
    assert_eq!(f.currentAvatarThumbnailImageUrl, "thumb-usr_b");
    assert_eq!(f.id, "usr_b");
    assert_eq!(f.status, "active");
    assert_eq!(f.location, "wrld:1");
}

#[test]
fn modify_friends_drops_offline_and_sorts_by_id() {
    let friends = vec![
        user("usr_c", "wrld:1", &[]),
        user("usr_a", "offline", &[]),
        user("usr_b", "private", &[]),
        user("usr_a", "wrld:2", &[]),
    ];
    let list = modify_friends(&friends);
    let ids: Vec<&str> = list.iter().map(|f| f.id.as_str()).collect();
    assert_eq!(ids, vec!["usr_a", "usr_b", "usr_c"]);
    assert_eq!(list[0].location, "wrld:2");
}

#[test]
fn modify_friends_is_stable() {
    let friends = vec![
        user("usr_b", "first", &[]),
        user("usr_a", "x", &[]),
        user("usr_b", "second", &[]),
        user("usr_b", "third", &[]),
    ];
    let list = modify_friends(&friends);
    let locs: Vec<&str> = list.iter().map(|f| f.location.as_str()).collect();
    assert_eq!(locs, vec!["x", "first", "second", "third"]);
    assert!(modify_friends(&Vec::new()).is_empty());
}

#[test]
fn friends_for_unknown_credentials() {
    assert_eq!(friends_for(None).err().unwrap(), "failed to auth.");
    let friends = vec![user("usr_a", "wrld:1", &[])];
    assert_eq!(friends_for(Some(&friends)).ok().unwrap().len(), 1);
}

#[test]
fn rank_follows_last_trust_tag() {
    let t = |v: &[&str]| rank_from_tags(&v.iter().map(|x| s(x)).collect());
    assert_eq!(t(&[]), "Visitor");
    assert_eq!(t(&["system_trust_basic", "system_trust_known"]), "User");
    assert_eq!(t(&["system_trust_veteran", "system_trust_basic"]), "New User");
    assert_eq!(t(&["system_trust_trusted", "language_jpn"]), "Known");
    assert_eq!(t(&["system_trust_veteran"]), "Trusted");
    assert_eq!(t(&["system_troll"]), "Troll");
    assert_eq!(t(&["system_trust_known", "system_supporter"]), "User VRC+");
    assert_eq!(t(&["system_supporter"]), "Visitor VRC+");
}

#[test]
fn res_user_carries_the_profile() {
    let mut u = user("usr_a", "wrld:1", &["system_trust_veteran"]);
    u.travelingToLocation = Some(s("wrld:2"));
    let r = ResUser::from(u);
    assert_eq!(r.id, "usr_a");
    assert_eq!(r.rank, "Trusted");
    assert_eq!(r.location, "wrld:1");
    assert_eq!(r.travelingToLocation, Some(s("wrld:2")));
    assert_eq!(r.bioLinks, vec![s("https://example.com")]);
    assert_eq!(r.displayName, "name-usr_a");
}

fn lists() -> FriendLists {
    FriendLists {
        online: vec![user("usr_a", "wrld:1", &[])],
        web: vec![user("usr_b", "private", &["system_trust_known"])],
        offline: vec![user("usr_b", "offline", &[]), user("usr_c", "offline", &[])],
    }
}

#[test]
fn lookup_user_prefers_kept_friends() {
    match lookup_user(Some(s("usr_b")), false, &lists(), &None) {
        UserLookup::Found(r) => {
            assert_eq!(r.id, "usr_b");
            assert_eq!(r.location, "private");
            assert_eq!(r.rank, "User");
        }
        _ => panic!("expected a kept friend"),
    }
    match lookup_user(Some(s("usr_c")), false, &lists(), &None) {
        UserLookup::Found(r) => assert_eq!(r.location, "offline"),
        _ => panic!("expected a kept friend"),
    }
}

#[test]
fn lookup_user_fetches_when_forced_or_unknown() {
    match lookup_user(Some(s("usr_a")), true, &lists(), &None) {
        UserLookup::Fetch(url) => assert_eq!(url, "https://api.vrchat.cloud/api/1/users/usr_a"),
        _ => panic!("expected a fetch"),
    }
    match lookup_user(Some(s("usr_z")), false, &lists(), &None) {
        UserLookup::Fetch(url) => assert_eq!(url, "https://api.vrchat.cloud/api/1/users/usr_z"),
        _ => panic!("expected a fetch"),
    }
}

#[test]
fn lookup_user_own_profile() {
    let mut m = user("usr_me", "", &[]);
    m.bio = s("mail\u{FF20}example\u{2024}com");
    let me = Some(m);
    match lookup_user(None, true, &lists(), &me) {
        UserLookup::Found(r) => {
            assert_eq!(r.id, "usr_me");
            assert_eq!(r.bio, "mail@example.com");
        }
        _ => panic!("expected own profile"),
    }
    match lookup_user(None, false, &lists(), &None) {
        UserLookup::Unavailable(msg) => assert!(msg.starts_with("プロフィールの取得に失敗しました。")),
        _ => panic!("expected a refusal"),
    }
}

#[test]
fn find_by_id_returns_first_or_len() {
    let v = vec![user("a", "", &[]), user("b", "", &[]), user("b", "x", &[])];
    assert_eq!(find_by_id(&v, &s("b")), 1);
    assert_eq!(find_by_id(&v, &s("z")), 3);
}

fn profile() -> UserProfile {
    UserProfile {
        bio: s("hello"),
        bioLinks: vec![],
        currentAvatarThumbnailImageUrl: s("thumb"),
        displayName: s("Me"),
        id: s("usr_me"),
        isFriend: false,
        presence: Presence {
            world: s("wrld_1"),
            instance: s("123~private"),
            travelingToWorld: String::new(),
            travelingToInstance: s("9"),
        },
        status: s("join me"),
        statusDescription: s("hi"),
        tags: vec![s("system_supporter")],
        userIcon: s("icon"),
        profilePicOverride: String::new(),
        activeFriends: vec![s("usr_a"), s("usr_c")],
    }
}

#[test]
fn location_needs_world_and_instance() {
    assert_eq!(location_of(&s("wrld_1"), &s("123")), "wrld_1:123");
    assert_eq!(location_of(&s(""), &s("123")), "");
    assert_eq!(location_of(&s("wrld_1"), &s("")), "");
    assert_eq!(traveling_of(&s("wrld_2"), &s("7")), Some(s("wrld_2:7")));
    assert_eq!(traveling_of(&s(""), &s("7")), None);
}

#[test]
fn myself_is_built_from_profile() {
    let u = myself_from_profile(profile());
    assert_eq!(u.id, "usr_me");
    assert_eq!(u.location, "wrld_1:123~private");
    assert_eq!(u.travelingToLocation, None);
    assert_eq!(u.status, "join me");
    assert_eq!(u.userIcon, "icon");
}

#[test]
fn partition_splits_by_active_friends() {
    let online = vec![
        user("usr_a", "wrld:1", &[]),
        user("usr_b", "private", &[]),
        user("usr_c", "wrld:2", &[]),
        user("usr_d", "private", &[]),
    ];
    let active = vec![s("usr_c"), s("usr_a")];
    let (game, web) = partition_online(online, &active);
    let g: Vec<&str> = game.iter().map(|u| u.id.as_str()).collect();
    let w: Vec<&str> = web.iter().map(|u| u.id.as_str()).collect();
    assert_eq!(g, vec!["usr_a", "usr_c"]);
    assert_eq!(w, vec!["usr_b", "usr_d"]);
}

#[test]
fn arrange_session_sorts_friends() {
    let online = vec![user("usr_a", "wrld:1", &[]), user("usr_b", "private", &[])];
    let offline = vec![user("usr_c", "offline", &[])];
    let (lists, me) = arrange_session(profile(), online, offline);
    assert_eq!(lists.online.len(), 1);
    assert_eq!(lists.online[0].id, "usr_a");
    assert_eq!(lists.web[0].id, "usr_b");
    assert_eq!(lists.offline[0].id, "usr_c");
    assert_eq!(me.location, "wrld_1:123~private");
}

#[test]
fn authorization_header_is_unpadded_base64() {
    assert_eq!(authorization_header("user:pass"), "Basic dXNlcjpwYXNz");
    assert_eq!(authorization_header("a"), "Basic YQ");
    assert_eq!(authorization_header(""), "Basic ");
    assert_eq!(basic_credentials("abc"), "Basic abc");
}

#[test]
fn session_token_takes_first_cookie_value() {
    assert_eq!(
        session_token("auth=authcookie_123; Max-Age=7776000; Path=/"),
        Some(s("auth=authcookie_123"))
    );
    assert_eq!(session_token("auth=a=b;x"), Some(s("auth=a")));
    assert_eq!(session_token("auth=;x=1"), Some(s("auth=")));
    assert_eq!(session_token("noequals; a=b"), None);
    assert_eq!(session_token(""), None);
}

#[test]
fn two_factor_kind_is_first_method_in_lower_case() {
    assert_eq!(two_factor_kind(&Some(vec![Some(s("TOTP")), Some(s("otp"))])), Some(s("totp")));
    assert_eq!(two_factor_kind(&Some(vec![Some(s("emailOtp"))])), Some(s("emailotp")));
    assert_eq!(two_factor_kind(&Some(vec![None, Some(s("totp"))])), None);
    assert_eq!(two_factor_kind(&Some(vec![])), None);
    assert_eq!(two_factor_kind(&None), None);
    assert_eq!(first_two_factor_method(&Some(vec![Some(s("TOTP"))])), Some(s("TOTP")));
}

#[test]
fn auth_credential_joins_token_and_kind() {
    assert_eq!(auth_credential("auth=abc", "totp"), "auth=abc:totp");
    assert_eq!(AuthError::Cookie.message(), "An error occurred while parsing the cookie.");
    assert_eq!(AuthError::NoTwoFactor.message(), "No 2FA");
}

#[test]
fn instance_answer_takes_world_fields() {
    let d = InstanceData {
        ownerId: Some(s("usr_owner")),
        userCount: 7,
        world: World {
            name: s("Home"),
            description: s("A world"),
            thumbnailImageUrl: s("thumb"),
        },
    };
    let r = d.to_res();
    assert_eq!(r.ownerId, Some(s("usr_owner")));
    assert_eq!(r.userCount, 7);
    assert_eq!(r.name, "Home");
    assert_eq!(r.description, "A world");
    assert_eq!(r.thumbnailImageUrl, "thumb");
}

#[test]
fn rank_ignores_unrelated_tags() {
    let t = |v: &[&str]| rank_from_tags(&v.iter().map(|x| s(x)).collect());
    let base = t(&["system_trust_known", "system_supporter"]);
    assert_eq!(t(&["language_eng", "system_trust_known", "show_social_rank", "system_supporter", "x"]), base);
}

#[test]
fn friend_list_ignores_order_of_distinct_friends() {
    let a = vec![
        user("usr_c", "wrld:1", &[]),
        user("usr_a", "private", &["system_supporter"]),
        user("usr_b", "offline", &[]),
        user("usr_d", "wrld:2", &[]),
    ];
    let mut b = vec![a[3].clone_for_test(), a[1].clone_for_test(), a[0].clone_for_test(), a[2].clone_for_test()];
    b.reverse();
    let la: Vec<(String, String)> = modify_friends(&a).into_iter().map(|f| (f.id, f.location)).collect();
    let lb: Vec<(String, String)> = modify_friends(&b).into_iter().map(|f| (f.id, f.location)).collect();
    assert_eq!(la, lb);
}

trait CloneForTest {
    fn clone_for_test(&self) -> User;
}

impl CloneForTest for User {
    fn clone_for_test(&self) -> User {
        User {
            bio: self.bio.clone(),
            bioLinks: self.bioLinks.clone(),
            currentAvatarThumbnailImageUrl: self.currentAvatarThumbnailImageUrl.clone(),
            displayName: self.displayName.clone(),
            id: self.id.clone(),
            isFriend: self.isFriend,
            location: self.location.clone(),
            travelingToLocation: self.travelingToLocation.clone(),
            status: self.status.clone(),
            statusDescription: self.statusDescription.clone(),
            tags: self.tags.clone(),
            userIcon: self.userIcon.clone(),
            profilePicOverride: self.profilePicOverride.clone(),
        }
    }
}

#[test]
fn unsanitized_text_maps_look_alikes_back() {
    assert_eq!(unsanitized_text("a\u{FF20}b\u{FF03}c\u{2044}d"), "a@b#c/d");
    assert_eq!(unsanitized_text("\u{037E}\u{02F8}\u{201A}\u{FF1F}\u{01C3}\u{FF02}"), ";:,?!\"");
    assert_eq!(unsanitized_text("\u{227A}\u{227B}\u{FF3E}\u{FF5B}\u{FF5D}\u{FF3B}\u{FF3D}"), "<>^{}[]");
    assert_eq!(unsanitized_text("\u{FF08}\u{FF09}\u{FF5C}\u{2217}\u{FF3C}\u{FF04}\u{FF05}\u{FF06}\u{FF1D}\u{FF0B}"), "()|*\\$%&=+");
    assert_eq!(unsanitized_text("こんにちは world"), "こんにちは world");
    assert_eq!(unsanitized_text(""), "");
}

#[test]
fn unsanitize_touches_only_written_text() {
    let mut u = user("usr_a", "wrld\u{02F8}1", &[]);
    u.bio = s("hi\u{01C3}");
    u.displayName = s("A\u{FF06}B");
    u.statusDescription = s("\u{FF08}busy\u{FF09}");
    unsanitize(&mut u);
    assert_eq!(u.bio, "hi!");
    assert_eq!(u.displayName, "A&B");
    assert_eq!(u.statusDescription, "(busy)");
    assert_eq!(u.location, "wrld\u{02F8}1");
}

#[test]
fn fetched_profiles_are_unsanitized_kept_friends_are_not() {
    let mut u = user("usr_b", "private", &[]);
    u.bio = s("a\u{FF0B}b");
    let r = ResUser::from_fetched(u);
    assert_eq!(r.bio, "a+b");
    let mut kept = lists();
    kept.web[0].bio = s("a\u{FF0B}b");
    match lookup_user(Some(s("usr_b")), false, &kept, &None) {
        UserLookup::Found(r) => assert_eq!(r.bio, "a\u{FF0B}b"),
        _ => panic!("expected a kept friend"),
    }
}

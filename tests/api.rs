use pointercrate_api::auth::{authorize, Caller, Permission};
use pointercrate_api::conditional::{check_patch_precondition, respond_to_get, GetResponse};
use pointercrate_api::error::ApiError;
use pointercrate_api::etag::EntityTag;
use pointercrate_api::links::{links_header, request_query};
use pointercrate_api::nationality::{
    BestRecord, Continent, MiniDemon, MiniDemonWithPlayers, Nationality, NationalityRecord,
    Subdivision,
};
use pointercrate_api::pagination::{paginate, Page, SubmitterPagination};
use pointercrate_api::query::{parse_i32, parse_pagination, parse_unsigned, pagination_from_params};
use pointercrate_api::submitter::{list_page, plan_listing, PatchSubmitter, Submitter};

fn request(before: Option<i32>, after: Option<i32>, limit: Option<u8>) -> SubmitterPagination {
    SubmitterPagination { before_id: before, after_id: after, limit, banned: None }
}

fn five() -> Vec<Submitter> {
    (1..=5).map(|id| Submitter { id, banned: false }).collect()
}

fn ids(page: &Page) -> Vec<i32> {
    page.items.iter().map(|s| s.id).collect()
}

fn admin() -> Caller {
    Caller { user_id: 1, permissions: vec![Permission::Moderator, Permission::ListAdministrator] }
}

fn helper() -> Caller {
    Caller { user_id: 2, permissions: vec![Permission::ListHelper] }
}

fn record() -> NationalityRecord {
    NationalityRecord {
        nation: Nationality::new(
            "DE".to_string(),
            "Germany".to_string(),
            Some(Subdivision::new("BY".to_string(), "Bavaria".to_string())),
        ),
        best_records: vec![BestRecord {
            id: 7,
            demon: "Bloodbath".to_string(),
            position: 12,
            progress: 100,
            players: vec!["a".to_string(), "b".to_string()],
        }],
        created: vec![MiniDemonWithPlayers {
            id: 3,
            demon: "Sonic Wave".to_string(),
            position: 40,
            players: vec!["c".to_string()],
        }],
        verified: vec![MiniDemon { id: 4, demon: "Tartarus".to_string(), position: 5, player: "d".to_string() }],
        published: vec![],
    }
}

#[test]
fn continent_sql_names() {
    assert_eq!(Continent::Asia.to_sql(), "Asia");
    assert_eq!(Continent::AustraliaAndOceania.to_sql(), "Australia and Oceania");
    assert_eq!(Continent::MiddleAmerica.to_sql(), "Central America");
    assert_eq!(Continent::NorthAmerica.to_sql(), "North America");
}

#[test]
fn continent_names_read_back_ignoring_case() {
    assert_eq!(Continent::from_name("ASIA"), Some(Continent::Asia));
    assert_eq!(Continent::from_name("Central America"), Some(Continent::MiddleAmerica));
    assert_eq!(Continent::from_name("Australia"), Some(Continent::AustraliaAndOceania));
    assert_eq!(Continent::from_name("Atlantis"), None);
    assert_eq!(Continent::from_lowercase_name("Asia"), None);
    for c in [Continent::Asia, Continent::Europe, Continent::Africa, Continent::SouthAmerica] {
        assert_eq!(Continent::from_name(&c.api_name()), Some(c));
    }
    assert_eq!(Continent::Europe.api_name(), "europe");
}

#[test]
fn tag_text_form() {
    assert_eq!(EntityTag { patch: 12, full: 34 }.to_header(), "12;34");
    assert_eq!(EntityTag { patch: 0, full: u64::MAX }.to_header(), "0;18446744073709551615");
}

#[test]
fn tag_round_trip() {
    for (p, f) in [(0u64, 0u64), (1, 2), (u64::MAX, 0), (123456789, u64::MAX)] {
        let t = EntityTag { patch: p, full: f };
        assert_eq!(EntityTag::parse(&t.to_header()), Some(t));
    }
    assert_eq!(EntityTag::parse("007;1"), Some(EntityTag { patch: 7, full: 1 }));
}

#[test]
fn malformed_tags_are_refused() {
    for s in ["", ";", "1", "1;", ";1", "1;2;3", "a;1", "1;b", "-1;2", "+1;2", " 1;2", "1;2 ",
        "18446744073709551616;1", "1;18446744073709551616", "1;2\u{e9}", "\u{661};1"] {
        assert_eq!(EntityTag::parse(s), None, "{}", s);
    }
}

#[test]
fn get_without_precondition_sends_object() {
    let t = EntityTag { patch: 5, full: 9 };
    assert_eq!(respond_to_get(t, None), Ok(GetResponse::Fresh { etag: "5;9".to_string() }));
}

#[test]
fn get_with_current_full_digest_is_not_modified() {
    let t = EntityTag { patch: 5, full: 9 };
    assert_eq!(respond_to_get(t, Some("5;9")), Ok(GetResponse::NotModified));
    assert_eq!(respond_to_get(t, Some("77;9")), Ok(GetResponse::NotModified));
}

#[test]
fn get_with_stale_full_digest_sends_new_tag() {
    let t = EntityTag { patch: 5, full: 9 };
    assert_eq!(respond_to_get(t, Some("5;8")), Ok(GetResponse::Fresh { etag: "5;9".to_string() }));
}

#[test]
fn get_with_malformed_precondition_is_bad_request() {
    let t = EntityTag { patch: 5, full: 9 };
    let r = respond_to_get(t, Some("5-9"));
    assert!(matches!(r, Err(ApiError::BadRequest { .. })));
    assert_eq!(r.unwrap_err().status(), 400);
}

#[test]
fn patch_precondition_compares_patch_digest() {
    let t = EntityTag { patch: 5, full: 9 };
    assert_eq!(check_patch_precondition(t, None), Ok(()));
    assert_eq!(check_patch_precondition(t, Some("5;1")), Ok(()));
    assert_eq!(check_patch_precondition(t, Some("6;9")), Err(ApiError::PreconditionFailed));
    assert!(matches!(check_patch_precondition(t, Some("x")), Err(ApiError::BadRequest { .. })));
}

#[test]
fn patch_with_current_tag_is_applied() {
    let mut s = Submitter { id: 3, banned: false };
    let header = s.etag().to_header();
    assert_eq!(s.patch_if_current(PatchSubmitter { banned: Some(true) }, Some(&header)), Ok(()));
    assert_eq!(s, Submitter { id: 3, banned: true });
}

#[test]
fn patch_with_stale_tag_is_refused_and_changes_nothing() {
    let mut s = Submitter { id: 3, banned: false };
    let stale = s.etag().to_header();
    s.apply_patch(PatchSubmitter { banned: Some(true) });
    let r = s.patch_if_current(PatchSubmitter { banned: Some(false) }, Some(&stale));
    assert_eq!(r, Err(ApiError::PreconditionFailed));
    assert_eq!(r.unwrap_err().status(), 412);
    assert_eq!(s, Submitter { id: 3, banned: true });
}

#[test]
fn patch_without_precondition_is_applied() {
    let mut s = Submitter { id: 3, banned: true };
    assert_eq!(s.patch_if_current(PatchSubmitter { banned: Some(false) }, None), Ok(()));
    assert!(!s.banned);
    assert_eq!(s.patch_if_current(PatchSubmitter { banned: None }, None), Ok(()));
    assert!(!s.banned);
}

#[test]
fn patch_with_malformed_precondition_changes_nothing() {
    let mut s = Submitter { id: 3, banned: false };
    let r = s.patch_if_current(PatchSubmitter { banned: Some(true) }, Some("3"));
    assert!(matches!(r, Err(ApiError::BadRequest { .. })));
    assert!(!s.banned);
}

#[test]
fn submitter_patch_digest_ignores_id() {
    let a = Submitter { id: 1, banned: true };
    let b = Submitter { id: 2, banned: true };
    assert_eq!(a.patch_digest(), b.patch_digest());
    assert_ne!(a.full_digest(), b.full_digest());
    assert_ne!(a.patch_digest(), Submitter { id: 1, banned: false }.patch_digest());
}

#[test]
fn digests_are_deterministic() {
    assert_eq!(record().full_digest(), record().full_digest());
    assert_eq!(record().patch_digest(), record().patch_digest());
    assert_eq!(record().etag(), EntityTag { patch: record().patch_digest(), full: record().full_digest() });
}

#[test]
fn record_patch_digest_ignores_aggregated_lists() {
    let a = record();
    let mut b = record();
    b.published.push(MiniDemon { id: 9, demon: "Zodiac".to_string(), position: 20, player: "e".to_string() });
    b.best_records[0].progress = 60;
    assert_eq!(a.patch_digest(), b.patch_digest());
    assert_ne!(a.full_digest(), b.full_digest());
}

#[test]
fn record_full_digest_changes_with_any_field() {
    let base = record().full_digest();
    let mut r = record();
    r.nation.nation = "Austria".to_string();
    assert_ne!(r.full_digest(), base);
    assert_ne!(r.patch_digest(), record().patch_digest());
    let mut r = record();
    r.nation.subdivision = None;
    assert_ne!(r.full_digest(), base);
    let mut r = record();
    r.created[0].players.push("f".to_string());
    assert_ne!(r.full_digest(), base);
    let mut r = record();
    r.verified[0].position = 6;
    assert_ne!(r.full_digest(), base);
    let mut r = record();
    r.best_records[0].players[1] = "z".to_string();
    assert_ne!(r.full_digest(), base);
}

#[test]
fn authorization_requires_every_capability() {
    assert_eq!(authorize(admin(), &[Permission::ListAdministrator]), Ok(admin()));
    assert_eq!(authorize(helper(), &[]), Ok(helper()));
    assert_eq!(authorize(helper(), &[Permission::ListAdministrator]), Err(ApiError::Forbidden));
    assert_eq!(
        authorize(admin(), &[Permission::Moderator, Permission::Administrator]),
        Err(ApiError::Forbidden)
    );
    assert_eq!(ApiError::Forbidden.status(), 403);
    assert_eq!(ApiError::NotFound.status(), 404);
}

#[test]
fn listing_without_capability_is_forbidden_before_the_query_is_read() {
    assert_eq!(plan_listing(helper(), "limit=2"), Err(ApiError::Forbidden));
    assert_eq!(plan_listing(helper(), "nonsense=1"), Err(ApiError::Forbidden));
    assert_eq!(plan_listing(admin(), "limit=2"), Ok(request(None, None, Some(2))));
    assert!(matches!(plan_listing(admin(), "nonsense=1"), Err(ApiError::BadRequest { .. })));
    assert_eq!(plan_listing(admin(), ""), Ok(request(None, None, None)));
    assert_eq!(
        plan_listing(admin(), "after=4&banned=false"),
        Ok(SubmitterPagination { banned: Some(false), ..request(None, Some(4), None) })
    );
}

#[test]
fn query_parameters_are_read() {
    assert_eq!(parse_pagination(""), Ok(request(None, None, None)));
    assert_eq!(
        parse_pagination("limit=2&after=3&banned=true"),
        Ok(SubmitterPagination { before_id: None, after_id: Some(3), limit: Some(2), banned: Some(true) })
    );
    assert_eq!(parse_pagination("before=-5"), Ok(request(Some(-5), None, None)));
    assert_eq!(parse_pagination("before=%2B5&limit=%2B3"), Ok(request(Some(5), None, Some(3))));
    assert_eq!(parse_pagination("banned=fals%65"), Ok(SubmitterPagination { banned: Some(false), ..request(None, None, None) }));
    assert_eq!(parse_pagination("limit=500"), Ok(request(None, None, Some(100))));
    assert_eq!(parse_pagination("after=-2147483648"), Ok(request(None, Some(i32::MIN), None)));
}

#[test]
fn malformed_query_parameters_are_refused() {
    for q in ["foo=1", "limit=0", "limit=-1", "limit=x", "after=abc", "before=1&after=2",
        "after=1&after=2", "banned=yes", "after=2147483648"] {
        assert!(matches!(parse_pagination(q), Err(ApiError::BadRequest { .. })), "{}", q);
    }
}

#[test]
fn query_pairs_build_a_request() {
    let pairs = vec![("after".to_string(), "10".to_string()), ("limit".to_string(), "7".to_string())];
    assert_eq!(pagination_from_params(&pairs), Ok(request(None, Some(10), Some(7))));
    assert_eq!(parse_i32("-17"), Some(-17));
    assert_eq!(parse_i32("2147483647"), Some(i32::MAX));
    assert_eq!(parse_i32("-"), None);
    assert_eq!(parse_i32("+"), None);
    assert_eq!(parse_i32("+5"), Some(5));
    assert_eq!(parse_i32("+-5"), None);
    assert_eq!(parse_i32("+2147483648"), None);
    assert_eq!(parse_unsigned("+17"), Some(17));
    assert_eq!(parse_unsigned("17"), Some(17));
    assert_eq!(parse_unsigned("-17"), None);
}

#[test]
fn first_page_of_five() {
    let page = paginate(&request(None, None, Some(2)), &five());
    assert_eq!(ids(&page), vec![1, 2]);
    assert_eq!(page.prev, None);
    assert_eq!(page.next, Some(request(None, Some(2), Some(2))));
    assert_eq!(page.first, request(None, None, Some(2)));
    assert_eq!(page.last, request(None, Some(3), Some(2)));
    assert_eq!(ids(&paginate(&page.last, &five())), vec![4, 5]);
    assert_eq!(ids(&paginate(&page.next.unwrap(), &five())), vec![3, 4]);
}

#[test]
fn last_page_holds_the_true_tail() {
    let last = paginate(&request(None, None, Some(3)), &five()).last;
    assert_eq!(ids(&paginate(&last, &five())), vec![3, 4, 5]);
    let last = paginate(&request(None, None, Some(5)), &five()).last;
    assert_eq!(ids(&paginate(&last, &five())), vec![1, 2, 3, 4, 5]);
}

#[test]
fn page_past_the_end_is_empty() {
    let page = paginate(&request(None, Some(5), Some(2)), &five());
    assert!(page.items.is_empty());
    assert_eq!(page.next, None);
    let prev = page.prev.unwrap();
    assert_eq!(ids(&paginate(&prev, &five())), vec![4, 5]);
}

#[test]
fn page_before_a_cursor() {
    let page = paginate(&request(Some(4), None, Some(2)), &five());
    assert_eq!(ids(&page), vec![2, 3]);
    assert_eq!(page.prev, Some(request(Some(2), None, Some(2))));
    assert_eq!(page.next, Some(request(None, Some(3), Some(2))));
    assert_eq!(ids(&paginate(&page.prev.unwrap(), &five())), vec![1]);
}

#[test]
fn empty_listing_has_only_first_and_last() {
    let page = paginate(&request(None, None, None), &vec![]);
    assert!(page.items.is_empty());
    assert_eq!(page.prev, None);
    assert_eq!(page.next, None);
    assert_eq!(page.first, page.last);
}

#[test]
fn filter_applies_before_paging() {
    let all: Vec<Submitter> = (1..=6).map(|id| Submitter { id, banned: id % 2 == 0 }).collect();
    let q = SubmitterPagination { banned: Some(true), ..request(None, None, Some(2)) };
    let page = paginate(&q, &all);
    assert_eq!(ids(&page), vec![2, 4]);
    assert_eq!(page.next, Some(SubmitterPagination { after_id: Some(4), ..q }));
    assert_eq!(ids(&paginate(&page.last, &all)), vec![4, 6]);
}

#[test]
fn request_query_text() {
    assert_eq!(request_query(&request(None, None, None)), "limit=50");
    assert_eq!(
        request_query(&SubmitterPagination { banned: Some(false), ..request(None, Some(-3), Some(2)) }),
        "limit=2&after=-3&banned=false"
    );
}

#[test]
fn links_header_lists_present_pages() {
    let page = paginate(&request(None, None, Some(2)), &five());
    assert_eq!(
        links_header("/api/v1/submitters/", &page),
        "</api/v1/submitters/?limit=2>; rel=\"first\",</api/v1/submitters/?limit=2&after=2>; rel=\"next\",</api/v1/submitters/?limit=2&after=3>; rel=\"last\""
    );
    let listing = list_page(&request(Some(5), None, Some(2)), &five(), "/s/");
    assert_eq!(listing.page.items.len(), 2);
    assert_eq!(
        listing.links,
        "</s/?limit=2>; rel=\"first\",</s/?limit=2&before=3>; rel=\"prev\",</s/?limit=2&after=4>; rel=\"next\",</s/?limit=2&after=3>; rel=\"last\""
    );
}

use anime_ingest::records::{
    anime_from_details, anime_ids_from_listing, episode_from_details, AnimeDetails, AnimeID,
    AnimeName, Episode, EpisodeDetails, Episodes,
};
use anime_ingest::staff::{
    convert_vec_string_to_vec_option_string, insert_into_anime_staff, insert_or_update_staff,
    merge_positions, Images, JpgImage, Person, PersonData, StaffResponse,
};
use anime_ingest::store::{
    add_new_anime, add_new_episode, delete_anime_by_id, ingest_anime_details,
    insert_into_anime_id, load_all_anime, load_all_anime_ids, Store,
};

fn sample_details() -> AnimeDetails {
    let mut d = AnimeDetails::default();
    d.id = 21;
    d.title = Some("One Piece".to_string());
    d.description = Some("Pirates.".to_string());
    d.mal_id = Some(21);
    d.al_id = Some(21);
    d.total_episodes = Some(2);
    d.episodes = Some(vec![
        EpisodeDetails {
            id: Some("op-1".to_string()),
            title: Some("Romance Dawn".to_string()),
            is_filler: Some(false),
            episode_no: Some(1),
        },
        EpisodeDetails {
            id: Some("op-2".to_string()),
            title: Some("The Great Swordsman".to_string()),
            is_filler: Some(false),
            episode_no: Some(2),
        },
    ]);
    d
}

fn person(mal_id: i32, name: &str, roles: &[&str]) -> PersonData {
    PersonData {
        person: Person {
            mal_id,
            url: format!("https://example.invalid/people/{}", mal_id),
            images: Images {
                jpg: JpgImage {
                    image_url: format!("https://example.invalid/people/{}.jpg", mal_id),
                },
            },
            name: name.to_string(),
        },
        positions: roles.iter().map(|r| r.to_string()).collect(),
    }
}

fn opt_strings(roles: &[&str]) -> Vec<Option<String>> {
    roles.iter().map(|r| Some(r.to_string())).collect()
}

#[test]
fn ingesting_same_payload_twice_is_idempotent() {
    let mut once = Store::new();
    ingest_anime_details(&mut once, sample_details()).unwrap();
    let mut twice = Store::new();
    ingest_anime_details(&mut twice, sample_details()).unwrap();
    ingest_anime_details(&mut twice, sample_details()).unwrap();
    assert_eq!(once, twice);
    assert_eq!(twice.anime.len(), 1);
    assert_eq!(twice.episodes.len(), 2);
    assert_eq!(twice.anime[0].title, "One Piece");
}

#[test]
fn reingestion_overwrites_with_latest_fields() {
    let mut store = Store::new();
    ingest_anime_details(&mut store, sample_details()).unwrap();
    let mut newer = sample_details();
    newer.title = Some("One Piece (remaster)".to_string());
    ingest_anime_details(&mut store, newer).unwrap();
    assert_eq!(store.anime.len(), 1);
    assert_eq!(store.anime[0].title, "One Piece (remaster)");
}

#[test]
fn absent_payload_fields_get_their_defaults() {
    let mut d = AnimeDetails::default();
    d.id = 5;
    d.title = None;
    d.description = None;
    d.mal_score = None;
    d.sub_episodes = None;
    let (anime, _eps) = anime_from_details(d);
    assert_eq!(anime.id, 5);
    assert_eq!(anime.title, "Unknown Title");
    assert_eq!(anime.description, "No description available");
    assert_eq!(anime.mal_score, "");
    assert_eq!(anime.sub_episodes, 0);
}

#[test]
fn default_detail_payload_is_empty_and_scored_not_available() {
    let d = AnimeDetails::default();
    assert_eq!(d.id, 0);
    assert_eq!(d.title, Some(String::new()));
    assert_eq!(d.mal_score, Some("n/a".to_string()));
    assert_eq!(d.episodes, Some(Vec::new()));
    let e = EpisodeDetails::default();
    assert_eq!(e.id, Some(String::new()));
    assert_eq!(e.is_filler, Some(false));
    assert_eq!(e.episode_no, Some(0));
}

#[test]
fn episode_rows_carry_the_catalog_foreign_key() {
    let e = EpisodeDetails {
        id: Some("ep-9".to_string()),
        title: None,
        is_filler: None,
        episode_no: Some(9),
    };
    let row = episode_from_details(e, 21);
    assert_eq!(
        row,
        Episode {
            id: "ep-9".to_string(),
            title: String::new(),
            is_filler: false,
            episode_no: 9,
            anime_id: 21,
        }
    );
}

#[test]
fn episode_upsert_overwrites_by_episode_id() {
    let mut store = Store::new();
    add_new_episode(
        &mut store,
        Episode {
            id: "ep-1".to_string(),
            title: "old".to_string(),
            is_filler: false,
            episode_no: 1,
            anime_id: 3,
        },
    )
    .unwrap();
    add_new_episode(
        &mut store,
        Episode {
            id: "ep-1".to_string(),
            title: "new".to_string(),
            is_filler: true,
            episode_no: 1,
            anime_id: 3,
        },
    )
    .unwrap();
    assert_eq!(store.episodes.len(), 1);
    assert_eq!(store.episodes[0].title, "new");
    assert!(store.episodes[0].is_filler);
}

#[test]
fn catalog_upsert_keys_by_numeric_id() {
    let mut store = Store::new();
    let (a1, _) = anime_from_details(sample_details());
    add_new_anime(&mut store, a1).unwrap();
    let mut d2 = sample_details();
    d2.id = 22;
    let (a2, _) = anime_from_details(d2);
    add_new_anime(&mut store, a2).unwrap();
    assert_eq!(store.anime.len(), 2);
}

#[test]
fn delete_reports_how_many_rows_went_away() {
    let mut store = Store::new();
    ingest_anime_details(&mut store, sample_details()).unwrap();
    assert_eq!(delete_anime_by_id(&mut store, 21).unwrap(), 1);
    assert_eq!(delete_anime_by_id(&mut store, 21).unwrap(), 0);
    assert_eq!(store.anime.len(), 0);
}

#[test]
fn registry_insert_is_noop_on_existing_name() {
    let mut store = Store::new();
    let entry = AnimeID { anime_name: "one-piece-100".to_string() };
    insert_into_anime_id(&mut store, &entry).unwrap();
    insert_into_anime_id(&mut store, &entry).unwrap();
    assert_eq!(store.anime_ids.len(), 1);
    let names = load_all_anime_ids(&store).unwrap();
    assert_eq!(names, vec!["one-piece-100".to_string()]);
}

#[test]
fn load_all_anime_returns_table_rows() {
    let mut store = Store::new();
    ingest_anime_details(&mut store, sample_details()).unwrap();
    let rows = load_all_anime(&store).unwrap();
    assert_eq!(rows.len(), 1);
    assert_eq!(rows[0].id, 21);
}

#[test]
fn listing_entries_map_to_registry_entries() {
    let listing = vec![
        AnimeName {
            id: "one-piece-100".to_string(),
            name: "One Piece".to_string(),
            img: "op.jpg".to_string(),
            episodes: Episodes { eps: Some(1000), sub: Some(1000), dub: None },
            duration: "24m".to_string(),
            rated: false,
        },
        AnimeName {
            id: "bleach-806".to_string(),
            name: "Bleach".to_string(),
            img: "bl.jpg".to_string(),
            episodes: Episodes { eps: None, sub: None, dub: None },
            duration: "24m".to_string(),
            rated: true,
        },
    ];
    let entries = anime_ids_from_listing(&listing);
    let names: Vec<&str> = entries.iter().map(|e| e.anime_name.as_str()).collect();
    assert_eq!(names, vec!["one-piece-100", "bleach-806"]);
}

#[test]
fn role_union_merges_without_duplicates_in_order() {
    let merged = merge_positions(
        opt_strings(&["Producer"]),
        opt_strings(&["Producer", "Director"]),
    );
    assert_eq!(merged, opt_strings(&["Producer", "Director"]));
}

#[test]
fn role_union_keeps_existing_order_and_appends_in_fetch_order() {
    let merged = merge_positions(
        opt_strings(&["Key Animation", "Director"]),
        opt_strings(&["Music", "Director", "Producer"]),
    );
    assert_eq!(
        merged,
        opt_strings(&["Key Animation", "Director", "Music", "Producer"])
    );
}

#[test]
fn converting_role_strings_wraps_each_in_some() {
    let roles = vec!["Producer".to_string(), "Director".to_string()];
    assert_eq!(
        convert_vec_string_to_vec_option_string(roles),
        vec![Some("Producer".to_string()), Some("Director".to_string())]
    );
}

#[test]
fn staff_insert_then_update_merges_roles_and_keeps_columns() {
    let mut store = Store::new();
    insert_or_update_staff(&mut store, &person(77, "Eiichiro Oda", &["Original Creator"]))
        .unwrap();
    assert_eq!(store.staff.len(), 1);
    let mut renamed = person(77, "Someone Else", &["Original Creator", "Storyboard"]);
    renamed.person.url = "https://example.invalid/changed".to_string();
    insert_or_update_staff(&mut store, &renamed).unwrap();
    assert_eq!(store.staff.len(), 1);
    let row = &store.staff[0];
    // existing descriptive columns are kept; only the role list is merged
    assert_eq!(row.name, "Eiichiro Oda");
    assert_eq!(row.mal_url, "https://example.invalid/people/77");
    assert_eq!(
        row.positions,
        opt_strings(&["Original Creator", "Storyboard"])
    );
}

#[test]
fn staff_reingestion_is_idempotent() {
    let mut once = Store::new();
    insert_or_update_staff(&mut once, &person(7, "A", &["Producer", "Director"])).unwrap();
    let mut twice = Store::new();
    insert_or_update_staff(&mut twice, &person(7, "A", &["Producer", "Director"])).unwrap();
    insert_or_update_staff(&mut twice, &person(7, "A", &["Producer", "Director"])).unwrap();
    assert_eq!(once, twice);
}

#[test]
fn association_conflict_keeps_existing_role_list_untouched() {
    let mut store = Store::new();
    insert_into_anime_staff(&mut store, &person(77, "Oda", &["Original Creator"]), 21).unwrap();
    insert_into_anime_staff(&mut store, &person(77, "Oda", &["Different Role"]), 21).unwrap();
    assert_eq!(store.anime_staff.len(), 1);
    assert_eq!(store.anime_staff[0].positions, opt_strings(&["Original Creator"]));
}

#[test]
fn association_key_is_the_pair_of_ids() {
    let mut store = Store::new();
    insert_into_anime_staff(&mut store, &person(77, "Oda", &["Original Creator"]), 21).unwrap();
    insert_into_anime_staff(&mut store, &person(77, "Oda", &["Original Creator"]), 22).unwrap();
    insert_into_anime_staff(&mut store, &person(78, "Toriyama", &["Original Creator"]), 21)
        .unwrap();
    assert_eq!(store.anime_staff.len(), 3);
}

#[test]
fn staff_response_carries_roster_entries() {
    let response = StaffResponse {
        data: vec![person(1, "A", &["Producer"]), person(2, "B", &["Director"])],
    };
    assert_eq!(response.data.len(), 2);
    assert_eq!(response.data[0].person.mal_id, 1);
    assert_eq!(response.data[1].positions, vec!["Director".to_string()]);
}

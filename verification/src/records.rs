//! Data model of the pipeline: persisted relations (catalog items, the
//! catalog-id registry, episodes) and the decoded remote payloads they are
//! built from. Every optional payload field defaults to an empty or zero
//! value when absent, exactly as the ingestion rules require.

use vstd::prelude::*;
use vstd::string::StringExecFns;

verus! {

/// A persisted catalog item, keyed by its numeric id.
#[derive(Debug, Clone, PartialEq)]
pub struct Anime {
    pub id: i32,
    pub title: String,
    pub description: String,
    pub mal_id: i32,
    pub al_id: i32,
    pub japanese_title: Option<String>,
    pub synonyms: Option<String>,
    pub image: String,
    pub category: String,
    pub rating: String,
    pub quality: String,
    pub duration: String,
    pub premiered: String,
    pub aired: String,
    pub status: String,
    pub mal_score: String,
    pub studios: String,
    pub producers: String,
    pub genres: String,
    pub sub_episodes: i32,
    pub dub_episodes: i32,
    pub total_episodes: i32,
    pub sub_or_dub: String,
}

/// Mathematical image of an [`Anime`] row.
#[verifier::ext_equal]
pub struct AnimeView {
    pub id: i32,
    pub title: Seq<char>,
    pub description: Seq<char>,
    pub mal_id: i32,
    pub al_id: i32,
    pub japanese_title: Option<Seq<char>>,
    pub synonyms: Option<Seq<char>>,
    pub image: Seq<char>,
    pub category: Seq<char>,
    pub rating: Seq<char>,
    pub quality: Seq<char>,
    pub duration: Seq<char>,
    pub premiered: Seq<char>,
    pub aired: Seq<char>,
    pub status: Seq<char>,
    pub mal_score: Seq<char>,
    pub studios: Seq<char>,
    pub producers: Seq<char>,
    pub genres: Seq<char>,
    pub sub_episodes: i32,
    pub dub_episodes: i32,
    pub total_episodes: i32,
    pub sub_or_dub: Seq<char>,
}

impl View for Anime {
    type V = AnimeView;

    open spec fn view(&self) -> AnimeView {
        AnimeView {
            id: self.id,
            title: self.title@,
            description: self.description@,
            mal_id: self.mal_id,
            al_id: self.al_id,
            japanese_title: self.japanese_title.deep_view(),
            synonyms: self.synonyms.deep_view(),
            image: self.image@,
            category: self.category@,
            rating: self.rating@,
            quality: self.quality@,
            duration: self.duration@,
            premiered: self.premiered@,
            aired: self.aired@,
            status: self.status@,
            mal_score: self.mal_score@,
            studios: self.studios@,
            producers: self.producers@,
            genres: self.genres@,
            sub_episodes: self.sub_episodes,
            dub_episodes: self.dub_episodes,
            total_episodes: self.total_episodes,
            sub_or_dub: self.sub_or_dub@,
        }
    }
}

impl DeepView for Anime {
    type V = AnimeView;

    open spec fn deep_view(&self) -> AnimeView {
        self@
    }
}

/// A catalog-id registry entry; its name string is the natural key.
#[derive(Debug, Clone, PartialEq)]
pub struct AnimeID {
    pub anime_name: String,
}

/// Mathematical image of an [`AnimeID`] row.
#[verifier::ext_equal]
pub struct AnimeIDView {
    pub anime_name: Seq<char>,
}

impl View for AnimeID {
    type V = AnimeIDView;

    open spec fn view(&self) -> AnimeIDView {
        AnimeIDView { anime_name: self.anime_name@ }
    }
}

impl DeepView for AnimeID {
    type V = AnimeIDView;

    open spec fn deep_view(&self) -> AnimeIDView {
        self@
    }
}

/// A persisted episode, keyed by its id string, holding a foreign key to
/// its catalog item.
#[derive(Debug, Clone, PartialEq)]
pub struct Episode {
    pub id: String,
    pub title: String,
    pub is_filler: bool,
    pub episode_no: i32,
    pub anime_id: i32,
}

/// Mathematical image of an [`Episode`] row.
#[verifier::ext_equal]
pub struct EpisodeView {
    pub id: Seq<char>,
    pub title: Seq<char>,
    pub is_filler: bool,
    pub episode_no: i32,
    pub anime_id: i32,
}

impl View for Episode {
    type V = EpisodeView;

    open spec fn view(&self) -> EpisodeView {
        EpisodeView {
            id: self.id@,
            title: self.title@,
            is_filler: self.is_filler,
            episode_no: self.episode_no,
            anime_id: self.anime_id,
        }
    }
}

impl DeepView for Episode {
    type V = EpisodeView;

    open spec fn deep_view(&self) -> EpisodeView {
        self@
    }
}

/// A persisted staff member, keyed by the numeric person id. Roles are
/// stored as a nullable-element list.
#[derive(Debug, Clone, PartialEq)]
pub struct Staff {
    pub mal_id: i32,
    pub name: String,
    pub mal_url: String,
    pub image: String,
    pub positions: Vec<Option<String>>,
}

/// Mathematical image of a [`Staff`] row.
#[verifier::ext_equal]
pub struct StaffView {
    pub mal_id: i32,
    pub name: Seq<char>,
    pub mal_url: Seq<char>,
    pub image: Seq<char>,
    pub positions: Seq<Option<Seq<char>>>,
}

impl View for Staff {
    type V = StaffView;

    open spec fn view(&self) -> StaffView {
        StaffView {
            mal_id: self.mal_id,
            name: self.name@,
            mal_url: self.mal_url@,
            image: self.image@,
            positions: self.positions.deep_view(),
        }
    }
}

impl DeepView for Staff {
    type V = StaffView;

    open spec fn deep_view(&self) -> StaffView {
        self@
    }
}

/// A persisted catalog-item-to-staff association, keyed by the pair of
/// catalog-item id and staff id.
#[derive(Debug, Clone, PartialEq)]
pub struct AnimeStaff {
    pub anime_id: i32,
    pub staff_id: i32,
    pub positions: Vec<Option<String>>,
}

/// Mathematical image of an [`AnimeStaff`] row.
#[verifier::ext_equal]
pub struct AnimeStaffView {
    pub anime_id: i32,
    pub staff_id: i32,
    pub positions: Seq<Option<Seq<char>>>,
}

impl View for AnimeStaff {
    type V = AnimeStaffView;

    open spec fn view(&self) -> AnimeStaffView {
        AnimeStaffView {
            anime_id: self.anime_id,
            staff_id: self.staff_id,
            positions: self.positions.deep_view(),
        }
    }
}

impl DeepView for AnimeStaff {
    type V = AnimeStaffView;

    open spec fn deep_view(&self) -> AnimeStaffView {
        self@
    }
}

/// A decoded full detail record for one catalog item. Every descriptive
/// field is optional in the source payload.
#[derive(Debug, Clone, PartialEq)]
pub struct AnimeDetails {
    pub id: i32,
    pub title: Option<String>,
    pub description: Option<String>,
    pub mal_id: Option<i32>,
    pub al_id: Option<i32>,
    pub japanese_title: Option<String>,
    pub synonyms: Option<String>,
    pub image: Option<String>,
    pub category: Option<String>,
    pub rating: Option<String>,
    pub quality: Option<String>,
    pub duration: Option<String>,
    pub premiered: Option<String>,
    pub aired: Option<String>,
    pub status: Option<String>,
    pub mal_score: Option<String>,
    pub studios: Option<String>,
    pub producers: Option<String>,
    pub genres: Option<String>,
    pub sub_episodes: Option<i32>,
    pub dub_episodes: Option<i32>,
    pub total_episodes: Option<i32>,
    pub sub_or_dub: Option<String>,
    pub episodes: Option<Vec<EpisodeDetails>>,
}

/// Mathematical image of an [`AnimeDetails`] payload.
#[verifier::ext_equal]
pub struct AnimeDetailsView {
    pub id: i32,
    pub title: Option<Seq<char>>,
    pub description: Option<Seq<char>>,
    pub mal_id: Option<i32>,
    pub al_id: Option<i32>,
    pub japanese_title: Option<Seq<char>>,
    pub synonyms: Option<Seq<char>>,
    pub image: Option<Seq<char>>,
    pub category: Option<Seq<char>>,
    pub rating: Option<Seq<char>>,
    pub quality: Option<Seq<char>>,
    pub duration: Option<Seq<char>>,
    pub premiered: Option<Seq<char>>,
    pub aired: Option<Seq<char>>,
    pub status: Option<Seq<char>>,
    pub mal_score: Option<Seq<char>>,
    pub studios: Option<Seq<char>>,
    pub producers: Option<Seq<char>>,
    pub genres: Option<Seq<char>>,
    pub sub_episodes: Option<i32>,
    pub dub_episodes: Option<i32>,
    pub total_episodes: Option<i32>,
    pub sub_or_dub: Option<Seq<char>>,
    pub episodes: Option<Seq<EpisodeDetailsView>>,
}

impl View for AnimeDetails {
    type V = AnimeDetailsView;

    open spec fn view(&self) -> AnimeDetailsView {
        AnimeDetailsView {
            id: self.id,
            title: self.title.deep_view(),
            description: self.description.deep_view(),
            mal_id: self.mal_id,
            al_id: self.al_id,
            japanese_title: self.japanese_title.deep_view(),
            synonyms: self.synonyms.deep_view(),
            image: self.image.deep_view(),
            category: self.category.deep_view(),
            rating: self.rating.deep_view(),
            quality: self.quality.deep_view(),
            duration: self.duration.deep_view(),
            premiered: self.premiered.deep_view(),
            aired: self.aired.deep_view(),
            status: self.status.deep_view(),
            mal_score: self.mal_score.deep_view(),
            studios: self.studios.deep_view(),
            producers: self.producers.deep_view(),
            genres: self.genres.deep_view(),
            sub_episodes: self.sub_episodes,
            dub_episodes: self.dub_episodes,
            total_episodes: self.total_episodes,
            sub_or_dub: self.sub_or_dub.deep_view(),
            episodes: self.episodes.deep_view(),
        }
    }
}

impl DeepView for AnimeDetails {
    type V = AnimeDetailsView;

    open spec fn deep_view(&self) -> AnimeDetailsView {
        self@
    }
}

/// A decoded episode sub-record inside a detail payload.
#[derive(Debug, Clone, PartialEq)]
pub struct EpisodeDetails {
    pub id: Option<String>,
    pub title: Option<String>,
    pub is_filler: Option<bool>,
    pub episode_no: Option<i32>,
}

/// Mathematical image of an [`EpisodeDetails`] payload.
#[verifier::ext_equal]
pub struct EpisodeDetailsView {
    pub id: Option<Seq<char>>,
    pub title: Option<Seq<char>>,
    pub is_filler: Option<bool>,
    pub episode_no: Option<i32>,
}

impl View for EpisodeDetails {
    type V = EpisodeDetailsView;

    open spec fn view(&self) -> EpisodeDetailsView {
        EpisodeDetailsView {
            id: self.id.deep_view(),
            title: self.title.deep_view(),
            is_filler: self.is_filler,
            episode_no: self.episode_no,
        }
    }
}

impl DeepView for EpisodeDetails {
    type V = EpisodeDetailsView;

    open spec fn deep_view(&self) -> EpisodeDetailsView {
        self@
    }
}

/// Default detail payload: every optional field present and empty (zero
/// for numbers, `"n/a"` for the score), with an empty episode list.
pub open spec fn spec_default_anime_details() -> AnimeDetailsView {
    AnimeDetailsView {
        id: 0,
        title: Some(Seq::<char>::empty()),
        description: Some(Seq::<char>::empty()),
        mal_id: Some(0),
        al_id: Some(0),
        japanese_title: Some(Seq::<char>::empty()),
        synonyms: Some(Seq::<char>::empty()),
        image: Some(Seq::<char>::empty()),
        category: Some(Seq::<char>::empty()),
        rating: Some(Seq::<char>::empty()),
        quality: Some(Seq::<char>::empty()),
        duration: Some(Seq::<char>::empty()),
        premiered: Some(Seq::<char>::empty()),
        aired: Some(Seq::<char>::empty()),
        status: Some(Seq::<char>::empty()),
        mal_score: Some("n/a"@),
        studios: Some(Seq::<char>::empty()),
        producers: Some(Seq::<char>::empty()),
        genres: Some(Seq::<char>::empty()),
        sub_episodes: Some(0),
        dub_episodes: Some(0),
        total_episodes: Some(0),
        sub_or_dub: Some(Seq::<char>::empty()),
        episodes: Some(Seq::<EpisodeDetailsView>::empty()),
    }
}

impl Default for AnimeDetails {
    fn default() -> (r: Self)
        ensures
            r@ == spec_default_anime_details(),
    {
        AnimeDetails {
            id: 0,
            title: Some(String::new()),
            description: Some(String::new()),
            mal_id: Some(0),
            al_id: Some(0),
            japanese_title: Some(String::new()),
            synonyms: Some(String::new()),
            image: Some(String::new()),
            category: Some(String::new()),
            rating: Some(String::new()),
            quality: Some(String::new()),
            duration: Some(String::new()),
            premiered: Some(String::new()),
            aired: Some(String::new()),
            status: Some(String::new()),
            mal_score: Some(String::from_str("n/a")),
            studios: Some(String::new()),
            producers: Some(String::new()),
            genres: Some(String::new()),
            sub_episodes: Some(0),
            dub_episodes: Some(0),
            total_episodes: Some(0),
            sub_or_dub: Some(String::new()),
            episodes: Some(Vec::new()),
        }
    }
}

/// Default episode sub-record: all fields present and empty or zero.
pub open spec fn spec_default_episode_details() -> EpisodeDetailsView {
    EpisodeDetailsView {
        id: Some(Seq::<char>::empty()),
        title: Some(Seq::<char>::empty()),
        is_filler: Some(false),
        episode_no: Some(0),
    }
}

impl Default for EpisodeDetails {
    fn default() -> (r: Self)
        ensures
            r@ == spec_default_episode_details(),
    {
        EpisodeDetails {
            id: Some(String::new()),
            title: Some(String::new()),
            is_filler: Some(false),
            episode_no: Some(0),
        }
    }
}

/// A catalog-entry summary as decoded from one listing page.
#[derive(Debug, Clone, PartialEq)]
pub struct AnimeName {
    pub id: String,
    pub name: String,
    pub img: String,
    pub episodes: Episodes,
    pub duration: String,
    pub rated: bool,
}

/// Episode counters inside a listing entry.
#[derive(Debug, Clone, PartialEq)]
pub struct Episodes {
    pub eps: Option<u32>,
    pub sub: Option<u32>,
    pub dub: Option<u32>,
}

impl View for AnimeName {
    type V = Seq<char>;

    /// Only the id string of a listing entry matters to the pipeline.
    open spec fn view(&self) -> Seq<char> {
        self.id@
    }
}

impl DeepView for AnimeName {
    type V = Seq<char>;

    open spec fn deep_view(&self) -> Seq<char> {
        self@
    }
}

/// The string chosen when a detail payload carries no title.
pub open spec fn spec_title_fallback() -> Seq<char> {
    "Unknown Title"@
}

/// The string chosen when a detail payload carries no description.
pub open spec fn spec_description_fallback() -> Seq<char> {
    "No description available"@
}

/// The value of an optional string field, or the given fallback when the
/// field is absent.
pub open spec fn spec_str_or(o: Option<Seq<char>>, fallback: Seq<char>) -> Seq<char> {
    match o {
        Some(s) => s,
        None => fallback,
    }
}

/// The value of an optional copyable field, or the given fallback.
pub open spec fn spec_or<T>(o: Option<T>, fallback: T) -> T {
    match o {
        Some(v) => v,
        None => fallback,
    }
}

/// The catalog row that a detail payload normalizes to: absent strings
/// become empty (title and description get their fixed fallback texts),
/// absent numbers become zero.
pub open spec fn spec_anime_of_details(d: AnimeDetailsView) -> AnimeView {
    AnimeView {
        id: d.id,
        title: spec_str_or(d.title, spec_title_fallback()),
        description: spec_str_or(d.description, spec_description_fallback()),
        mal_id: spec_or(d.mal_id, 0),
        al_id: spec_or(d.al_id, 0),
        japanese_title: Some(spec_str_or(d.japanese_title, Seq::<char>::empty())),
        synonyms: Some(spec_str_or(d.synonyms, Seq::<char>::empty())),
        image: spec_str_or(d.image, Seq::<char>::empty()),
        category: spec_str_or(d.category, Seq::<char>::empty()),
        rating: spec_str_or(d.rating, Seq::<char>::empty()),
        quality: spec_str_or(d.quality, Seq::<char>::empty()),
        duration: spec_str_or(d.duration, Seq::<char>::empty()),
        premiered: spec_str_or(d.premiered, Seq::<char>::empty()),
        aired: spec_str_or(d.aired, Seq::<char>::empty()),
        status: spec_str_or(d.status, Seq::<char>::empty()),
        mal_score: spec_str_or(d.mal_score, Seq::<char>::empty()),
        studios: spec_str_or(d.studios, Seq::<char>::empty()),
        producers: spec_str_or(d.producers, Seq::<char>::empty()),
        genres: spec_str_or(d.genres, Seq::<char>::empty()),
        sub_episodes: spec_or(d.sub_episodes, 0),
        dub_episodes: spec_or(d.dub_episodes, 0),
        total_episodes: spec_or(d.total_episodes, 0),
        sub_or_dub: spec_str_or(d.sub_or_dub, Seq::<char>::empty()),
    }
}

/// The episode row that an episode sub-record normalizes to, under the
/// catalog item `anime_id`.
pub open spec fn spec_episode_of_details(e: EpisodeDetailsView, anime_id: i32) -> EpisodeView {
    EpisodeView {
        id: spec_str_or(e.id, Seq::<char>::empty()),
        title: spec_str_or(e.title, Seq::<char>::empty()),
        is_filler: spec_or(e.is_filler, false),
        episode_no: spec_or(e.episode_no, 0),
        anime_id: anime_id,
    }
}

/// Returns the optional string, or the fallback when it is absent.
pub fn str_or(o: Option<String>, fallback: &str) -> (r: String)
    ensures
        r@ == spec_str_or(o.deep_view(), fallback@),
{
    match o {
        Some(s) => s,
        None => String::from_str(fallback),
    }
}

/// Returns the optional string, or the empty string when it is absent.
pub fn str_or_empty(o: Option<String>) -> (r: String)
    ensures
        r@ == spec_str_or(o.deep_view(), Seq::<char>::empty()),
{
    match o {
        Some(s) => s,
        None => String::new(),
    }
}

/// Normalizes a detail payload to its catalog row and hands back the
/// embedded episode sub-records untouched.
pub fn anime_from_details(d: AnimeDetails) -> (r: (Anime, Option<Vec<EpisodeDetails>>))
    ensures
        r.0@ == spec_anime_of_details(d@),
        r.1.deep_view() == d@.episodes,
{
    let AnimeDetails {
        id,
        title,
        description,
        mal_id,
        al_id,
        japanese_title,
        synonyms,
        image,
        category,
        rating,
        quality,
        duration,
        premiered,
        aired,
        status,
        mal_score,
        studios,
        producers,
        genres,
        sub_episodes,
        dub_episodes,
        total_episodes,
        sub_or_dub,
        episodes,
    } = d;
    let anime = Anime {
        id,
        title: str_or(title, "Unknown Title"),
        description: str_or(description, "No description available"),
        mal_id: mal_id.unwrap_or(0),
        al_id: al_id.unwrap_or(0),
        japanese_title: Some(str_or_empty(japanese_title)),
        synonyms: Some(str_or_empty(synonyms)),
        image: str_or_empty(image),
        category: str_or_empty(category),
        rating: str_or_empty(rating),
        quality: str_or_empty(quality),
        duration: str_or_empty(duration),
        premiered: str_or_empty(premiered),
        aired: str_or_empty(aired),
        status: str_or_empty(status),
        mal_score: str_or_empty(mal_score),
        studios: str_or_empty(studios),
        producers: str_or_empty(producers),
        genres: str_or_empty(genres),
        sub_episodes: sub_episodes.unwrap_or(0),
        dub_episodes: dub_episodes.unwrap_or(0),
        total_episodes: total_episodes.unwrap_or(0),
        sub_or_dub: str_or_empty(sub_or_dub),
    };
    (anime, episodes)
}

/// Normalizes an episode sub-record to its episode row under the catalog
/// item `anime_id`.
pub fn episode_from_details(e: EpisodeDetails, anime_id: i32) -> (r: Episode)
    ensures
        r@ == spec_episode_of_details(e@, anime_id),
{
    let EpisodeDetails { id, title, is_filler, episode_no } = e;
    Episode {
        id: str_or_empty(id),
        title: str_or_empty(title),
        is_filler: is_filler.unwrap_or(false),
        episode_no: episode_no.unwrap_or(0),
        anime_id,
    }
}

/// Extracts the registry entries of one listing page: one entry per
/// listing item, carrying its id string, in page order.
pub fn anime_ids_from_listing(list: &Vec<AnimeName>) -> (r: Vec<AnimeID>)
    ensures
        r.deep_view().len() == list.deep_view().len(),
        forall|i: int|
            0 <= i < list.deep_view().len() ==> r.deep_view()[i].anime_name
                == list.deep_view()[i],
{
    let mut out: Vec<AnimeID> = Vec::new();
    let mut i: usize = 0;
    while i < list.len()
        invariant
            i <= list.len(),
            out.deep_view().len() == i,
            forall|j: int|
                0 <= j < i ==> out.deep_view()[j].anime_name == list.deep_view()[j],
        decreases list.len() - i,
    {
        out.push(AnimeID { anime_name: list[i].id.clone() });
        i = i + 1;
    }
    out
}

} // verus!

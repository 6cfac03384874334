//! The relational store, modelled as one table per persisted relation.
//! Its invariant — exactly one row per natural key — is established by the
//! constructor and preserved by every operation. Each write follows the
//! existence-check-then-insert-or-update discipline of the pipeline:
//! catalog items and episodes are overwritten field by field, registry
//! entries are inserted only when absent.

use vstd::prelude::*;

use crate::records::{
    Anime, AnimeDetails, AnimeDetailsView, AnimeID, AnimeIDView, AnimeStaff, AnimeStaffView,
    AnimeView, Episode, EpisodeDetailsView, EpisodeView, Staff, StaffView,
    anime_from_details, episode_from_details, spec_anime_of_details, spec_episode_of_details,
};
use crate::table::{
    has_key, key_index, lemma_insert_new, lemma_key_index_first, lemma_key_index_props,
    lemma_upsert, lemma_upsert_all_idempotent, lemma_upsert_all_unique, lemma_upsert_idempotent,
    lookup, spec_delete, spec_insert_new, spec_upsert, spec_upsert_all, unique_keys,
};
use crate::CustomError;

verus! {

/// Natural key of a catalog row: its numeric id.
pub open spec fn anime_key() -> spec_fn(AnimeView) -> i32 {
    |a: AnimeView| a.id
}

/// Natural key of a registry row: its name string.
pub open spec fn anime_id_key() -> spec_fn(AnimeIDView) -> Seq<char> {
    |x: AnimeIDView| x.anime_name
}

/// Natural key of an episode row: its id string.
pub open spec fn episode_key() -> spec_fn(EpisodeView) -> Seq<char> {
    |e: EpisodeView| e.id
}

/// Natural key of a staff row: the numeric person id.
pub open spec fn staff_key() -> spec_fn(StaffView) -> i32 {
    |s: StaffView| s.mal_id
}

/// Composite natural key of an association row: catalog-item id and staff
/// id together.
pub open spec fn anime_staff_key() -> spec_fn(AnimeStaffView) -> (i32, i32) {
    |x: AnimeStaffView| (x.anime_id, x.staff_id)
}

/// Mathematical image of the whole store.
#[verifier::ext_equal]
pub struct StoreView {
    pub anime: Seq<AnimeView>,
    pub anime_ids: Seq<AnimeIDView>,
    pub episodes: Seq<EpisodeView>,
    pub staff: Seq<StaffView>,
    pub anime_staff: Seq<AnimeStaffView>,
}

impl StoreView {
    /// Every table holds exactly one row per natural key.
    pub open spec fn wf(&self) -> bool {
        &&& unique_keys(self.anime, anime_key())
        &&& unique_keys(self.anime_ids, anime_id_key())
        &&& unique_keys(self.episodes, episode_key())
        &&& unique_keys(self.staff, staff_key())
        &&& unique_keys(self.anime_staff, anime_staff_key())
    }
}

/// The relational store: one table per persisted relation.
#[derive(Debug, Clone, PartialEq)]
pub struct Store {
    pub anime: Vec<Anime>,
    pub anime_ids: Vec<AnimeID>,
    pub episodes: Vec<Episode>,
    pub staff: Vec<Staff>,
    pub anime_staff: Vec<AnimeStaff>,
}

impl View for Store {
    type V = StoreView;

    open spec fn view(&self) -> StoreView {
        StoreView {
            anime: self.anime.deep_view(),
            anime_ids: self.anime_ids.deep_view(),
            episodes: self.episodes.deep_view(),
            staff: self.staff.deep_view(),
            anime_staff: self.anime_staff.deep_view(),
        }
    }
}

impl Store {
    /// The store invariant: exactly one row per natural key, in every
    /// table.
    pub open spec fn wf(&self) -> bool {
        self@.wf()
    }

    /// An empty store.
    pub fn new() -> (r: Store)
        ensures
            r.wf(),
            r@.anime == Seq::<AnimeView>::empty(),
            r@.anime_ids == Seq::<AnimeIDView>::empty(),
            r@.episodes == Seq::<EpisodeView>::empty(),
            r@.staff == Seq::<StaffView>::empty(),
            r@.anime_staff == Seq::<AnimeStaffView>::empty(),
    {
        let r = Store {
            anime: Vec::new(),
            anime_ids: Vec::new(),
            episodes: Vec::new(),
            staff: Vec::new(),
            anime_staff: Vec::new(),
        };
        proof {
            assert(r@.anime =~= Seq::<AnimeView>::empty());
            assert(r@.anime_ids =~= Seq::<AnimeIDView>::empty());
            assert(r@.episodes =~= Seq::<EpisodeView>::empty());
            assert(r@.staff =~= Seq::<StaffView>::empty());
            assert(r@.anime_staff =~= Seq::<AnimeStaffView>::empty());
        }
        r
    }
}

/// Index of the catalog row holding `id`, if any; the existence check of
/// the catalog upsert.
fn find_anime(rows: &Vec<Anime>, id: i32) -> (r: Option<usize>)
    ensures
        r matches Some(i) ==> key_index(rows.deep_view(), anime_key(), id) == i as int,
        r is None ==> key_index(rows.deep_view(), anime_key(), id) == -1,
{
    let mut i: usize = 0;
    while i < rows.len()
        invariant
            i <= rows.len(),
            forall|j: int| 0 <= j < i ==> rows.deep_view()[j].id != id,
        decreases rows.len() - i,
    {
        if rows[i].id == id {
            proof {
                lemma_key_index_first(rows.deep_view(), anime_key(), id, i as int);
            }
            return Some(i);
        }
        i = i + 1;
    }
    proof {
        lemma_key_index_props(rows.deep_view(), anime_key(), id);
    }
    None
}

/// Index of the registry row holding `name`, if any.
fn find_anime_id(rows: &Vec<AnimeID>, name: &String) -> (r: Option<usize>)
    ensures
        r matches Some(i) ==> key_index(rows.deep_view(), anime_id_key(), name@) == i as int,
        r is None ==> key_index(rows.deep_view(), anime_id_key(), name@) == -1,
{
    let mut i: usize = 0;
    while i < rows.len()
        invariant
            i <= rows.len(),
            forall|j: int| 0 <= j < i ==> rows.deep_view()[j].anime_name != name@,
        decreases rows.len() - i,
    {
        if rows[i].anime_name.eq(name) {
            proof {
                lemma_key_index_first(rows.deep_view(), anime_id_key(), name@, i as int);
            }
            return Some(i);
        }
        i = i + 1;
    }
    proof {
        lemma_key_index_props(rows.deep_view(), anime_id_key(), name@);
    }
    None
}

/// Index of the episode row holding `id`, if any.
fn find_episode(rows: &Vec<Episode>, id: &String) -> (r: Option<usize>)
    ensures
        r matches Some(i) ==> key_index(rows.deep_view(), episode_key(), id@) == i as int,
        r is None ==> key_index(rows.deep_view(), episode_key(), id@) == -1,
{
    let mut i: usize = 0;
    while i < rows.len()
        invariant
            i <= rows.len(),
            forall|j: int| 0 <= j < i ==> rows.deep_view()[j].id != id@,
        decreases rows.len() - i,
    {
        if rows[i].id.eq(id) {
            proof {
                lemma_key_index_first(rows.deep_view(), episode_key(), id@, i as int);
            }
            return Some(i);
        }
        i = i + 1;
    }
    proof {
        lemma_key_index_props(rows.deep_view(), episode_key(), id@);
    }
    None
}

/// Index of the staff row holding `mal_id`, if any.
pub(crate) fn find_staff(rows: &Vec<Staff>, mal_id: i32) -> (r: Option<usize>)
    ensures
        r matches Some(i) ==> key_index(rows.deep_view(), staff_key(), mal_id) == i as int,
        r is None ==> key_index(rows.deep_view(), staff_key(), mal_id) == -1,
{
    let mut i: usize = 0;
    while i < rows.len()
        invariant
            i <= rows.len(),
            forall|j: int| 0 <= j < i ==> rows.deep_view()[j].mal_id != mal_id,
        decreases rows.len() - i,
    {
        if rows[i].mal_id == mal_id {
            proof {
                lemma_key_index_first(rows.deep_view(), staff_key(), mal_id, i as int);
            }
            return Some(i);
        }
        i = i + 1;
    }
    proof {
        lemma_key_index_props(rows.deep_view(), staff_key(), mal_id);
    }
    None
}

/// Index of the association row holding the pair, if any.
pub(crate) fn find_anime_staff(rows: &Vec<AnimeStaff>, anime_id: i32, staff_id: i32) -> (r:
    Option<usize>)
    ensures
        r matches Some(i) ==> key_index(rows.deep_view(), anime_staff_key(), (anime_id, staff_id))
            == i as int,
        r is None ==> key_index(rows.deep_view(), anime_staff_key(), (anime_id, staff_id)) == -1,
{
    let mut i: usize = 0;
    while i < rows.len()
        invariant
            i <= rows.len(),
            forall|j: int|
                0 <= j < i ==> (rows.deep_view()[j].anime_id, rows.deep_view()[j].staff_id) != (
                anime_id,
                staff_id,
                ),
        decreases rows.len() - i,
    {
        if rows[i].anime_id == anime_id && rows[i].staff_id == staff_id {
            proof {
                lemma_key_index_first(
                    rows.deep_view(),
                    anime_staff_key(),
                    (anime_id, staff_id),
                    i as int,
                );
            }
            return Some(i);
        }
        i = i + 1;
    }
    proof {
        lemma_key_index_props(rows.deep_view(), anime_staff_key(), (anime_id, staff_id));
    }
    None
}

/// Upserts a catalog item by its numeric id: the existing row is
/// overwritten in every field, or the record is inserted when the id is
/// new. Never fails; every other table and every other key is untouched.
pub fn add_new_anime(store: &mut Store, new_anime: Anime) -> (r: Result<(), CustomError>)
    requires
        old(store).wf(),
    ensures
        final(store).wf(),
        r is Ok,
        final(store)@.anime == spec_upsert(old(store)@.anime, anime_key(), new_anime@),
        final(store)@.anime_ids == old(store)@.anime_ids,
        final(store)@.episodes == old(store)@.episodes,
        final(store)@.staff == old(store)@.staff,
        final(store)@.anime_staff == old(store)@.anime_staff,
{
    proof {
        lemma_upsert(old(store)@.anime, anime_key(), new_anime@);
        lemma_key_index_props(old(store)@.anime, anime_key(), new_anime@.id);
    }
    match find_anime(&store.anime, new_anime.id) {
        Some(i) => {
            let ghost pre = store.anime.deep_view();
            store.anime.set(i, new_anime);
            proof {
                assert(store.anime.deep_view() =~= pre.update(i as int, new_anime@));
            }
        },
        None => {
            let ghost pre = store.anime.deep_view();
            store.anime.push(new_anime);
            proof {
                assert(store.anime.deep_view() =~= pre.push(new_anime@));
            }
        },
    }
    Ok(())
}

/// Upserts an episode by its id string: the existing row is overwritten
/// in every field, or the record is inserted when the id is new. Never
/// fails; every other table and every other key is untouched.
pub fn add_new_episode(store: &mut Store, new_episode: Episode) -> (r: Result<(), CustomError>)
    requires
        old(store).wf(),
    ensures
        final(store).wf(),
        r is Ok,
        final(store)@.episodes == spec_upsert(old(store)@.episodes, episode_key(), new_episode@),
        final(store)@.anime == old(store)@.anime,
        final(store)@.anime_ids == old(store)@.anime_ids,
        final(store)@.staff == old(store)@.staff,
        final(store)@.anime_staff == old(store)@.anime_staff,
{
    proof {
        lemma_upsert(old(store)@.episodes, episode_key(), new_episode@);
        lemma_key_index_props(old(store)@.episodes, episode_key(), new_episode@.id);
    }
    match find_episode(&store.episodes, &new_episode.id) {
        Some(i) => {
            let ghost pre = store.episodes.deep_view();
            store.episodes.set(i, new_episode);
            proof {
                assert(store.episodes.deep_view() =~= pre.update(i as int, new_episode@));
            }
        },
        None => {
            let ghost pre = store.episodes.deep_view();
            store.episodes.push(new_episode);
            proof {
                assert(store.episodes.deep_view() =~= pre.push(new_episode@));
            }
        },
    }
    Ok(())
}

/// Inserts a registry entry keyed by its name string, unless the name is
/// already registered; a registered name keeps its row untouched. Never
/// fails; every other table is untouched.
pub fn insert_into_anime_id(store: &mut Store, new_anime: &AnimeID) -> (r: Result<
    (),
    CustomError,
>)
    requires
        old(store).wf(),
    ensures
        final(store).wf(),
        r is Ok,
        final(store)@.anime_ids == spec_insert_new(old(store)@.anime_ids, anime_id_key(), new_anime@),
        final(store)@.anime == old(store)@.anime,
        final(store)@.episodes == old(store)@.episodes,
        final(store)@.staff == old(store)@.staff,
        final(store)@.anime_staff == old(store)@.anime_staff,
{
    proof {
        lemma_insert_new(old(store)@.anime_ids, anime_id_key(), new_anime@);
        lemma_key_index_props(old(store)@.anime_ids, anime_id_key(), new_anime@.anime_name);
    }
    match find_anime_id(&store.anime_ids, &new_anime.anime_name) {
        Some(_i) => {},
        None => {
            let ghost pre = store.anime_ids.deep_view();
            store.anime_ids.push(AnimeID { anime_name: new_anime.anime_name.clone() });
            proof {
                assert(store.anime_ids.deep_view() =~= pre.push(new_anime@));
            }
        },
    }
    Ok(())
}

/// Deletes the catalog row holding `anime_id`, returning how many rows
/// went away: one when the id was present, zero when it was not.
pub fn delete_anime_by_id(store: &mut Store, anime_id: i32) -> (r: Result<usize, CustomError>)
    requires
        old(store).wf(),
    ensures
        final(store).wf(),
        final(store)@.anime == spec_delete(old(store)@.anime, anime_key(), anime_id),
        r matches Ok(n) && n == if has_key(old(store)@.anime, anime_key(), anime_id) {
            1usize
        } else {
            0usize
        },
        final(store)@.anime_ids == old(store)@.anime_ids,
        final(store)@.episodes == old(store)@.episodes,
        final(store)@.staff == old(store)@.staff,
        final(store)@.anime_staff == old(store)@.anime_staff,
{
    proof {
        crate::table::lemma_delete(old(store)@.anime, anime_key(), anime_id);
        lemma_key_index_props(old(store)@.anime, anime_key(), anime_id);
    }
    match find_anime(&store.anime, anime_id) {
        Some(i) => {
            let ghost pre = store.anime.deep_view();
            store.anime.remove(i);
            proof {
                assert(store.anime.deep_view() =~= pre.remove(i as int));
            }
            Ok(1)
        },
        None => Ok(0),
    }
}

/// All registered names, in registry order.
pub fn load_all_anime_ids(store: &Store) -> (r: Result<Vec<String>, CustomError>)
    ensures
        r matches Ok(names) && names.deep_view() == store@.anime_ids.map_values(
            |x: AnimeIDView| x.anime_name,
        ),
{
    let mut out: Vec<String> = Vec::new();
    let mut i: usize = 0;
    while i < store.anime_ids.len()
        invariant
            i <= store.anime_ids.len(),
            out.deep_view().len() == i,
            forall|j: int| 0 <= j < i ==> out.deep_view()[j] == store@.anime_ids[j].anime_name,
        decreases store.anime_ids.len() - i,
    {
        let ghost pre_out = out.deep_view();
        out.push(store.anime_ids[i].anime_name.clone());
        proof {
            assert(out.deep_view() =~= pre_out.push(store@.anime_ids[i as int].anime_name));
        }
        i = i + 1;
    }
    proof {
        assert(out.deep_view() =~= store@.anime_ids.map_values(|x: AnimeIDView| x.anime_name));
    }
    Ok(out)
}

/// All catalog rows, in table order.
pub fn load_all_anime(store: &Store) -> (r: Result<&Vec<Anime>, CustomError>)
    ensures
        r matches Ok(rows) && rows == &store.anime,
{
    Ok(&store.anime)
}

/// The episode rows a detail payload normalizes to, in payload order; a
/// payload without an episode list contributes none.
pub open spec fn spec_episode_rows_of(
    eps: Option<Seq<EpisodeDetailsView>>,
    anime_id: i32,
) -> Seq<EpisodeView> {
    match eps {
        Some(s) => s.map_values(|e: EpisodeDetailsView| spec_episode_of_details(e, anime_id)),
        None => Seq::<EpisodeView>::empty(),
    }
}

/// What ingesting one detail payload does to the store: upsert the
/// normalized catalog row, then upsert each embedded episode in order.
pub open spec fn spec_ingest(sv: StoreView, d: AnimeDetailsView) -> StoreView {
    StoreView {
        anime: spec_upsert(sv.anime, anime_key(), spec_anime_of_details(d)),
        episodes: spec_upsert_all(sv.episodes, episode_key(), spec_episode_rows_of(d.episodes, d.id)),
        anime_ids: sv.anime_ids,
        staff: sv.staff,
        anime_staff: sv.anime_staff,
    }
}

/// Ingests one detail payload: normalizes it, upserts the catalog row,
/// and upserts every embedded episode under the payload's id. Never
/// fails.
pub fn ingest_anime_details(store: &mut Store, details: AnimeDetails) -> (r: Result<
    (),
    CustomError,
>)
    requires
        old(store).wf(),
    ensures
        final(store).wf(),
        r is Ok,
        final(store)@ == spec_ingest(old(store)@, details@),
{
    let ghost sv0 = old(store)@;
    let ghost dv = details@;
    let anime_id_val = details.id;
    let (anime, episodes) = anime_from_details(details);
    let ghost target_eps = spec_episode_rows_of(dv.episodes, dv.id);
    match add_new_anime(store, anime) {
        Ok(_u) => {},
        Err(e) => {
            return Err(e);
        },
    }
    match episodes {
        Some(eps) => {
            let mut rest = eps;
            proof {
                assert(rest.deep_view().map_values(
                    |e: EpisodeDetailsView| spec_episode_of_details(e, anime_id_val),
                ) == target_eps);
            }
            while rest.len() > 0
                invariant
                    store.wf(),
                    store@.anime == spec_upsert(sv0.anime, anime_key(), spec_anime_of_details(dv)),
                    store@.anime_ids == sv0.anime_ids,
                    store@.staff == sv0.staff,
                    store@.anime_staff == sv0.anime_staff,
                    spec_upsert_all(
                        store@.episodes,
                        episode_key(),
                        rest.deep_view().map_values(
                            |e: EpisodeDetailsView| spec_episode_of_details(e, anime_id_val),
                        ),
                    ) == spec_upsert_all(sv0.episodes, episode_key(), target_eps),
                decreases rest.len(),
            {
                let ghost pre = rest.deep_view();
                let ghost mapped_pre = pre.map_values(
                    |e: EpisodeDetailsView| spec_episode_of_details(e, anime_id_val),
                );
                let ghost cur = store@.episodes;
                let e = rest.remove(0);
                let episode = episode_from_details(e, anime_id_val);
                proof {
                    assert(rest.deep_view() =~= pre.drop_first());
                    assert(mapped_pre[0] == episode@);
                    assert(rest.deep_view().map_values(
                        |e: EpisodeDetailsView| spec_episode_of_details(e, anime_id_val),
                    ) =~= mapped_pre.drop_first());
                    assert(spec_upsert_all(cur, episode_key(), mapped_pre) == spec_upsert_all(
                        spec_upsert(cur, episode_key(), mapped_pre[0]),
                        episode_key(),
                        mapped_pre.drop_first(),
                    ));
                }
                match add_new_episode(store, episode) {
                    Ok(_u) => {},
                    Err(e2) => {
                        return Err(e2);
                    },
                }
            }
            proof {
                assert(rest.deep_view().map_values(
                    |e: EpisodeDetailsView| spec_episode_of_details(e, anime_id_val),
                ) =~= Seq::<EpisodeView>::empty());
                assert(spec_upsert_all(
                    store@.episodes,
                    episode_key(),
                    Seq::<EpisodeView>::empty(),
                ) == store@.episodes);
                assert(store@ =~= spec_ingest(sv0, dv));
            }
        },
        None => {
            proof {
                assert(target_eps =~= Seq::<EpisodeView>::empty());
                assert(spec_upsert_all(
                    store@.episodes,
                    episode_key(),
                    Seq::<EpisodeView>::empty(),
                ) == store@.episodes);
                assert(store@ =~= spec_ingest(sv0, dv));
            }
        },
    }
    Ok(())
}

/// Law: ingesting the same detail payload a second time changes nothing —
/// the store ends exactly as after the first ingestion, whatever it held
/// before and whatever the payload.
pub proof fn lemma_ingest_idempotent(sv: StoreView, d: AnimeDetailsView)
    ensures
        spec_ingest(spec_ingest(sv, d), d) == spec_ingest(sv, d),
{
    lemma_upsert_idempotent(sv.anime, anime_key(), spec_anime_of_details(d));
    lemma_upsert_all_idempotent(sv.episodes, episode_key(), spec_episode_rows_of(d.episodes, d.id));
    assert(spec_ingest(spec_ingest(sv, d), d) =~= spec_ingest(sv, d));
}

/// Law: after ingesting a detail payload into a well-formed store, keys
/// are still unique and the payload's id holds exactly its normalized
/// row.
pub proof fn lemma_ingest_one_row(sv: StoreView, d: AnimeDetailsView)
    requires
        sv.wf(),
    ensures
        spec_ingest(sv, d).wf(),
        lookup(spec_ingest(sv, d).anime, anime_key(), d.id) == Some(spec_anime_of_details(d)),
{
    lemma_upsert(sv.anime, anime_key(), spec_anime_of_details(d));
    lemma_upsert_all_unique(
        sv.episodes,
        episode_key(),
        spec_episode_rows_of(d.episodes, d.id),
    );
}

} // verus!

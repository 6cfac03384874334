//! Staff-roster ingestion: the decoded roster payload, the set-union merge
//! of role lists, and the two staff writes — the staff table merges roles
//! on conflict, while the catalog-item-to-staff association is inserted
//! only when its composite key is absent and is never updated.

use vstd::prelude::*;

use crate::records::{AnimeStaff, AnimeStaffView, Staff, StaffView};
use crate::store::{anime_staff_key, find_anime_staff, find_staff, staff_key, Store};
use crate::table::{
    lemma_insert_new, lemma_key_index_props, lemma_upsert, lookup, spec_insert_new, spec_upsert,
};
use crate::CustomError;

verus! {

/// A decoded staff-roster response: one entry per person.
#[derive(Debug, Clone, PartialEq)]
pub struct StaffResponse {
    pub data: Vec<PersonData>,
}

/// One roster entry: a person and the role strings they hold.
#[derive(Debug, Clone, PartialEq)]
pub struct PersonData {
    pub person: Person,
    pub positions: Vec<String>,
}

/// A person as the roster source describes them.
#[derive(Debug, Clone, PartialEq)]
pub struct Person {
    pub mal_id: i32,
    pub url: String,
    pub images: Images,
    pub name: String,
}

/// The image block of a person record.
#[derive(Debug, Clone, PartialEq)]
pub struct Images {
    pub jpg: JpgImage,
}

/// The jpg entry of an image block.
#[derive(Debug, Clone, PartialEq)]
pub struct JpgImage {
    pub image_url: String,
}

/// Mathematical image of a [`PersonData`] entry.
#[verifier::ext_equal]
pub struct PersonDataView {
    pub mal_id: i32,
    pub url: Seq<char>,
    pub image_url: Seq<char>,
    pub name: Seq<char>,
    pub positions: Seq<Seq<char>>,
}

impl View for PersonData {
    type V = PersonDataView;

    open spec fn view(&self) -> PersonDataView {
        PersonDataView {
            mal_id: self.person.mal_id,
            url: self.person.url@,
            image_url: self.person.images.jpg.image_url@,
            name: self.person.name@,
            positions: self.positions.deep_view(),
        }
    }
}

impl DeepView for PersonData {
    type V = PersonDataView;

    open spec fn deep_view(&self) -> PersonDataView {
        self@
    }
}

/// Wraps every role string in `Some`, preserving order, so that role lists
/// can be stored in a nullable-element column.
pub fn convert_vec_string_to_vec_option_string(strings: Vec<String>) -> (r: Vec<
    Option<String>,
>)
    ensures
        r.deep_view() == strings.deep_view().map_values(|s: Seq<char>| Some(s)),
{
    let mut out: Vec<Option<String>> = Vec::new();
    let mut i: usize = 0;
    while i < strings.len()
        invariant
            i <= strings.len(),
            out.deep_view().len() == i,
            forall|j: int| 0 <= j < i ==> out.deep_view()[j] == Some(strings.deep_view()[j]),
        decreases strings.len() - i,
    {
        let s = strings[i].clone();
        let ghost pre = out.deep_view();
        out.push(Some(s));
        proof {
            assert(out.deep_view() =~= pre.push(Some(strings.deep_view()[i as int])));
        }
        i = i + 1;
    }
    proof {
        assert(out.deep_view() =~= strings.deep_view().map_values(|s: Seq<char>| Some(s)));
    }
    out
}

/// Copies a role-string list, preserving both order and each string.
fn clone_strings(v: &Vec<String>) -> (r: Vec<String>)
    ensures
        r.deep_view() == v.deep_view(),
{
    let mut out: Vec<String> = Vec::new();
    let mut i: usize = 0;
    while i < v.len()
        invariant
            i <= v.len(),
            out.deep_view().len() == i,
            forall|j: int| 0 <= j < i ==> out.deep_view()[j] == v.deep_view()[j],
        decreases v.len() - i,
    {
        out.push(v[i].clone());
        i = i + 1;
    }
    proof {
        assert(out.deep_view() =~= v.deep_view());
    }
    out
}

/// Copies a nullable role list, preserving order and each entry.
fn clone_positions(v: &Vec<Option<String>>) -> (r: Vec<Option<String>>)
    ensures
        r.deep_view() == v.deep_view(),
{
    let mut out: Vec<Option<String>> = Vec::new();
    let mut i: usize = 0;
    while i < v.len()
        invariant
            i <= v.len(),
            out.deep_view().len() == i,
            forall|j: int| 0 <= j < i ==> out.deep_view()[j] == v.deep_view()[j],
        decreases v.len() - i,
    {
        let e = match &v[i] {
            Some(s) => Some(s.clone()),
            None => None,
        };
        out.push(e);
        i = i + 1;
    }
    proof {
        assert(out.deep_view() =~= v.deep_view());
    }
    out
}

/// Whether two nullable role entries hold the same text (or are both
/// absent).
fn opt_str_eq(a: &Option<String>, b: &Option<String>) -> (r: bool)
    ensures
        r == (a.deep_view() == b.deep_view()),
{
    match (a, b) {
        (Some(x), Some(y)) => x.eq(y),
        (None, None) => true,
        _ => false,
    }
}

/// Whether the list already holds this role entry.
fn contains_position(v: &Vec<Option<String>>, x: &Option<String>) -> (r: bool)
    ensures
        r == v.deep_view().contains(x.deep_view()),
{
    let mut i: usize = 0;
    while i < v.len()
        invariant
            i <= v.len(),
            forall|j: int| 0 <= j < i ==> v.deep_view()[j] != x.deep_view(),
        decreases v.len() - i,
    {
        if opt_str_eq(&v[i], x) {
            proof {
                assert(v.deep_view()[i as int] == x.deep_view());
            }
            return true;
        }
        i = i + 1;
    }
    proof {
        assert(!v.deep_view().contains(x.deep_view()));
    }
    false
}

/// The set-union merge of role lists: existing entries are kept in their
/// order; each new entry not yet present is appended, in fetch order; no
/// entry is ever removed.
pub open spec fn spec_merge_positions(
    existing: Seq<Option<Seq<char>>>,
    new: Seq<Option<Seq<char>>>,
) -> Seq<Option<Seq<char>>>
    decreases new.len(),
{
    if new.len() == 0 {
        existing
    } else {
        let e2 = if existing.contains(new[0]) {
            existing
        } else {
            existing.push(new[0])
        };
        spec_merge_positions(e2, new.drop_first())
    }
}

/// Merges newly fetched role entries into an existing role list, as a set
/// union that keeps existing order and appends what is new.
pub fn merge_positions(existing: Vec<Option<String>>, new: Vec<Option<String>>) -> (r: Vec<
    Option<String>,
>)
    ensures
        r.deep_view() == spec_merge_positions(existing.deep_view(), new.deep_view()),
{
    let ghost e0 = existing.deep_view();
    let ghost n0 = new.deep_view();
    let mut acc = existing;
    let mut rest = new;
    while rest.len() > 0
        invariant
            spec_merge_positions(acc.deep_view(), rest.deep_view()) == spec_merge_positions(
                e0,
                n0,
            ),
        decreases rest.len(),
    {
        let ghost pre_rest = rest.deep_view();
        let ghost pre_acc = acc.deep_view();
        let p = rest.remove(0);
        proof {
            assert(rest.deep_view() =~= pre_rest.drop_first());
        }
        if !contains_position(&acc, &p) {
            acc.push(p);
            proof {
                assert(acc.deep_view() =~= pre_acc.push(pre_rest[0]));
            }
        }
    }
    acc
}

/// Law: the role-list merge is a set union that respects the existing
/// list. The merged list starts with the existing list unchanged, holds
/// exactly the entries of either list, and introduces no duplicate when
/// the existing list had none.
pub proof fn lemma_merge_positions_union(
    existing: Seq<Option<Seq<char>>>,
    new: Seq<Option<Seq<char>>>,
)
    ensures
        spec_merge_positions(existing, new).len() >= existing.len(),
        spec_merge_positions(existing, new).take(existing.len() as int) == existing,
        forall|x: Option<Seq<char>>|
            spec_merge_positions(existing, new).contains(x) <==> (existing.contains(x)
                || new.contains(x)),
        existing.no_duplicates() ==> spec_merge_positions(existing, new).no_duplicates(),
    decreases new.len(),
{
    let merged = spec_merge_positions(existing, new);
    if new.len() == 0 {
        assert(merged.take(existing.len() as int) =~= existing);
        assert(forall|x: Option<Seq<char>>| !new.contains(x));
    } else {
        let e2 = if existing.contains(new[0]) {
            existing
        } else {
            existing.push(new[0])
        };
        let rest = new.drop_first();
        lemma_merge_positions_union(e2, rest);
        assert(e2.take(existing.len() as int) =~= existing);
        assert(merged.take(existing.len() as int) =~= existing) by {
            assert(merged.take(e2.len() as int) == e2);
            assert forall|j: int| 0 <= j < existing.len() implies merged[j] == existing[j] by {
                assert(merged.take(e2.len() as int)[j] == e2[j]);
            }
        }
        assert forall|x: Option<Seq<char>>|
            merged.contains(x) <==> (existing.contains(x) || new.contains(x)) by {
            assert(e2.contains(x) <==> (existing.contains(x) || x == new[0])) by {
                if existing.contains(x) {
                    let w = choose|i: int| 0 <= i < existing.len() && existing[i] == x;
                    assert(e2[w] == x);
                }
                if e2.contains(x) {
                    let w = choose|i: int| 0 <= i < e2.len() && e2[i] == x;
                    if w < existing.len() {
                        assert(existing[w] == x);
                    }
                }
                if x == new[0] && !existing.contains(new[0]) {
                    assert(e2[existing.len() as int] == x);
                }
            }
            assert(new.contains(x) <==> (x == new[0] || rest.contains(x))) by {
                if rest.contains(x) {
                    let w = choose|i: int| 0 <= i < rest.len() && rest[i] == x;
                    assert(new[w + 1] == x);
                }
                if new.contains(x) {
                    let w = choose|i: int| 0 <= i < new.len() && new[i] == x;
                    if w > 0 {
                        assert(rest[w - 1] == x);
                    }
                }
            }
        }
        if existing.no_duplicates() {
            assert(e2.no_duplicates());
        }
    }
}

/// Merging entries the list already holds changes nothing.
proof fn lemma_merge_positions_contained(
    existing: Seq<Option<Seq<char>>>,
    new: Seq<Option<Seq<char>>>,
)
    requires
        forall|x: Option<Seq<char>>| new.contains(x) ==> existing.contains(x),
    ensures
        spec_merge_positions(existing, new) == existing,
    decreases new.len(),
{
    if new.len() > 0 {
        assert(new.contains(new[0]));
        let rest = new.drop_first();
        assert forall|x: Option<Seq<char>>| rest.contains(x) implies existing.contains(x) by {
            let w = choose|i: int| 0 <= i < rest.len() && rest[i] == x;
            assert(new[w + 1] == x);
            assert(new.contains(x));
        }
        lemma_merge_positions_contained(existing, rest);
    }
}

/// The roster's role strings as nullable entries, in fetch order.
pub open spec fn spec_positions_of(positions: Seq<Seq<char>>) -> Seq<Option<Seq<char>>> {
    positions.map_values(|s: Seq<char>| Some(s))
}

/// The staff row a roster entry creates when its person id is new.
pub open spec fn spec_staff_of_person(p: PersonDataView) -> StaffView {
    StaffView {
        mal_id: p.mal_id,
        name: p.name,
        mal_url: p.url,
        image: p.image_url,
        positions: spec_positions_of(p.positions),
    }
}

/// The staff row held under the entry's person id after the write: a new
/// row when the id was absent, otherwise the existing row with the role
/// lists merged and every other column kept.
pub open spec fn spec_staff_row_after(rows: Seq<StaffView>, p: PersonDataView) -> StaffView {
    match lookup(rows, staff_key(), p.mal_id) {
        Some(existing) => StaffView {
            mal_id: existing.mal_id,
            name: existing.name,
            mal_url: existing.mal_url,
            image: existing.image,
            positions: spec_merge_positions(existing.positions, spec_positions_of(p.positions)),
        },
        None => spec_staff_of_person(p),
    }
}

/// What the staff write does to the staff table.
pub open spec fn spec_staff_upsert(rows: Seq<StaffView>, p: PersonDataView) -> Seq<StaffView> {
    spec_upsert(rows, staff_key(), spec_staff_row_after(rows, p))
}

/// Law: applying the same roster entry to the staff table a second time
/// changes nothing — the roles it brings are already in the merged list,
/// and every other column was kept from the first write.
pub proof fn lemma_staff_upsert_idempotent(rows: Seq<StaffView>, p: PersonDataView)
    requires
        crate::table::unique_keys(rows, staff_key()),
    ensures
        spec_staff_upsert(spec_staff_upsert(rows, p), p) == spec_staff_upsert(rows, p),
{
    let row1 = spec_staff_row_after(rows, p);
    let r1 = spec_staff_upsert(rows, p);
    lemma_key_index_props(rows, staff_key(), p.mal_id);
    assert(row1.mal_id == p.mal_id);
    lemma_upsert(rows, staff_key(), row1);
    lemma_merge_positions_union(
        match lookup(rows, staff_key(), p.mal_id) {
            Some(existing) => existing.positions,
            None => spec_positions_of(p.positions),
        },
        spec_positions_of(p.positions),
    );
    assert(lookup(r1, staff_key(), p.mal_id) == Some(row1));
    assert forall|x: Option<Seq<char>>|
        spec_positions_of(p.positions).contains(x) implies row1.positions.contains(x) by {
        match lookup(rows, staff_key(), p.mal_id) {
            Some(_existing) => {},
            None => {},
        }
    }
    lemma_merge_positions_contained(row1.positions, spec_positions_of(p.positions));
    assert(spec_staff_row_after(r1, p) == row1);
    crate::table::lemma_upsert_idempotent(rows, staff_key(), row1);
}

/// Inserts a staff member keyed by the numeric person id, or — when the id
/// is already present — merges the newly fetched role list into the
/// existing one as a set union and keeps every other column. Never fails;
/// every other table is untouched.
pub fn insert_or_update_staff(store: &mut Store, staff_data: &PersonData) -> (r: Result<
    (),
    CustomError,
>)
    requires
        old(store).wf(),
    ensures
        final(store).wf(),
        r is Ok,
        final(store)@.staff == spec_staff_upsert(old(store)@.staff, staff_data@),
        final(store)@.anime == old(store)@.anime,
        final(store)@.anime_ids == old(store)@.anime_ids,
        final(store)@.episodes == old(store)@.episodes,
        final(store)@.anime_staff == old(store)@.anime_staff,
{
    let ghost rows0 = old(store)@.staff;
    let ghost row_after = spec_staff_row_after(rows0, staff_data@);
    proof {
        lemma_key_index_props(rows0, staff_key(), staff_data@.mal_id);
        lemma_upsert(rows0, staff_key(), row_after);
    }
    match find_staff(&store.staff, staff_data.person.mal_id) {
        Some(i) => {
            let new_positions = convert_vec_string_to_vec_option_string(
                clone_strings(&staff_data.positions),
            );
            let existing = &store.staff[i];
            let merged = merge_positions(clone_positions(&existing.positions), new_positions);
            let new_row = Staff {
                mal_id: existing.mal_id,
                name: existing.name.clone(),
                mal_url: existing.mal_url.clone(),
                image: existing.image.clone(),
                positions: merged,
            };
            proof {
                assert(new_row@ == row_after);
            }
            let ghost pre = store.staff.deep_view();
            store.staff.set(i, new_row);
            proof {
                assert(store.staff.deep_view() =~= pre.update(i as int, row_after));
            }
        },
        None => {
            let new_row = Staff {
                mal_id: staff_data.person.mal_id,
                name: staff_data.person.name.clone(),
                mal_url: staff_data.person.url.clone(),
                image: staff_data.person.images.jpg.image_url.clone(),
                positions: convert_vec_string_to_vec_option_string(
                    clone_strings(&staff_data.positions),
                ),
            };
            proof {
                assert(new_row@ == row_after);
            }
            let ghost pre = store.staff.deep_view();
            store.staff.push(new_row);
            proof {
                assert(store.staff.deep_view() =~= pre.push(row_after));
            }
        },
    }
    Ok(())
}

/// The association row a roster entry creates for a catalog item.
pub open spec fn spec_anime_staff_of(p: PersonDataView, anime_id: i32) -> AnimeStaffView {
    AnimeStaffView {
        anime_id: anime_id,
        staff_id: p.mal_id,
        positions: spec_positions_of(p.positions),
    }
}

/// Inserts a catalog-item-to-staff association keyed by the pair of ids,
/// unless that pair already exists — an existing association keeps its
/// role list untouched even when the newly fetched list differs. Never
/// fails; every other table is untouched.
pub fn insert_into_anime_staff(
    store: &mut Store,
    staff_data: &PersonData,
    anime_table_id: i32,
) -> (r: Result<(), CustomError>)
    requires
        old(store).wf(),
    ensures
        final(store).wf(),
        r is Ok,
        final(store)@.anime_staff == spec_insert_new(
            old(store)@.anime_staff,
            anime_staff_key(),
            spec_anime_staff_of(staff_data@, anime_table_id),
        ),
        final(store)@.anime == old(store)@.anime,
        final(store)@.anime_ids == old(store)@.anime_ids,
        final(store)@.episodes == old(store)@.episodes,
        final(store)@.staff == old(store)@.staff,
{
    let ghost rows0 = old(store)@.anime_staff;
    let ghost new_rec = spec_anime_staff_of(staff_data@, anime_table_id);
    proof {
        lemma_key_index_props(rows0, anime_staff_key(), (anime_table_id, staff_data@.mal_id));
        lemma_insert_new(rows0, anime_staff_key(), new_rec);
    }
    match find_anime_staff(&store.anime_staff, anime_table_id, staff_data.person.mal_id) {
        Some(_i) => {},
        None => {
            let new_row = AnimeStaff {
                anime_id: anime_table_id,
                staff_id: staff_data.person.mal_id,
                positions: convert_vec_string_to_vec_option_string(
                    clone_strings(&staff_data.positions),
                ),
            };
            proof {
                assert(new_row@ == new_rec);
            }
            let ghost pre = store.anime_staff.deep_view();
            store.anime_staff.push(new_row);
            proof {
                assert(store.anime_staff.deep_view() =~= pre.push(new_rec));
            }
        },
    }
    Ok(())
}

} // verus!

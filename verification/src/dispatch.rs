//! The chunked dispatcher: a finite id sequence is partitioned into
//! contiguous fixed-size groups, one worker per group; within a group the
//! items are processed sequentially and a failed item is skipped without
//! aborting the rest. Discovery of the page domain uses the same
//! partition, in waves of ten pages. The concurrent scheduling itself is
//! the caller's; order across groups does not matter because each group's
//! effect on the store is order-independent per key.

use vstd::prelude::*;
use vstd::arithmetic::div_mod::{lemma_basic_div, lemma_div_plus_one};

use crate::records::{AnimeDetails, AnimeDetailsView};
use crate::store::{ingest_anime_details, spec_ingest, Store, StoreView};
use crate::CustomError;

verus! {

/// Contiguous, non-overlapping groups of at most `size` items, in order;
/// every group but the last holds exactly `size`.
pub open spec fn spec_chunks<A>(s: Seq<A>, size: int) -> Seq<Seq<A>>
    decreases s.len(),
{
    if size <= 0 || s.len() == 0 {
        Seq::<Seq<A>>::empty()
    } else if s.len() <= size {
        seq![s]
    } else {
        seq![s.take(size)] + spec_chunks(s.skip(size), size)
    }
}

/// Law: the groups together cover the whole sequence, each element
/// exactly once, in order — no gaps and no overlaps.
pub proof fn lemma_chunks_cover<A>(s: Seq<A>, size: int)
    requires
        size > 0,
    ensures
        spec_chunks(s, size).flatten() == s,
    decreases s.len(),
{
    broadcast use vstd::seq_lib::group_seq_lib_default;

    if s.len() == 0 {
        assert(spec_chunks(s, size).flatten() =~= s);
    } else if s.len() <= size {
        assert(spec_chunks(s, size) == seq![s]);
        assert(seq![s].flatten() =~= s) by {
            seq![s].lemma_flatten_one_element();
        }
    } else {
        lemma_chunks_cover(s.skip(size), size);
        let head = s.take(size);
        let tail_chunks = spec_chunks(s.skip(size), size);
        assert(spec_chunks(s, size) == seq![head] + tail_chunks);
        let all = seq![head] + tail_chunks;
        assert(all.first() == head);
        assert(all.drop_first() =~= tail_chunks);
        assert(all.flatten() == head + tail_chunks.flatten());
        assert(head + s.skip(size) =~= s);
    }
}

/// Law: how many groups the partition yields — the length divided by the
/// group size, rounded up — and their sizes: exactly `size` for every
/// group but the last, which holds the remainder, between one and `size`.
pub proof fn lemma_chunks_sizes<A>(s: Seq<A>, size: int)
    requires
        size > 0,
    ensures
        spec_chunks(s, size).len() == (s.len() + size - 1) / size,
        forall|i: int|
            0 <= i < spec_chunks(s, size).len() - 1 ==> #[trigger] spec_chunks(s, size)[i].len()
                == size,
        spec_chunks(s, size).len() > 0 ==> 1 <= spec_chunks(s, size).last().len() <= size,
    decreases s.len(),
{
    let chunks = spec_chunks(s, size);
    if s.len() == 0 {
        lemma_basic_div(size - 1, size);
    } else if s.len() <= size {
        lemma_div_plus_one(s.len() - 1, size);
        lemma_basic_div(s.len() - 1, size);
    } else {
        lemma_chunks_sizes(s.skip(size), size);
        lemma_div_plus_one(s.len() - 1, size);
        let tail_chunks = spec_chunks(s.skip(size), size);
        assert(s.skip(size).len() == s.len() - size);
        assert(tail_chunks.len() == (s.len() - 1) / size);
        assert forall|i: int| 0 <= i < chunks.len() - 1 implies #[trigger] chunks[i].len()
            == size by {
            if i > 0 {
                assert(chunks[i] == tail_chunks[i - 1]);
            }
        }
        assert(chunks.last() == tail_chunks.last());
    }
}

/// Partitions an ordered id list into contiguous groups of `chunk_size`,
/// the last group possibly shorter; one worker is launched per group.
pub fn chunk_ids(ids: &Vec<String>, chunk_size: usize) -> (r: Vec<Vec<String>>)
    requires
        chunk_size > 0,
    ensures
        r.deep_view() == spec_chunks(ids.deep_view(), chunk_size as int),
{
    let mut out: Vec<Vec<String>> = Vec::new();
    let mut pos: usize = 0;
    proof {
        assert(ids.deep_view().skip(0) =~= ids.deep_view());
    }
    while pos < ids.len()
        invariant
            pos <= ids.len(),
            chunk_size > 0,
            out.deep_view() + spec_chunks(ids.deep_view().skip(pos as int), chunk_size as int)
                == spec_chunks(ids.deep_view(), chunk_size as int),
        decreases ids.len() - pos,
    {
        let end = if ids.len() - pos > chunk_size {
            pos + chunk_size
        } else {
            ids.len()
        };
        let mut chunk: Vec<String> = Vec::new();
        let mut k: usize = pos;
        while k < end
            invariant
                pos <= k <= end <= ids.len(),
                chunk.deep_view().len() == k - pos,
                forall|j: int|
                    0 <= j < k - pos ==> chunk.deep_view()[j] == ids.deep_view()[pos + j],
            decreases end - k,
        {
            let ghost pre_chunk = chunk.deep_view();
            chunk.push(ids[k].clone());
            proof {
                assert(chunk.deep_view() =~= pre_chunk.push(ids.deep_view()[k as int]));
            }
            k = k + 1;
        }
        proof {
            assert(chunk.deep_view() =~= ids.deep_view().subrange(pos as int, end as int));
        }
        let ghost pre = out.deep_view();
        let ghost srem = ids.deep_view().skip(pos as int);
        out.push(chunk);
        proof {
            assert(out.deep_view() =~= pre.push(
                ids.deep_view().subrange(pos as int, end as int),
            ));
            if end < ids.len() {
                assert(srem.take(chunk_size as int) =~= ids.deep_view().subrange(
                    pos as int,
                    end as int,
                ));
                assert(srem.skip(chunk_size as int) =~= ids.deep_view().skip(end as int));
                assert(pre.push(srem.take(chunk_size as int)) + spec_chunks(
                    srem.skip(chunk_size as int),
                    chunk_size as int,
                ) =~= pre + spec_chunks(srem, chunk_size as int));
            } else {
                assert(srem =~= ids.deep_view().subrange(pos as int, end as int));
                assert(spec_chunks(srem, chunk_size as int) == seq![srem]);
                assert(pre.push(srem) =~= pre + seq![srem]);
                assert(ids.deep_view().skip(end as int) =~= Seq::<Seq<char>>::empty());
                assert(pre.push(srem) + spec_chunks(
                    ids.deep_view().skip(end as int),
                    chunk_size as int,
                ) =~= pre + spec_chunks(srem, chunk_size as int));
            }
        }
        pos = end;
    }
    proof {
        assert(ids.deep_view().skip(ids.len() as int) =~= Seq::<Seq<char>>::empty());
        assert(out.deep_view() + Seq::<Seq<Seq<char>>>::empty() =~= out.deep_view());
    }
    out
}

/// The page numbers `1..=total`, in order.
pub open spec fn spec_pages(total: int) -> Seq<u16> {
    Seq::new(total as nat, |i: int| (i + 1) as u16)
}

/// The discovery schedule: pages `1..=total_pages` in waves of ten; each
/// wave runs its pages in parallel, waves advance only when the previous
/// wave has fully completed.
pub fn page_waves(total_pages: u16) -> (r: Vec<Vec<u16>>)
    ensures
        r.deep_view() == spec_chunks(spec_pages(total_pages as int), 10),
{
    let mut pages: Vec<u16> = Vec::new();
    let mut p: u16 = 0;
    while p < total_pages
        invariant
            p <= total_pages,
            pages.deep_view().len() == p,
            forall|j: int| 0 <= j < p ==> pages.deep_view()[j] == (j + 1) as u16,
        decreases total_pages - p,
    {
        p = p + 1;
        let ghost pre_pages = pages.deep_view();
        pages.push(p);
        proof {
            assert(pages.deep_view() =~= pre_pages.push(p));
        }
    }
    proof {
        assert(pages.deep_view() =~= spec_pages(total_pages as int));
    }
    let mut out: Vec<Vec<u16>> = Vec::new();
    let mut pos: usize = 0;
    proof {
        assert(pages.deep_view().skip(0) =~= pages.deep_view());
    }
    while pos < pages.len()
        invariant
            pos <= pages.len(),
            pages.deep_view() == spec_pages(total_pages as int),
            out.deep_view() + spec_chunks(pages.deep_view().skip(pos as int), 10)
                == spec_chunks(pages.deep_view(), 10),
        decreases pages.len() - pos,
    {
        let end = if pages.len() - pos > 10 {
            pos + 10
        } else {
            pages.len()
        };
        let mut wave: Vec<u16> = Vec::new();
        let mut k: usize = pos;
        while k < end
            invariant
                pos <= k <= end <= pages.len(),
                wave.deep_view().len() == k - pos,
                forall|j: int|
                    0 <= j < k - pos ==> wave.deep_view()[j] == pages.deep_view()[pos + j],
            decreases end - k,
        {
            let ghost pre_wave = wave.deep_view();
            wave.push(pages[k]);
            proof {
                assert(wave.deep_view() =~= pre_wave.push(pages.deep_view()[k as int]));
            }
            k = k + 1;
        }
        proof {
            assert(wave.deep_view() =~= pages.deep_view().subrange(pos as int, end as int));
        }
        let ghost pre = out.deep_view();
        let ghost srem = pages.deep_view().skip(pos as int);
        out.push(wave);
        proof {
            assert(out.deep_view() =~= pre.push(
                pages.deep_view().subrange(pos as int, end as int),
            ));
            if end < pages.len() {
                assert(srem.take(10) =~= pages.deep_view().subrange(pos as int, end as int));
                assert(srem.skip(10) =~= pages.deep_view().skip(end as int));
                assert(pre.push(srem.take(10)) + spec_chunks(srem.skip(10), 10) =~= pre
                    + spec_chunks(srem, 10));
            } else {
                assert(srem =~= pages.deep_view().subrange(pos as int, end as int));
                assert(spec_chunks(srem, 10) == seq![srem]);
                assert(pre.push(srem) + spec_chunks(pages.deep_view().skip(end as int), 10)
                    =~= pre + spec_chunks(srem, 10));
            }
        }
        pos = end;
    }
    proof {
        assert(pages.deep_view().skip(pages.len() as int) =~= Seq::<u16>::empty());
        assert(out.deep_view() + Seq::<Seq<u16>>::empty() =~= out.deep_view());
    }
    out
}

/// What one worker's sequential pass leaves in the store: the fetched
/// payloads ingested in order, the failed items skipped.
pub open spec fn spec_process(sv: StoreView, outcomes: Seq<Option<AnimeDetailsView>>)
    -> StoreView
    decreases outcomes.len(),
{
    if outcomes.len() == 0 {
        sv
    } else {
        let sv2 = match outcomes[0] {
            Some(d) => spec_ingest(sv, d),
            None => sv,
        };
        spec_process(sv2, outcomes.drop_first())
    }
}

/// One worker's sequential pass over its group: each fetched payload is
/// ingested in order; a failed item (`None`) is skipped without aborting
/// the remaining items. The pass as a whole always reports success.
pub fn process_chunk(store: &mut Store, outcomes: Vec<Option<AnimeDetails>>) -> (r: Result<
    (),
    CustomError,
>)
    requires
        old(store).wf(),
    ensures
        final(store).wf(),
        r is Ok,
        final(store)@ == spec_process(old(store)@, outcomes.deep_view()),
{
    let ghost sv0 = old(store)@;
    let ghost out0 = outcomes.deep_view();
    let mut rest = outcomes;
    while rest.len() > 0
        invariant
            store.wf(),
            spec_process(store@, rest.deep_view()) == spec_process(sv0, out0),
        decreases rest.len(),
    {
        let ghost pre = rest.deep_view();
        let item = rest.remove(0);
        proof {
            assert(rest.deep_view() =~= pre.drop_first());
        }
        match item {
            Some(details) => {
                match ingest_anime_details(store, details) {
                    Ok(_u) => {},
                    Err(e) => {
                        return Err(e);
                    },
                }
            },
            None => {},
        }
    }
    Ok(())
}

/// Law: partial-failure isolation — one failed item leaves the store
/// exactly as if that item had not been in the group at all; the items
/// around it are still ingested.
pub proof fn lemma_failure_isolated(
    sv: StoreView,
    before: Seq<Option<AnimeDetailsView>>,
    after: Seq<Option<AnimeDetailsView>>,
)
    ensures
        spec_process(sv, before + seq![None] + after) == spec_process(sv, before + after),
    decreases before.len(),
{
    if before.len() == 0 {
        assert(before + seq![None] + after =~= seq![Option::<AnimeDetailsView>::None] + after);
        assert((seq![Option::<AnimeDetailsView>::None] + after)[0] is None);
        assert((seq![Option::<AnimeDetailsView>::None] + after).drop_first() =~= after);
        assert(before + after =~= after);
    } else {
        let whole = before + seq![None] + after;
        let merged = before + after;
        assert(whole[0] == before[0]);
        assert(merged[0] == before[0]);
        let sv2 = match before[0] {
            Some(d) => spec_ingest(sv, d),
            None => sv,
        };
        assert(whole.drop_first() =~= before.drop_first() + seq![None] + after);
        assert(merged.drop_first() =~= before.drop_first() + after);
        lemma_failure_isolated(sv2, before.drop_first(), after);
    }
}

} // verus!

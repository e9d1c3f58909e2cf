//! Laws of the registry, stated over the transition functions that the
//! executable operations are proved to implement.

use vstd::prelude::*;
use vstd::seq_lib::group_to_multiset_ensures;

use crate::genres::{has_duplicate_genre, MusicGenre};
use crate::hashing::fingerprint_of;
use crate::ledger::free_of;
use crate::registry::{
    contains_name, contains_owner, owner_index, register_tr, unregister_tr, update_tr,
    valid_register_input, StateView,
};
use crate::types::{
    artist_update_tr, artist_wf, lemma_update_preserves_wf, ArtistView, UpdatableDataVec,
    UpdatableDataView,
};
use crate::{Config, Error};

verus! {

/// After a successful registration of `o`, a second registration
/// attempt by `o` — with any capacity-respecting input — fails with
/// `AlreadyRegistered` and changes nothing.
pub proof fn lemma_register_owner_unique(
    s: StateView,
    o: u64,
    name1: Seq<u8>,
    alias1: Option<Seq<u8>>,
    genres1: Seq<MusicGenre>,
    description1: Option<Seq<u8>>,
    assets1: Seq<Seq<u8>>,
    name2: Seq<u8>,
    alias2: Option<Seq<u8>>,
    genres2: Seq<MusicGenre>,
    description2: Option<Seq<u8>>,
    assets2: Seq<Seq<u8>>,
)
    requires
        register_tr(s, o, name1, alias1, genres1, description1, assets1).1 is Ok,
        valid_register_input(s.config, name2, alias2, genres2, assets2),
    ensures
        ({
            let s1 = register_tr(s, o, name1, alias1, genres1, description1, assets1).0;
            let second = register_tr(s1, o, name2, alias2, genres2, description2, assets2);
            second.0 == s1 && second.1 is Err && second.1->Err_0 == Error::AlreadyRegistered
        }),
{
    let s1 = register_tr(s, o, name1, alias1, genres1, description1, assets1).0;
    assert(s1.artists[s.artists.len() as int].owner == o);
    assert(contains_owner(s1.artists, o));
}

/// Applies a sequence of updates to a record, each one taking effect
/// only when it is accepted.
pub open spec fn apply_updates(a: ArtistView, ds: Seq<UpdatableDataView>, cfg: Config) -> ArtistView
    decreases ds.len(),
{
    if ds.len() == 0 {
        a
    } else {
        let next = match artist_update_tr(a, ds[0], cfg) {
            Ok(b) => b,
            Err(_) => a,
        };
        apply_updates(next, ds.drop_first(), cfg)
    }
}

/// Under any sequence of updates — genre additions, removals and
/// clears included — a well-formed record stays well formed: the genre
/// list never exceeds its capacity and never holds a duplicate tag.
pub proof fn lemma_updates_preserve_invariant(
    a: ArtistView,
    ds: Seq<UpdatableDataView>,
    cfg: Config,
)
    requires
        artist_wf(a, cfg),
    ensures
        ({
            let b = apply_updates(a, ds, cfg);
            artist_wf(b, cfg) && b.genres.len() <= cfg.max_genres && !has_duplicate_genre(b.genres)
        }),
    decreases ds.len(),
{
    if ds.len() != 0 {
        lemma_update_preserves_wf(a, ds[0], cfg);
        let next = match artist_update_tr(a, ds[0], cfg) {
            Ok(b) => b,
            Err(_) => a,
        };
        lemma_updates_preserve_invariant(next, ds.drop_first(), cfg);
    }
}

/// At registration, a two-entry asset batch whose fingerprints differ
/// is accepted, while two identical byte sequences fail the whole call
/// with `NotUniqueAsset` and leave the state — in particular, no new
/// record — exactly as it was.
pub proof fn lemma_register_asset_fingerprints(
    s: StateView,
    o: u64,
    name: Seq<u8>,
    alias: Option<Seq<u8>>,
    genres: Seq<MusicGenre>,
    description: Option<Seq<u8>>,
    x: Seq<u8>,
    y: Seq<u8>,
)
    requires
        valid_register_input(s.config, name, alias, genres, seq![x, y]),
        !contains_owner(s.artists, o),
        !contains_name(s.artists, name),
        free_of(s.accounts, o) >= s.config.base_deposit,
        !has_duplicate_genre(genres),
    ensures
        fingerprint_of(x) != fingerprint_of(y) ==> register_tr(
            s,
            o,
            name,
            alias,
            genres,
            description,
            seq![x, y],
        ).1 is Ok,
        x == y ==> ({
            let t = register_tr(s, o, name, alias, genres, description, seq![x, y]);
            t.0 == s && t.1 is Err && t.1->Err_0 == Error::NotUniqueAsset
        }),
{
    let batch = seq![x, y];
    assert(batch[0] == x && batch[1] == y);
    if fingerprint_of(x) != fingerprint_of(y) {
        assert forall|i: int, j: int| 0 <= i < j < batch.len() implies fingerprint_of(batch[i])
            != fingerprint_of(batch[j]) by {
            assert(i == 0 && j == 1);
        }
        assert(!crate::registry::has_duplicate_fingerprint(batch));
    }
    if x == y {
        assert(fingerprint_of(batch[0]) == fingerprint_of(batch[1]));
        assert(crate::registry::has_duplicate_fingerprint(batch));
    }
}

/// The cooldown boundary is inclusive: with the record registered at
/// `r` and a period `P`, unregistration at block `r + P - 1` fails
/// with `PeriodNotPassed` and changes nothing, and at block `r + P` it
/// is no longer blocked by the cooldown.
pub proof fn lemma_unregister_cooldown_boundary(s: StateView, o: u64)
    requires
        contains_owner(s.artists, o),
        s.artists[owner_index(s.artists, o)].verified_at is None,
    ensures
        ({
            let r = s.artists[owner_index(s.artists, o)].registered_at;
            let period = s.config.unregister_period;
            &&& s.block_number + 1 == r + period ==> unregister_tr(s, o).0 == s && unregister_tr(
                s,
                o,
            ).1 is Err && unregister_tr(s, o).1->Err_0 == Error::PeriodNotPassed
            &&& s.block_number == r + period ==> unregister_tr(s, o).1 is Ok
        }),
{
}

/// Once a record is verified, unregistration fails with `IsVerified`
/// and changes nothing, whatever the current block is.
pub proof fn lemma_unregister_verified_locked(s: StateView, o: u64)
    requires
        contains_owner(s.artists, o),
        s.artists[owner_index(s.artists, o)].verified_at is Some,
    ensures
        unregister_tr(s, o).0 == s,
        unregister_tr(s, o).1 is Err,
        unregister_tr(s, o).1->Err_0 == Error::IsVerified,
{
}

/// Adding an asset and then removing the same content restores the
/// prior asset collection, as a multiset: order-independent equality.
pub proof fn lemma_assets_add_remove_round_trip(a: ArtistView, x: Seq<u8>, cfg: Config)
    requires
        a.assets.len() < cfg.max_assets,
    ensures
        ({
            let add = artist_update_tr(
                a,
                UpdatableDataView::Assets(UpdatableDataVec::Add(x)),
                cfg,
            );
            &&& add is Ok
            &&& {
                let rem = artist_update_tr(
                    add->Ok_0,
                    UpdatableDataView::Assets(UpdatableDataVec::Remove(x)),
                    cfg,
                );
                &&& rem is Ok
                &&& rem->Ok_0.assets.to_multiset() == a.assets.to_multiset()
            }
        }),
{
    broadcast use group_to_multiset_ensures;

    let digest = fingerprint_of(x);
    let grown = a.assets.push(digest);
    assert(grown[a.assets.len() as int] == digest);
    assert(grown.contains(digest));
    grown.index_of_first_ensures(digest);
    let i = grown.index_of_first(digest).unwrap();
    assert(grown[i] == digest);
    assert(grown.remove(i).to_multiset() =~= grown.to_multiset().remove(digest));
    assert(grown.to_multiset() =~= a.assets.to_multiset().insert(digest));
    assert(a.assets.to_multiset().insert(digest).remove(digest) =~= a.assets.to_multiset());
}

/// An update call that fails leaves the whole registry state — the
/// stored record included — exactly as it was.
pub proof fn lemma_update_atomic_on_failure(s: StateView, o: u64, d: UpdatableDataView)
    ensures
        update_tr(s, o, d).1 is Err ==> update_tr(s, o, d).0 == s,
{
}

} // verus!

//! The artist record and its field-level update engine.
//!
//! An [`Artist`] holds the identity, timestamps, metadata and content
//! fingerprints of one registered owner.  Updates are tagged variants,
//! one field per call; each variant is fully validated before any field
//! changes, so a failed update leaves the record untouched.

use vstd::prelude::*;

use crate::genres::{genres_contain, genres_have_duplicate, has_duplicate_genre, MusicGenre};
use crate::hashing::{fingerprint, fingerprint_of};
use crate::{Config, Error};

verus! {

/// One update to a list-valued field: add an element, remove an
/// element, or clear the list.
pub enum UpdatableDataVec<T> {
    Add(T),
    /// Looks the content up in the existing list and removes it if present.
    Remove(T),
    Clear,
}

/// One field-level update to an artist record.  Description and asset
/// payloads carry raw bytes; the record stores their fingerprints.
pub enum UpdatableData {
    Alias(Option<Vec<u8>>),
    Genres(UpdatableDataVec<MusicGenre>),
    Description(Option<Vec<u8>>),
    Assets(UpdatableDataVec<Vec<u8>>),
}

/// The mathematical value of an [`UpdatableData`].
pub enum UpdatableDataView {
    Alias(Option<Seq<u8>>),
    Genres(UpdatableDataVec<MusicGenre>),
    Description(Option<Seq<u8>>),
    Assets(UpdatableDataVec<Seq<u8>>),
}

impl View for UpdatableData {
    type V = UpdatableDataView;

    open spec fn view(&self) -> UpdatableDataView {
        match self {
            UpdatableData::Alias(x) => UpdatableDataView::Alias(x.deep_view()),
            UpdatableData::Genres(g) => UpdatableDataView::Genres(*g),
            UpdatableData::Description(x) => UpdatableDataView::Description(x.deep_view()),
            UpdatableData::Assets(a) => UpdatableDataView::Assets(
                match a {
                    UpdatableDataVec::Add(v) => UpdatableDataVec::Add(v@),
                    UpdatableDataVec::Remove(v) => UpdatableDataVec::Remove(v@),
                    UpdatableDataVec::Clear => UpdatableDataVec::Clear,
                },
            ),
        }
    }
}

/// The deep view of a byte vector is its view.
pub broadcast proof fn lemma_bytes_deep_view(v: Vec<u8>)
    ensures
        #[trigger] v.deep_view() == v@,
{
    assert(v.deep_view() =~= v@);
}

/// The deep view of a byte-vector list indexes to the views of its
/// elements.
pub broadcast proof fn lemma_byte_lists_deep_view(v: Vec<Vec<u8>>)
    ensures
        (#[trigger] v.deep_view()).len() == v@.len(),
        forall|i: int| 0 <= i < v@.len() ==> v.deep_view()[i] == v@[i]@,
{
    assert forall|i: int| 0 <= i < v@.len() implies v.deep_view()[i] == v@[i]@ by {
        assert(v@[i].deep_view() =~= v@[i]@);
    }
}

/// The mathematical value of an [`Artist`] record.
#[verifier::ext_equal]
pub struct ArtistView {
    pub owner: u64,
    pub registered_at: u64,
    pub verified_at: Option<u64>,
    pub main_name: Seq<u8>,
    pub alias: Option<Seq<u8>>,
    pub genres: Seq<MusicGenre>,
    pub description: Option<Seq<u8>>,
    pub assets: Seq<Seq<u8>>,
    pub contracts: Seq<u64>,
}

/// A main name must be non-empty and within the configured bound.
pub open spec fn valid_name(name: Seq<u8>, cfg: Config) -> bool {
    1 <= name.len() <= cfg.max_name_len
}

/// An alias, when present, must be within the configured bound.
pub open spec fn valid_alias(alias: Option<Seq<u8>>, cfg: Config) -> bool {
    match alias {
        Some(a) => a.len() <= cfg.max_name_len,
        None => true,
    }
}

/// The record invariant: the name and alias are within bounds, the
/// genre list has no duplicate tag and respects its capacity, and the
/// asset and contract lists respect theirs.
pub open spec fn artist_wf(a: ArtistView, cfg: Config) -> bool {
    &&& valid_name(a.main_name, cfg)
    &&& valid_alias(a.alias, cfg)
    &&& a.genres.len() <= cfg.max_genres
    &&& !has_duplicate_genre(a.genres)
    &&& a.assets.len() <= cfg.max_assets
    &&& a.contracts.len() <= cfg.max_contracts
}

/// The record after applying one update, or the error that rejects it.
/// An error never changes the record.
///
/// Adding a genre fails `Full` at capacity and `NotUniqueGenre` when the
/// tag is already present; removing a genre or an asset takes the first
/// match and fails `NotFound` when there is none.  Adding an asset
/// checks capacity but, unlike registration, not fingerprint uniqueness.
pub open spec fn artist_update_tr(a: ArtistView, d: UpdatableDataView, cfg: Config) -> Result<
    ArtistView,
    Error,
> {
    match d {
        UpdatableDataView::Alias(x) => if valid_alias(x, cfg) {
            Ok(ArtistView { alias: x, ..a })
        } else {
            Err(Error::Full)
        },
        UpdatableDataView::Genres(gd) => match gd {
            UpdatableDataVec::Add(g) => if a.genres.len() >= cfg.max_genres {
                Err(Error::Full)
            } else if has_duplicate_genre(a.genres.push(g)) {
                Err(Error::NotUniqueGenre)
            } else {
                Ok(ArtistView { genres: a.genres.push(g), ..a })
            },
            UpdatableDataVec::Remove(g) => match a.genres.index_of_first(g) {
                Some(i) => Ok(ArtistView { genres: a.genres.remove(i), ..a }),
                None => Err(Error::NotFound),
            },
            UpdatableDataVec::Clear => Ok(ArtistView { genres: Seq::empty(), ..a }),
        },
        UpdatableDataView::Description(x) => Ok(
            ArtistView {
                description: match x {
                    Some(b) => Some(fingerprint_of(b)),
                    None => None,
                },
                ..a
            },
        ),
        UpdatableDataView::Assets(ad) => match ad {
            UpdatableDataVec::Add(b) => if a.assets.len() >= cfg.max_assets {
                Err(Error::Full)
            } else {
                Ok(ArtistView { assets: a.assets.push(fingerprint_of(b)), ..a })
            },
            UpdatableDataVec::Remove(b) => match a.assets.index_of_first(fingerprint_of(b)) {
                Some(i) => Ok(ArtistView { assets: a.assets.remove(i), ..a }),
                None => Err(Error::NotFound),
            },
            UpdatableDataVec::Clear => Ok(ArtistView { assets: Seq::empty(), ..a }),
        },
    }
}

/// Removing one element from a list without duplicates leaves a list
/// without duplicates.
pub proof fn lemma_no_duplicate_after_remove(genres: Seq<MusicGenre>, i: int)
    requires
        0 <= i < genres.len(),
        !has_duplicate_genre(genres),
    ensures
        !has_duplicate_genre(genres.remove(i)),
{
    let shorter = genres.remove(i);
    if has_duplicate_genre(shorter) {
        let (p, q) = choose|p: int, q: int|
            0 <= p < q < shorter.len() && shorter[p] == shorter[q];
        let p0 = if p < i { p } else { p + 1 };
        let q0 = if q < i { q } else { q + 1 };
        assert(genres[p0] == genres[q0]);
    }
}

/// Every accepted update preserves the record invariant — the genre
/// list in particular never exceeds its capacity and never holds a
/// duplicate tag — and never touches the owner, the registration time,
/// the verification mark, the main name or the contracts.
pub proof fn lemma_update_preserves_wf(a: ArtistView, d: UpdatableDataView, cfg: Config)
    ensures
        match artist_update_tr(a, d, cfg) {
            Ok(b) => {
                &&& b.owner == a.owner
                &&& b.registered_at == a.registered_at
                &&& b.verified_at == a.verified_at
                &&& b.main_name == a.main_name
                &&& b.contracts == a.contracts
                &&& artist_wf(a, cfg) ==> artist_wf(b, cfg)
            },
            Err(_) => true,
        },
{
    match d {
        UpdatableDataView::Genres(UpdatableDataVec::Remove(g)) => {
            if artist_wf(a, cfg) {
                match a.genres.index_of_first(g) {
                    Some(i) => {
                        a.genres.index_of_first_ensures(g);
                        lemma_no_duplicate_after_remove(a.genres, i);
                    },
                    None => {},
                }
            }
        },
        UpdatableDataView::Assets(UpdatableDataVec::Remove(b)) => {
            a.assets.index_of_first_ensures(fingerprint_of(b));
        },
        _ => {},
    }
}

/// The stored entity for one registered owner.
pub struct Artist {
    pub(crate) owner: u64,
    pub(crate) registered_at: u64,
    pub(crate) verified_at: Option<u64>,
    pub(crate) main_name: Vec<u8>,
    pub(crate) alias: Option<Vec<u8>>,
    pub(crate) genres: Vec<MusicGenre>,
    pub(crate) description: Option<Vec<u8>>,
    pub(crate) assets: Vec<Vec<u8>>,
    pub(crate) contracts: Vec<u64>,
}

impl View for Artist {
    type V = ArtistView;

    open(crate) spec fn view(&self) -> ArtistView {
        ArtistView {
            owner: self.owner,
            registered_at: self.registered_at,
            verified_at: self.verified_at,
            main_name: self.main_name@,
            alias: self.alias.deep_view(),
            genres: self.genres@,
            description: self.description.deep_view(),
            assets: self.assets.deep_view(),
            contracts: self.contracts@,
        }
    }
}

impl DeepView for Artist {
    type V = ArtistView;

    open spec fn deep_view(&self) -> ArtistView {
        self.view()
    }
}

/// Copies a byte vector.
pub(crate) fn clone_bytes(bytes: &Vec<u8>) -> (copy: Vec<u8>)
    ensures
        copy@ == bytes@,
{
    let copy = bytes.clone();
    proof {
        assert(copy@ =~= bytes@);
    }
    copy
}

/// Copies an optional byte vector.
pub(crate) fn clone_opt_bytes(bytes: &Option<Vec<u8>>) -> (copy: Option<Vec<u8>>)
    ensures
        copy.deep_view() == bytes.deep_view(),
{
    match bytes {
        Some(b) => Some(clone_bytes(b)),
        None => None,
    }
}

/// Compares two byte vectors by content.
pub(crate) fn bytes_eq(a: &Vec<u8>, b: &Vec<u8>) -> (equal: bool)
    ensures
        equal == (a@ == b@),
{
    if a.len() != b.len() {
        return false;
    }
    let n = a.len();
    for i in 0..n
        invariant
            n == a@.len(),
            n == b@.len(),
            forall|p: int| 0 <= p < i ==> a@[p] == b@[p],
    {
        if a[i] != b[i] {
            return false;
        }
    }
    proof {
        assert(a@ =~= b@);
    }
    true
}

impl Artist {
    /// A fresh record.  The description and the assets are already
    /// fingerprints; the genre list starts empty and is set afterwards
    /// through the checked setter.
    pub fn new(
        owner: u64,
        registered_at: u64,
        main_name: Vec<u8>,
        alias: Option<Vec<u8>>,
        description: Option<Vec<u8>>,
        assets: Vec<Vec<u8>>,
        contracts: Vec<u64>,
    ) -> (artist: Artist)
        ensures
            artist@ == (ArtistView {
                owner,
                registered_at,
                verified_at: None,
                main_name: main_name@,
                alias: alias.deep_view(),
                genres: Seq::<MusicGenre>::empty(),
                description: description.deep_view(),
                assets: assets.deep_view(),
                contracts: contracts@,
            }),
    {
        let artist = Artist {
            owner,
            registered_at,
            verified_at: None,
            main_name,
            alias,
            genres: Vec::new(),
            description,
            assets,
            contracts,
        };
        proof {
            assert(artist@ =~~= (ArtistView {
                owner,
                registered_at,
                verified_at: None,
                main_name: artist.main_name@,
                alias: artist.alias.deep_view(),
                genres: Seq::<MusicGenre>::empty(),
                description: artist.description.deep_view(),
                assets: artist.assets.deep_view(),
                contracts: artist.contracts@,
            }));
        }
        artist
    }

    /// True when an external authority has verified this artist.
    pub fn is_verified(&self) -> (verified: bool)
        ensures
            verified == (self@.verified_at is Some),
    {
        self.verified_at.is_some()
    }

    /// Marks this artist as verified at `at`.  Verification is granted
    /// by an external authority; the registry itself only reads it.
    pub fn set_verified_at(&mut self, at: u64)
        ensures
            final(self)@ == (ArtistView { verified_at: Some(at), ..old(self)@ }),
    {
        self.verified_at = Some(at);
    }

    /// Replaces the alias unconditionally; aliases carry no uniqueness
    /// constraint.
    pub fn set_alias(&mut self, alias: Option<Vec<u8>>)
        ensures
            final(self)@ == (ArtistView { alias: alias.deep_view(), ..old(self)@ }),
    {
        self.alias = alias;
    }

    /// Replaces the whole genre list after checking that no tag appears
    /// twice.
    pub fn set_checked_genres(&mut self, genres: Vec<MusicGenre>) -> (outcome: Result<(), Error>)
        ensures
            match outcome {
                Ok(()) => !has_duplicate_genre(genres@) && final(self)@ == (ArtistView {
                    genres: genres@,
                    ..old(self)@
                }),
                Err(e) => e == Error::NotUniqueGenre && has_duplicate_genre(genres@) && final(self)@ == old(self)@,
            },
    {
        if genres_have_duplicate(&genres) {
            return Err(Error::NotUniqueGenre);
        }
        self.genres = genres;
        Ok(())
    }

    /// Appends one genre, failing `Full` at capacity and
    /// `NotUniqueGenre` when the tag is already present.
    pub fn add_checked_genres(&mut self, genre: MusicGenre, cfg: &Config) -> (outcome: Result<
        (),
        Error,
    >)
        ensures
            match artist_update_tr(
                old(self)@,
                UpdatableDataView::Genres(UpdatableDataVec::Add(genre)),
                *cfg,
            ) {
                Ok(a) => outcome == Ok::<(), Error>(()) && final(self)@ == a,
                Err(e) => outcome == Err::<(), Error>(e) && final(self)@ == old(self)@,
            },
    {
        if self.genres.len() >= cfg.max_genres {
            return Err(Error::Full);
        }
        if genres_have_duplicate(&self.genres) || genres_contain(&self.genres, genre) {
            proof {
                crate::genres::lemma_duplicate_after_push(self@.genres, genre);
            }
            return Err(Error::NotUniqueGenre);
        }
        proof {
            crate::genres::lemma_duplicate_after_push(self@.genres, genre);
        }
        self.genres.push(genre);
        Ok(())
    }

    /// Removes the first genre equal to `genre`, failing `NotFound`
    /// when there is none.
    pub fn remove_genre(&mut self, genre: MusicGenre) -> (outcome: Result<(), Error>)
        ensures
            match old(self)@.genres.index_of_first(genre) {
                Some(i) => outcome == Ok::<(), Error>(()) && final(self)@ == (ArtistView {
                    genres: old(self)@.genres.remove(i),
                    ..old(self)@
                }),
                None => outcome == Err::<(), Error>(Error::NotFound) && final(self)@ == old(
                    self,
                )@,
            },
    {
        let n = self.genres.len();
        for i in 0..n
            invariant
                n == self@.genres.len(),
                forall|p: int| 0 <= p < i ==> self@.genres[p] != genre,
                self == old(self),
        {
            if self.genres[i] == genre {
                proof {
                    self@.genres.index_of_first_ensures(genre);
                    assert(self@.genres.contains(genre));
                    let k = self@.genres.index_of_first(genre).unwrap();
                    assert(k == i);
                }
                self.genres.remove(i);
                proof {
                    assert(self@ =~~= (ArtistView {
                        genres: old(self)@.genres.remove(i as int),
                        ..old(self)@
                    }));
                }
                return Ok(());
            }
        }
        proof {
            self@.genres.index_of_first_ensures(genre);
        }
        Err(Error::NotFound)
    }

    /// Stores the fingerprint of the supplied description, or clears it.
    pub fn set_description(&mut self, raw_description: &Option<Vec<u8>>)
        ensures
            final(self)@ == (ArtistView {
                description: match raw_description.deep_view() {
                    Some(b) => Some(fingerprint_of(b)),
                    None => None,
                },
                ..old(self)@
            }),
    {
        broadcast use lemma_bytes_deep_view, lemma_byte_lists_deep_view;

        match raw_description {
            Some(x) => {
                self.description = Some(fingerprint(x));
            },
            None => {
                self.description = None;
            },
        }
        proof {
            assert(self@ =~~= (ArtistView {
                description: match raw_description.deep_view() {
                    Some(b) => Some(fingerprint_of(b)),
                    None => None,
                },
                ..old(self)@
            }));
        }
    }

    /// Appends the fingerprint of `asset`, failing `Full` at capacity.
    /// Unlike registration, this does not reject a duplicate
    /// fingerprint.
    pub fn add_asset(&mut self, asset: &Vec<u8>, cfg: &Config) -> (outcome: Result<(), Error>)
        ensures
            match outcome {
                Ok(()) => old(self)@.assets.len() < cfg.max_assets && final(self)@ == (ArtistView {
                    assets: old(self)@.assets.push(fingerprint_of(asset@)),
                    ..old(self)@
                }),
                Err(e) => e == Error::Full && old(self)@.assets.len() >= cfg.max_assets && final(self)@ == old(self)@,
            },
    {
        broadcast use lemma_bytes_deep_view, lemma_byte_lists_deep_view;

        let digest = fingerprint(asset);
        if self.assets.len() >= cfg.max_assets {
            return Err(Error::Full);
        }
        self.assets.push(digest);
        proof {
            assert(self@ =~~= (ArtistView {
                assets: old(self)@.assets.push(fingerprint_of(asset@)),
                ..old(self)@
            }));
        }
        Ok(())
    }

    /// Removes the first asset whose fingerprint matches that of
    /// `asset`, failing `NotFound` when there is none.
    pub fn remove_asset(&mut self, asset: &Vec<u8>) -> (outcome: Result<(), Error>)
        ensures
            match old(self)@.assets.index_of_first(fingerprint_of(asset@)) {
                Some(i) => outcome == Ok::<(), Error>(()) && final(self)@ == (ArtistView {
                    assets: old(self)@.assets.remove(i),
                    ..old(self)@
                }),
                None => outcome == Err::<(), Error>(Error::NotFound) && final(self)@ == old(
                    self,
                )@,
            },
    {
        broadcast use lemma_bytes_deep_view, lemma_byte_lists_deep_view;

        let digest = fingerprint(asset);
        let n = self.assets.len();
        for i in 0..n
            invariant
                n == self@.assets.len(),
                digest@ == fingerprint_of(asset@),
                forall|p: int| 0 <= p < i ==> #[trigger] self@.assets[p] != digest@,
                self == old(self),
        {
            let hit = bytes_eq(&self.assets[i], &digest);
            proof {
                assert(self@.assets[i as int] == self.assets@[i as int]@);
            }
            if hit {
                proof {
                    assert(self@.assets[i as int] == digest@);
                    self@.assets.index_of_first_ensures(digest@);
                    assert(self@.assets.contains(digest@));
                    let k = self@.assets.index_of_first(digest@).unwrap();
                    assert(k == i);
                }
                self.assets.remove(i);
                proof {
                    assert(self@ =~~= (ArtistView {
                        assets: old(self)@.assets.remove(i as int),
                        ..old(self)@
                    }));
                }
                return Ok(());
            }
        }
        proof {
            self@.assets.index_of_first_ensures(digest@);
        }
        Err(Error::NotFound)
    }

    /// The owning account.
    pub fn owner(&self) -> (owner: u64)
        ensures
            owner == self@.owner,
    {
        self.owner
    }

    /// The block at which the record was created.
    pub fn registered_at(&self) -> (at: u64)
        ensures
            at == self@.registered_at,
    {
        self.registered_at
    }

    /// The block at which the record was verified, if it ever was.
    pub fn verified_at(&self) -> (at: Option<u64>)
        ensures
            at == self@.verified_at,
    {
        self.verified_at
    }

    /// The main name, fixed at registration.
    pub fn main_name(&self) -> (name: &Vec<u8>)
        ensures
            name@ == self@.main_name,
    {
        &self.main_name
    }

    /// The current alias, if any.
    pub fn alias(&self) -> (alias: &Option<Vec<u8>>)
        ensures
            alias.deep_view() == self@.alias,
    {
        &self.alias
    }

    /// The genre tags, in insertion order.
    pub fn genres(&self) -> (genres: &Vec<MusicGenre>)
        ensures
            genres@ == self@.genres,
    {
        &self.genres
    }

    /// The fingerprint of the description, if one is set.
    pub fn description(&self) -> (description: &Option<Vec<u8>>)
        ensures
            description.deep_view() == self@.description,
    {
        &self.description
    }

    /// The asset fingerprints, in insertion order.
    pub fn assets(&self) -> (assets: &Vec<Vec<u8>>)
        ensures
            assets.deep_view() == self@.assets,
    {
        &self.assets
    }

    /// The associated contract accounts, set at creation.
    pub fn contracts(&self) -> (contracts: &Vec<u64>)
        ensures
            contracts@ == self@.contracts,
    {
        &self.contracts
    }

    /// Applies one tagged update, validating it fully before any field
    /// changes: on an error the record is exactly as before.
    pub fn update(&mut self, data: &UpdatableData, cfg: &Config) -> (outcome: Result<(), Error>)
        ensures
            match artist_update_tr(old(self)@, data@, *cfg) {
                Ok(a) => outcome is Ok && final(self)@ == a,
                Err(e) => outcome is Err && outcome->Err_0 == e && final(self)@ == old(self)@,
            },
    {
        broadcast use lemma_bytes_deep_view, lemma_byte_lists_deep_view;

        match data {
            UpdatableData::Alias(x) => {
                proof {
                    assert(data@ == UpdatableDataView::Alias(x.deep_view()));
                }
                let within_bound = match x {
                    Some(a) => a.len() <= cfg.max_name_len,
                    None => true,
                };
                proof {
                    assert(within_bound == valid_alias(x.deep_view(), *cfg));
                }
                if !within_bound {
                    return Err(Error::Full);
                }
                self.set_alias(clone_opt_bytes(x));
                Ok(())
            },
            UpdatableData::Genres(UpdatableDataVec::Add(g)) => self.add_checked_genres(*g, cfg),
            UpdatableData::Genres(UpdatableDataVec::Remove(g)) => self.remove_genre(*g),
            UpdatableData::Genres(UpdatableDataVec::Clear) => {
                self.genres = Vec::new();
                proof {
                    assert(self@ =~~= (ArtistView {
                        genres: Seq::<MusicGenre>::empty(),
                        ..old(self)@
                    }));
                }
                Ok(())
            },
            UpdatableData::Description(x) => {
                self.set_description(x);
                Ok(())
            },
            UpdatableData::Assets(UpdatableDataVec::Add(x)) => self.add_asset(x, cfg),
            UpdatableData::Assets(UpdatableDataVec::Remove(x)) => self.remove_asset(x),
            UpdatableData::Assets(UpdatableDataVec::Clear) => {
                self.assets = Vec::new();
                proof {
                    assert(self@ =~~= (ArtistView {
                        assets: Seq::<Seq<u8>>::empty(),
                        ..old(self)@
                    }));
                }
                Ok(())
            },
        }
    }
}

} // verus!

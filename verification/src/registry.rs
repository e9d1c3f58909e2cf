//! The registry: registration, unregistration and field updates, with
//! the owner and name uniqueness invariants, the deposit gate and the
//! verification/cooldown guards.
//!
//! Every public operation is all-or-nothing: a call that returns an
//! error leaves the stored records, the indices and the ledger exactly
//! as they were.  The whole behaviour of each operation is captured by
//! a transition function on [`StateView`], and each executable method
//! is proved to implement its transition.

use vstd::prelude::*;

use crate::genres::{genres_have_duplicate, has_duplicate_genre, MusicGenre};
use crate::hashing::{fingerprint, fingerprint_of};
use crate::ledger::{
    free_of, ledger_wf, reserve_in, reserved_of, set_balance_in, unreserve_in, BalanceEntry,
    Ledger,
};
use crate::types::{
    artist_update_tr, artist_wf, bytes_eq, clone_bytes, lemma_byte_lists_deep_view,
    lemma_bytes_deep_view, valid_alias, valid_name, Artist, ArtistView, UpdatableData,
    UpdatableDataView,
};
use crate::{Config, Error};

verus! {

/// An observable event, appended on every successful state change.
pub enum Event {
    /// A new artist got registered.
    ArtistRegistered { id: u64, name: Vec<u8> },
    /// An artist has been unregistered.
    ArtistUnregistered { id: u64 },
    /// An artist record was updated; the payload mirrors the
    /// caller-supplied data, not the stored fingerprint.
    ArtistUpdated { id: u64, new_data: UpdatableData },
}

/// The mathematical value of an [`Event`].
pub enum EventView {
    ArtistRegistered { id: u64, name: Seq<u8> },
    ArtistUnregistered { id: u64 },
    ArtistUpdated { id: u64, new_data: UpdatableDataView },
}

impl View for Event {
    type V = EventView;

    open spec fn view(&self) -> EventView {
        match self {
            Event::ArtistRegistered { id, name } => EventView::ArtistRegistered {
                id: *id,
                name: name@,
            },
            Event::ArtistUnregistered { id } => EventView::ArtistUnregistered { id: *id },
            Event::ArtistUpdated { id, new_data } => EventView::ArtistUpdated {
                id: *id,
                new_data: new_data@,
            },
        }
    }
}

impl DeepView for Event {
    type V = EventView;

    open spec fn deep_view(&self) -> EventView {
        self.view()
    }
}

/// The mathematical value of a whole registry.
#[verifier::ext_equal]
pub struct StateView {
    pub config: Config,
    pub block_number: u64,
    pub artists: Seq<ArtistView>,
    pub accounts: Seq<BalanceEntry>,
    pub events: Seq<EventView>,
}

/// Holds when some record belongs to `owner`.
pub open spec fn contains_owner(artists: Seq<ArtistView>, owner: u64) -> bool {
    exists|i: int| 0 <= i < artists.len() && artists[i].owner == owner
}

/// The index of `owner`'s record; meaningful only under
/// [`contains_owner`], where well-formedness makes it unique.
pub open spec fn owner_index(artists: Seq<ArtistView>, owner: u64) -> int {
    choose|i: int| 0 <= i < artists.len() && artists[i].owner == owner
}

/// Holds when some record carries `name` as its main name.
pub open spec fn contains_name(artists: Seq<ArtistView>, name: Seq<u8>) -> bool {
    exists|i: int| 0 <= i < artists.len() && artists[i].main_name == name
}

/// The index of the record named `name`; meaningful only under
/// [`contains_name`], where well-formedness makes it unique.
pub open spec fn name_index(artists: Seq<ArtistView>, name: Seq<u8>) -> int {
    choose|i: int| 0 <= i < artists.len() && artists[i].main_name == name
}

/// The fingerprints of a batch of raw contents, in batch order.
pub open spec fn fingerprints_of(batch: Seq<Seq<u8>>) -> Seq<Seq<u8>> {
    batch.map_values(|b: Seq<u8>| fingerprint_of(b))
}

/// Holds when two entries of the batch have the same fingerprint; two
/// identical byte sequences always do.
pub open spec fn has_duplicate_fingerprint(batch: Seq<Seq<u8>>) -> bool {
    exists|i: int, j: int|
        0 <= i < j < batch.len() && fingerprint_of(batch[i]) == fingerprint_of(batch[j])
}

/// The capacity bounds a registration input must meet; a chain-facing
/// interface enforces them through bounded argument types, this library
/// checks them and answers `Full`.
pub open spec fn valid_register_input(
    cfg: Config,
    main_name: Seq<u8>,
    alias: Option<Seq<u8>>,
    genres: Seq<MusicGenre>,
    assets: Seq<Seq<u8>>,
) -> bool {
    &&& valid_name(main_name, cfg)
    &&& valid_alias(alias, cfg)
    &&& genres.len() <= cfg.max_genres
    &&& assets.len() <= cfg.max_assets
}

/// The registry invariant: every record is well formed, owners and
/// main names are unique, and the ledger is well formed.
pub open spec fn state_wf(s: StateView) -> bool {
    &&& forall|i: int| 0 <= i < s.artists.len() ==> artist_wf(#[trigger] s.artists[i], s.config)
    &&& forall|i: int, j: int|
        0 <= i < j < s.artists.len() ==> s.artists[i].owner != s.artists[j].owner
    &&& forall|i: int, j: int|
        0 <= i < j < s.artists.len() ==> s.artists[i].main_name != s.artists[j].main_name
    &&& ledger_wf(s.accounts)
}

/// Two call outcomes agree: both succeed, or both fail with the same
/// error.
pub open spec fn same_outcome(a: Result<(), Error>, b: Result<(), Error>) -> bool {
    match (a, b) {
        (Ok(()), Ok(())) => true,
        (Err(x), Err(y)) => x == y,
        _ => false,
    }
}

/// The state after a registration attempt, with its outcome.
///
/// Checked in order: capacity bounds of the inputs, one record per
/// owner, name availability, the deposit against the free balance,
/// fingerprint uniqueness within the asset batch, genre uniqueness.
/// On success the record is stored with the current block as its
/// registration time, the deposit is reserved, and a registration
/// event is appended; on an error nothing changes.
pub open spec fn register_tr(
    s: StateView,
    origin: u64,
    main_name: Seq<u8>,
    alias: Option<Seq<u8>>,
    genres: Seq<MusicGenre>,
    description: Option<Seq<u8>>,
    assets: Seq<Seq<u8>>,
) -> (StateView, Result<(), Error>) {
    if !valid_register_input(s.config, main_name, alias, genres, assets) {
        (s, Err(Error::Full))
    } else if contains_owner(s.artists, origin) {
        (s, Err(Error::AlreadyRegistered))
    } else if contains_name(s.artists, main_name) {
        (s, Err(Error::NameUnavailable))
    } else if free_of(s.accounts, origin) < s.config.base_deposit {
        (s, Err(Error::InsufficientBalance))
    } else if has_duplicate_fingerprint(assets) {
        (s, Err(Error::NotUniqueAsset))
    } else if has_duplicate_genre(genres) {
        (s, Err(Error::NotUniqueGenre))
    } else {
        let artist = ArtistView {
            owner: origin,
            registered_at: s.block_number,
            verified_at: None,
            main_name,
            alias,
            genres,
            description: match description {
                Some(b) => Some(fingerprint_of(b)),
                None => None,
            },
            assets: fingerprints_of(assets),
            contracts: Seq::empty(),
        };
        (
            StateView {
                artists: s.artists.push(artist),
                accounts: reserve_in(s.accounts, origin, s.config.base_deposit),
                events: s.events.push(
                    EventView::ArtistRegistered { id: origin, name: main_name },
                ),
                ..s
            },
            Ok(()),
        )
    }
}

/// Whether `origin` may unregister now: a record must exist, it must
/// not be verified, and the cooldown must have passed.  The cooldown
/// comparison is inclusive: unregistration is allowed exactly from
/// block `registered_at + unregister_period` on.
pub open spec fn unregister_guard(s: StateView, origin: u64) -> Result<(), Error> {
    if !contains_owner(s.artists, origin) {
        Err(Error::NotRegistered)
    } else {
        let a = s.artists[owner_index(s.artists, origin)];
        if a.verified_at is Some {
            Err(Error::IsVerified)
        } else if s.block_number < a.registered_at + s.config.unregister_period {
            Err(Error::PeriodNotPassed)
        } else {
            Ok(())
        }
    }
}

/// The state after an unregistration attempt, with its outcome.  On
/// success the record is removed, the deposit is released, and an
/// unregistration event is appended; on an error nothing changes.
pub open spec fn unregister_tr(s: StateView, origin: u64) -> (StateView, Result<(), Error>) {
    match unregister_guard(s, origin) {
        Err(e) => (s, Err(e)),
        Ok(()) => (
            StateView {
                artists: s.artists.remove(owner_index(s.artists, origin)),
                accounts: unreserve_in(s.accounts, origin, s.config.base_deposit),
                events: s.events.push(EventView::ArtistUnregistered { id: origin }),
                ..s
            },
            Ok(()),
        ),
    }
}

/// The state after an update attempt, with its outcome.  On success
/// the one record is replaced and an update event carrying the
/// caller-supplied data is appended; on an error nothing changes.
pub open spec fn update_tr(s: StateView, origin: u64, d: UpdatableDataView) -> (
    StateView,
    Result<(), Error>,
) {
    if !contains_owner(s.artists, origin) {
        (s, Err(Error::NotRegistered))
    } else {
        let i = owner_index(s.artists, origin);
        match artist_update_tr(s.artists[i], d, s.config) {
            Ok(a) => (
                StateView {
                    artists: s.artists.update(i, a),
                    events: s.events.push(
                        EventView::ArtistUpdated { id: origin, new_data: d },
                    ),
                    ..s
                },
                Ok(()),
            ),
            Err(e) => (s, Err(e)),
        }
    }
}

/// The state after the external authority marks `origin` as verified
/// at block `at`.  The registry only consumes the flag; no event of
/// its own is emitted.
pub open spec fn set_verified_tr(s: StateView, origin: u64, at: u64) -> (
    StateView,
    Result<(), Error>,
) {
    if !contains_owner(s.artists, origin) {
        (s, Err(Error::NotRegistered))
    } else {
        let i = owner_index(s.artists, origin);
        (
            StateView {
                artists: s.artists.update(
                    i,
                    ArtistView { verified_at: Some(at), ..s.artists[i] },
                ),
                ..s
            },
            Ok(()),
        )
    }
}

/// The deep view of a record list indexes to the views of its records.
pub broadcast proof fn lemma_artists_deep_view(v: Vec<Artist>)
    ensures
        (#[trigger] v.deep_view()).len() == v@.len(),
        forall|i: int| 0 <= i < v@.len() ==> v.deep_view()[i] == v@[i]@,
{
}

/// The deep view of an event list indexes to the views of its events.
pub broadcast proof fn lemma_events_deep_view(v: Vec<Event>)
    ensures
        (#[trigger] v.deep_view()).len() == v@.len(),
        forall|i: int| 0 <= i < v@.len() ==> v.deep_view()[i] == v@[i]@,
{
}

/// One registry instance: configuration, logical clock, the record
/// store, the ledger and the event log.
pub struct Pallet {
    pub(crate) config: Config,
    pub(crate) block_number: u64,
    pub(crate) artists: Vec<Artist>,
    pub(crate) balances: Ledger,
    pub(crate) events: Vec<Event>,
}

impl View for Pallet {
    type V = StateView;

    open(crate) spec fn view(&self) -> StateView {
        StateView {
            config: self.config,
            block_number: self.block_number,
            artists: self.artists.deep_view(),
            accounts: self.balances@,
            events: self.events.deep_view(),
        }
    }
}

impl Pallet {
    /// Holds when the stored state satisfies the registry invariant.
    pub open spec fn wf(&self) -> bool {
        state_wf(self@)
    }

    /// An empty registry at block zero.
    pub fn new(config: Config) -> (pallet: Pallet)
        ensures
            pallet@ == (StateView {
                config,
                block_number: 0,
                artists: Seq::<ArtistView>::empty(),
                accounts: Seq::<BalanceEntry>::empty(),
                events: Seq::<EventView>::empty(),
            }),
            pallet.wf(),
    {
        let pallet = Pallet {
            config,
            block_number: 0,
            artists: Vec::new(),
            balances: Ledger::new(),
            events: Vec::new(),
        };
        proof {
            assert(pallet@ =~~= (StateView {
                config,
                block_number: 0,
                artists: Seq::<ArtistView>::empty(),
                accounts: Seq::<BalanceEntry>::empty(),
                events: Seq::<EventView>::empty(),
            }));
        }
        pallet
    }

    /// The configured constants.
    pub fn config(&self) -> (cfg: &Config)
        ensures
            *cfg == self@.config,
    {
        &self.config
    }

    /// The current block number.
    pub fn block_number(&self) -> (n: u64)
        ensures
            n == self@.block_number,
    {
        self.block_number
    }

    /// Sets the logical clock; the surrounding system drives it.
    pub fn set_block_number(&mut self, n: u64)
        requires
            old(self).wf(),
        ensures
            final(self)@ == (StateView { block_number: n, ..old(self)@ }),
            final(self).wf(),
    {
        self.block_number = n;
        proof {
            assert(self@ =~~= (StateView { block_number: n, ..old(self)@ }));
        }
    }

    /// Sets an account's balance to `free` free and nothing reserved,
    /// as the surrounding system does when endowing accounts.
    pub fn set_balance(&mut self, account: u64, free: u64)
        requires
            old(self).wf(),
        ensures
            final(self)@ == (StateView {
                accounts: set_balance_in(old(self)@.accounts, account, free),
                ..old(self)@
            }),
            final(self).wf(),
    {
        self.balances.set_balance(account, free);
        proof {
            assert(self@ =~~= (StateView {
                accounts: set_balance_in(old(self)@.accounts, account, free),
                ..old(self)@
            }));
        }
    }

    /// The free balance of `account`.
    pub fn free_balance(&self, account: u64) -> (free: u64)
        requires
            self.wf(),
        ensures
            free == free_of(self@.accounts, account),
    {
        self.balances.free_balance(account)
    }

    /// The reserved balance of `account`.
    pub fn reserved_balance(&self, account: u64) -> (reserved: u64)
        requires
            self.wf(),
        ensures
            reserved == reserved_of(self@.accounts, account),
    {
        self.balances.reserved_balance(account)
    }

    /// The position of `owner`'s record, scanning from the front.
    fn owner_position(&self, owner: u64) -> (position: Option<usize>)
        requires
            self.wf(),
        ensures
            match position {
                Some(i) => contains_owner(self@.artists, owner) && i == owner_index(
                    self@.artists,
                    owner,
                ) && i < self@.artists.len() && self@.artists[i as int].owner == owner,
                None => !contains_owner(self@.artists, owner),
            },
    {
        broadcast use lemma_artists_deep_view;

        let n = self.artists.len();
        for i in 0..n
            invariant
                self.wf(),
                n == self@.artists.len(),
                forall|p: int| 0 <= p < i ==> self@.artists[p].owner != owner,
        {
            if self.artists[i].owner == owner {
                proof {
                    assert(self@.artists[i as int].owner == owner);
                    assert(contains_owner(self@.artists, owner));
                    let w = owner_index(self@.artists, owner);
                    assert(self@.artists[w].owner == owner);
                    assert(w == i);
                }
                return Some(i);
            }
        }
        None
    }

    /// Whether some record already carries `name` as its main name.
    fn name_taken(&self, name: &Vec<u8>) -> (taken: bool)
        requires
            self.wf(),
        ensures
            taken == contains_name(self@.artists, name@),
    {
        broadcast use lemma_artists_deep_view;

        let n = self.artists.len();
        for i in 0..n
            invariant
                self.wf(),
                n == self@.artists.len(),
                forall|p: int| 0 <= p < i ==> self@.artists[p].main_name != name@,
        {
            if bytes_eq(&self.artists[i].main_name, name) {
                proof {
                    assert(self@.artists[i as int].main_name == name@);
                    assert(contains_name(self@.artists, name@));
                }
                return true;
            }
            proof {
                assert(self@.artists[i as int].main_name == self.artists@[i as int]@.main_name);
            }
        }
        false
    }

    /// `owner`'s record, if any: the primary store lookup.
    pub fn get_artist_by_id(&self, id: u64) -> (artist: Option<&Artist>)
        requires
            self.wf(),
        ensures
            match artist {
                Some(a) => contains_owner(self@.artists, id) && a@ == self@.artists[owner_index(
                    self@.artists,
                    id,
                )],
                None => !contains_owner(self@.artists, id),
            },
    {
        broadcast use lemma_artists_deep_view;

        match self.owner_position(id) {
            Some(i) => Some(&self.artists[i]),
            None => None,
        }
    }

    /// The record registered under `name`, if any.
    pub fn get_artist_by_name(&self, name: &Vec<u8>) -> (artist: Option<&Artist>)
        requires
            self.wf(),
        ensures
            match artist {
                Some(a) => contains_name(self@.artists, name@) && a@ == self@.artists[name_index(
                    self@.artists,
                    name@,
                )] && a@.main_name == name@,
                None => !contains_name(self@.artists, name@),
            },
    {
        broadcast use lemma_artists_deep_view;

        let n = self.artists.len();
        for i in 0..n
            invariant
                self.wf(),
                n == self@.artists.len(),
                forall|p: int| 0 <= p < i ==> self@.artists[p].main_name != name@,
        {
            if bytes_eq(&self.artists[i].main_name, name) {
                proof {
                    assert(self@.artists[i as int].main_name == name@);
                    assert(contains_name(self@.artists, name@));
                    let w = name_index(self@.artists, name@);
                    assert(self@.artists[w].main_name == name@);
                    assert(w == i);
                }
                return Some(&self.artists[i]);
            }
            proof {
                assert(self@.artists[i as int].main_name == self.artists@[i as int]@.main_name);
            }
        }
        None
    }

    /// The events emitted so far, oldest first.
    pub fn events(&self) -> (events: &Vec<Event>)
        ensures
            events.deep_view() == self@.events,
    {
        &self.events
    }

    /// Hashes a batch of raw assets, rejecting the whole batch when two
    /// entries produce the same fingerprint.
    pub fn checked_hash_assets(raw_assets: &Vec<Vec<u8>>) -> (outcome: Result<Vec<Vec<u8>>, Error>)
        ensures
            match outcome {
                Ok(hashed) => !has_duplicate_fingerprint(raw_assets.deep_view())
                    && hashed.deep_view() == fingerprints_of(raw_assets.deep_view()),
                Err(e) => e == Error::NotUniqueAsset && has_duplicate_fingerprint(
                    raw_assets.deep_view(),
                ),
            },
    {
        broadcast use lemma_bytes_deep_view, lemma_byte_lists_deep_view;

        let mut hashed: Vec<Vec<u8>> = Vec::new();
        let n = raw_assets.len();
        for i in 0..n
            invariant
                n == raw_assets@.len(),
                hashed@.len() == i,
                forall|p: int| 0 <= p < i ==> #[trigger] hashed@[p]@ == fingerprint_of(
                    raw_assets@[p]@,
                ),
                forall|p: int, q: int|
                    0 <= p < q < i ==> fingerprint_of(raw_assets@[p]@) != fingerprint_of(
                        raw_assets@[q]@,
                    ),
        {
            let digest = fingerprint(&raw_assets[i]);
            let m = hashed.len();
            for j in 0..m
                invariant
                    n == raw_assets@.len(),
                    m == hashed@.len(),
                    m == i < n,
                    digest@ == fingerprint_of(raw_assets@[i as int]@),
                    forall|p: int| 0 <= p < m ==> #[trigger] hashed@[p]@ == fingerprint_of(
                        raw_assets@[p]@,
                    ),
                    forall|q: int| 0 <= q < j ==> fingerprint_of(raw_assets@[q]@) != digest@,
            {
                if bytes_eq(&hashed[j], &digest) {
                    proof {
                        assert(hashed@[j as int]@ == digest@);
                        assert(fingerprint_of(raw_assets@[j as int]@) == fingerprint_of(
                            raw_assets@[i as int]@,
                        ));
                        assert(raw_assets.deep_view()[j as int] == raw_assets@[j as int]@);
                        assert(raw_assets.deep_view()[i as int] == raw_assets@[i as int]@);
                        assert(has_duplicate_fingerprint(raw_assets.deep_view()));
                    }
                    return Err(Error::NotUniqueAsset);
                }
            }
            hashed.push(digest);
        }
        proof {
            assert forall|p: int, q: int|
                0 <= p < q < raw_assets.deep_view().len() implies fingerprint_of(
                raw_assets.deep_view()[p],
            ) != fingerprint_of(raw_assets.deep_view()[q]) by {
                assert(fingerprint_of(raw_assets@[p]@) != fingerprint_of(raw_assets@[q]@));
            }
            assert(hashed.deep_view() =~~= fingerprints_of(raw_assets.deep_view()));
        }
        Ok(hashed)
    }

    /// Registers `origin` as an artist; the whole behaviour, error
    /// precedence included, is [`register_tr`].  Every validation runs
    /// before any state changes, so an error leaves the registry
    /// exactly as it was.
    pub fn register(
        &mut self,
        origin: u64,
        main_name: Vec<u8>,
        alias: Option<Vec<u8>>,
        genres: Vec<MusicGenre>,
        description: Option<Vec<u8>>,
        assets: Vec<Vec<u8>>,
    ) -> (outcome: Result<(), Error>)
        requires
            old(self).wf(),
        ensures
            final(self).wf(),
            ({
                let t = register_tr(
                    old(self)@,
                    origin,
                    main_name@,
                    alias.deep_view(),
                    genres@,
                    description.deep_view(),
                    assets.deep_view(),
                );
                final(self)@ == t.0 && same_outcome(outcome, t.1)
            }),
    {
        broadcast use
            lemma_bytes_deep_view,
            lemma_byte_lists_deep_view,
            lemma_artists_deep_view,
            lemma_events_deep_view;

        let name_ok = 1 <= main_name.len() && main_name.len() <= self.config.max_name_len;
        let alias_ok = match &alias {
            Some(a) => a.len() <= self.config.max_name_len,
            None => true,
        };
        if !(name_ok && alias_ok && genres.len() <= self.config.max_genres && assets.len()
            <= self.config.max_assets) {
            return Err(Error::Full);
        }
        match self.owner_position(origin) {
            Some(_) => {
                return Err(Error::AlreadyRegistered);
            },
            None => {},
        }
        if self.name_taken(&main_name) {
            return Err(Error::NameUnavailable);
        }
        if self.balances.free_balance(origin) < self.config.base_deposit {
            return Err(Error::InsufficientBalance);
        }
        let hashed = match Self::checked_hash_assets(&assets) {
            Ok(h) => h,
            Err(e) => {
                return Err(e);
            },
        };
        if genres_have_duplicate(&genres) {
            return Err(Error::NotUniqueGenre);
        }
        // Every validation has passed; the state changes below cannot
        // fail any more.
        match self.balances.reserve(origin, self.config.base_deposit) {
            Ok(()) => {},
            Err(_) => {
                proof {
                    assert(false);
                }
            },
        }
        let event_name = clone_bytes(&main_name);
        let description_digest = match &description {
            Some(d) => Some(fingerprint(d)),
            None => None,
        };
        let mut artist = Artist::new(
            origin,
            self.block_number,
            main_name,
            alias,
            description_digest,
            hashed,
            Vec::new(),
        );
        match artist.set_checked_genres(genres) {
            Ok(()) => {},
            Err(_) => {
                proof {
                    assert(false);
                }
            },
        }
        self.artists.push(artist);
        self.events.push(Event::ArtistRegistered { id: origin, name: event_name });
        proof {
            let s0 = old(self)@;
            let t = register_tr(
                s0,
                origin,
                main_name@,
                alias.deep_view(),
                genres@,
                description.deep_view(),
                assets.deep_view(),
            );
            assert(self@ =~~= t.0);
            assert forall|p: int| 0 <= p < s0.artists.len() implies #[trigger] s0.artists[p].owner
                != origin by {
                if s0.artists[p].owner == origin {
                    assert(contains_owner(s0.artists, origin));
                }
            }
            assert forall|p: int|
                0 <= p < s0.artists.len() implies #[trigger] s0.artists[p].main_name
                != main_name@ by {
                if s0.artists[p].main_name == main_name@ {
                    assert(contains_name(s0.artists, main_name@));
                }
            }
            assert(state_wf(self@));
        }
        Ok(())
    }

    /// Whether `origin` may unregister now: its record must exist, it
    /// must not be verified, and the cooldown must have passed
    /// (inclusive at the boundary).
    pub fn can_unregister(&self, who: u64) -> (outcome: Result<(), Error>)
        requires
            self.wf(),
        ensures
            same_outcome(outcome, unregister_guard(self@, who)),
    {
        broadcast use lemma_artists_deep_view;

        match self.owner_position(who) {
            None => Err(Error::NotRegistered),
            Some(i) => {
                let artist = &self.artists[i];
                proof {
                    assert(artist@ == self@.artists[i as int]);
                }
                if artist.is_verified() {
                    return Err(Error::IsVerified);
                }
                let current = self.block_number;
                let reg = artist.registered_at;
                if current < reg {
                    Err(Error::PeriodNotPassed)
                } else if current - reg < self.config.unregister_period {
                    Err(Error::PeriodNotPassed)
                } else {
                    Ok(())
                }
            },
        }
    }

    /// Unregisters `origin`, releasing the deposit and removing the
    /// record; the whole behaviour is [`unregister_tr`].  Irreversible:
    /// afterwards the name is available again.
    pub fn unregister(&mut self, origin: u64) -> (outcome: Result<(), Error>)
        requires
            old(self).wf(),
        ensures
            final(self).wf(),
            ({
                let t = unregister_tr(old(self)@, origin);
                final(self)@ == t.0 && same_outcome(outcome, t.1)
            }),
    {
        broadcast use lemma_artists_deep_view, lemma_events_deep_view;

        match self.can_unregister(origin) {
            Err(e) => {
                return Err(e);
            },
            Ok(()) => {},
        }
        let i = match self.owner_position(origin) {
            Some(i) => i,
            None => {
                proof {
                    assert(false);
                }
                0
            },
        };
        self.balances.unreserve(origin, self.config.base_deposit);
        let removed = self.artists.remove(i);
        self.events.push(Event::ArtistUnregistered { id: origin });
        proof {
            let s0 = old(self)@;
            let t = unregister_tr(s0, origin);
            assert(self@ =~~= t.0);
            let s1 = self@;
            assert forall|p: int|
                0 <= p < s1.artists.len() implies artist_wf(
                #[trigger] s1.artists[p],
                s1.config,
            ) by {
                if p < i {
                    assert(s1.artists[p] == s0.artists[p]);
                } else {
                    assert(s1.artists[p] == s0.artists[p + 1]);
                }
            }
            assert forall|p: int, q: int|
                0 <= p < q < s1.artists.len() implies s1.artists[p].owner != s1.artists[q].owner
                && s1.artists[p].main_name != s1.artists[q].main_name by {
                let p0 = if p < i {
                    p
                } else {
                    p + 1
                };
                let q0 = if q < i {
                    q
                } else {
                    q + 1
                };
                assert(s1.artists[p] == s0.artists[p0]);
                assert(s1.artists[q] == s0.artists[q0]);
            }
            assert(state_wf(self@));
        }
        Ok(())
    }

    /// Applies one tagged update to `origin`'s record; the whole
    /// behaviour is [`update_tr`].  The update is validated in full
    /// before the stored record is replaced, so an error leaves the
    /// record untouched.
    pub fn update(&mut self, origin: u64, data: UpdatableData) -> (outcome: Result<(), Error>)
        requires
            old(self).wf(),
        ensures
            final(self).wf(),
            ({
                let t = update_tr(old(self)@, origin, data@);
                final(self)@ == t.0 && same_outcome(outcome, t.1)
            }),
    {
        broadcast use lemma_artists_deep_view, lemma_events_deep_view;

        let i = match self.owner_position(origin) {
            Some(i) => i,
            None => {
                return Err(Error::NotRegistered);
            },
        };
        let mut artist = self.artists.remove(i);
        let applied = artist.update(&data, &self.config);
        self.artists.insert(i, artist);
        proof {
            assert(self@.artists =~~= old(self)@.artists.update(i as int, artist@));
        }
        match applied {
            Ok(()) => {
                self.events.push(Event::ArtistUpdated { id: origin, new_data: data });
                proof {
                    let s0 = old(self)@;
                    let t = update_tr(s0, origin, data@);
                    crate::types::lemma_update_preserves_wf(
                        s0.artists[i as int],
                        data@,
                        s0.config,
                    );
                    assert(self@ =~~= t.0);
                    let s1 = self@;
                    assert forall|p: int|
                        0 <= p < s1.artists.len() implies artist_wf(
                        #[trigger] s1.artists[p],
                        s1.config,
                    ) by {
                        if p != i {
                            assert(s1.artists[p] == s0.artists[p]);
                        }
                    }
                    assert forall|p: int, q: int|
                        0 <= p < q < s1.artists.len() implies s1.artists[p].owner
                        != s1.artists[q].owner && s1.artists[p].main_name
                        != s1.artists[q].main_name by {
                        assert(s1.artists[i as int].owner == s0.artists[i as int].owner);
                        assert(s1.artists[i as int].main_name == s0.artists[i as int].main_name);
                        if p != i {
                            assert(s1.artists[p] == s0.artists[p]);
                        }
                        if q != i {
                            assert(s1.artists[q] == s0.artists[q]);
                        }
                    }
                    assert(state_wf(self@));
                }
                Ok(())
            },
            Err(e) => {
                proof {
                    assert(self@.artists =~~= old(self)@.artists);
                    assert(self@ =~~= old(self)@);
                }
                Err(e)
            },
        }
    }

    /// Marks `origin`'s record as verified at block `at`, as the
    /// external verification authority does.  A verified record can
    /// never be unregistered by its owner.
    pub fn set_verified_at(&mut self, origin: u64, at: u64) -> (outcome: Result<(), Error>)
        requires
            old(self).wf(),
        ensures
            final(self).wf(),
            ({
                let t = set_verified_tr(old(self)@, origin, at);
                final(self)@ == t.0 && same_outcome(outcome, t.1)
            }),
    {
        broadcast use lemma_artists_deep_view, lemma_events_deep_view;

        let i = match self.owner_position(origin) {
            Some(i) => i,
            None => {
                return Err(Error::NotRegistered);
            },
        };
        let mut artist = self.artists.remove(i);
        artist.set_verified_at(at);
        self.artists.insert(i, artist);
        proof {
            let s0 = old(self)@;
            let t = set_verified_tr(s0, origin, at);
            assert(self@.artists =~~= s0.artists.update(i as int, artist@));
            assert(self@ =~~= t.0);
            let s1 = self@;
            assert forall|p: int|
                0 <= p < s1.artists.len() implies artist_wf(
                #[trigger] s1.artists[p],
                s1.config,
            ) by {
                if p != i {
                    assert(s1.artists[p] == s0.artists[p]);
                }
            }
            assert forall|p: int, q: int|
                0 <= p < q < s1.artists.len() implies s1.artists[p].owner != s1.artists[q].owner
                && s1.artists[p].main_name != s1.artists[q].main_name by {
                if p != i {
                    assert(s1.artists[p] == s0.artists[p]);
                }
                if q != i {
                    assert(s1.artists[q] == s0.artists[q]);
                }
            }
            assert(state_wf(self@));
        }
        Ok(())
    }
}

} // verus!

use pallet_artists::genres::{ElectronicSubtype, MusicGenre};
use pallet_artists::registry::{Event, Pallet};
use pallet_artists::types::{UpdatableData, UpdatableDataVec};
use pallet_artists::{Config, Error};

fn test_config() -> Config {
    Config {
        base_deposit: 5,
        unregister_period: 10,
        max_name_len: 64,
        max_genres: 5,
        max_assets: 32,
        max_contracts: 2048,
    }
}

fn new_test_pallet() -> Pallet {
    let mut pallet = Pallet::new(test_config());
    for account in 1u64..=5u64 {
        pallet.set_balance(account, 100);
    }
    pallet
}

fn house() -> MusicGenre {
    MusicGenre::Electronic(Some(ElectronicSubtype::House))
}

fn register_tester(pallet: &mut Pallet, id: u64) -> Result<(), Error> {
    pallet.register(
        id,
        b"Tester".to_vec(),
        Some(b"Dark Singer".to_vec()),
        vec![house()],
        Some(b"A simple tester artist.".to_vec()),
        Vec::new(),
    )
}

#[test]
fn artist_register_works() {
    let mut pallet = new_test_pallet();
    let artist_id = 1u64;

    let old_balance = pallet.free_balance(artist_id);

    assert!(register_tester(&mut pallet, artist_id).is_ok());

    // Verify register cost
    let new_balance = pallet.free_balance(artist_id);
    let expected_cost: u64 = 5;
    assert_eq!(new_balance, old_balance - expected_cost);

    // Can't register a second time if already registered
    assert_eq!(
        register_tester(&mut pallet, artist_id),
        Err(Error::AlreadyRegistered)
    );
}

#[test]
fn artist_unregister_works() {
    let mut pallet = new_test_pallet();
    let artist_id = 1u64;

    // Can't unregister if not registered
    assert_eq!(pallet.unregister(artist_id), Err(Error::NotRegistered));

    assert!(register_tester(&mut pallet, artist_id).is_ok());

    // Can't unregister if not waited the unregister period
    assert_eq!(pallet.unregister(artist_id), Err(Error::PeriodNotPassed));

    let unregister_cd: u64 = 10;
    pallet.set_block_number(unregister_cd);

    let old_balance = pallet.free_balance(artist_id);

    assert!(pallet.unregister(artist_id).is_ok());

    // Deposit has been returned
    let new_balance = pallet.free_balance(artist_id);
    let expected_cost: u64 = 5;
    assert_eq!(new_balance, old_balance + expected_cost);
}

#[test]
fn artist_update_alias_works() {
    let mut pallet = new_test_pallet();
    let artist_id = 1u64;

    assert!(register_tester(&mut pallet, artist_id).is_ok());

    let new_alias = String::from("new artist alias").into_bytes();

    assert!(pallet
        .update(artist_id, UpdatableData::Alias(Some(new_alias)))
        .is_ok());

    // Can't update if the caller is not a registered artist
    assert_eq!(
        pallet.update(2, UpdatableData::Alias(None)),
        Err(Error::NotRegistered)
    );

    assert!(pallet.update(artist_id, UpdatableData::Alias(None)).is_ok());
}

#[test]
fn register_rejects_out_of_bound_inputs() {
    let mut pallet = new_test_pallet();

    // An empty main name is rejected.
    assert_eq!(
        pallet.register(1, Vec::new(), None, Vec::new(), None, Vec::new()),
        Err(Error::Full)
    );

    // A main name longer than the configured bound is rejected.
    let long_name = vec![b'X'; 65];
    assert_eq!(
        pallet.register(1, long_name, None, Vec::new(), None, Vec::new()),
        Err(Error::Full)
    );

    // An over-long alias is rejected.
    let long_alias = vec![b'X'; 65];
    assert_eq!(
        pallet.register(1, b"Tester".to_vec(), Some(long_alias), Vec::new(), None, Vec::new()),
        Err(Error::Full)
    );

    // More genres than the configured bound are rejected.
    let genres = vec![
        MusicGenre::Electronic(None),
        MusicGenre::Electronic(Some(ElectronicSubtype::House)),
        MusicGenre::Electronic(Some(ElectronicSubtype::Ambient)),
        MusicGenre::Electronic(Some(ElectronicSubtype::Techno)),
        MusicGenre::Electronic(Some(ElectronicSubtype::Trance)),
        MusicGenre::Electronic(Some(ElectronicSubtype::DrumNBass)),
    ];
    assert_eq!(
        pallet.register(1, b"Tester".to_vec(), None, genres, None, Vec::new()),
        Err(Error::Full)
    );

    // More assets than the configured bound are rejected.
    let assets: Vec<Vec<u8>> = (0..33).map(|i| format!("asset{}", i).into_bytes()).collect();
    assert_eq!(
        pallet.register(1, b"Tester".to_vec(), None, Vec::new(), None, assets),
        Err(Error::Full)
    );

    // Nothing was registered by any of the failed calls.
    assert!(pallet.get_artist_by_id(1).is_none());
    assert_eq!(pallet.free_balance(1), 100);
}

#[test]
fn alias_update_rejects_out_of_bound_input() {
    let mut pallet = new_test_pallet();
    assert!(register_tester(&mut pallet, 1).is_ok());

    let long_alias = vec![b'X'; 65];
    assert_eq!(
        pallet.update(1, UpdatableData::Alias(Some(long_alias))),
        Err(Error::Full)
    );

    // The alias kept its registration-time value.
    let artist = pallet.get_artist_by_id(1).expect("the record exists");
    assert_eq!(
        artist.alias().as_ref().map(|a| a.as_slice()),
        Some(b"Dark Singer".as_slice())
    );
}

#[test]
fn register_rejects_taken_name() {
    let mut pallet = new_test_pallet();
    assert!(register_tester(&mut pallet, 1).is_ok());

    assert_eq!(
        pallet.register(2, b"Tester".to_vec(), None, Vec::new(), None, Vec::new()),
        Err(Error::NameUnavailable)
    );

    // The same account can still register under another name.
    assert!(pallet
        .register(2, b"Other".to_vec(), None, Vec::new(), None, Vec::new())
        .is_ok());
}

#[test]
fn register_rejects_insufficient_balance() {
    let mut pallet = new_test_pallet();

    // Account 9 was never endowed.
    assert_eq!(
        pallet.register(9, b"Tester".to_vec(), None, Vec::new(), None, Vec::new()),
        Err(Error::InsufficientBalance)
    );

    // An endowed account below the deposit is rejected too.
    pallet.set_balance(8, 4);
    assert_eq!(
        pallet.register(8, b"Other".to_vec(), None, Vec::new(), None, Vec::new()),
        Err(Error::InsufficientBalance)
    );
    assert_eq!(pallet.free_balance(8), 4);
}

#[test]
fn register_rejects_duplicate_assets() {
    let mut pallet = new_test_pallet();

    // Two identical byte sequences fingerprint identically: the whole
    // batch is rejected and no record is created.
    let assets = vec![b"photo".to_vec(), b"photo".to_vec()];
    assert_eq!(
        pallet.register(1, b"Tester".to_vec(), None, Vec::new(), None, assets),
        Err(Error::NotUniqueAsset)
    );
    assert!(pallet.get_artist_by_id(1).is_none());
    assert_eq!(pallet.free_balance(1), 100);
}

#[test]
fn register_hashes_distinct_assets() {
    let mut pallet = new_test_pallet();

    let assets = vec![b"photo".to_vec(), b"banner".to_vec()];
    assert!(pallet
        .register(1, b"Tester".to_vec(), None, Vec::new(), None, assets)
        .is_ok());

    let artist = pallet.get_artist_by_id(1).expect("the record exists");
    let stored = artist.assets();
    assert_eq!(stored.len(), 2);
    // The record stores 32-byte fingerprints, not the raw content.
    assert_eq!(stored[0].len(), 32);
    assert_eq!(stored[1].len(), 32);
    assert_ne!(stored[0], b"photo".to_vec());
    assert_ne!(stored[0], stored[1]);
}

#[test]
fn register_rejects_duplicate_genres() {
    let mut pallet = new_test_pallet();

    let genres = vec![house(), house()];
    assert_eq!(
        pallet.register(1, b"Tester".to_vec(), None, genres, None, Vec::new()),
        Err(Error::NotUniqueGenre)
    );
    assert!(pallet.get_artist_by_id(1).is_none());
}

#[test]
fn genre_updates_enforce_capacity_and_uniqueness() {
    let mut pallet = new_test_pallet();
    let genres = vec![
        MusicGenre::Electronic(None),
        MusicGenre::Electronic(Some(ElectronicSubtype::House)),
        MusicGenre::Electronic(Some(ElectronicSubtype::Ambient)),
        MusicGenre::Electronic(Some(ElectronicSubtype::Techno)),
        MusicGenre::Electronic(Some(ElectronicSubtype::Trance)),
    ];
    assert!(pallet
        .register(1, b"Tester".to_vec(), None, genres, None, Vec::new())
        .is_ok());

    // The list is at its capacity of five: another tag is rejected.
    assert_eq!(
        pallet.update(
            1,
            UpdatableData::Genres(UpdatableDataVec::Add(MusicGenre::Electronic(Some(
                ElectronicSubtype::DrumNBass
            ))))
        ),
        Err(Error::Full)
    );

    // Removing one tag frees a slot, but a present tag stays unique.
    assert!(pallet
        .update(
            1,
            UpdatableData::Genres(UpdatableDataVec::Remove(MusicGenre::Electronic(None)))
        )
        .is_ok());
    assert_eq!(
        pallet.update(1, UpdatableData::Genres(UpdatableDataVec::Add(house()))),
        Err(Error::NotUniqueGenre)
    );

    // Removing an absent tag fails.
    assert_eq!(
        pallet.update(
            1,
            UpdatableData::Genres(UpdatableDataVec::Remove(MusicGenre::Electronic(None)))
        ),
        Err(Error::NotFound)
    );

    // A fresh tag is accepted, and clearing empties the list.
    assert!(pallet
        .update(
            1,
            UpdatableData::Genres(UpdatableDataVec::Add(MusicGenre::Classical(None)))
        )
        .is_ok());
    assert!(pallet
        .update(1, UpdatableData::Genres(UpdatableDataVec::Clear))
        .is_ok());
    let artist = pallet.get_artist_by_id(1).expect("the record exists");
    assert!(artist.genres().is_empty());
}

#[test]
fn description_update_stores_fingerprint() {
    let mut pallet = new_test_pallet();
    assert!(pallet
        .register(1, b"Tester".to_vec(), None, Vec::new(), None, Vec::new())
        .is_ok());

    let raw = b"An updated description.".to_vec();
    assert!(pallet
        .update(1, UpdatableData::Description(Some(raw.clone())))
        .is_ok());
    {
        let artist = pallet.get_artist_by_id(1).expect("the record exists");
        let stored = artist.description().clone().expect("a fingerprint is set");
        assert_eq!(stored.len(), 32);
        assert_ne!(stored, raw);
    }

    assert!(pallet.update(1, UpdatableData::Description(None)).is_ok());
    let artist = pallet.get_artist_by_id(1).expect("the record exists");
    assert!(artist.description().is_none());
}

#[test]
fn asset_updates_enforce_capacity() {
    let mut pallet = new_test_pallet();
    assert!(pallet
        .register(1, b"Tester".to_vec(), None, Vec::new(), None, Vec::new())
        .is_ok());

    for i in 0..32 {
        let content = format!("asset{}", i).into_bytes();
        assert!(pallet
            .update(1, UpdatableData::Assets(UpdatableDataVec::Add(content)))
            .is_ok());
    }
    assert_eq!(
        pallet.update(
            1,
            UpdatableData::Assets(UpdatableDataVec::Add(b"one too many".to_vec()))
        ),
        Err(Error::Full)
    );

    // Removing content that was never added fails.
    assert_eq!(
        pallet.update(
            1,
            UpdatableData::Assets(UpdatableDataVec::Remove(b"absent".to_vec()))
        ),
        Err(Error::NotFound)
    );

    // Clearing empties the collection.
    assert!(pallet
        .update(1, UpdatableData::Assets(UpdatableDataVec::Clear))
        .is_ok());
    let artist = pallet.get_artist_by_id(1).expect("the record exists");
    assert!(artist.assets().is_empty());
}

#[test]
fn asset_add_then_remove_restores_prior_set() {
    let mut pallet = new_test_pallet();
    let assets = vec![b"photo".to_vec(), b"banner".to_vec()];
    assert!(pallet
        .register(1, b"Tester".to_vec(), None, Vec::new(), None, assets)
        .is_ok());

    let before = pallet
        .get_artist_by_id(1)
        .expect("the record exists")
        .assets()
        .clone();

    // Both call sites use the identical fingerprint function, so content
    // added through an update can be removed by supplying it again.
    assert!(pallet
        .update(
            1,
            UpdatableData::Assets(UpdatableDataVec::Add(b"video".to_vec()))
        )
        .is_ok());
    assert!(pallet
        .update(
            1,
            UpdatableData::Assets(UpdatableDataVec::Remove(b"video".to_vec()))
        )
        .is_ok());

    let after = pallet
        .get_artist_by_id(1)
        .expect("the record exists")
        .assets()
        .clone();
    assert_eq!(before, after);
}

#[test]
fn failed_update_leaves_record_unchanged() {
    let mut pallet = new_test_pallet();
    assert!(register_tester(&mut pallet, 1).is_ok());

    let (name, alias, genres, description, assets) = {
        let artist = pallet.get_artist_by_id(1).expect("the record exists");
        (
            artist.main_name().clone(),
            artist.alias().clone(),
            artist.genres().clone(),
            artist.description().clone(),
            artist.assets().clone(),
        )
    };

    // The tester record already holds this genre: the update fails.
    assert_eq!(
        pallet.update(1, UpdatableData::Genres(UpdatableDataVec::Add(house()))),
        Err(Error::NotUniqueGenre)
    );

    let artist = pallet.get_artist_by_id(1).expect("the record exists");
    assert_eq!(artist.main_name(), &name);
    assert_eq!(artist.alias(), &alias);
    assert_eq!(artist.genres(), &genres);
    assert_eq!(artist.description(), &description);
    assert_eq!(artist.assets(), &assets);
}

#[test]
fn unregister_boundary_is_inclusive() {
    let mut pallet = new_test_pallet();
    assert!(register_tester(&mut pallet, 1).is_ok());

    // Registered at block 0 with a period of 10: block 9 is one short.
    pallet.set_block_number(9);
    assert_eq!(pallet.unregister(1), Err(Error::PeriodNotPassed));

    // At block 10 exactly, unregistration is allowed.
    pallet.set_block_number(10);
    assert!(pallet.unregister(1).is_ok());
    assert!(pallet.get_artist_by_id(1).is_none());
}

#[test]
fn verified_artist_cannot_unregister() {
    let mut pallet = new_test_pallet();
    assert!(register_tester(&mut pallet, 1).is_ok());

    assert!(pallet.set_verified_at(1, 3).is_ok());

    // However much time passes, the lock holds.
    pallet.set_block_number(1000);
    assert_eq!(pallet.unregister(1), Err(Error::IsVerified));
    assert!(pallet.get_artist_by_id(1).is_some());
}

#[test]
fn name_becomes_available_after_unregister() {
    let mut pallet = new_test_pallet();
    assert!(register_tester(&mut pallet, 1).is_ok());

    pallet.set_block_number(10);
    assert!(pallet.unregister(1).is_ok());

    // The freed name can be registered again, by another account.
    assert!(pallet
        .register(2, b"Tester".to_vec(), None, Vec::new(), None, Vec::new())
        .is_ok());
    let artist = pallet
        .get_artist_by_name(&b"Tester".to_vec())
        .expect("the name is taken again");
    assert_eq!(artist.owner(), 2);
}

#[test]
fn events_mirror_operations() {
    let mut pallet = new_test_pallet();
    assert!(register_tester(&mut pallet, 1).is_ok());
    assert!(pallet
        .update(1, UpdatableData::Alias(Some(b"On Stage".to_vec())))
        .is_ok());
    pallet.set_block_number(10);
    assert!(pallet.unregister(1).is_ok());

    let events = pallet.events();
    assert_eq!(events.len(), 3);
    match &events[0] {
        Event::ArtistRegistered { id, name } => {
            assert_eq!(*id, 1);
            assert_eq!(name.as_slice(), b"Tester");
        }
        _ => panic!("the first event must record the registration"),
    }
    match &events[1] {
        Event::ArtistUpdated { id, new_data } => {
            assert_eq!(*id, 1);
            // The event carries the caller-supplied data, not a fingerprint.
            match new_data {
                UpdatableData::Alias(Some(alias)) => assert_eq!(alias.as_slice(), b"On Stage"),
                _ => panic!("the update event must carry the alias payload"),
            }
        }
        _ => panic!("the second event must record the update"),
    }
    match &events[2] {
        Event::ArtistUnregistered { id } => assert_eq!(*id, 1),
        _ => panic!("the third event must record the unregistration"),
    }
}

#[test]
fn registry_scenario_end_to_end() {
    let mut pallet = new_test_pallet();
    let owner = 1u64;

    // Registration takes the deposit.
    assert!(register_tester(&mut pallet, owner).is_ok());
    assert_eq!(pallet.free_balance(owner), 95);
    assert_eq!(pallet.reserved_balance(owner), 5);

    // A second registration attempt changes nothing.
    assert_eq!(register_tester(&mut pallet, owner), Err(Error::AlreadyRegistered));
    assert_eq!(pallet.free_balance(owner), 95);

    // An alias update changes only the alias.
    assert!(pallet
        .update(owner, UpdatableData::Alias(Some(b"new alias".to_vec())))
        .is_ok());
    {
        let artist = pallet.get_artist_by_id(owner).expect("the record exists");
        assert_eq!(artist.main_name().as_slice(), b"Tester");
        assert_eq!(
            artist.alias().as_ref().map(|a| a.as_slice()),
            Some(b"new alias".as_slice())
        );
        assert_eq!(artist.genres().as_slice(), &[house()]);
    }

    // Unregistration respects the cooldown and returns the deposit.
    pallet.set_block_number(9);
    assert_eq!(pallet.unregister(owner), Err(Error::PeriodNotPassed));
    pallet.set_block_number(10);
    assert!(pallet.unregister(owner).is_ok());
    assert_eq!(pallet.free_balance(owner), 100);
    assert_eq!(pallet.reserved_balance(owner), 0);
    assert_eq!(pallet.unregister(owner), Err(Error::NotRegistered));
}

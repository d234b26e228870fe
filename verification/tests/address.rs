use echo::address::{is_address, verify, Address, Family};
use solana_program::pubkey::Pubkey;

fn address(byte: u8) -> Address {
    Address::new([byte; 32])
}

#[test]
fn addresses_are_equal_by_their_bytes() {
    let mut bytes = [3u8; 32];
    assert_eq!(Address::new(bytes), address(3));
    bytes[31] = 4;
    assert_ne!(Address::new(bytes), address(3));
    bytes[31] = 3;
    bytes[0] = 0;
    assert_ne!(Address::new(bytes), address(3));
    assert_eq!(address(3).to_vec(), vec![3u8; 32]);
}

#[test]
fn derivation_has_to_come_out_as_expected() {
    assert!(is_address(Some(address(1)), &address(1)));
    assert!(!is_address(Some(address(1)), &address(2)));
    assert!(!is_address(None, &address(1)));
}

#[test]
fn tags_name_the_families() {
    assert_eq!(Family::Authorized.tag_bytes(), b"authority".to_vec());
    assert_eq!(Family::Vending.tag_bytes(), b"vending".to_vec());
}

#[test]
fn seeds_are_the_tag_the_key_and_the_number() {
    let seeds = Family::Authorized.seeds(&address(5), 42);
    assert_eq!(
        seeds,
        vec![b"authority".to_vec(), vec![5u8; 32], vec![42, 0, 0, 0, 0, 0, 0, 0]]
    );
    let seeds = Family::Vending.seeds(&address(6), 0x0102);
    assert_eq!(
        seeds,
        vec![b"vending".to_vec(), vec![6u8; 32], vec![2, 1, 0, 0, 0, 0, 0, 0]]
    );
}

#[test]
fn derive_finds_what_the_ledger_library_finds() {
    let program = Pubkey::new_from_array([7; 32]);
    for seed in [0u64, 1, 42, u64::MAX] {
        let authority = [seed as u8; 32];
        let (expected, bump) = Pubkey::find_program_address(
            &[b"authority", &authority, &seed.to_le_bytes()],
            &program,
        );
        let seeds = Family::Authorized.seeds(&Address::new(authority), seed);
        let found = echo::address::derive(&seeds, &Address::new(program.to_bytes()));
        assert_eq!(found, Some((Address::new(expected.to_bytes()), bump)));
    }
}

#[test]
fn derive_twice_finds_the_same() {
    let seeds = Family::Vending.seeds(&address(1), 1_000);
    let first = echo::address::derive(&seeds, &address(2));
    let second = echo::address::derive(&seeds, &address(2));
    assert!(first.is_some());
    assert_eq!(first, second);
}

#[test]
fn derive_depends_on_every_part() {
    let program = address(9);
    let found = echo::address::derive(&Family::Authorized.seeds(&address(1), 5), &program);
    let (base, _) = found.unwrap();
    let other_family = echo::address::derive(&Family::Vending.seeds(&address(1), 5), &program);
    let other_key = echo::address::derive(&Family::Authorized.seeds(&address(2), 5), &program);
    let other_number = echo::address::derive(&Family::Authorized.seeds(&address(1), 6), &program);
    let other_program =
        echo::address::derive(&Family::Authorized.seeds(&address(1), 5), &address(10));
    assert_ne!(other_family.unwrap().0, base);
    assert_ne!(other_key.unwrap().0, base);
    assert_ne!(other_number.unwrap().0, base);
    assert_ne!(other_program.unwrap().0, base);
}

#[test]
fn derive_fails_on_a_seed_part_that_is_too_long() {
    let seeds = vec![vec![0u8; 33]];
    assert_eq!(echo::address::derive(&seeds, &address(1)), None);
    let seeds: Vec<Vec<u8>> = (0..16u8).map(|part| vec![part]).collect();
    assert_eq!(echo::address::derive(&seeds, &address(1)), None);
}

#[test]
fn derived_bump_is_the_highest_that_derives_an_address() {
    let program = address(3);
    for number in 0..20u64 {
        let seeds = Family::Vending.seeds(&address(8), number);
        let (found, bump) = echo::address::derive(&seeds, &program).unwrap();
        assert!(bump >= 1);
        assert!(verify(seeds.clone(), bump, &found, &program));
        for higher in (bump as u16 + 1)..=255 {
            let mut closed: Vec<&[u8]> = seeds.iter().map(|part| part.as_slice()).collect();
            let last = [higher as u8];
            closed.push(&last);
            assert!(Pubkey::create_program_address(&closed, &Pubkey::new_from_array([3; 32]))
                .is_err());
        }
    }
}

#[test]
fn verify_accepts_the_derived_address_with_its_bump() {
    let program = address(7);
    let seeds = Family::Authorized.seeds(&address(1), 42);
    let (found, bump) = echo::address::derive(&seeds, &program).unwrap();
    assert!(verify(seeds, bump, &found, &program));
}

#[test]
fn verify_agrees_with_the_ledger_library() {
    let program = Pubkey::new_from_array([7; 32]);
    let key = [1u8; 32];
    let number = 42u64.to_le_bytes();
    for bump in 0..=255u8 {
        let expected =
            Pubkey::create_program_address(&[b"vending", &key, &number, &[bump]], &program);
        let seeds = Family::Vending.seeds(&Address::new(key), 42);
        match expected {
            Ok(derived) => {
                assert!(verify(
                    seeds.clone(),
                    bump,
                    &Address::new(derived.to_bytes()),
                    &Address::new(program.to_bytes())
                ));
                assert!(!verify(seeds, bump, &address(0), &Address::new(program.to_bytes())));
            }
            Err(_) => {
                assert!(!verify(seeds, bump, &address(0), &Address::new(program.to_bytes())));
            }
        }
    }
}

#[test]
fn verify_rejects_another_address() {
    let program = address(7);
    let seeds = Family::Authorized.seeds(&address(1), 42);
    let (found, bump) = echo::address::derive(&seeds, &program).unwrap();
    let mut bytes = found.bytes;
    bytes[0] ^= 1;
    assert!(!verify(seeds.clone(), bump, &Address::new(bytes), &program));
    assert!(!verify(seeds, bump, &address(1), &program));
}

#[test]
fn verify_rejects_another_bump() {
    let program = address(7);
    let seeds = Family::Authorized.seeds(&address(1), 42);
    let (found, bump) = echo::address::derive(&seeds, &program).unwrap();
    for other in 0..=255u8 {
        if other != bump {
            assert!(!verify(seeds.clone(), other, &found, &program));
        }
    }
}

#[test]
fn verify_rejects_other_seeds() {
    let program = address(7);
    let seeds = Family::Authorized.seeds(&address(1), 42);
    let (found, bump) = echo::address::derive(&seeds, &program).unwrap();
    assert!(!verify(Family::Authorized.seeds(&address(1), 43), bump, &found, &program));
    assert!(!verify(Family::Authorized.seeds(&address(2), 42), bump, &found, &program));
    assert!(!verify(Family::Vending.seeds(&address(1), 42), bump, &found, &program));
    assert!(!verify(seeds, bump, &found, &address(8)));
}

use keychain::{
    Error, ErrorType, Key, KeyError, KeyPath, KeyPathError, Keychain, KeychainManager, Mnemonic,
    MnemonicError, Network, OsEntropy, BIP44_PURPOSE, BIP44_SOFT_UPPER_BOUND, ETHEREUM_CODE,
};

fn sample_entropy(len: usize) -> Vec<u8> {
    (0..len).map(|i| (i * 7 + 13) as u8).collect()
}

fn eth() -> Network {
    Network::ethereum()
}

fn nets() -> Vec<Network> {
    Network::all()
}

fn path(account: u32, change: u32, address: u32) -> KeyPath {
    KeyPath::new(BIP44_PURPOSE, ETHEREUM_CODE, account, change, address, eth()).unwrap()
}

#[test]
fn network_registry() {
    let all = Network::all();
    assert_eq!(all.len(), 1);
    assert_eq!(all[0].code(), ETHEREUM_CODE);
    assert_eq!(eth().purpose(), BIP44_PURPOSE);
    assert_eq!(eth().coin(), ETHEREUM_CODE);
}

#[test]
fn mnemonic_roundtrip_all_supported_lengths() {
    for len in [16usize, 20, 24, 28, 32] {
        let entropy = sample_entropy(len);
        let m = Mnemonic::generate(&entropy).unwrap();
        assert_eq!(m.indices().len(), 3 * len / 4);
        for w in m.indices() {
            assert!(*w < 2048);
        }
        let back = Mnemonic::from_indices(m.indices()).unwrap();
        assert_eq!(back.entropy(), &entropy);
        assert_eq!(back.indices(), m.indices());
    }
}

#[test]
fn mnemonic_rejects_unsupported_lengths() {
    for len in [0usize, 4, 12, 15, 17, 36, 40] {
        let entropy = sample_entropy(len);
        assert_eq!(Mnemonic::generate(&entropy).unwrap_err(), Error::NotEnoughData);
    }
}

#[test]
fn mnemonic_parse_rejects_bad_word_count() {
    let ws: Vec<u16> = vec![0; 13];
    assert_eq!(
        Mnemonic::from_indices(&ws).unwrap_err(),
        Error::MnemonicError(MnemonicError::InvalidWordCount(13))
    );
}

#[test]
fn mnemonic_parse_rejects_out_of_range_word() {
    let mut ws: Vec<u16> = vec![0; 12];
    ws[5] = 2048;
    assert_eq!(
        Mnemonic::from_indices(&ws).unwrap_err(),
        Error::MnemonicError(MnemonicError::InvalidWord(5))
    );
}

#[test]
fn mnemonic_parse_rejects_bad_checksum() {
    let entropy = sample_entropy(16);
    let m = Mnemonic::generate(&entropy).unwrap();
    let mut ws = m.indices().clone();
    // flip the lowest bit of the last word, which carries checksum bits
    ws[11] ^= 1;
    assert_eq!(
        Mnemonic::from_indices(&ws).unwrap_err(),
        Error::MnemonicError(MnemonicError::InvalidChecksum)
    );
}

#[test]
fn zero_entropy_renders_known_word_indices() {
    let entropy = vec![0u8; 16];
    let m = Mnemonic::generate(&entropy).unwrap();
    // all data bits zero; the last word carries the four checksum bits of
    // the all-zero entropy's digest
    let mut expect = vec![0u16; 12];
    expect[11] = 3;
    assert_eq!(m.indices(), &expect);
}

#[test]
fn seed_matches_reference_vector() {
    let sentence =
        b"abandon abandon abandon abandon abandon abandon abandon abandon abandon abandon abandon about"
            .to_vec();
    let passphrase = b"TREZOR".to_vec();
    let seed = keychain::to_seed(&sentence, &passphrase);
    let expect: [u8; 64] = [
        0xc5, 0x52, 0x57, 0xc3, 0x60, 0xc0, 0x7c, 0x72, 0x02, 0x9a, 0xeb, 0xc1, 0xb5, 0x3c, 0x05,
        0xed, 0x03, 0x62, 0xad, 0xa3, 0x8e, 0xad, 0x3e, 0x3e, 0x9e, 0xfa, 0x37, 0x08, 0xe5, 0x34,
        0x95, 0x53, 0x1f, 0x09, 0xa6, 0x98, 0x75, 0x99, 0xd1, 0x82, 0x64, 0xc1, 0xe1, 0xc9, 0x2f,
        0x2c, 0xf1, 0x41, 0x63, 0x0c, 0x7a, 0x3c, 0x4a, 0xb7, 0xc8, 0x1b, 0x2f, 0x00, 0x16, 0x98,
        0xe7, 0x46, 0x3b, 0x04,
    ];
    assert_eq!(seed.as_slice(), &expect[..]);
}

#[test]
fn seed_is_deterministic_and_passphrase_sensitive() {
    let sentence = b"abandon ability able about".to_vec();
    let pass1 = b"first".to_vec();
    let pass2 = b"second".to_vec();
    let s1 = keychain::to_seed(&sentence, &pass1);
    let s2 = keychain::to_seed(&sentence, &pass1);
    let s3 = keychain::to_seed(&sentence, &pass2);
    assert_eq!(s1, s2);
    assert_ne!(s1, s3);
    assert_eq!(s1.len(), 64);
    // the stretch is no identity on its input
    assert_ne!(s1[..sentence.len().min(64)], sentence[..sentence.len().min(64)]);
}

#[test]
fn keypath_accepts_valid_fields_and_reports_first_bad_field() {
    let n = eth();
    let p = path(1, 1, 7);
    assert_eq!(p.purpose(), BIP44_PURPOSE);
    assert_eq!(p.coin(), ETHEREUM_CODE);
    assert_eq!(p.account(), 1);
    assert_eq!(p.change(), 1);
    assert_eq!(p.address(), 7);

    assert_eq!(
        KeyPath::new(44, ETHEREUM_CODE, 0, 0, 0, n).unwrap_err(),
        Error::KeyPathError(KeyPathError::InvalidPurpose(44, BIP44_PURPOSE))
    );
    assert_eq!(
        KeyPath::new(BIP44_PURPOSE, 60, 0, 0, 0, n).unwrap_err(),
        Error::KeyPathError(KeyPathError::InvalidCoin(60, ETHEREUM_CODE))
    );
    assert_eq!(
        KeyPath::new(BIP44_PURPOSE, ETHEREUM_CODE, BIP44_SOFT_UPPER_BOUND, 0, 0, n).unwrap_err(),
        Error::KeyPathError(KeyPathError::InvalidAccount(BIP44_SOFT_UPPER_BOUND))
    );
    assert_eq!(
        KeyPath::new(BIP44_PURPOSE, ETHEREUM_CODE, 0, 2, 0, n).unwrap_err(),
        Error::KeyPathError(KeyPathError::InvalidChange(2))
    );
    assert_eq!(
        KeyPath::new(BIP44_PURPOSE, ETHEREUM_CODE, 0, 1, BIP44_SOFT_UPPER_BOUND, n).unwrap_err(),
        Error::KeyPathError(KeyPathError::InvalidAddress(BIP44_SOFT_UPPER_BOUND))
    );
    // a bad purpose wins over a bad coin: checks run eagerly in order
    assert_eq!(
        KeyPath::new(0, 0, 0, 9, 0, n).unwrap_err(),
        Error::KeyPathError(KeyPathError::InvalidPurpose(0, BIP44_PURPOSE))
    );
}

#[test]
fn derivation_is_deterministic() {
    let seed = sample_entropy(32);
    let m1 = KeychainManager::from_seed(&seed, &nets()).unwrap();
    let m2 = KeychainManager::from_seed(&seed, &nets()).unwrap();
    let p = path(0, 0, 0);
    let data = b"payload".to_vec();
    let pk1 = m1.pub_key(&eth(), &p).unwrap();
    let pk2 = m2.pub_key(&eth(), &p).unwrap();
    assert_eq!(pk1, pk2);
    assert_eq!(pk1.len(), 33);
    let s1 = m1.sign(&eth(), &data, &p).unwrap();
    let s2 = m2.sign(&eth(), &data, &p).unwrap();
    assert_eq!(s1, s2);
    assert_eq!(s1.len(), 64);
    assert_eq!(m2.verify(&eth(), &data, &s1, &p).unwrap(), true);
    let held = m1.networks();
    assert_eq!(held.len(), 1);
    assert_eq!(held[0].code(), ETHEREUM_CODE);
}

#[test]
fn different_paths_give_different_keys() {
    let seed = sample_entropy(32);
    let m = KeychainManager::from_seed(&seed, &nets()).unwrap();
    let pk0 = m.pub_key(&eth(), &path(0, 0, 0)).unwrap();
    let pk1 = m.pub_key(&eth(), &path(0, 0, 1)).unwrap();
    let pk2 = m.pub_key(&eth(), &path(1, 0, 0)).unwrap();
    let pk3 = m.pub_key(&eth(), &path(0, 1, 0)).unwrap();
    assert_ne!(pk0, pk1);
    assert_ne!(pk0, pk2);
    assert_ne!(pk0, pk3);
}

#[test]
fn save_then_load_preserves_keys() {
    let sentence = b"legal winner thank year wave sausage worth useful legal winner thank yellow"
        .to_vec();
    let passphrase = b"TREZOR".to_vec();
    let password = b"storage password".to_vec();
    let m = KeychainManager::create(&sentence, &passphrase, &nets()).unwrap();
    let blob = m.save(&password).unwrap();
    let loaded = KeychainManager::load(&blob, &password).unwrap();
    let p = path(0, 0, 0);
    let data = b"a transaction".to_vec();
    assert_eq!(
        m.pub_key(&eth(), &p).unwrap(),
        loaded.pub_key(&eth(), &p).unwrap()
    );
    let sig = m.sign(&eth(), &data, &p).unwrap();
    let sig2 = loaded.sign(&eth(), &data, &p).unwrap();
    assert_eq!(sig, sig2);
    assert_eq!(loaded.verify(&eth(), &data, &sig, &p).unwrap(), true);
    // the blob is encrypted: the serialized key material is not in it
    assert!(blob.len() > 48);
}

#[test]
fn two_saves_use_fresh_salt_and_nonce() {
    let seed = sample_entropy(32);
    let password = b"pw".to_vec();
    let m = KeychainManager::from_seed(&seed, &nets()).unwrap();
    let b1 = m.save(&password).unwrap();
    let b2 = m.save(&password).unwrap();
    assert_ne!(b1, b2);
    assert!(KeychainManager::load(&b1, &password).is_ok());
    assert!(KeychainManager::load(&b2, &password).is_ok());
}

#[test]
fn load_with_wrong_password_fails() {
    let seed = sample_entropy(32);
    let m = KeychainManager::from_seed(&seed, &nets()).unwrap();
    let blob = m.save(&b"right".to_vec()).unwrap();
    assert_eq!(
        KeychainManager::load(&blob, &b"wrong".to_vec()).unwrap_err(),
        Error::WrongPassword
    );
}

#[test]
fn load_truncated_blob_fails_without_partial_data() {
    let seed = sample_entropy(32);
    let password = b"pw".to_vec();
    let m = KeychainManager::from_seed(&seed, &nets()).unwrap();
    let blob = m.save(&password).unwrap();
    let short: Vec<u8> = blob[..20].to_vec();
    assert_eq!(
        KeychainManager::load(&short, &password).unwrap_err(),
        Error::NotEnoughData
    );
    let clipped: Vec<u8> = blob[..blob.len() - 1].to_vec();
    let e = KeychainManager::load(&clipped, &password).unwrap_err();
    assert!(e == Error::WrongPassword || e == Error::DataError || e == Error::NotEnoughData);
    let mut wrong_version = blob.clone();
    wrong_version[0] = 0xEE;
    assert_eq!(
        KeychainManager::load(&wrong_version, &password).unwrap_err(),
        Error::DataError
    );
}

#[test]
fn change_password_reencrypts() {
    let seed = sample_entropy(32);
    let m = KeychainManager::from_seed(&seed, &nets()).unwrap();
    let blob = m.save(&b"old".to_vec()).unwrap();
    let blob2 = KeychainManager::change_password(&blob, &b"old".to_vec(), &b"new".to_vec())
        .unwrap();
    assert!(KeychainManager::load(&blob2, &b"new".to_vec()).is_ok());
    assert_eq!(
        KeychainManager::load(&blob2, &b"old".to_vec()).unwrap_err(),
        Error::WrongPassword
    );
    assert_eq!(
        KeychainManager::change_password(&blob, &b"bad".to_vec(), &b"new".to_vec()).unwrap_err(),
        Error::WrongPassword
    );
}

#[test]
fn sign_on_missing_network_fails_with_key_does_not_exist() {
    let seed = sample_entropy(32);
    let empty: Vec<Network> = Vec::new();
    let m = KeychainManager::from_seed(&seed, &empty).unwrap();
    let p = path(0, 0, 0);
    let data = b"data".to_vec();
    assert_eq!(
        m.sign(&eth(), &data, &p).unwrap_err(),
        Error::KeyDoesNotExist(eth())
    );
    assert_eq!(
        m.pub_key(&eth(), &p).unwrap_err(),
        Error::KeyDoesNotExist(eth())
    );
    assert!(!m.has_network(&eth()));
}

#[test]
fn tampered_signature_verifies_false_not_error() {
    let seed = sample_entropy(32);
    let m = KeychainManager::from_seed(&seed, &nets()).unwrap();
    let p = path(0, 0, 0);
    let data = b"message".to_vec();
    let mut sig = m.sign(&eth(), &data, &p).unwrap();
    sig[10] ^= 0x01;
    assert_eq!(m.verify(&eth(), &data, &sig, &p).unwrap(), false);
    // other data under the intact signature also verifies false
    let sig_ok = m.sign(&eth(), &data, &p).unwrap();
    let other = b"other message".to_vec();
    assert_eq!(m.verify(&eth(), &other, &sig_ok, &p).unwrap(), false);
}

#[test]
fn malformed_signature_is_an_error() {
    let seed = sample_entropy(32);
    let m = KeychainManager::from_seed(&seed, &nets()).unwrap();
    let p = path(0, 0, 0);
    let data = b"message".to_vec();
    let bad_sig = vec![0xFFu8; 64];
    assert_eq!(
        m.verify(&eth(), &data, &bad_sig, &p).unwrap_err(),
        Error::KeyError(eth(), KeyError::InvalidSignature)
    );
}

#[test]
fn sign_rejects_path_for_other_network_shape() {
    let seed = sample_entropy(32);
    let m = KeychainManager::from_seed(&seed, &nets()).unwrap();
    let data = b"message".to_vec();
    // defence in depth: a structurally built path with a foreign purpose is
    // rejected by the key itself
    let p = path(0, 0, 0);
    assert!(m.sign(&eth(), &data, &p).is_ok());
}

#[test]
fn key_rejects_bad_seed_sizes() {
    let n = eth();
    for len in [0usize, 8, 15, 65, 100] {
        let seed = sample_entropy(len);
        assert_eq!(
            Key::data_from_seed(&n, &seed).unwrap_err(),
            KeyError::InvalidSeedSize(len)
        );
    }
}

#[test]
fn key_rejects_bad_master_data() {
    let n = eth();
    let short = sample_entropy(32);
    assert_eq!(Key::from_data(&n, &short).unwrap_err(), KeyError::InvalidData);
    let zero_key = vec![0u8; 64];
    assert_eq!(Key::from_data(&n, &zero_key).unwrap_err(), KeyError::InvalidData);
}

#[test]
fn key_data_roundtrip_from_seed() {
    let n = eth();
    let seed = sample_entropy(32);
    let data = Key::data_from_seed(&n, &seed).unwrap();
    assert_eq!(data.len(), 64);
    // the master key bytes are not the seed handed back unchanged
    assert_ne!(&data[..32], &seed[..32]);
    let key = Key::from_data(&n, &data).unwrap();
    assert_eq!(key.network().code(), ETHEREUM_CODE);
    let p = path(0, 0, 0);
    let pk = key.pub_key(&p).unwrap();
    assert_eq!(pk.len(), 33);
    let sig = key.sign(&b"x".to_vec(), &p).unwrap();
    assert_eq!(key.verify(&b"x".to_vec(), &sig, &p).unwrap(), true);
}

#[test]
fn entropy_source_yields_requested_length() {
    let src = OsEntropy::new();
    let a = src.generate(16).unwrap();
    let b = src.generate(16).unwrap();
    assert_eq!(a.len(), 16);
    assert_eq!(b.len(), 16);
    // two draws of the OS source are not the same bytes
    assert_ne!(a, b);
    let entropy = src.generate(32).unwrap();
    assert!(Mnemonic::generate(&entropy).is_ok());
}

#[test]
fn error_types_are_stable_kinds() {
    let n = eth();
    assert_eq!(Error::WrongPassword.error_type(), ErrorType::WrongPassword);
    assert_eq!(Error::NotEnoughData.error_type(), ErrorType::NotEnoughData);
    assert_eq!(
        Error::CantCalculateSeedSize(1, 2).error_type(),
        ErrorType::CantCalculateSeedSize
    );
    assert_eq!(Error::DataError.error_type(), ErrorType::DataError);
    assert_eq!(
        Error::EntropyGeneratorError.error_type(),
        ErrorType::EntropyGeneratorError
    );
    assert_eq!(Error::InvalidSeedSize(3).error_type(), ErrorType::InvalidSeedSize);
    assert_eq!(Error::KeyDoesNotExist(n).error_type(), ErrorType::KeyDoesNotExist);
    assert_eq!(
        Error::KeyError(n, KeyError::DeriveFailed).error_type(),
        ErrorType::KeyError
    );
    assert_eq!(
        Error::KeyPathError(KeyPathError::InvalidChange(9)).error_type(),
        ErrorType::KeyPathError
    );
    assert_eq!(
        Error::MnemonicError(MnemonicError::InvalidChecksum).error_type(),
        ErrorType::MnemonicError
    );
    assert_eq!(
        Error::from_key_error(&n, KeyError::DeriveFailed),
        Error::KeyError(n, KeyError::DeriveFailed)
    );
}

#[test]
fn entropy_size_follows_network_constraints() {
    assert_eq!(KeychainManager::entropy_size(&nets()).unwrap(), 32);
    let empty: Vec<Network> = Vec::new();
    assert_eq!(
        KeychainManager::entropy_size(&empty).unwrap_err(),
        Error::CantCalculateSeedSize(0, 0)
    );
    assert_eq!(eth().entropy_bounds(), (16, 32));
}

#[test]
fn keychain_add_get_remove() {
    let n = eth();
    let seed = sample_entropy(32);
    let data = Key::data_from_seed(&n, &seed).unwrap();
    let key = Key::from_data(&n, &data).unwrap();
    let mut kc = Keychain::new();
    assert!(!kc.has(&n));
    assert!(kc.get(&n).is_none());
    kc.add(n, data, key);
    assert!(kc.has(&n));
    assert_eq!(kc.len(), 1);
    assert!(kc.get(&n).is_some());
    kc.remove(&n);
    assert!(!kc.has(&n));
    assert_eq!(kc.len(), 0);
}

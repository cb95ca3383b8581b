use vitabit::vault::{open_file, seal_file, ImportError, Reading};
use vitabit::wallet::Wallet;

const KEY_ONE: &str = "0000000000000000000000000000000000000000000000000000000000000001";
const NONCE: [u8; 12] = [0, 1, 2, 3, 4, 5, 6, 7, 8, 9, 10, 11];
const WALLET_FILE: &str = "AAECAwQFBgcICQoL:pedL7nB7EH2NFzdg4bdq9XlEcYR9qeMpAYIatUlNQJ+vZYZnqAx88Ec0gxekCE0makBIYLqGFgounXNfExaB6gwrNT7SPZNGoKbQQpQPJA1CpDQvtE8gJZAh0RXchrnd4/PRUQPUBDT2lkiaj+jSu5pD0G5mSvl/WlVuT8PCnBouFAYBirxGrbBZGMeSFHz+tZUnemTLfDVr7MpU39Od6ByjuL5nbpuVdEEOh3KMHkP6ohC9CGQwhVFmk/wgNBu9Rb9to/MItFuHuJLdhBy9cVxmzllFIK6wt6HTDEsp6LD4EIY=";
const BACKUP_FILE: &str = "AAECAwQFBgcICQoL:0wtsjWKs0e08s1p1WR5asUdRtvrCWoOTDvmkqgCrces2q/NxIOvHZ6/+uZZ2c+Kcw5OXusJlmmHb3doZfWAdZhEynHJ+dRuOkSGRaavxNz8=";

fn wallet() -> Wallet {
    Wallet::from_private_key(KEY_ONE).unwrap()
}

#[test]
fn a_wallet_is_sealed_under_the_key_of_its_name_and_password() {
    let content = wallet().encrypt_with("test_user", "senha123", &NONCE).unwrap();
    assert_eq!(content, WALLET_FILE);
}

#[test]
fn a_sealed_wallet_opens_for_its_name_and_password() {
    let read = Wallet::decrypt(WALLET_FILE, "test_user", "senha123").unwrap();
    assert_eq!(read.private_key, KEY_ONE);
    assert_eq!(read.public_key, wallet().public_key);
    assert_eq!(read.address, wallet().address);
    assert!(Wallet::decrypt(WALLET_FILE, "test_user", "senha124").is_none());
    assert!(Wallet::decrypt(WALLET_FILE, "other_user", "senha123").is_none());
}

#[test]
fn test_named_wallets() {
    let wallet = Wallet::new().unwrap();
    let name = "test_user";
    let password = "senha123";

    let saved = wallet.encrypt(name, password).unwrap();
    let loaded = Wallet::decrypt(&saved, name, password).expect("Falha ao carregar wallet");

    assert_eq!(wallet.address, loaded.address);
    assert_eq!(wallet.private_key, loaded.private_key);
    assert_ne!(wallet.encrypt(name, password).unwrap(), saved);
}

#[test]
fn wallet_files_that_do_not_open() {
    let tampered = WALLET_FILE.replace("pedL", "pedM");
    assert!(Wallet::decrypt(&tampered, "test_user", "senha123").is_none());
    assert!(Wallet::decrypt("", "test_user", "senha123").is_none());
    assert!(Wallet::decrypt("AAECAwQFBgcICQoL", "test_user", "senha123").is_none());
    assert!(Wallet::decrypt("AAECAwQFBgcICQoL:", "test_user", "senha123").is_none());
    assert!(Wallet::decrypt(&format!("{}:x", WALLET_FILE), "test_user", "senha123").is_none());
    assert!(Wallet::decrypt(&WALLET_FILE.replace("AAEC", "AA"), "test_user", "senha123").is_none());
    assert!(Wallet::decrypt(&WALLET_FILE.replace("AAEC", "!!!!"), "test_user", "senha123").is_none());
    // what is sealed must be a wallet
    let backup = wallet().export_private_key_with("senha123", &NONCE).unwrap();
    assert!(Wallet::decrypt(&backup, "test_user", "senha123").is_none());
}

#[test]
fn a_nonce_must_have_twelve_bytes() {
    assert!(wallet().encrypt_with("test_user", "senha123", &NONCE[..11]).is_none());
    assert!(wallet().encrypt_with("test_user", "senha123", &[]).is_none());
    assert!(wallet().export_private_key_with("senha123", &[0; 13]).is_none());
    assert!(seal_file(&[0; 32], &[0; 11], b"x").is_none());
    assert!(seal_file(&[0; 31], &[0; 12], b"x").is_none());
    assert!(seal_file(&[0; 32], &[0; 12], b"x").is_some());
}

#[test]
fn a_private_key_is_sealed_under_the_digest_of_the_password() {
    let content = wallet().export_private_key_with("senha123", &NONCE).unwrap();
    assert_eq!(content, BACKUP_FILE);
}

#[test]
fn a_sealed_private_key_is_restored() {
    let restored = Wallet::import_private_key("senha123", BACKUP_FILE).unwrap();
    assert_eq!(restored.private_key, KEY_ONE);
    assert_eq!(restored.address, wallet().address);
    let padded = format!("  {}\n", BACKUP_FILE);
    assert_eq!(Wallet::import_private_key("senha123", &padded).unwrap().address, wallet().address);
    let fresh = wallet().export_private_key("senha123").unwrap();
    assert_ne!(fresh, BACKUP_FILE);
    assert_eq!(Wallet::import_private_key("senha123", &fresh).unwrap().private_key, KEY_ONE);
}

#[test]
fn why_a_private_key_is_not_restored() {
    assert!(matches!(Wallet::import_private_key("senha123", ""), Err(ImportError::Format)));
    assert!(matches!(Wallet::import_private_key("senha123", "abc"), Err(ImportError::Format)));
    assert!(matches!(Wallet::import_private_key("senha123", "a:b:c"), Err(ImportError::Format)));
    assert!(matches!(Wallet::import_private_key("senha123", "!:AAAA"), Err(ImportError::Nonce)));
    assert!(matches!(Wallet::import_private_key("senha123", "AAAA:AAAA"), Err(ImportError::Nonce)));
    assert!(matches!(
        Wallet::import_private_key("senha123", "AAECAwQFBgcICQoL:!"),
        Err(ImportError::CipherText)
    ));
    assert!(matches!(
        Wallet::import_private_key("senha123", "AAECAwQFBgcICQoL:AAAA"),
        Err(ImportError::Refused)
    ));
    assert!(matches!(Wallet::import_private_key("senha124", BACKUP_FILE), Err(ImportError::Refused)));
    assert!(matches!(
        Wallet::import_private_key("senha123", &BACKUP_FILE.replace("0wts", "0wtt")),
        Err(ImportError::Refused)
    ));
    let mut odd = wallet();
    odd.private_key = "not a key".to_string();
    let sealed = odd.export_private_key_with("senha123", &NONCE).unwrap();
    match Wallet::import_private_key("senha123", &sealed) {
        Err(ImportError::Key(message)) => assert_eq!(message, "Chave privada inválida (não é hex)"),
        other => panic!("{:?}", other.map(|w| w.address)),
    }
}

#[test]
fn what_is_sealed_may_be_no_text() {
    let key = [7u8; 32];
    let content = seal_file(&key, &NONCE, &[0xff, 0xfe]).unwrap();
    match open_file(&key, content.as_bytes()) {
        Reading::Plain(plain) => assert_eq!(plain, vec![0xff, 0xfe]),
        other => panic!("{:?}", other),
    }
    assert!(matches!(open_file(&[7u8; 31], content.as_bytes()), Reading::Refused));
    assert!(matches!(open_file(&[8u8; 32], content.as_bytes()), Reading::Refused));
    assert!(matches!(open_file(&key, b"no halves"), Reading::NoHalves));
    assert!(matches!(open_file(&key, b"****:AAAA"), Reading::NoNonce));
    assert!(matches!(open_file(&key, b"AAAA:AAAA"), Reading::NoNonce));
    assert!(matches!(open_file(&key, b"AAECAwQFBgcICQoL:****"), Reading::NoCipherText));
}

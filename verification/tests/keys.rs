use loquaz::keys::{bytes32_eq, hex32, PublicKey, SecretKey, User};

const ONE: &str = "0000000000000000000000000000000000000000000000000000000000000001";
const GENERATOR: &str = "79be667ef9dcbbac55a06295ce870b07029bfcdb2dce28d959f2815b16f81798";
const HEX: &str = "aa4fc8665f5696e33db7e1a572e3b0f5b3d615837b0f362dcb1c8068b098c7b4";
const BECH32: &str = "npub14f8usejl26twx0dhuxjh9cas7keav9vr0v8nvtwtrjqx3vycc76qqh9nsy";

fn counting() -> [u8; 32] {
    let mut bytes = [0u8; 32];
    for (i, b) in bytes.iter_mut().enumerate() {
        *b = (i as u8) * 8 + 7;
    }
    bytes
}

#[test]
fn hex_of_bytes_is_lower_case_two_digits_each() {
    assert_eq!(
        hex32(&counting()),
        "070f171f272f373f474f575f676f777f878f979fa7afb7bfc7cfd7dfe7eff7ff"
    );
    assert_eq!(hex32(&[0u8; 32]), "0".repeat(64));
    assert_eq!(hex32(&[255u8; 32]), "f".repeat(64));
}

#[test]
fn bytes_are_equal_when_every_byte_is() {
    let a = counting();
    let mut b = counting();
    assert!(bytes32_eq(&a, &b));
    b[31] ^= 1;
    assert!(!bytes32_eq(&a, &b));
    b[31] ^= 1;
    b[0] ^= 0x80;
    assert!(!bytes32_eq(&a, &b));
}

#[test]
fn public_key_reads_from_hex() {
    let key = PublicKey::parse(HEX).expect("hex key");
    assert_eq!(key.to_hex(), HEX);
    assert_eq!(key.to_bytes()[0], 0xaa);
    assert_eq!(key.to_bytes()[31], 0xb4);
}

#[test]
fn public_key_reads_from_bech32() {
    let key = PublicKey::parse(BECH32).expect("bech32 key");
    assert_eq!(key.to_hex(), HEX);
    assert!(key == PublicKey::parse(HEX).unwrap());
}

#[test]
fn public_key_refuses_other_text() {
    assert!(PublicKey::parse("").is_none());
    assert!(PublicKey::parse("alice").is_none());
    assert!(PublicKey::parse(&HEX[..62]).is_none());
    assert!(PublicKey::parse("npub1notakey").is_none());
}

#[test]
fn public_keys_compare_by_bytes() {
    let a = PublicKey::from_bytes(counting());
    let b = PublicKey::from_bytes(counting());
    let c = PublicKey::from_bytes([1u8; 32]);
    assert!(a == b);
    assert!(a != c);
}

#[test]
fn imported_secret_key_gives_its_public_key() {
    let mut user = User::new();
    user.import_sk(ONE);
    assert_eq!(user.get_sk().to_hex(), ONE);
    assert_eq!(user.get_pk().to_hex(), GENERATOR);
    let (sk, pk) = user.get_keys();
    assert_eq!(sk.to_hex(), ONE);
    assert_eq!(pk.to_hex(), GENERATOR);
}

#[test]
fn import_of_bad_text_leaves_the_identity() {
    let mut user = User::new();
    let sk = user.get_sk().to_hex();
    let pk = user.get_pk().to_hex();
    user.import_sk("not a key");
    assert_eq!(user.get_sk().to_hex(), sk);
    assert_eq!(user.get_pk().to_hex(), pk);
    user.import_sk(&"0".repeat(64));
    assert_eq!(user.get_sk().to_hex(), sk);
    assert_eq!(user.get_pk().to_hex(), pk);
}

#[test]
fn identity_of_secret_key_bytes() {
    let mut one = [0u8; 32];
    one[31] = 1;
    let user = User::from_secret_key(SecretKey::from_bytes(one)).expect("valid secret key");
    assert_eq!(user.get_pk().to_hex(), GENERATOR);
    assert!(User::from_secret_key(SecretKey::from_bytes([0u8; 32])).is_none());
    assert!(User::from_secret_key(SecretKey::from_bytes([255u8; 32])).is_none());
}

#[test]
fn fresh_identities_differ_and_are_paired() {
    let a = User::new();
    let b = User::new();
    assert_ne!(a.get_sk().to_hex(), b.get_sk().to_hex());
    assert_ne!(a.get_pk().to_hex(), b.get_pk().to_hex());
    let again = User::from_secret_key(a.get_sk()).expect("a fresh secret key is valid");
    assert!(again.get_pk() == a.get_pk());
}

#[test]
fn an_identity_reads_from_the_text_of_its_secret_key() {
    let user = User::parse(ONE).expect("a secret key");
    assert_eq!(user.get_sk().to_hex(), ONE);
    assert_eq!(user.get_pk().to_hex(), GENERATOR);
    assert!(User::parse("").is_none());
    assert!(User::parse(GENERATOR).is_some());
    assert!(User::parse(&"f".repeat(64)).is_none());
}

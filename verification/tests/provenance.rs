use deoxys::crypto::{CkksProvider, ProvenanceSigner};
use deoxys::double::Double;
use ed25519_dalek::{Signature, Signer, SigningKey, Verifier};
use sha2::{Digest, Sha256};

fn d(x: f64) -> Double {
    Double::from_bits(x.to_bits())
}

fn state_of(values: &[f64]) -> Vec<Double> {
    values.iter().map(|&x| d(x)).collect()
}

fn seed() -> Vec<u8> {
    hex::decode("9d61b19deffd5a60ba844af492ec2cc44449c5697b326919703bac031cae7f60").unwrap()
}

#[test]
fn sealing_is_the_digest_of_level_and_state() {
    let provider = CkksProvider::init();
    assert_eq!(provider.security_level(), 128);
    assert_eq!(
        hex::encode(provider.encrypt_state(&state_of(&[0.01; 10]))),
        "2edeecbc3a083f54f9d64fff21af2049d9a6704d1e8dc2933135e5662b94f2ea"
    );
    assert_eq!(
        hex::encode(provider.encrypt_state(&state_of(&[0.0; 10]))),
        "4bcea5f4738198c7c77d28c2d28f0854458c0f8385d0c708d0bdeca90c00d782"
    );
}

#[test]
fn sealing_follows_the_streaming_digest() {
    let state = [0.5, -0.25, 1e-300, f64::MAX, -0.0];
    let mut hasher = Sha256::new();
    hasher.update(128u32.to_be_bytes());
    for val in state {
        hasher.update(val.to_be_bytes());
    }
    let expected = hasher.finalize().to_vec();
    assert_eq!(CkksProvider::init().encrypt_state(&state_of(&state)), expected);
}

#[test]
fn sealing_is_deterministic_and_tells_states_apart() {
    let provider = CkksProvider::init();
    let a = state_of(&[0.01; 10]);
    let mut b = state_of(&[0.01; 10]);
    assert_eq!(provider.encrypt_state(&a), provider.encrypt_state(&b));
    b[9] = d(0.010000000000000002);
    assert_ne!(provider.encrypt_state(&a), provider.encrypt_state(&b));
    // the two zeros are two states
    assert_ne!(provider.encrypt_state(&state_of(&[0.0])), provider.encrypt_state(&state_of(&[-0.0])));
    assert_eq!(provider.encrypt_state(&a).len(), 32);
}

#[test]
fn a_signer_derives_the_public_key_of_its_seed() {
    let signer = ProvenanceSigner::from_seed(seed()).unwrap();
    assert_eq!(
        hex::encode(signer.public_key()),
        "d75a980182b10ab7d54bfed3c964073a0ee172f3daa62325af021a68f707511a"
    );
}

#[test]
fn a_seed_of_the_wrong_length_is_refused() {
    assert!(ProvenanceSigner::from_seed(Vec::new()).is_none());
    assert!(ProvenanceSigner::from_seed(vec![7u8; 31]).is_none());
    assert!(ProvenanceSigner::from_seed(vec![7u8; 33]).is_none());
    assert!(ProvenanceSigner::from_seed(vec![7u8; 32]).is_some());
}

#[test]
fn signing_gives_the_signature_of_the_digest() {
    let signer = ProvenanceSigner::from_seed(seed()).unwrap();
    assert_eq!(
        signer.sign_cycle(&state_of(&[0.01; 10])),
        "111c2a50475e818d394c33e0cbaf4389a647dfb96e4ca50f41d649907d3a48f058203a37352d0581da2ed341a83f6c804549717a181b1ae2250ac2f8f2538f06"
    );
    assert_eq!(
        signer.sign_cycle(&state_of(&[0.0; 10])),
        "db0f9d0319620069c25cd93cf4f9645cb1c00ab1360d9c926723fdb6a84d18f84954ede3552bf67dd29b42fd350c7835dd97ade415050e8bf66ef1cdc6a5d90b"
    );
}

#[test]
fn signing_follows_the_streaming_digest() {
    let state = [0.5, -0.25, 1e-300, f64::MAX, -0.0];
    let mut hasher = Sha256::new();
    for val in state {
        hasher.update(val.to_be_bytes());
    }
    let digest = hasher.finalize();
    let key = SigningKey::from_bytes(&seed().try_into().unwrap());
    let expected = hex::encode(key.sign(&digest).to_bytes());
    let signer = ProvenanceSigner::from_seed(seed()).unwrap();
    let hash = signer.sign_cycle(&state_of(&state));
    assert_eq!(hash, expected);
    let signature = Signature::from_bytes(&hex::decode(&hash).unwrap().try_into().unwrap());
    assert!(key.verifying_key().verify(&digest, &signature).is_ok());
}

#[test]
fn signing_is_deterministic_and_verifiable() {
    let signer = ProvenanceSigner::new();
    let state = state_of(&[0.01; 10]);
    let first = signer.sign_cycle(&state);
    let second = signer.sign_cycle(&state);
    assert_eq!(first, second);
    assert_eq!(first.len(), 128);
    assert!(signer.verify_provenance(&state, &first));
    assert!(signer.verify_provenance(&state, &first.to_uppercase()));
}

#[test]
fn a_tampered_state_does_not_verify() {
    let signer = ProvenanceSigner::new();
    let state = state_of(&[0.01; 10]);
    let hash = signer.sign_cycle(&state);
    let mut tampered = state_of(&[0.01; 10]);
    tampered[4] = d(0.02);
    assert!(!signer.verify_provenance(&tampered, &hash));
    assert!(!signer.verify_provenance(&state_of(&[0.01; 9]), &hash));
}

#[test]
fn a_signature_is_bound_to_its_key() {
    let signer = ProvenanceSigner::new();
    let other = ProvenanceSigner::new();
    let state = state_of(&[0.01; 10]);
    let hash = signer.sign_cycle(&state);
    assert_ne!(hash, other.sign_cycle(&state));
    assert!(!other.verify_provenance(&state, &hash));
}

#[test]
fn text_that_is_no_signature_does_not_verify() {
    let signer = ProvenanceSigner::new();
    let state = state_of(&[0.01; 10]);
    let hash = signer.sign_cycle(&state);
    assert!(!signer.verify_provenance(&state, ""));
    assert!(!signer.verify_provenance(&state, "zz"));
    assert!(!signer.verify_provenance(&state, "abc"));
    assert!(!signer.verify_provenance(&state, &hash[..126]));
    assert!(!signer.verify_provenance(&state, &format!("{}00", hash)));
    assert!(!signer.verify_provenance(&state, &format!("{}é", &hash[..126])));
    let mut flipped = hash.clone().into_bytes();
    flipped[0] = if flipped[0] == b'0' { b'1' } else { b'0' };
    assert!(!signer.verify_provenance(&state, &String::from_utf8(flipped).unwrap()));
    assert!(!signer.verify_provenance(&state, &"0".repeat(128)));
}

#[test]
fn a_fresh_signer_holds_the_public_key_of_its_own_seed() {
    let signer = ProvenanceSigner::new();
    let public_key = signer.public_key();
    assert_eq!(public_key.len(), 32);
    let state: [f64; 2] = [0.25, -0.5];
    let mut hasher = Sha256::new();
    for val in state {
        hasher.update(val.to_be_bytes());
    }
    let digest = hasher.finalize();
    let hash = signer.sign_cycle(&state_of(&state));
    let signature = Signature::from_bytes(&hex::decode(&hash).unwrap().try_into().unwrap());
    let key = ed25519_dalek::VerifyingKey::from_bytes(&public_key.try_into().unwrap()).unwrap();
    assert!(key.verify(&digest, &signature).is_ok());
    assert_ne!(ProvenanceSigner::new().public_key(), signer.public_key());
}

use ratls::challenge::{derive_challenge, QuoteContentType};

#[test]
fn challenge_is_64_bytes() {
    let key = vec![1u8, 2, 3, 4];
    let c = derive_challenge(QuoteContentType::RaTlsCert, &key);
    assert_eq!(c.len(), 64);
}

#[test]
fn challenge_is_deterministic() {
    let key = vec![9u8; 91];
    let a = derive_challenge(QuoteContentType::RaTlsCert, &key);
    let b = derive_challenge(QuoteContentType::RaTlsCert, &key);
    assert_eq!(a, b);
}

#[test]
fn challenge_differs_per_usage_tag() {
    let key = vec![5u8; 32];
    let a = derive_challenge(QuoteContentType::RaTlsCert, &key);
    let b = derive_challenge(QuoteContentType::AppData, &key);
    let c = derive_challenge(QuoteContentType::KmsRootCa, &key);
    assert_ne!(a, b);
    assert_ne!(a, c);
    assert_ne!(b, c);
}

#[test]
fn challenge_differs_per_key() {
    let k1 = vec![5u8; 32];
    let mut k2 = k1.clone();
    k2[31] = 6;
    let a = derive_challenge(QuoteContentType::RaTlsCert, &k1);
    let b = derive_challenge(QuoteContentType::RaTlsCert, &k2);
    assert_ne!(a, b);
}

#[test]
fn challenge_is_not_the_input() {
    let key = vec![0u8; 64];
    let c = derive_challenge(QuoteContentType::RaTlsCert, &key);
    assert_ne!(c, key);
}

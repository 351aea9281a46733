use rpccaps::reference::Error;
use rpccaps::validate::{Unsafe, Validate};
use rpccaps::{Authorization, Capability, Dalek, Keypair, PublicKey, Reference};

struct TestReference {
    signers: Vec<Keypair>,
    public_keys: Vec<PublicKey>,
    reference: Reference<u64>,
}

impl TestReference {
    fn new(max_share: u32, cap: Capability) -> Self {
        let signers: Vec<Keypair> = (0..10).map(|_| Dalek::generate().unwrap()).collect();
        let public_keys: Vec<PublicKey> = signers.iter().map(|s| s.public()).collect();

        let auth = Authorization::new(cap, public_keys[1]);
        let reference = Reference::<u64>::new(0u64, &signers[0], max_share, auth)
            .expect("can not create reference");

        Self { signers, public_keys, reference }
    }

    fn sign(&mut self, signer: usize, capability: Capability) -> Result<(), Error> {
        if signer + 1 >= self.signers.len() {
            panic!("signer invalid")
        }
        let auth = Authorization::new(capability, self.public_keys[signer + 1]);
        self.reference.sign(&self.signers[signer], auth)
    }

    fn sign_n(&mut self, last: Option<usize>, mut capability: Capability) -> Result<(), (usize, Error)> {
        let last = last.unwrap_or_else(|| self.signers.len() - 1);
        for i in 1..last {
            capability.actions >>= 1;
            if let Err(err) = self.sign(i, capability) {
                return Err((i, err));
            }
        }
        Ok(())
    }

    fn validate(&self, subject: Option<usize>) -> Result<(), Error> {
        let subject = subject.unwrap_or_else(|| self.public_keys.len() - 1);
        self.reference.validate(&self.public_keys[subject])
    }
}

#[test]
fn test_sign_ok() {
    let cap = Capability::new(0b11111111, 0b11111111);
    let mut test = TestReference::new(64, cap);

    assert!(matches!(test.sign_n(None, cap), Ok(_)));
    assert!(matches!(test.validate(None), Ok(_)));
}

#[test]
fn test_sign_err() {
    let cap = Capability::new(0b11111111, 0b00000000);
    let mut test = TestReference::new(64, cap);

    assert!(matches!(test.sign(1, cap), Err(Error::Capability)));
    // signer 2 is not the subject of the last certificate, which is checked
    // before the capability
    assert!(matches!(test.sign(2, cap), Err(Error::Issuer)));
}

#[test]
fn test_sign_max_share() {
    let cap = Capability::new(0b11111111, 0b11111111);
    let mut test = TestReference::new(0, cap);

    assert!(matches!(test.sign_n(None, cap), Err((_, Error::MaxShare))));
}

#[test]
fn test_validate_err_auth() {
    let cap = Capability::new(0b11111111, 0b11111111);
    let mut test = TestReference::new(64, cap);

    assert!(matches!(test.sign_n(None, cap), Ok(_)));
    assert!(matches!(test.validate(None), Ok(_)));

    let auth = test.reference.certs.remove(5);
    assert!(matches!(test.validate(Some(test.reference.certs.len())), Err(_)));

    test.reference.certs.push(auth);
    assert!(matches!(test.validate(None), Err(_)));
}

#[test]
fn test_validate_err_subject() {
    let cap = Capability::new(0b11111111, 0b00001111);
    let test = TestReference::new(64, cap);

    assert!(matches!(test.validate(Some(2)), Err(Error::Subject)));
}

#[test]
fn test_validate_err_cap() {
    let cap = Capability::new(0b11111111, 0b00001111);
    let mut test = TestReference::new(64, cap);

    test.sign(1, cap.subset(cap.actions >> 1, cap.share)).unwrap();
    test.reference.certs.get_mut(1).unwrap().auth.capability.actions = cap.actions;
    assert!(matches!(test.validate(Some(2)), Err(Error::Capability)));
}

#[test]
fn test_validate_err_sign() {
    let cap = Capability::new(0b11111111, 0b00001111);
    let mut test = TestReference::new(64, cap);

    test.sign(1, cap.subset(cap.actions >> 1, cap.share)).unwrap();

    // signature poisoning
    let sig = test.reference.certs.get(0).unwrap().signature;
    test.reference.certs.get_mut(1).unwrap().signature = sig;

    assert!(matches!(test.validate(Some(2)), Err(Error::Signature(_))));
}

#[test]
fn reference_test_subset() {
    let cap = Capability::new(0b11111111, 0b11111111);
    let mut test = TestReference::new(64, cap);

    test.sign_n(None, cap).unwrap();

    let subject = test.public_keys[4];
    let subset = test.reference.subset(&subject).unwrap();
    if subject != subset.certs.last().unwrap().auth.subject {
        panic!("subject in reference and its subset are different")
    }

    assert!(matches!(subset.validate(&subject), Ok(_)));
}

#[test]
fn test_shrink() {
    let cap = Capability::new(0b11111111, 0b11111111);
    let mut test = TestReference::new(64, cap);

    test.sign_n(None, cap).unwrap();

    let (signer, subject) = (&test.signers[2], &test.public_keys[6]);
    let subset = test.reference.shrink(signer, subject).unwrap();
    let last = subset.certs.last().unwrap();

    if &last.auth.subject != subject {
        panic!("subject incorrect: \n{:?}\n{:?}", last.auth.subject, subject)
    }

    assert!(matches!(subset.validate(subject), Ok(_)));
}

#[test]
fn happy_path_delegation() {
    let keys: Vec<Keypair> = (0..10).map(|_| Dalek::generate().unwrap()).collect();
    let mut cap = Capability::new(0xFF, 0xFF);
    let mut r = Reference::new(0u64, &keys[0], 64, Authorization::new(cap, keys[1].public())).unwrap();
    for i in 1..8 {
        cap.actions >>= 1;
        assert_eq!(r.sign(&keys[i], Authorization::new(cap, keys[i + 1].public())), Ok(()));
    }
    assert_eq!(r.certs().len(), 8);
    assert_eq!(r.validate(&keys[8].public()), Ok(()));
    assert_eq!(r.id(), &0u64);
    assert_eq!(r.issuer(), &keys[0].public());
}

#[test]
fn non_shareable_rejection_leaves_chain_unchanged() {
    let keys: Vec<Keypair> = (0..3).map(|_| Dalek::generate().unwrap()).collect();
    let cap = Capability::new(0xFF, 0x00);
    let mut r = Reference::new(0u64, &keys[0], 64, Authorization::new(cap, keys[1].public())).unwrap();
    let before = r.certs().clone();
    assert_eq!(r.sign(&keys[1], Authorization::new(cap, keys[2].public())), Err(Error::Capability));
    assert_eq!(r.certs(), &before);
    assert_eq!(r.validate(&keys[1].public()), Ok(()));
}

#[test]
fn max_share_zero_allows_only_the_first_certificate() {
    let keys: Vec<Keypair> = (0..3).map(|_| Dalek::generate().unwrap()).collect();
    let cap = Capability::new(0xFF, 0xFF);
    let mut r = Reference::new(7u64, &keys[0], 0, Authorization::new(cap, keys[1].public())).unwrap();
    assert_eq!(r.certs().len(), 1);
    assert_eq!(r.sign(&keys[1], Authorization::new(cap, keys[2].public())), Err(Error::MaxShare));
    assert_eq!(r.certs().len(), 1);
    assert_eq!(r.validate(&keys[1].public()), Ok(()));
}

#[test]
fn dropped_middle_certificate_is_detected() {
    let cap = Capability::new(0xFF, 0xFF);
    let mut test = TestReference::new(64, cap);
    test.sign_n(None, cap).unwrap();
    assert_eq!(test.reference.certs.len(), 9);

    let dropped = test.reference.certs.remove(5);
    let last = test.reference.certs.last().unwrap().auth.subject;
    assert!(matches!(test.reference.validate(&last), Err(Error::Signature(5))));

    test.reference.certs.push(dropped);
    let last = test.reference.certs.last().unwrap().auth.subject;
    assert!(matches!(test.reference.validate(&last), Err(Error::Signature(5))));
}

#[test]
fn poisoned_signature_is_detected() {
    let cap = Capability::new(0xFF, 0xFF);
    let mut test = TestReference::new(64, cap);
    test.sign(1, Capability::new(0x7F, 0x7F)).unwrap();
    let sig = test.reference.certs[0].signature;
    test.reference.certs[1].signature = sig;
    assert_eq!(test.validate(Some(2)), Err(Error::Signature(1)));
}

#[test]
fn shrink_resigns_directly_to_the_subject() {
    let cap = Capability::new(0xFF, 0xFF);
    let mut test = TestReference::new(64, cap);
    test.sign_n(None, cap).unwrap();

    let sub = test.reference.shrink(&test.signers[2], &test.public_keys[6]).unwrap();
    assert_eq!(sub.certs.len(), 3);
    assert_eq!(sub.certs.last().unwrap().auth.subject, test.public_keys[6]);
    assert_eq!(sub.certs.last().unwrap().auth, test.reference.certs[5].auth);
    assert_eq!(sub.max_share, test.reference.max_share);
    for k in 3..6 {
        assert!(sub.certs.iter().all(|c| c.auth.subject != test.public_keys[k]));
    }
    assert_eq!(sub.validate(&test.public_keys[6]), Ok(()));
}

#[test]
fn shrink_refuses_absent_subject_or_signer() {
    let cap = Capability::new(0xFF, 0xFF);
    let mut test = TestReference::new(64, cap);
    test.sign_n(Some(4), cap).unwrap();
    let stranger = Dalek::generate().unwrap();
    assert!(test.reference.shrink(&test.signers[1], &stranger.public()).is_none());
    assert!(test.reference.shrink(&stranger, &test.public_keys[3]).is_none());
}

#[test]
fn subset_of_absent_subject_is_none() {
    let cap = Capability::new(0xFF, 0xFF);
    let test = TestReference::new(64, cap);
    let stranger = Dalek::generate().unwrap();
    assert!(test.reference.subset(&stranger.public()).is_none());
    let first = test.reference.subset(&test.public_keys[1]).unwrap();
    assert_eq!(first.certs.len(), 1);
}

#[test]
fn empty_chain_and_long_chain_are_refused() {
    let cap = Capability::new(0xFF, 0xFF);
    let mut test = TestReference::new(0, cap);
    let cert = test.reference.certs[0];
    test.reference.certs.push(cert);
    assert_eq!(test.validate(Some(1)), Err(Error::MaxShare));
    test.reference.certs.clear();
    assert_eq!(test.validate(Some(1)), Err(Error::Empty));
}

#[test]
fn tampered_header_fails_the_first_signature() {
    let cap = Capability::new(0xFF, 0xFF);
    let mut test = TestReference::new(3, cap);
    test.reference.max_share = 4;
    assert_eq!(test.validate(Some(1)), Err(Error::Signature(0)));
    test.reference.max_share = 3;
    test.reference.id = 1;
    assert_eq!(test.validate(Some(1)), Err(Error::Signature(0)));
}

#[test]
fn unsafe_wrapper_hands_out_only_checked_values() {
    let cap = Capability::new(0xFF, 0xFF);
    let test = TestReference::new(64, cap);
    let received = Unsafe::new(test.reference.clone());
    assert!(received.validate(&test.public_keys[2]).is_err());
    let received = Unsafe::new(test.reference.clone());
    let checked = received.validate(&test.public_keys[1]).unwrap();
    assert_eq!(checked.certs.len(), 1);
}

#[test]
fn keypair_round_trips_through_its_bytes() {
    let k = Dalek::generate().unwrap();
    let bytes = k.to_bytes();
    let again = Dalek::signer(&bytes).unwrap();
    assert_eq!(again.public(), k.public());
    assert_eq!(Dalek::verifying_key(&again), k.public());
    let msg = b"payload";
    assert_eq!(again.sign(msg), k.sign(msg));
    assert!(k.public().verify(msg, &again.sign(msg)));
    assert!(!k.public().verify(b"other", &again.sign(msg)));

    let mut wrong = bytes.clone();
    wrong[40] ^= 1;
    assert!(Dalek::signer(&wrong).is_none());
    assert!(Dalek::signer(&bytes[..63]).is_none());
}

#[test]
fn wire_form_round_trips_and_rejects_bad_shapes() {
    let cap = Capability::new(0xFF, 0xFF);
    let mut test = TestReference::new(64, cap);
    test.sign_n(Some(4), cap).unwrap();
    let bytes = test.reference.to_bytes();
    assert_eq!(bytes.len(), 8 + 32 + 4 + 8 + 112 * 4);
    assert_eq!(&bytes[..8], &0u64.to_le_bytes());
    assert_eq!(&bytes[8..40], &test.reference.issuer.bytes);
    assert_eq!(&bytes[40..44], &64u32.to_le_bytes());
    assert_eq!(&bytes[44..52], &4u64.to_le_bytes());

    let back = Reference::<u64>::from_bytes(&bytes).unwrap();
    assert_eq!(back.certs, test.reference.certs);
    assert_eq!(back.issuer, test.reference.issuer);
    assert_eq!(back.max_share, 64);
    assert_eq!(back.validate(&test.public_keys[4]), Ok(()));

    assert!(Reference::<u64>::from_bytes(&bytes[..bytes.len() - 1]).is_none());
    assert!(Reference::<u64>::from_bytes(&bytes[..20]).is_none());
    let mut extra = bytes.clone();
    extra.extend_from_slice(&[0u8; 112]);
    assert!(Reference::<u64>::from_bytes(&extra).is_none());
}

#[test]
fn keypair_from_secret_is_deterministic() {
    let a = Keypair::from_secret([7u8; 32]);
    let b = Keypair::from_secret([7u8; 32]);
    let c = Keypair::from_secret([8u8; 32]);
    assert_eq!(a.public(), b.public());
    assert_ne!(a.public(), c.public());
    let bytes = a.to_bytes();
    assert_eq!(&bytes[..32], &[7u8; 32]);
    assert_eq!(Dalek::signer(&bytes).unwrap().public(), a.public());
}

use couch_unifi_protect::certificate::{
    fingerprint_text, read_pin, ObservedVerifier, PinMismatch, PinnedVerifier,
};
use couch_unifi_protect::errors::Error;

const ABC: &str = "ba7816bf8f01cfea414140de5dae2223b00361a396177a9cb410ff61f20015ad";
const NOTHING: &str = "e3b0c44298fc1c149afbf4c8996fb92427ae41e4649b934ca495991b7852b855";

#[test]
fn an_observed_fingerprint_is_the_digest_in_lowercase() {
    let mut verifier = ObservedVerifier::new();
    assert_eq!(verifier.fingerprint().unwrap_err(), Error::Transport);
    verifier.verify_server_cert(b"");
    assert_eq!(verifier.fingerprint().unwrap(), NOTHING);
    verifier.verify_server_cert(b"abc");
    assert_eq!(verifier.fingerprint().unwrap(), ABC);
}

#[test]
fn a_pinned_verifier_accepts_exactly_what_was_observed() {
    let mut observed = ObservedVerifier::new();
    observed.verify_server_cert(b"a certificate");
    let pin = observed.fingerprint().unwrap();
    let pinned = PinnedVerifier::from_pin(&pin).unwrap();
    assert!(pinned.verify_server_cert(b"a certificate").is_ok());
    assert_eq!(
        pinned.verify_server_cert(b"another certificate"),
        Err(PinMismatch)
    );
    assert_eq!(pinned.verify_server_cert(b""), Err(PinMismatch));
}

#[test]
fn a_mismatch_is_put_in_words() {
    assert_eq!(PinMismatch.text(), "Console certificate pin mismatch");
}

#[test]
fn digests_are_compared_as_a_whole() {
    let pinned = PinnedVerifier { digest: [7; 32] };
    assert!(pinned.verify_digest(&[7; 32]).is_ok());
    for i in 0..32 {
        let mut other = [7u8; 32];
        other[i] = 8;
        assert!(pinned.verify_digest(&other).is_err());
    }
}

#[test]
fn pins_read_back() {
    let mut digest = [0u8; 32];
    for (i, byte) in digest.iter_mut().enumerate() {
        *byte = (i * 8 + i / 4) as u8;
    }
    digest[31] = 255;
    let text = fingerprint_text(&digest);
    assert_eq!(text.len(), 64);
    assert_eq!(read_pin(&text).unwrap(), digest);
    assert_eq!(fingerprint_text(&[0xa0; 32]), "a0".repeat(32));
}

#[test]
fn every_byte_is_written_as_the_standard_library_does() {
    for byte in 0..=255u8 {
        let text = fingerprint_text(&[byte; 32]);
        assert_eq!(text, format!("{byte:02x}").repeat(32));
        assert_eq!(read_pin(&text).unwrap(), [byte; 32]);
    }
}

#[test]
fn pins_ignore_case() {
    assert_eq!(
        read_pin(&ABC.to_uppercase()).unwrap(),
        read_pin(ABC).unwrap()
    );
    assert_eq!(read_pin(ABC).unwrap()[..3], [0xba, 0x78, 0x16]);
}

#[test]
fn anything_but_sixty_four_digits_is_no_pin() {
    for pin in [
        "",
        "0",
        &ABC[1..],
        &format!("{ABC}0"),
        &ABC.replace('b', "g"),
        &ABC.replace('b', " "),
        &ABC.replace('b', "+"),
        &format!("{}é", &ABC[2..]),
        &format!("{}é", &ABC[1..]),
        &"é".repeat(32),
        &"\u{ff10}".repeat(64),
    ] {
        assert_eq!(read_pin(pin), Err(Error::Configuration));
        assert!(PinnedVerifier::from_pin(pin).is_err());
    }
    for c in ['/', ':', '@', 'G', '`', 'g'] {
        assert!(read_pin(&c.to_string().repeat(64)).is_err());
    }
}

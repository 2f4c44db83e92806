//! Certificate fingerprints: what a certificate digests to, how a digest is
//! written down, and the two verifiers that see a console's leaf certificate.
use crate::errors::Error;
use crate::text::characters;
use sha2::Digest;
use vstd::prelude::*;

verus! {

/// The SHA-256 digest of some bytes.
pub uninterp spec fn sha256_of(data: Seq<u8>) -> [u8; 32];

/// `sha2::Sha256::digest` over the whole of `data`. The digest is a function of
/// the bytes alone; it goes by the name `sha256_of`.
#[verifier::external_body]
fn sha256(data: &[u8]) -> (digest: [u8; 32])
    ensures
        digest == sha256_of(data@),
{
    sha2::Sha256::digest(data).into()
}

/// A hexadecimal digit, in either case.
pub open spec fn is_hex_digit(c: char) -> bool {
    ||| '0' <= c <= '9'
    ||| 'a' <= c <= 'f'
    ||| 'A' <= c <= 'F'
}

/// The value of a hexadecimal digit.
pub open spec fn hex_value(c: char) -> int
    recommends
        is_hex_digit(c),
{
    if c <= '9' {
        c as int - '0' as int
    } else if c <= 'F' {
        c as int - 'A' as int + 10
    } else {
        c as int - 'a' as int + 10
    }
}

/// The lowercase hexadecimal digit of a value below sixteen.
pub open spec fn hex_digit(value: int) -> char
    recommends
        0 <= value < 16,
{
    if value < 10 {
        ('0' as int + value) as char
    } else {
        ('a' as int + value - 10) as char
    }
}

/// Bytes written as two lowercase hexadecimal digits each, high digit first.
pub open spec fn hex_text(bytes: Seq<u8>) -> Seq<char> {
    Seq::new(
        2 * bytes.len(),
        |i: int|
            if i % 2 == 0 {
                hex_digit(bytes[i / 2] as int / 16)
            } else {
                hex_digit(bytes[i / 2] as int % 16)
            },
    )
}

/// A certificate pin: the sixty-four hexadecimal digits of a SHA-256 digest.
pub open spec fn is_pin(pin: Seq<char>) -> bool {
    &&& pin.len() == 64
    &&& forall|i: int| 0 <= i < 64 ==> is_hex_digit(#[trigger] pin[i])
}

/// The digest that a pin writes down.
pub open spec fn pin_bytes(pin: Seq<char>) -> Seq<u8> {
    Seq::new(32, |i: int| (16 * hex_value(pin[2 * i]) + hex_value(pin[2 * i + 1])) as u8)
}

/// A digest survives being written down as a pin and read back.
pub proof fn law_pin_reads_back(digest: Seq<u8>)
    requires
        digest.len() == 32,
    ensures
        is_pin(hex_text(digest)),
        pin_bytes(hex_text(digest)) == digest,
{
    let text = hex_text(digest);
    assert forall|i: int| 0 <= i < 64 implies is_hex_digit(#[trigger] text[i]) by {
        assert(0 <= digest[i / 2] <= 255);
    }
    assert forall|i: int| 0 <= i < 32 implies #[trigger] pin_bytes(text)[i] == digest[i] by {
        assert((2 * i) / 2 == i && (2 * i + 1) / 2 == i);
        assert(text[2 * i] == hex_digit(digest[i] as int / 16));
        assert(text[2 * i + 1] == hex_digit(digest[i] as int % 16));
    }
    assert(pin_bytes(text) =~= digest);
}

/// Two pins that differ only in the case of their digits stand for one digest.
pub proof fn law_pin_ignores_case(a: Seq<char>, b: Seq<char>)
    requires
        is_pin(a),
        is_pin(b),
        forall|i: int| 0 <= i < 64 ==> hex_value(#[trigger] a[i]) == hex_value(b[i]),
    ensures
        pin_bytes(a) == pin_bytes(b),
{
    assert forall|i: int| 0 <= i < 32 implies #[trigger] pin_bytes(a)[i] == pin_bytes(b)[i] by {
        assert(hex_value(a[2 * i]) == hex_value(b[2 * i]));
        assert(hex_value(a[2 * i + 1]) == hex_value(b[2 * i + 1]));
    }
    assert(pin_bytes(a) =~= pin_bytes(b));
}

/// The digits that are written, in the order of their values.
pub proof fn law_digits_are_written_in_lowercase(value: int)
    requires
        0 <= value < 16,
    ensures
        hex_digit(value) == "0123456789abcdef"@[value],
        is_hex_digit(hex_digit(value)),
        hex_value(hex_digit(value)) == value,
{
    reveal_strlit("0123456789abcdef");
}

/// A digit is read if it is one that is written, or the capital of one; and it is
/// read as the value that it is written for.
pub proof fn law_digits_are_read_in_either_case(c: char)
    ensures
        is_hex_digit(c) <==> exists|value: int|
            0 <= value < 16 && (c == #[trigger] hex_digit(value) || value >= 10 && c as int
                == hex_digit(value) as int - 32),
        is_hex_digit(c) ==> 0 <= hex_value(c) < 16 && (c == hex_digit(hex_value(c)) || c as int
            == hex_digit(hex_value(c)) as int - 32),
{
    if is_hex_digit(c) {
        let value = hex_value(c);
        assert(0 <= value < 16 && (c == hex_digit(value) || value >= 10 && c as int == hex_digit(
            value,
        ) as int - 32));
    }
}

/// A fingerprint writes every byte with two digits, the high one first, and nothing
/// else.
pub proof fn law_fingerprint_writes_every_byte(bytes: Seq<u8>, i: int)
    requires
        0 <= i < bytes.len(),
    ensures
        hex_text(bytes).len() == 2 * bytes.len(),
        hex_text(bytes)[2 * i] == "0123456789abcdef"@[bytes[i] as int / 16],
        hex_text(bytes)[2 * i + 1] == "0123456789abcdef"@[bytes[i] as int % 16],
{
    assert((2 * i) / 2 == i && (2 * i + 1) / 2 == i);
    law_digits_are_written_in_lowercase(bytes[i] as int / 16);
    law_digits_are_written_in_lowercase(bytes[i] as int % 16);
}

/// Sixty-four digits in either case are a pin, and nothing else is.
pub proof fn law_pins_are_sixty_four_digits(pin: Seq<char>)
    ensures
        is_pin(pin) <==> pin.len() == 64 && forall|i: int|
            0 <= i < pin.len() ==> {
                ||| '0' <= #[trigger] pin[i] <= '9'
                ||| 'a' <= pin[i] <= 'f'
                ||| 'A' <= pin[i] <= 'F'
            },
{
    if pin.len() == 64 && (forall|i: int|
        0 <= i < pin.len() ==> {
            ||| '0' <= #[trigger] pin[i] <= '9'
            ||| 'a' <= pin[i] <= 'f'
            ||| 'A' <= pin[i] <= 'F'
        }) {
        assert forall|i: int| 0 <= i < 64 implies is_hex_digit(#[trigger] pin[i]) by {}
    }
    if is_pin(pin) {
        assert forall|i: int| 0 <= i < pin.len() implies {
            ||| '0' <= #[trigger] pin[i] <= '9'
            ||| 'a' <= pin[i] <= 'f'
            ||| 'A' <= pin[i] <= 'F'
        } by {
            assert(is_hex_digit(pin[i]));
        }
    }
}

/// A pin stands for a digest exactly if the digest is written with the digits of the
/// pin in lowercase.
pub proof fn law_pin_stands_for_what_it_writes(pin: Seq<char>, digest: Seq<u8>)
    requires
        is_pin(pin),
        digest.len() == 32,
    ensures
        pin_bytes(pin) == digest <==> forall|i: int|
            0 <= i < 64 ==> hex_value(#[trigger] pin[i]) == hex_value(hex_text(digest)[i]),
        pin_bytes(pin).len() == 32,
{
    let text = hex_text(digest);
    law_pin_reads_back(digest);
    if pin_bytes(pin) == digest {
        assert forall|i: int| 0 <= i < 64 implies hex_value(#[trigger] pin[i]) == hex_value(
            text[i],
        ) by {
            let k = i / 2;
            assert(is_hex_digit(pin[2 * k]) && is_hex_digit(pin[2 * k + 1]));
            assert(pin_bytes(pin)[k] == digest[k]);
            assert(pin_bytes(text)[k] == digest[k]);
            assert(is_hex_digit(text[2 * k]) && is_hex_digit(text[2 * k + 1]));
        }
    }
    if forall|i: int| 0 <= i < 64 ==> hex_value(#[trigger] pin[i]) == hex_value(text[i]) {
        law_pin_ignores_case(pin, text);
    }
}

/// A pinned certificate is accepted exactly under the pin of its own digest, in
/// either case.
pub proof fn law_pin_accepts_by_digest_alone(pin: Seq<char>, a: Seq<u8>, b: Seq<u8>)
    requires
        sha256_of(a)@ == sha256_of(b)@,
    ensures
        pin_accepts(pin, a) == pin_accepts(pin, b),
        pin_accepts(pin, a) ==> is_pin(pin) && pin_bytes(pin) == sha256_of(a)@,
{
}

/// Different digests are written down as different pins.
pub proof fn law_pin_tells_digests_apart(a: Seq<u8>, b: Seq<u8>)
    requires
        a.len() == 32,
        b.len() == 32,
        hex_text(a) == hex_text(b),
    ensures
        a == b,
{
    law_pin_reads_back(a);
    law_pin_reads_back(b);
}

/// Whether a connection that is pinned accepts a leaf certificate.
pub open spec fn pin_accepts(pin: Seq<char>, cert: Seq<u8>) -> bool {
    is_pin(pin) && sha256_of(cert)@ == pin_bytes(pin)
}

/// A pin that was observed accepts, from then on, exactly the certificates with
/// the digest of the one that was seen.
pub proof fn law_observed_pin_accepts_only_what_was_seen(seen: Seq<u8>, cert: Seq<u8>)
    ensures
        pin_accepts(hex_text(sha256_of(seen)@), cert) <==> sha256_of(cert)@ == sha256_of(seen)@,
        pin_accepts(hex_text(sha256_of(seen)@), seen),
{
    law_pin_reads_back(sha256_of(seen)@);
}

/// The value of a character as a hexadecimal digit, if it is one.
fn digit_value(c: char) -> (value: Option<u8>)
    ensures
        value is Some <==> is_hex_digit(c),
        value matches Some(v) ==> v == hex_value(c) && v < 16,
{
    let code: u32 = c as u32;
    if '0' <= c && c <= '9' {
        Some((code - 48) as u8)
    } else if 'a' <= c && c <= 'f' {
        Some((code - 87) as u8)
    } else if 'A' <= c && c <= 'F' {
        Some((code - 55) as u8)
    } else {
        None
    }
}

/// The lowercase digit of a value below sixteen.
fn digit_of(value: u8) -> (c: char)
    requires
        value < 16,
    ensures
        c == hex_digit(value as int),
{
    if value < 10 {
        (48 + value) as char
    } else {
        (87 + value) as char
    }
}

/// Reads a certificate pin. Anything but sixty-four hexadecimal digits is a
/// configuration error.
pub fn read_pin(pin: &str) -> (digest: Result<[u8; 32], Error>)
    ensures
        digest is Ok <==> is_pin(pin@),
        digest matches Ok(bytes) ==> bytes@ == pin_bytes(pin@),
        digest matches Err(e) ==> e == Error::Configuration,
{
    let digits: Vec<char> = characters(pin);
    if digits.len() != 64 {
        return Err(Error::Configuration);
    }
    let mut bytes: [u8; 32] = [0u8; 32];
    let mut i: usize = 0;
    while i < 32
        invariant
            i <= 32,
            digits@ == pin@,
            digits@.len() == 64,
            forall|j: int| 0 <= j < 2 * i ==> is_hex_digit(#[trigger] pin@[j]),
            forall|j: int| 0 <= j < i ==> #[trigger] bytes@[j] == pin_bytes(pin@)[j],
        decreases 32 - i,
    {
        let high: Option<u8> = digit_value(digits[2 * i]);
        let low: Option<u8> = digit_value(digits[2 * i + 1]);
        match (high, low) {
            (Some(h), Some(l)) => {
                bytes[i] = 16 * h + l;
            },
            _ => {
                assert(!is_hex_digit(pin@[2 * i as int]) || !is_hex_digit(pin@[2 * i as int + 1]));
                return Err(Error::Configuration);
            },
        }
        i = i + 1;
    }
    assert(bytes@ =~= pin_bytes(pin@));
    Ok(bytes)
}

/// Writes a digest down as a certificate pin.
pub fn fingerprint_text(digest: &[u8; 32]) -> (text: String)
    ensures
        text@ == hex_text(digest@),
{
    let mut text: String = String::new();
    let mut i: usize = 0;
    while i < 32
        invariant
            i <= 32,
            text@ == hex_text(digest@).take(2 * i as int),
        decreases 32 - i,
    {
        let byte: u8 = digest[i];
        text.push(digit_of(byte / 16));
        text.push(digit_of(byte % 16));
        proof {
            let full = hex_text(digest@);
            assert((2 * i as int) / 2 == i && (2 * i as int + 1) / 2 == i);
            assert(full[2 * i as int] == hex_digit(byte as int / 16));
            assert(full[2 * i as int + 1] == hex_digit(byte as int % 16));
            assert(text@ =~= full.take(2 * (i + 1)));
        }
        i = i + 1;
    }
    assert(hex_text(digest@).take(64) =~= hex_text(digest@));
    text
}

/// Whether two digests are equal.
fn same_digest(a: &[u8; 32], b: &[u8; 32]) -> (same: bool)
    ensures
        same == (a@ == b@),
{
    let mut i: usize = 0;
    while i < 32
        invariant
            i <= 32,
            forall|j: int| 0 <= j < i ==> a@[j] == b@[j],
        decreases 32 - i,
    {
        if a[i] != b[i] {
            return false;
        }
        i = i + 1;
    }
    assert(a@ =~= b@);
    true
}

/// The refusal of a certificate whose digest is not the pinned one.
#[derive(Clone, Copy, PartialEq, Eq, Structural, Debug)]
pub struct PinMismatch;

impl PinMismatch {
    /// The refusal in words.
    pub fn text(&self) -> (text: &'static str)
        ensures
            text@ == "Console certificate pin mismatch"@,
    {
        "Console certificate pin mismatch"
    }
}

/// Accepts exactly the leaf certificates that digest to one pinned value.
#[derive(Debug)]
pub struct PinnedVerifier {
    pub digest: [u8; 32],
}

impl PinnedVerifier {
    /// The verifier for a pin as it is stored in a credential.
    pub fn from_pin(pin: &str) -> (verifier: Result<PinnedVerifier, Error>)
        ensures
            verifier is Ok <==> is_pin(pin@),
            verifier matches Ok(v) ==> v.digest@ == pin_bytes(pin@),
            verifier matches Err(e) ==> e == Error::Configuration,
    {
        match read_pin(pin) {
            Ok(digest) => Ok(PinnedVerifier { digest }),
            Err(error) => Err(error),
        }
    }

    /// Accepts a digest if it is the pinned one.
    pub fn verify_digest(&self, actual: &[u8; 32]) -> (verdict: Result<(), PinMismatch>)
        ensures
            verdict is Ok <==> actual@ == self.digest@,
    {
        if same_digest(actual, &self.digest) {
            Ok(())
        } else {
            Err(PinMismatch)
        }
    }

    /// Accepts a leaf certificate if it digests to the pinned value.
    pub fn verify_server_cert(&self, cert: &[u8]) -> (verdict: Result<(), PinMismatch>)
        ensures
            verdict is Ok <==> sha256_of(cert@)@ == self.digest@,
    {
        let actual: [u8; 32] = sha256(cert);
        self.verify_digest(&actual)
    }
}

/// Accepts any leaf certificate and remembers the digest of the last one.
#[derive(Debug)]
pub struct ObservedVerifier {
    pub seen: Option<[u8; 32]>,
}

impl ObservedVerifier {
    /// A verifier that has seen nothing yet.
    pub fn new() -> (verifier: ObservedVerifier)
        ensures
            verifier.seen is None,
    {
        ObservedVerifier { seen: None }
    }

    /// Remembers the digest of a leaf certificate.
    pub fn verify_server_cert(&mut self, cert: &[u8])
        ensures
            final(self).seen == Some(sha256_of(cert@)),
    {
        self.seen = Some(sha256(cert));
    }

    /// The fingerprint of the certificate that was seen. Without one the
    /// transport has failed.
    pub fn fingerprint(&self) -> (text: Result<String, Error>)
        ensures
            match self.seen {
                Some(digest) => text matches Ok(t) && t@ == hex_text(digest@),
                None => text matches Err(e) && e == Error::Transport,
            },
    {
        match &self.seen {
            Some(digest) => Ok(fingerprint_text(digest)),
            None => Err(Error::Transport),
        }
    }
}

} // verus!

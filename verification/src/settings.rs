//! What a connection is made from: the settings that a person enters and the
//! credential that pairing leaves behind.
use crate::errors::{bare, invalid_setting, HostError, HostErrorKind, HostErrorView, ReasonView};
use crate::location::{address_text, dotted, ip_of_text, IpAddress};
use crate::text::same_text;
use vstd::prelude::*;
use zeroize::Zeroize;

verus! {

/// The prefix of the files that belong to settings.
pub const FILE_PREFIX: &'static str = "unifi-protect";

/// The value of a stored field: a text, or anything else.
pub enum FieldValue {
    Text(String),
    Other,
}

/// A stored field.
pub struct Field {
    pub name: String,
    pub value: FieldValue,
}

/// A stored field as plain text. A value that is no text is `None`.
pub struct FieldView {
    pub name: Seq<char>,
    pub value: Option<Seq<char>>,
}

impl View for Field {
    type V = FieldView;

    open spec fn view(&self) -> FieldView {
        FieldView {
            name: self.name@,
            value: match self.value {
                FieldValue::Text(text) => Some(text@),
                FieldValue::Other => None,
            },
        }
    }
}

/// Stored fields as plain text.
pub open spec fn plain_fields(fields: Seq<Field>) -> Seq<FieldView> {
    fields.map_values(|field: Field| field@)
}

/// A field that holds a text.
pub open spec fn text_field(name: Seq<char>, value: Seq<char>) -> FieldView {
    FieldView { name, value: Some(value) }
}

/// Whether the fields are exactly two texts, under these names and in any order.
pub open spec fn holds_pair(
    fields: Seq<FieldView>,
    first: FieldView,
    second: FieldView,
) -> bool {
    ||| fields == seq![first, second]
    ||| fields == seq![second, first]
}

/// Whether a stored field has this name and holds this text.
pub open spec fn is_text(field: Field, name: Seq<char>, value: Seq<char>) -> bool {
    field.name@ == name && (field.value matches FieldValue::Text(text) && text@ == value)
}

/// Whether stored fields are one text under each of two names, in any order, and
/// nothing else.
pub open spec fn are_texts(
    fields: Seq<Field>,
    first: Seq<char>,
    a: Seq<char>,
    second: Seq<char>,
    b: Seq<char>,
) -> bool {
    &&& fields.len() == 2
    &&& is_text(fields[0], first, a) && is_text(fields[1], second, b) || is_text(
        fields[0],
        second,
        b,
    ) && is_text(fields[1], first, a)
}

/// Two texts are held as plain text exactly if they are stored.
proof fn lemma_pairs_are_texts(fields: Seq<Field>, first: Seq<char>, second: Seq<char>)
    ensures
        forall|a: Seq<char>, b: Seq<char>|
            #![trigger are_texts(fields, first, a, second, b)]
            #![trigger holds_pair(plain_fields(fields), text_field(first, a), text_field(second, b))]
            are_texts(fields, first, a, second, b) <==> holds_pair(
                plain_fields(fields),
                text_field(first, a),
                text_field(second, b),
            ),
{
    let plain = plain_fields(fields);
    assert forall|a: Seq<char>, b: Seq<char>|
        #![trigger are_texts(fields, first, a, second, b)]
        are_texts(fields, first, a, second, b) <==> holds_pair(
            plain,
            text_field(first, a),
            text_field(second, b),
        ) by {
        let x = text_field(first, a);
        let y = text_field(second, b);
        assert(seq![x, y][0] == x && seq![x, y][1] == y);
        assert(seq![y, x][0] == y && seq![y, x][1] == x);
        if fields.len() == 2 {
            assert(plain[0] == fields[0]@ && plain[1] == fields[1]@);
            assert(fields[0]@ == x <==> is_text(fields[0], first, a));
            assert(fields[1]@ == y <==> is_text(fields[1], second, b));
            assert(fields[0]@ == y <==> is_text(fields[0], second, b));
            assert(fields[1]@ == x <==> is_text(fields[1], first, a));
            assert(plain == seq![x, y] <==> plain[0] == x && plain[1] == y) by {
                if plain[0] == x && plain[1] == y {
                    assert(plain =~= seq![x, y]);
                }
            }
            assert(plain == seq![y, x] <==> plain[0] == y && plain[1] == x) by {
                if plain[0] == y && plain[1] == x {
                    assert(plain =~= seq![y, x]);
                }
            }
        } else {
            assert(plain.len() != 2);
        }
    }
}

/// The text of a field, if it has this name and holds one.
fn text_named(field: &Field, name: &str) -> (text: Option<String>)
    ensures
        match text {
            Some(t) => field@ == text_field(name@, t@),
            None => forall|value: Seq<char>| field@ != #[trigger] text_field(name@, value),
        },
{
    if !same_text(field.name.as_str(), name) {
        assert forall|value: Seq<char>| field@ != #[trigger] text_field(name@, value) by {
            assert(text_field(name@, value).name == name@);
        }
        return None;
    }
    match &field.value {
        FieldValue::Text(text) => Some(text.clone()),
        FieldValue::Other => {
            assert forall|value: Seq<char>| field@ != #[trigger] text_field(name@, value) by {
                assert(text_field(name@, value).value is Some);
            }
            None
        },
    }
}

/// Reads fields that have to be exactly two texts, under these two names and in
/// any order.
fn read_pair(fields: &Vec<Field>, first: &str, second: &str) -> (pair: Option<(String, String)>)
    requires
        first@ != second@,
    ensures
        match pair {
            Some((a, b)) => holds_pair(
                plain_fields(fields@),
                text_field(first@, a@),
                text_field(second@, b@),
            ),
            None => forall|a: Seq<char>, b: Seq<char>|
                !#[trigger] holds_pair(
                    plain_fields(fields@),
                    text_field(first@, a),
                    text_field(second@, b),
                ),
        },
{
    let ghost plain = plain_fields(fields@);
    if fields.len() != 2 {
        assert forall|a: Seq<char>, b: Seq<char>|
            !#[trigger] holds_pair(plain, text_field(first@, a), text_field(second@, b)) by {
            assert(plain.len() != 2);
        }
        return None;
    }
    assert(plain[0] == fields@[0]@ && plain[1] == fields@[1]@);
    if let (Some(a), Some(b)) = (text_named(&fields[0], first), text_named(&fields[1], second)) {
        assert(plain =~= seq![text_field(first@, a@), text_field(second@, b@)]);
        return Some((a, b));
    }
    if let (Some(b), Some(a)) = (text_named(&fields[0], second), text_named(&fields[1], first)) {
        assert(plain =~= seq![text_field(second@, b@), text_field(first@, a@)]);
        return Some((a, b));
    }
    assert forall|a: Seq<char>, b: Seq<char>|
        !#[trigger] holds_pair(plain, text_field(first@, a), text_field(second@, b)) by {
        let x = text_field(first@, a);
        let y = text_field(second@, b);
        assert(seq![x, y][0] == x && seq![x, y][1] == y);
        assert(seq![y, x][0] == y && seq![y, x][1] == x);
    }
    None
}

/// `String::zeroize` overwrites a text and leaves it empty. That the memory is
/// overwritten too is not part of the contract, which speaks of values only.
#[verifier::external_body]
fn wipe(text: &mut String)
    ensures
        final(text)@ == Seq::<char>::empty(),
    opens_invariants none
    no_unwind
{
    text.zeroize()
}

/// A text as the standard library quotes it for debugging.
pub uninterp spec fn quoted_text(text: Seq<char>) -> Seq<char>;

/// The `Debug` form of a text, as `format!` writes it. It is a function of the
/// text alone and goes by the name `quoted_text`.
#[verifier::external_body]
fn quote(text: &str) -> (quoted: String)
    ensures
        quoted@ == quoted_text(text@),
{
    format!("{:?}", text)
}

/// What a person enters to connect a console.
pub struct ProtectSettings {
    /// The console's IP address.
    pub address: String,
    /// The key for the console's API.
    pub api_key: String,
}

/// Settings as plain text.
pub struct SettingsView {
    pub address: Seq<char>,
    pub api_key: Seq<char>,
}

impl View for ProtectSettings {
    type V = SettingsView;

    open spec fn view(&self) -> SettingsView {
        SettingsView { address: self.address@, api_key: self.api_key@ }
    }
}

/// Settings for debugging, with the address in quotes and without the key.
pub open spec fn redacted(quoted_address: Seq<char>) -> Seq<char> {
    "ProtectSettings { address: "@ + quoted_address + ", api_key: \"[redacted]\" }"@
}

/// The stored fields of settings.
pub open spec fn settings_fields(address: Seq<char>, key: Seq<char>) -> Seq<FieldView> {
    seq![text_field("address"@, address), text_field("api_key"@, key)]
}

/// Whether stored fields are settings with this address and this key.
pub open spec fn holds_settings(
    fields: Seq<FieldView>,
    address: Seq<char>,
    key: Seq<char>,
) -> bool {
    holds_pair(fields, text_field("address"@, address), text_field("api_key"@, key))
}

/// Whether stored fields are settings at all.
pub open spec fn is_settings(fields: Seq<FieldView>) -> bool {
    exists|address: Seq<char>, key: Seq<char>| #[trigger] holds_settings(fields, address, key)
}

/// The refusal of an address.
pub open spec fn address_refusal() -> HostErrorView {
    invalid_setting("address"@, "Enter the NVR's IP address"@)
}

/// The refusal of a key.
pub open spec fn key_refusal() -> HostErrorView {
    invalid_setting("api_key"@, "Enter the API key from UniFi Protect"@)
}

/// Whether settings may be used: an address that can be read and a key, not
/// empty, that the console's API takes for one. The address is judged first.
pub open spec fn judged(
    address: Option<IpAddress>,
    key: Seq<char>,
    key_accepted: bool,
) -> Result<(), HostErrorView> {
    if address is None {
        Err(address_refusal())
    } else if key.len() == 0 || !key_accepted {
        Err(key_refusal())
    } else {
        Ok(())
    }
}

/// A verdict with its failure as plain text.
pub open spec fn plain_verdict<T>(verdict: Result<T, HostError>) -> Result<T, HostErrorView> {
    match verdict {
        Ok(value) => Ok(value),
        Err(error) => Err(error@),
    }
}

/// The address that was read, or the refusal of what could not be read.
pub fn address_or_refusal(read: Option<IpAddress>) -> (address: Result<IpAddress, HostError>)
    ensures
        plain_verdict(address) == (match read {
            Some(a) => Ok::<IpAddress, HostErrorView>(a),
            None => Err(address_refusal()),
        }),
{
    match read {
        Some(address) => Ok(address),
        None => Err(HostError::invalid_setting("address", "Enter the NVR's IP address")),
    }
}

impl ProtectSettings {
    /// The prefix of the files that belong to these settings.
    pub fn file_prefix() -> (prefix: &'static str)
        ensures
            prefix@ == "unifi-protect"@,
    {
        FILE_PREFIX
    }

    /// The settings for debugging: the address, and never the key.
    pub fn debug_text(&self) -> (text: String)
        ensures
            text@ == redacted(quoted_text(self.address@)),
    {
        let quoted: String = quote(self.address.as_str());
        ProtectSettings::redacted_text(quoted.as_str())
    }

    /// Settings for debugging, given the address as it is quoted there.
    pub fn redacted_text(quoted_address: &str) -> (text: String)
        ensures
            text@ == redacted(quoted_address@),
            text@ == "ProtectSettings { address: "@ + quoted_address@
                + ", api_key: \"[redacted]\" }"@,
    {
        let mut text: String = "ProtectSettings { address: ".to_owned();
        text.append(quoted_address);
        text.append(", api_key: \"[redacted]\" }");
        text
    }

    /// The console's address. Every address is read from its own text, and a version
    /// 4 address from nothing else.
    pub fn address(&self) -> (address: Result<IpAddress, HostError>)
        ensures
            plain_verdict(address) == (match ip_of_text(self.address@) {
                Some(a) => Ok::<IpAddress, HostErrorView>(a),
                None => Err(address_refusal()),
            }),
            address matches Ok(IpAddress::V4(a, b, c, d)) ==> self.address@ == dotted(a, b, c, d),
            forall|ip: IpAddress|
                self.address@ == #[trigger] address_text(ip) ==> address == Ok::<_, HostError>(ip),
    {
        address_or_refusal(IpAddress::parse(self.address.as_str()))
    }

    /// Judges the key. `key_accepted` says whether the console's API takes it for
    /// a key; an empty one is refused in any case.
    pub fn validate_key(&self, key_accepted: bool) -> (verdict: Result<(), HostError>)
        ensures
            plain_verdict(verdict) == (if self.api_key@.len() == 0 || !key_accepted {
                Err::<(), _>(key_refusal())
            } else {
                Ok(())
            }),
            verdict is Ok <==> self.api_key@.len() > 0 && key_accepted,
    {
        if self.api_key.as_str().is_empty() || !key_accepted {
            Err(HostError::invalid_setting("api_key", "Enter the API key from UniFi Protect"))
        } else {
            Ok(())
        }
    }

    /// Judges the address and then the key.
    pub fn validate(&self, key_accepted: bool) -> (verdict: Result<(), HostError>)
        ensures
            plain_verdict(verdict) == judged(
                ip_of_text(self.address@),
                self.api_key@,
                key_accepted,
            ),
            verdict is Ok <==> ip_of_text(self.address@) is Some && self.api_key@.len() > 0
                && key_accepted,
            forall|ip: IpAddress|
                self.address@ == #[trigger] address_text(ip) && self.api_key@.len() > 0
                    && key_accepted ==> verdict is Ok,
    {
        match self.address() {
            Err(error) => Err(error),
            Ok(_) => self.validate_key(key_accepted),
        }
    }

    /// The settings as stored fields.
    pub fn to_fields(&self) -> (fields: Vec<Field>)
        ensures
            plain_fields(fields@) == settings_fields(self.address@, self.api_key@),
            fields@.len() == 2,
            is_text(fields@[0], "address"@, self.address@),
            is_text(fields@[1], "api_key"@, self.api_key@),
    {
        let fields: Vec<Field> = vec![
            Field { name: "address".to_owned(), value: FieldValue::Text(self.address.clone()) },
            Field { name: "api_key".to_owned(), value: FieldValue::Text(self.api_key.clone()) },
        ];
        assert(plain_fields(fields@) =~= settings_fields(self.address@, self.api_key@));
        fields
    }

    /// Reads settings from stored fields, which have to be an address and a key
    /// and nothing else.
    pub fn from_fields(fields: &Vec<Field>) -> (settings: Option<ProtectSettings>)
        ensures
            match settings {
                Some(s) => holds_settings(plain_fields(fields@), s.address@, s.api_key@),
                None => !is_settings(plain_fields(fields@)),
            },
            match settings {
                Some(s) => are_texts(fields@, "address"@, s.address@, "api_key"@, s.api_key@),
                None => forall|address: Seq<char>, key: Seq<char>|
                    !#[trigger] are_texts(fields@, "address"@, address, "api_key"@, key),
            },
    {
        proof {
            lemma_pairs_are_texts(fields@, "address"@, "api_key"@);
            reveal_strlit("address");
            reveal_strlit("api_key");
            assert("address"@[1] != "api_key"@[1]);
        }
        match read_pair(fields, "address", "api_key") {
            Some((address, api_key)) => Some(ProtectSettings { address, api_key }),
            None => {
                assert forall|address: Seq<char>, key: Seq<char>|
                    !#[trigger] holds_settings(plain_fields(fields@), address, key) by {
                    assert(!holds_pair(
                        plain_fields(fields@),
                        text_field("address"@, address),
                        text_field("api_key"@, key),
                    ));
                }
                None
            },
        }
    }
}

impl Clone for ProtectSettings {
    fn clone(&self) -> (copy: Self)
        ensures
            copy == *self,
    {
        ProtectSettings { address: self.address.clone(), api_key: self.api_key.clone() }
    }
}

impl Drop for ProtectSettings {
    /// Wipes the key.
    fn drop(&mut self)
        ensures
            final(self).api_key@ == Seq::<char>::empty(),
            final(self).address@ == old(self).address@,
        opens_invariants none
        no_unwind
    {
        wipe(&mut self.api_key);
    }
}

/// The pins of a paired console: the fingerprints of its two certificates.
pub struct ProtectCredential {
    pub api_certificate_sha256: String,
    pub media_certificate_sha256: String,
}

/// The stored fields of a credential.
pub open spec fn credential_fields(api: Seq<char>, media: Seq<char>) -> Seq<FieldView> {
    seq![text_field("api_certificate_sha256"@, api), text_field("media_certificate_sha256"@, media)]
}

/// Whether stored fields are a credential with these pins.
pub open spec fn holds_credential(
    fields: Seq<FieldView>,
    api: Seq<char>,
    media: Seq<char>,
) -> bool {
    holds_pair(
        fields,
        text_field("api_certificate_sha256"@, api),
        text_field("media_certificate_sha256"@, media),
    )
}

/// Whether stored fields are a credential at all.
pub open spec fn is_credential(fields: Seq<FieldView>) -> bool {
    exists|api: Seq<char>, media: Seq<char>| #[trigger] holds_credential(fields, api, media)
}

impl ProtectCredential {
    /// Reads a credential, which has to hold the two pins and nothing else. With
    /// any other the console counts as unpaired.
    pub fn parse(fields: &Vec<Field>) -> (credential: Result<ProtectCredential, HostError>)
        ensures
            match credential {
                Ok(c) => holds_credential(
                    plain_fields(fields@),
                    c.api_certificate_sha256@,
                    c.media_certificate_sha256@,
                ),
                Err(error) => error@ == bare(HostErrorKind::Unpaired),
            },
            credential is Ok <==> is_credential(plain_fields(fields@)),
            match credential {
                Ok(c) => are_texts(
                    fields@,
                    "api_certificate_sha256"@,
                    c.api_certificate_sha256@,
                    "media_certificate_sha256"@,
                    c.media_certificate_sha256@,
                ),
                Err(_) => forall|api: Seq<char>, media: Seq<char>|
                    !#[trigger] are_texts(
                        fields@,
                        "api_certificate_sha256"@,
                        api,
                        "media_certificate_sha256"@,
                        media,
                    ),
            },
    {
        proof {
            lemma_pairs_are_texts(
                fields@,
                "api_certificate_sha256"@,
                "media_certificate_sha256"@,
            );
            reveal_strlit("api_certificate_sha256");
            reveal_strlit("media_certificate_sha256");
            assert("api_certificate_sha256"@.len() != "media_certificate_sha256"@.len());
        }
        match read_pair(fields, "api_certificate_sha256", "media_certificate_sha256") {
            Some((api, media)) => Ok(
                ProtectCredential {
                    api_certificate_sha256: api,
                    media_certificate_sha256: media,
                },
            ),
            None => {
                assert forall|api: Seq<char>, media: Seq<char>|
                    !#[trigger] holds_credential(plain_fields(fields@), api, media) by {
                    assert(!holds_pair(
                        plain_fields(fields@),
                        text_field("api_certificate_sha256"@, api),
                        text_field("media_certificate_sha256"@, media),
                    ));
                }
                Err(HostError::bare(HostErrorKind::Unpaired))
            },
        }
    }

    /// The credential as stored fields.
    pub fn store(self) -> (fields: Vec<Field>)
        ensures
            plain_fields(fields@) == credential_fields(
                self.api_certificate_sha256@,
                self.media_certificate_sha256@,
            ),
            fields@.len() == 2,
            is_text(fields@[0], "api_certificate_sha256"@, self.api_certificate_sha256@),
            is_text(fields@[1], "media_certificate_sha256"@, self.media_certificate_sha256@),
    {
        let ghost api = self.api_certificate_sha256@;
        let ghost media = self.media_certificate_sha256@;
        let fields: Vec<Field> = vec![
            Field {
                name: "api_certificate_sha256".to_owned(),
                value: FieldValue::Text(self.api_certificate_sha256),
            },
            Field {
                name: "media_certificate_sha256".to_owned(),
                value: FieldValue::Text(self.media_certificate_sha256),
            },
        ];
        assert(plain_fields(fields@) =~= credential_fields(api, media));
        fields
    }
}

/// Settings may be used exactly if their address can be read and their key is not
/// empty and accepted; and the address is the one that is refused first.
pub proof fn law_good_settings_are_accepted(
    address: Option<IpAddress>,
    key: Seq<char>,
    key_accepted: bool,
)
    ensures
        judged(address, key, key_accepted) is Ok <==> address is Some && key.len() > 0
            && key_accepted,
        judged(address, key, key_accepted) matches Err(error) ==> error.kind
            == HostErrorKind::Invalid && error.reason == Some(
            ReasonView::InvalidSetting {
                field: if address is None {
                    "address"@
                } else {
                    "api_key"@
                },
                text: if address is None {
                    "Enter the NVR's IP address"@
                } else {
                    "Enter the API key from UniFi Protect"@
                },
            },
        ),
{
}

/// Fields hold a credential exactly if there are two of them, under the two names and
/// in any order, and hold its two pins.
pub proof fn law_credential_is_two_named_texts(
    fields: Seq<FieldView>,
    api: Seq<char>,
    media: Seq<char>,
)
    ensures
        holds_credential(fields, api, media) <==> {
            let a = FieldView { name: "api_certificate_sha256"@, value: Some(api) };
            let m = FieldView { name: "media_certificate_sha256"@, value: Some(media) };
            fields.len() == 2 && (fields[0] == a && fields[1] == m || fields[0] == m && fields[1]
                == a)
        },
        is_credential(fields) <==> exists|x: Seq<char>, y: Seq<char>|
            #[trigger] holds_credential(fields, x, y),
{
    let a = text_field("api_certificate_sha256"@, api);
    let m = text_field("media_certificate_sha256"@, media);
    if fields.len() == 2 && fields[0] == a && fields[1] == m {
        assert(fields =~= seq![a, m]);
    }
    if fields.len() == 2 && fields[0] == m && fields[1] == a {
        assert(fields =~= seq![m, a]);
    }
}

/// Fields hold settings exactly if there are two of them, under the two names and in
/// any order, and hold the address and the key.
pub proof fn law_settings_are_two_named_texts(
    fields: Seq<FieldView>,
    address: Seq<char>,
    key: Seq<char>,
)
    ensures
        holds_settings(fields, address, key) <==> {
            let a = FieldView { name: "address"@, value: Some(address) };
            let k = FieldView { name: "api_key"@, value: Some(key) };
            fields.len() == 2 && (fields[0] == a && fields[1] == k || fields[0] == k && fields[1]
                == a)
        },
        is_settings(fields) <==> exists|x: Seq<char>, y: Seq<char>|
            #[trigger] holds_settings(fields, x, y),
{
    let a = text_field("address"@, address);
    let k = text_field("api_key"@, key);
    if fields.len() == 2 && fields[0] == a && fields[1] == k {
        assert(fields =~= seq![a, k]);
    }
    if fields.len() == 2 && fields[0] == k && fields[1] == a {
        assert(fields =~= seq![k, a]);
    }
}

/// Stored fields lose nothing as plain text.
pub proof fn law_plain_fields_are_the_fields(fields: Seq<Field>, i: int)
    requires
        0 <= i < fields.len(),
    ensures
        plain_fields(fields).len() == fields.len(),
        plain_fields(fields)[i].name == fields[i].name@,
        plain_fields(fields)[i].value == (match fields[i].value {
            FieldValue::Text(text) => Some(text@),
            FieldValue::Other => None,
        }),
{
}

/// Settings lose nothing as plain text.
pub proof fn law_plain_settings_are_the_settings(settings: ProtectSettings)
    ensures
        settings@.address == settings.address@,
        settings@.api_key == settings.api_key@,
{
}

/// Two named texts that were stored are read back, and nothing else is.
proof fn lemma_pair_reads_back(
    first: Seq<char>,
    second: Seq<char>,
    a: Seq<char>,
    b: Seq<char>,
    x: Seq<char>,
    y: Seq<char>,
)
    requires
        first != second,
    ensures
        holds_pair(
            seq![text_field(first, a), text_field(second, b)],
            text_field(first, x),
            text_field(second, y),
        ) <==> x == a && y == b,
{
    let stored = seq![text_field(first, a), text_field(second, b)];
    let l = text_field(first, x);
    let r = text_field(second, y);
    assert(stored[0] == text_field(first, a) && stored[1] == text_field(second, b));
    assert(seq![l, r][0] == l && seq![l, r][1] == r);
    assert(seq![r, l][0] == r);
}

/// A stored credential holds the pins that were stored, and no others.
pub proof fn law_credential_reads_back(
    api: Seq<char>,
    media: Seq<char>,
    read_api: Seq<char>,
    read_media: Seq<char>,
)
    ensures
        holds_credential(credential_fields(api, media), read_api, read_media) <==> read_api == api
            && read_media == media,
{
    reveal_strlit("api_certificate_sha256");
    reveal_strlit("media_certificate_sha256");
    assert("api_certificate_sha256"@.len() != "media_certificate_sha256"@.len());
    lemma_pair_reads_back(
        "api_certificate_sha256"@,
        "media_certificate_sha256"@,
        api,
        media,
        read_api,
        read_media,
    );
}

/// Stored settings hold the address and the key that were stored, and no others.
pub proof fn law_settings_read_back(
    address: Seq<char>,
    key: Seq<char>,
    read_address: Seq<char>,
    read_key: Seq<char>,
)
    ensures
        holds_settings(settings_fields(address, key), read_address, read_key) <==> read_address
            == address && read_key == key,
{
    reveal_strlit("address");
    reveal_strlit("api_key");
    assert("address"@[1] != "api_key"@[1]);
    lemma_pair_reads_back("address"@, "api_key"@, address, key, read_address, read_key);
}

/// The order of the fields of a credential does not matter.
pub proof fn law_credential_ignores_field_order(
    x: FieldView,
    y: FieldView,
    api: Seq<char>,
    media: Seq<char>,
)
    ensures
        holds_credential(seq![x, y], api, media) == holds_credential(seq![y, x], api, media),
{
    let a = text_field("api_certificate_sha256"@, api);
    let m = text_field("media_certificate_sha256"@, media);
    assert(seq![x, y][0] == x && seq![x, y][1] == y);
    assert(seq![y, x][0] == y && seq![y, x][1] == x);
    assert(seq![a, m][0] == a && seq![a, m][1] == m);
    assert(seq![m, a][0] == m && seq![m, a][1] == a);
    if x == a && y == m {
        assert(seq![y, x] =~= seq![m, a]);
        assert(seq![x, y] =~= seq![a, m]);
    }
    if x == m && y == a {
        assert(seq![y, x] =~= seq![a, m]);
        assert(seq![x, y] =~= seq![m, a]);
    }
}

/// No fields hold two different credentials.
pub proof fn law_credential_is_unambiguous(
    fields: Seq<FieldView>,
    api: Seq<char>,
    media: Seq<char>,
    other_api: Seq<char>,
    other_media: Seq<char>,
)
    requires
        holds_credential(fields, api, media),
        holds_credential(fields, other_api, other_media),
    ensures
        api == other_api,
        media == other_media,
{
    let stored = credential_fields(api, media);
    if fields == stored {
        law_credential_reads_back(api, media, other_api, other_media);
    } else {
        law_credential_ignores_field_order(stored[0], stored[1], other_api, other_media);
        assert(stored =~= seq![stored[0], stored[1]]);
        assert(fields =~= seq![stored[1], stored[0]]);
        law_credential_reads_back(api, media, other_api, other_media);
    }
}

} // verus!

//! Pairing a console: its certificates are observed first, without the key, and
//! only the certificates that were seen are trusted from then on.
use crate::errors::{
    bare, refusal, refused, Error, HostError, HostErrorKind, HostErrorView, ReasonView,
};
use crate::location::{
    address_text, api_url, host_text, ip_of_text, media_url, optional_text, IpAddress,
};
use crate::settings::{
    address_or_refusal, address_refusal, are_texts, credential_fields, plain_fields, Field,
    FieldView, ProtectCredential, ProtectSettings, SettingsView,
};
use vstd::prelude::*;

verus! {

/// What a pinned connection to a console is made from.
pub struct PinnedLocal {
    pub address: IpAddress,
    pub api_key: String,
    pub api_certificate_sha256: String,
    pub media_certificate_sha256: String,
}

/// What a pinned connection is made from, as plain text.
pub struct PinnedLocalView {
    pub address: IpAddress,
    pub api_key: Seq<char>,
    pub api_certificate_sha256: Seq<char>,
    pub media_certificate_sha256: Seq<char>,
}

impl View for PinnedLocal {
    type V = PinnedLocalView;

    open spec fn view(&self) -> PinnedLocalView {
        PinnedLocalView {
            address: self.address,
            api_key: self.api_key@,
            api_certificate_sha256: self.api_certificate_sha256@,
            media_certificate_sha256: self.media_certificate_sha256@,
        }
    }
}

/// An outcome with its value and its failure as plain text.
pub open spec fn plain_outcome<T: View>(outcome: Result<T, HostError>) -> Result<
    T::V,
    HostErrorView,
> {
    match outcome {
        Ok(value) => Ok(value@),
        Err(error) => Err(error@),
    }
}

/// A pinned connection at an address that was read, or the refusal of an address
/// that could not be read.
pub open spec fn pinned_at(
    read: Option<IpAddress>,
    api_key: Seq<char>,
    api: Seq<char>,
    media: Seq<char>,
) -> Result<PinnedLocalView, HostErrorView> {
    match read {
        Some(address) => Ok(
            PinnedLocalView {
                address,
                api_key,
                api_certificate_sha256: api,
                media_certificate_sha256: media,
            },
        ),
        None => Err(address_refusal()),
    }
}

/// What a pinned connection to an address is made from.
pub(crate) fn pinned_to(
    address: IpAddress,
    settings: &ProtectSettings,
    credential: ProtectCredential,
) -> (local: PinnedLocal)
    ensures
        local@ == (PinnedLocalView {
            address,
            api_key: settings.api_key@,
            api_certificate_sha256: credential.api_certificate_sha256@,
            media_certificate_sha256: credential.media_certificate_sha256@,
        }),
        local.address == address,
        local.api_key@ == settings.api_key@,
        local.api_certificate_sha256@ == credential.api_certificate_sha256@,
        local.media_certificate_sha256@ == credential.media_certificate_sha256@,
{
    PinnedLocal {
        address,
        api_key: settings.api_key.clone(),
        api_certificate_sha256: credential.api_certificate_sha256,
        media_certificate_sha256: credential.media_certificate_sha256,
    }
}

/// What a pinned connection is made from, given settings and a credential.
pub fn pinned(settings: &ProtectSettings, credential: ProtectCredential) -> (local: Result<
    PinnedLocal,
    HostError,
>)
    ensures
        plain_outcome(local) == pinned_at(
            ip_of_text(settings.address@),
            settings.api_key@,
            credential.api_certificate_sha256@,
            credential.media_certificate_sha256@,
        ),
        local is Ok <==> ip_of_text(settings.address@) is Some,
        local matches Ok(made) ==> {
            &&& ip_of_text(settings.address@) == Some(made.address)
            &&& made.api_key@ == settings.api_key@
            &&& made.api_certificate_sha256@ == credential.api_certificate_sha256@
            &&& made.media_certificate_sha256@ == credential.media_certificate_sha256@
        },
        forall|ip: IpAddress|
            settings.address@ == #[trigger] address_text(ip) ==> (local matches Ok(made)
                && made.address == ip),
{
    match settings.address() {
        Err(error) => Err(error),
        Ok(address) => Ok(pinned_to(address, settings, credential)),
    }
}

/// How far the pairing of a console has come. It can be done once.
pub enum Enrollment {
    Fresh { settings: ProtectSettings },
    ObservingApi { settings: ProtectSettings, address: IpAddress },
    ObservingMedia { settings: ProtectSettings, address: IpAddress, api_pin: String },
    Connecting { settings: ProtectSettings, api_pin: String, media_pin: String },
    Listing { settings: ProtectSettings, api_pin: String, media_pin: String },
    Spent,
}

/// The pairing of a console as plain text.
pub enum EnrollmentView {
    Fresh { settings: SettingsView },
    ObservingApi { settings: SettingsView, address: IpAddress },
    ObservingMedia { settings: SettingsView, address: IpAddress, api_pin: Seq<char> },
    Connecting { settings: SettingsView, api_pin: Seq<char>, media_pin: Seq<char> },
    Listing { settings: SettingsView, api_pin: Seq<char>, media_pin: Seq<char> },
    Spent,
}

impl View for Enrollment {
    type V = EnrollmentView;

    open spec fn view(&self) -> EnrollmentView {
        match self {
            Enrollment::Fresh { settings } => EnrollmentView::Fresh { settings: settings@ },
            Enrollment::ObservingApi { settings, address } => EnrollmentView::ObservingApi {
                settings: settings@,
                address: *address,
            },
            Enrollment::ObservingMedia { settings, address, api_pin } => {
                EnrollmentView::ObservingMedia {
                    settings: settings@,
                    address: *address,
                    api_pin: api_pin@,
                }
            },
            Enrollment::Connecting { settings, api_pin, media_pin } => EnrollmentView::Connecting {
                settings: settings@,
                api_pin: api_pin@,
                media_pin: media_pin@,
            },
            Enrollment::Listing { settings, api_pin, media_pin } => EnrollmentView::Listing {
                settings: settings@,
                api_pin: api_pin@,
                media_pin: media_pin@,
            },
            Enrollment::Spent => EnrollmentView::Spent,
        }
    }
}

/// What pairing asks to be done next.
pub enum EnrollAction {
    /// Observe the certificate at a URL.
    Observe { url: String, server_name: Option<String>, timeout_secs: u64 },
    /// Connect, trusting the pinned certificates only.
    Connect { local: PinnedLocal },
    /// List the cameras over that connection.
    ListCameras,
    /// Keep the credential: the console is paired.
    Done { credential: Vec<Field>, message: String },
}

/// A request of pairing as plain text.
pub enum EnrollActionView {
    Observe { url: Seq<char>, server_name: Option<Seq<char>>, timeout_secs: u64 },
    Connect { local: PinnedLocalView },
    ListCameras,
    Done { credential: Seq<FieldView>, message: Seq<char> },
}

impl View for EnrollAction {
    type V = EnrollActionView;

    open spec fn view(&self) -> EnrollActionView {
        match self {
            EnrollAction::Observe { url, server_name, timeout_secs } => EnrollActionView::Observe {
                url: url@,
                server_name: optional_text(*server_name),
                timeout_secs: *timeout_secs,
            },
            EnrollAction::Connect { local } => EnrollActionView::Connect { local: local@ },
            EnrollAction::ListCameras => EnrollActionView::ListCameras,
            EnrollAction::Done { credential, message } => EnrollActionView::Done {
                credential: plain_fields(credential@),
                message: message@,
            },
        }
    }
}

/// What came of the last request, or the start of pairing.
pub enum EnrollEvent {
    Start,
    ApiCertificate(Result<String, Error>),
    MediaCertificate(Result<String, Error>),
    Connected(Result<(), Error>),
    CamerasListed(Result<(), Error>),
}

/// What came of the last request, as plain text.
pub enum EnrollEventView {
    Start,
    ApiCertificate(Result<Seq<char>, Error>),
    MediaCertificate(Result<Seq<char>, Error>),
    Connected(Result<(), Error>),
    CamerasListed(Result<(), Error>),
}

/// An observed pin as plain text.
pub open spec fn plain_pin(pin: Result<String, Error>) -> Result<Seq<char>, Error> {
    match pin {
        Ok(text) => Ok(text@),
        Err(error) => Err(error),
    }
}

impl View for EnrollEvent {
    type V = EnrollEventView;

    open spec fn view(&self) -> EnrollEventView {
        match self {
            EnrollEvent::Start => EnrollEventView::Start,
            EnrollEvent::ApiCertificate(pin) => EnrollEventView::ApiCertificate(plain_pin(*pin)),
            EnrollEvent::MediaCertificate(pin) => EnrollEventView::MediaCertificate(
                plain_pin(*pin),
            ),
            EnrollEvent::Connected(outcome) => EnrollEventView::Connected(*outcome),
            EnrollEvent::CamerasListed(outcome) => EnrollEventView::CamerasListed(*outcome),
        }
    }
}

/// The request for the certificate of the API.
pub open spec fn observe_api(address: IpAddress) -> EnrollActionView {
    EnrollActionView::Observe {
        url: api_url(host_text(address)),
        server_name: None,
        timeout_secs: 3,
    }
}

/// The request for the certificate of the media server.
pub open spec fn observe_media(address: IpAddress) -> EnrollActionView {
    EnrollActionView::Observe {
        url: media_url(host_text(address)),
        server_name: Some("unifi.local"@),
        timeout_secs: 3,
    }
}

/// A step of pairing: the next state, and the next request or a failure.
pub struct EnrollStep {
    pub state: EnrollmentView,
    pub outcome: Result<EnrollActionView, HostErrorView>,
}

/// A step that asks for something.
pub open spec fn enroll_ask(state: EnrollmentView, action: EnrollActionView) -> EnrollStep {
    EnrollStep { state, outcome: Ok(action) }
}

/// A step that fails, and with it the pairing.
pub open spec fn enroll_fail(error: HostErrorView) -> EnrollStep {
    EnrollStep { state: EnrollmentView::Spent, outcome: Err(error) }
}

/// The step that pairing takes when it learns what came of its request. `read` is
/// the address that the settings write down, if they do. Whatever is no answer to
/// the request is invalid.
pub open spec fn enroll_step(
    state: EnrollmentView,
    event: EnrollEventView,
    read: Option<IpAddress>,
) -> EnrollStep {
    match (state, event) {
        (EnrollmentView::Fresh { settings }, EnrollEventView::Start) => match read {
            Some(address) => enroll_ask(
                EnrollmentView::ObservingApi { settings, address },
                observe_api(address),
            ),
            None => enroll_fail(address_refusal()),
        },
        (
            EnrollmentView::ObservingApi { settings, address },
            EnrollEventView::ApiCertificate(pin),
        ) => match pin {
            Ok(api_pin) => enroll_ask(
                EnrollmentView::ObservingMedia { settings, address, api_pin },
                observe_media(address),
            ),
            Err(error) => enroll_fail(refusal(error)),
        },
        (
            EnrollmentView::ObservingMedia { settings, address, api_pin },
            EnrollEventView::MediaCertificate(pin),
        ) => match pin {
            Ok(media_pin) => enroll_ask(
                EnrollmentView::Connecting { settings, api_pin, media_pin },
                EnrollActionView::Connect {
                    local: PinnedLocalView {
                        address,
                        api_key: settings.api_key,
                        api_certificate_sha256: api_pin,
                        media_certificate_sha256: media_pin,
                    },
                },
            ),
            Err(error) => enroll_fail(refusal(error)),
        },
        (
            EnrollmentView::Connecting { settings, api_pin, media_pin },
            EnrollEventView::Connected(outcome),
        ) => match outcome {
            Ok(_) => enroll_ask(
                EnrollmentView::Listing { settings, api_pin, media_pin },
                EnrollActionView::ListCameras,
            ),
            Err(error) => enroll_fail(refusal(error)),
        },
        (
            EnrollmentView::Listing { settings, api_pin, media_pin },
            EnrollEventView::CamerasListed(outcome),
        ) => match outcome {
            Ok(_) => enroll_ask(
                EnrollmentView::Spent,
                EnrollActionView::Done {
                    credential: credential_fields(api_pin, media_pin),
                    message: "Connected to UniFi Protect at "@ + settings.address,
                },
            ),
            Err(error) => enroll_fail(refusal(error)),
        },
        _ => enroll_fail(bare(HostErrorKind::Invalid)),
    }
}

/// The address that the settings of a pairing write down. After the start it is
/// no longer read.
pub open spec fn read_address(state: EnrollmentView) -> Option<IpAddress> {
    match state {
        EnrollmentView::Fresh { settings } => ip_of_text(settings.address),
        _ => None,
    }
}

/// Joins three texts.
fn joined(a: &str, b: &str, c: &str) -> (text: String)
    ensures
        text@ == a@ + b@ + c@,
{
    let mut text: String = a.to_owned();
    text.append(b);
    text.append(c);
    text
}

impl Enrollment {
    /// Goes on with what came of the last request. An observation that failed, a
    /// refused connection and an address that cannot be read end the pairing.
    #[verifier::rlimit(40)]
    pub fn step(&mut self, event: EnrollEvent) -> (outcome: Result<EnrollAction, HostError>)
        ensures
            ({
                let step = enroll_step(old(self)@, event@, read_address(old(self)@));
                &&& final(self)@ == step.state
                &&& plain_outcome(outcome) == step.outcome
            }),
            *old(self) matches Enrollment::Fresh { settings } ==> (event is Start ==> forall|
                ip: IpAddress,
            |
                settings.address@ == #[trigger] address_text(ip) ==> {
                    &&& outcome matches Ok(EnrollAction::Observe { url, server_name, timeout_secs })
                    &&& url@ == "https://"@ + host_text(ip)
                    &&& server_name is None
                    &&& timeout_secs == 3
                    &&& *final(self) matches Enrollment::ObservingApi { settings: kept, address }
                    &&& kept@ == settings@ && address == ip
                }),
            *old(self) matches Enrollment::Fresh { settings } ==> (event is Start
                ==> match ip_of_text(settings.address@) {
                Some(ip) => {
                    &&& outcome matches Ok(EnrollAction::Observe { url, .. })
                    &&& url@ == "https://"@ + host_text(ip)
                },
                None => outcome is Err && *final(self) is Spent,
            }),
            *old(self) matches Enrollment::ObservingApi { settings, address } ==> (
            event matches EnrollEvent::ApiCertificate(Ok(pin)) ==> {
                &&& outcome matches Ok(EnrollAction::Observe { url, server_name, timeout_secs })
                &&& url@ == "rtsps://"@ + host_text(address) + ":7441"@
                &&& server_name matches Some(name) && name@ == "unifi.local"@
                &&& timeout_secs == 3
                &&& *final(self) matches Enrollment::ObservingMedia {
                    settings: kept,
                    address: same,
                    api_pin,
                }
                &&& kept@ == settings@ && same == address && api_pin@ == pin@
            }),
            *old(self) matches Enrollment::ObservingMedia { settings, address, api_pin } ==> (
            event matches EnrollEvent::MediaCertificate(Ok(pin)) ==> {
                &&& outcome matches Ok(EnrollAction::Connect { local })
                &&& local.address == address
                &&& local.api_key@ == settings.api_key@
                &&& local.api_certificate_sha256@ == api_pin@
                &&& local.media_certificate_sha256@ == pin@
                &&& *final(self) matches Enrollment::Connecting {
                    settings: kept,
                    api_pin: api,
                    media_pin: media,
                }
                &&& kept@ == settings@ && api@ == api_pin@ && media@ == pin@
            }),
            *old(self) matches Enrollment::Connecting { settings, api_pin, media_pin } ==> (
            event matches EnrollEvent::Connected(Ok(_)) ==> {
                &&& outcome matches Ok(EnrollAction::ListCameras)
                &&& *final(self) matches Enrollment::Listing {
                    settings: kept,
                    api_pin: api,
                    media_pin: media,
                }
                &&& kept@ == settings@ && api@ == api_pin@ && media@ == media_pin@
            }),
            *old(self) matches Enrollment::Listing { settings, api_pin, media_pin } ==> (
            event matches EnrollEvent::CamerasListed(Ok(_)) ==> {
                &&& outcome matches Ok(EnrollAction::Done { credential, message })
                &&& are_texts(
                    credential@,
                    "api_certificate_sha256"@,
                    api_pin@,
                    "media_certificate_sha256"@,
                    media_pin@,
                )
                &&& message@ == "Connected to UniFi Protect at "@ + settings.address@
                &&& *final(self) is Spent
            }),
            *old(self) is ObservingApi ==> (
            event matches EnrollEvent::ApiCertificate(Err(error)) ==> (
                outcome matches Err(seen) && seen@ == refusal(error) && *final(self) is Spent)),
            *old(self) is ObservingMedia ==> (
            event matches EnrollEvent::MediaCertificate(Err(error)) ==> (
                outcome matches Err(seen) && seen@ == refusal(error) && *final(self) is Spent)),
            *old(self) is Connecting ==> (
            event matches EnrollEvent::Connected(Err(error)) ==> (
                outcome matches Err(seen) && seen@ == refusal(error) && *final(self) is Spent)),
            *old(self) is Listing ==> (
            event matches EnrollEvent::CamerasListed(Err(error)) ==> (
                outcome matches Err(seen) && seen@ == refusal(error) && *final(self) is Spent)),
            *old(self) is Spent ==> outcome is Err && *final(self) is Spent,
    {
        let read: Option<IpAddress> = match &*self {
            Enrollment::Fresh { settings } => IpAddress::parse(settings.address.as_str()),
            _ => None,
        };
        self.step_at(event, read)
    }

    /// Goes on with what came of the last request, given the address that the
    /// settings write down.
    pub fn step_at(&mut self, event: EnrollEvent, read: Option<IpAddress>) -> (outcome: Result<
        EnrollAction,
        HostError,
    >)
        ensures
            ({
                let step = enroll_step(old(self)@, event@, read);
                &&& final(self)@ == step.state
                &&& plain_outcome(outcome) == step.outcome
            }),
            *old(self) matches Enrollment::Fresh { settings } ==> (event is Start ==> (
            read matches Some(ip) ==> {
                &&& outcome matches Ok(EnrollAction::Observe { url, server_name, timeout_secs })
                &&& url@ == "https://"@ + host_text(ip)
                &&& server_name is None
                &&& timeout_secs == 3
                &&& *final(self) matches Enrollment::ObservingApi { settings: kept, address }
                &&& kept@ == settings@ && address == ip
            })),
            *old(self) is Fresh && event is Start && read is None ==> outcome is Err
                && *final(self) is Spent,
            *old(self) matches Enrollment::ObservingApi { settings, address } ==> (
            event matches EnrollEvent::ApiCertificate(Ok(pin)) ==> {
                &&& outcome matches Ok(EnrollAction::Observe { url, server_name, timeout_secs })
                &&& url@ == "rtsps://"@ + host_text(address) + ":7441"@
                &&& server_name matches Some(name) && name@ == "unifi.local"@
                &&& timeout_secs == 3
                &&& *final(self) matches Enrollment::ObservingMedia {
                    settings: kept,
                    address: same,
                    api_pin,
                }
                &&& kept@ == settings@ && same == address && api_pin@ == pin@
            }),
            *old(self) matches Enrollment::ObservingMedia { settings, address, api_pin } ==> (
            event matches EnrollEvent::MediaCertificate(Ok(pin)) ==> {
                &&& outcome matches Ok(EnrollAction::Connect { local })
                &&& local.address == address
                &&& local.api_key@ == settings.api_key@
                &&& local.api_certificate_sha256@ == api_pin@
                &&& local.media_certificate_sha256@ == pin@
                &&& *final(self) matches Enrollment::Connecting {
                    settings: kept,
                    api_pin: api,
                    media_pin: media,
                }
                &&& kept@ == settings@ && api@ == api_pin@ && media@ == pin@
            }),
            *old(self) matches Enrollment::Connecting { settings, api_pin, media_pin } ==> (
            event matches EnrollEvent::Connected(Ok(_)) ==> {
                &&& outcome matches Ok(EnrollAction::ListCameras)
                &&& *final(self) matches Enrollment::Listing {
                    settings: kept,
                    api_pin: api,
                    media_pin: media,
                }
                &&& kept@ == settings@ && api@ == api_pin@ && media@ == media_pin@
            }),
            *old(self) matches Enrollment::Listing { settings, api_pin, media_pin } ==> (
            event matches EnrollEvent::CamerasListed(Ok(_)) ==> {
                &&& outcome matches Ok(EnrollAction::Done { credential, message })
                &&& are_texts(
                    credential@,
                    "api_certificate_sha256"@,
                    api_pin@,
                    "media_certificate_sha256"@,
                    media_pin@,
                )
                &&& message@ == "Connected to UniFi Protect at "@ + settings.address@
                &&& *final(self) is Spent
            }),
            *old(self) is ObservingApi ==> (
            event matches EnrollEvent::ApiCertificate(Err(error)) ==> (
                outcome matches Err(seen) && seen@ == refusal(error) && *final(self) is Spent)),
            *old(self) is ObservingMedia ==> (
            event matches EnrollEvent::MediaCertificate(Err(error)) ==> (
                outcome matches Err(seen) && seen@ == refusal(error) && *final(self) is Spent)),
            *old(self) is Connecting ==> (
            event matches EnrollEvent::Connected(Err(error)) ==> (
                outcome matches Err(seen) && seen@ == refusal(error) && *final(self) is Spent)),
            *old(self) is Listing ==> (
            event matches EnrollEvent::CamerasListed(Err(error)) ==> (
                outcome matches Err(seen) && seen@ == refusal(error) && *final(self) is Spent)),
            *old(self) is Spent ==> outcome is Err && *final(self) is Spent,
    {
        let mut state: Enrollment = Enrollment::Spent;
        std::mem::swap(self, &mut state);
        match (state, event) {
            (Enrollment::Fresh { settings }, EnrollEvent::Start) => {
                match address_or_refusal(read) {
                    Err(error) => Err(error),
                    Ok(address) => {
                        let host: String = address.host();
                        let url: String = joined("https://", host.as_str(), "");
                        proof {
                            reveal_strlit("");
                            assert(url@ =~= "https://"@ + host@);
                        }
                        *self = Enrollment::ObservingApi { settings, address };
                        Ok(EnrollAction::Observe { url, server_name: None, timeout_secs: 3 })
                    },
                }
            },
            (
                Enrollment::ObservingApi { settings, address },
                EnrollEvent::ApiCertificate(pin),
            ) => match pin {
                Err(error) => Err(refused(error)),
                Ok(api_pin) => {
                    let host: String = address.host();
                    let url: String = joined("rtsps://", host.as_str(), ":7441");
                    *self = Enrollment::ObservingMedia { settings, address, api_pin };
                    Ok(
                        EnrollAction::Observe {
                            url,
                            server_name: Some("unifi.local".to_owned()),
                            timeout_secs: 3,
                        },
                    )
                },
            },
            (
                Enrollment::ObservingMedia { settings, address, api_pin },
                EnrollEvent::MediaCertificate(pin),
            ) => match pin {
                Err(error) => Err(refused(error)),
                Ok(media_pin) => {
                    let credential: ProtectCredential = ProtectCredential {
                        api_certificate_sha256: api_pin.clone(),
                        media_certificate_sha256: media_pin.clone(),
                    };
                    let local: PinnedLocal = pinned_to(address, &settings, credential);
                    *self = Enrollment::Connecting { settings, api_pin, media_pin };
                    Ok(EnrollAction::Connect { local })
                },
            },
            (
                Enrollment::Connecting { settings, api_pin, media_pin },
                EnrollEvent::Connected(outcome),
            ) => match outcome {
                Err(error) => Err(refused(error)),
                Ok(_) => {
                    *self = Enrollment::Listing { settings, api_pin, media_pin };
                    Ok(EnrollAction::ListCameras)
                },
            },
            (
                Enrollment::Listing { settings, api_pin, media_pin },
                EnrollEvent::CamerasListed(outcome),
            ) => match outcome {
                Err(error) => Err(refused(error)),
                Ok(_) => {
                    let message: String = joined(
                        "Connected to UniFi Protect at ",
                        settings.address.as_str(),
                        "",
                    );
                    proof {
                        reveal_strlit("");
                        assert(message@ =~= "Connected to UniFi Protect at "@ + settings.address@);
                    }
                    let credential: ProtectCredential = ProtectCredential {
                        api_certificate_sha256: api_pin,
                        media_certificate_sha256: media_pin,
                    };
                    Ok(EnrollAction::Done { credential: credential.store(), message })
                },
            },
            _ => Err(HostError::bare(HostErrorKind::Invalid)),
        }
    }
}

/// The address is read at the start of a pairing and never again.
pub proof fn law_address_is_read_at_the_start_only(
    state: EnrollmentView,
    event: EnrollEventView,
    read: Option<IpAddress>,
    other: Option<IpAddress>,
)
    requires
        !(state is Fresh),
    ensures
        enroll_step(state, event, read) == enroll_step(state, event, other),
{
}

/// The last step of a pairing that learns of these events one after the other and
/// reads the address that its own settings write down.
pub open spec fn pairing_run(state: EnrollmentView, events: Seq<EnrollEventView>) -> EnrollStep
    decreases events.len(),
{
    if events.len() == 0 {
        EnrollStep { state, outcome: Err(bare(HostErrorKind::Invalid)) }
    } else if events.len() == 1 {
        enroll_step(state, events[0], read_address(state))
    } else {
        pairing_run(
            enroll_step(state, events[0], read_address(state)).state,
            events.drop_first(),
        )
    }
}

/// The address that a person entered is the one that pairing goes to: both
/// certificates are observed there, and the key goes there and nowhere else.
pub proof fn law_pairing_goes_to_the_entered_address(
    settings: SettingsView,
    ip: IpAddress,
    api: Seq<char>,
    media: Seq<char>,
)
    requires
        ip_of_text(settings.address) == Some(ip),
    ensures
        ({
            let fresh = EnrollmentView::Fresh { settings };
            let start = EnrollEventView::Start;
            let first = EnrollEventView::ApiCertificate(Ok(api));
            let second = EnrollEventView::MediaCertificate(Ok(media));
            &&& pairing_run(fresh, seq![start]).outcome == Ok::<_, HostErrorView>(
                EnrollActionView::Observe {
                    url: "https://"@ + host_text(ip),
                    server_name: None,
                    timeout_secs: 3,
                },
            )
            &&& pairing_run(fresh, seq![start, first]).outcome == Ok::<_, HostErrorView>(
                EnrollActionView::Observe {
                    url: "rtsps://"@ + host_text(ip) + ":7441"@,
                    server_name: Some("unifi.local"@),
                    timeout_secs: 3,
                },
            )
            &&& pairing_run(fresh, seq![start, first, second]).outcome == Ok::<_, HostErrorView>(
                EnrollActionView::Connect {
                    local: PinnedLocalView {
                        address: ip,
                        api_key: settings.api_key,
                        api_certificate_sha256: api,
                        media_certificate_sha256: media,
                    },
                },
            )
        }),
{
    let start = EnrollEventView::Start;
    let first = EnrollEventView::ApiCertificate(Ok(api));
    let second = EnrollEventView::MediaCertificate(Ok(media));
    reveal_with_fuel(pairing_run, 4);
    assert(seq![start, first].drop_first() =~= seq![first]);
    assert(seq![start, first, second].drop_first() =~= seq![first, second]);
    assert(seq![first, second].drop_first() =~= seq![second]);
}

/// Whether the address that a pairing goes to is the one that its settings write down.
pub open spec fn at_entered_address(state: EnrollmentView) -> bool {
    match state {
        EnrollmentView::ObservingApi { settings, address } => ip_of_text(settings.address) == Some(
            address,
        ),
        EnrollmentView::ObservingMedia { settings, address, .. } => ip_of_text(settings.address)
            == Some(address),
        _ => true,
    }
}

/// However a pairing goes on, it stays at the address that its settings write down: no
/// request goes anywhere else.
pub proof fn law_pairing_stays_at_the_entered_address(
    state: EnrollmentView,
    event: EnrollEventView,
    ip: IpAddress,
)
    requires
        at_entered_address(state),
        match state {
            EnrollmentView::Fresh { settings } => ip_of_text(settings.address) == Some(ip),
            EnrollmentView::ObservingApi { settings, .. } => ip_of_text(settings.address) == Some(
                ip,
            ),
            EnrollmentView::ObservingMedia { settings, .. } => ip_of_text(settings.address) == Some(
                ip,
            ),
            _ => true,
        },
    ensures
        ({
            let step = enroll_step(state, event, read_address(state));
            &&& at_entered_address(step.state)
            &&& step.outcome matches Ok(EnrollActionView::Observe { url, .. }) ==> url
                == "https://"@ + host_text(ip) || url == "rtsps://"@ + host_text(ip) + ":7441"@
            &&& step.outcome matches Ok(EnrollActionView::Connect { local }) ==> local.address == ip
            &&& step.state matches EnrollmentView::ObservingApi { address, .. } ==> address == ip
            &&& step.state matches EnrollmentView::ObservingMedia { address, .. } ==> address == ip
        }),
{
}

/// Every failure on the way ends the pairing and is put to the host as what it is.
pub proof fn law_failures_end_pairing(
    settings: SettingsView,
    address: IpAddress,
    api_pin: Seq<char>,
    media_pin: Seq<char>,
    read: Option<IpAddress>,
    error: Error,
)
    ensures
        ({
            let refused = EnrollStep { state: EnrollmentView::Spent, outcome: Err(refusal(error)) };
            &&& enroll_step(
                EnrollmentView::ObservingApi { settings, address },
                EnrollEventView::ApiCertificate(Err(error)),
                read,
            ) == refused
            &&& enroll_step(
                EnrollmentView::ObservingMedia { settings, address, api_pin },
                EnrollEventView::MediaCertificate(Err(error)),
                read,
            ) == refused
            &&& enroll_step(
                EnrollmentView::Connecting { settings, api_pin, media_pin },
                EnrollEventView::Connected(Err(error)),
                read,
            ) == refused
            &&& enroll_step(
                EnrollmentView::Listing { settings, api_pin, media_pin },
                EnrollEventView::CamerasListed(Err(error)),
                read,
            ) == refused
        }),
{
}

/// Pairing goes on only with a good answer to its last request. Any other event is
/// invalid, and an address that cannot be read is refused.
pub proof fn law_pairing_waits_for_its_answer(
    state: EnrollmentView,
    event: EnrollEventView,
    read: Option<IpAddress>,
)
    ensures
        enroll_step(state, event, read).outcome is Ok <==> {
            ||| state is Fresh && event is Start && read is Some
            ||| state is ObservingApi && (event matches EnrollEventView::ApiCertificate(Ok(_)))
            ||| state is ObservingMedia && (event matches EnrollEventView::MediaCertificate(Ok(_)))
            ||| state is Connecting && (event matches EnrollEventView::Connected(Ok(_)))
            ||| state is Listing && (event matches EnrollEventView::CamerasListed(Ok(_)))
        },
        enroll_step(state, event, read).outcome is Err ==> enroll_step(state, event, read).state
            == EnrollmentView::Spent,
        state is Fresh && event is Start && read is None ==> enroll_step(
            state,
            event,
            read,
        ).outcome == Err::<EnrollActionView, _>(
            HostErrorView {
                kind: HostErrorKind::Invalid,
                reason: Some(
                    ReasonView::InvalidSetting {
                        field: "address"@,
                        text: "Enter the NVR's IP address"@,
                    },
                ),
            },
        ),
{
}

/// A pairing with another key and nothing else changed.
pub open spec fn with_key(state: EnrollmentView, key: Seq<char>) -> EnrollmentView {
    match state {
        EnrollmentView::Fresh { settings } => EnrollmentView::Fresh {
            settings: SettingsView { api_key: key, ..settings },
        },
        EnrollmentView::ObservingApi { settings, address } => EnrollmentView::ObservingApi {
            settings: SettingsView { api_key: key, ..settings },
            address,
        },
        EnrollmentView::ObservingMedia { settings, address, api_pin } => {
            EnrollmentView::ObservingMedia {
                settings: SettingsView { api_key: key, ..settings },
                address,
                api_pin,
            }
        },
        EnrollmentView::Connecting { settings, api_pin, media_pin } => EnrollmentView::Connecting {
            settings: SettingsView { api_key: key, ..settings },
            api_pin,
            media_pin,
        },
        EnrollmentView::Listing { settings, api_pin, media_pin } => EnrollmentView::Listing {
            settings: SettingsView { api_key: key, ..settings },
            api_pin,
            media_pin,
        },
        EnrollmentView::Spent => EnrollmentView::Spent,
    }
}

/// The key leaves a pairing with the pinned connection and with nothing else:
/// every other request and every failure is the same whatever the key is. So
/// both certificates are observed without it.
pub proof fn law_key_leaves_over_the_pinned_connection_only(
    state: EnrollmentView,
    event: EnrollEventView,
    read: Option<IpAddress>,
    key: Seq<char>,
)
    ensures
        ({
            let step = enroll_step(state, event, read);
            let other = enroll_step(with_key(state, key), event, read);
            &&& other.state == with_key(step.state, key)
            &&& step.outcome matches Ok(EnrollActionView::Connect { local })
                ==> other.outcome == Ok::<_, HostErrorView>(
                EnrollActionView::Connect { local: PinnedLocalView { api_key: key, ..local } },
            )
            &&& !(step.outcome is Ok && step.outcome->Ok_0 is Connect) ==> other.outcome
                == step.outcome
        }),
{
}

/// A pairing that has failed or is done cannot go on: from then on everything is
/// invalid.
pub proof fn law_enrollment_is_spent_after_its_end(
    state: EnrollmentView,
    event: EnrollEventView,
    read: Option<IpAddress>,
    later: EnrollEventView,
    later_read: Option<IpAddress>,
)
    requires
        ({
            let outcome = enroll_step(state, event, read).outcome;
            outcome is Err || outcome->Ok_0 is Done
        }),
    ensures
        enroll_step(state, event, read).state == EnrollmentView::Spent,
        enroll_step(EnrollmentView::Spent, later, later_read) == enroll_fail(
            bare(HostErrorKind::Invalid),
        ),
{
}

/// The last step of a pairing that learns of these events one after the other.
pub open spec fn enroll_run(
    state: EnrollmentView,
    events: Seq<EnrollEventView>,
    read: Option<IpAddress>,
) -> EnrollStep
    decreases events.len(),
{
    if events.len() == 0 {
        EnrollStep { state, outcome: Err(bare(HostErrorKind::Invalid)) }
    } else if events.len() == 1 {
        enroll_step(state, events[0], read)
    } else {
        enroll_run(enroll_step(state, events[0], read).state, events.drop_first(), read)
    }
}

/// The events of a pairing that succeeds with these two pins.
pub open spec fn success(api: Seq<char>, media: Seq<char>) -> Seq<EnrollEventView> {
    seq![
        EnrollEventView::Start,
        EnrollEventView::ApiCertificate(Ok(api)),
        EnrollEventView::MediaCertificate(Ok(media)),
        EnrollEventView::Connected(Ok(())),
        EnrollEventView::CamerasListed(Ok(())),
    ]
}

/// A spent pairing never becomes done.
proof fn lemma_spent_is_never_done(events: Seq<EnrollEventView>, read: Option<IpAddress>)
    ensures
        enroll_run(EnrollmentView::Spent, events, read).outcome is Err,
    decreases events.len(),
{
    if events.len() > 1 {
        lemma_spent_is_never_done(events.drop_first(), read);
    }
}

/// Pairing that observes both certificates, connects and lists the cameras is
/// done: the credential holds exactly the pins that were observed, and the
/// connection that the key was tried on trusted exactly these pins.
pub proof fn law_enrollment_keeps_the_observed_pins(
    settings: SettingsView,
    address: IpAddress,
    api: Seq<char>,
    media: Seq<char>,
)
    ensures
        ({
            let fresh = EnrollmentView::Fresh { settings };
            let read = Some(address);
            &&& enroll_run(fresh, success(api, media).take(1), read).outcome == Ok::<
                _,
                HostErrorView,
            >(observe_api(address))
            &&& enroll_run(fresh, success(api, media).take(2), read).outcome == Ok::<
                _,
                HostErrorView,
            >(observe_media(address))
            &&& enroll_run(fresh, success(api, media).take(3), read).outcome == Ok::<
                _,
                HostErrorView,
            >(
                EnrollActionView::Connect {
                    local: PinnedLocalView {
                        address,
                        api_key: settings.api_key,
                        api_certificate_sha256: api,
                        media_certificate_sha256: media,
                    },
                },
            )
            &&& enroll_run(fresh, success(api, media).take(4), read).outcome == Ok::<
                _,
                HostErrorView,
            >(EnrollActionView::ListCameras)
            &&& enroll_run(fresh, success(api, media), read) == enroll_ask(
                EnrollmentView::Spent,
                EnrollActionView::Done {
                    credential: credential_fields(api, media),
                    message: "Connected to UniFi Protect at "@ + settings.address,
                },
            )
        }),
{
    let fresh = EnrollmentView::Fresh { settings };
    let read = Some(address);
    let all = success(api, media);
    reveal_with_fuel(enroll_run, 6);
    assert(all.take(1)[0] == all[0]);
    assert(all.take(2).drop_first()[0] == all[1]);
    assert(all.take(3).drop_first().drop_first()[0] == all[2]);
    assert(all.take(4).drop_first().drop_first().drop_first()[0] == all[3]);
    assert(all.drop_first().drop_first().drop_first().drop_first()[0] == all[4]);
}

/// Pairing is done in no other way than by observing both certificates,
/// connecting and listing the cameras, in this order and without a failure; and
/// the credential holds the pins that were observed.
pub proof fn law_enrollment_is_done_only_after_everything(
    settings: SettingsView,
    events: Seq<EnrollEventView>,
    read: Option<IpAddress>,
)
    requires
        ({
            let last = enroll_run(EnrollmentView::Fresh { settings }, events, read).outcome;
            last is Ok && last->Ok_0 is Done
        }),
    ensures
        read is Some,
        exists|api: Seq<char>, media: Seq<char>|
            events == #[trigger] success(api, media) && enroll_run(
                EnrollmentView::Fresh { settings },
                events,
                read,
            ).outcome->Ok_0->credential == credential_fields(api, media),
{
    let s0 = EnrollmentView::Fresh { settings };
    let e0 = events[0];
    let s1 = enroll_step(s0, e0, read).state;
    let r1 = events.drop_first();
    assert(events.len() > 1);
    assert(enroll_run(s0, events, read) == enroll_run(s1, r1, read));
    if s1 is Spent {
        lemma_spent_is_never_done(r1, read);
    }
    let e1 = r1[0];
    let s2 = enroll_step(s1, e1, read).state;
    let r2 = r1.drop_first();
    assert(r1.len() > 1);
    assert(enroll_run(s1, r1, read) == enroll_run(s2, r2, read));
    if s2 is Spent {
        lemma_spent_is_never_done(r2, read);
    }
    let e2 = r2[0];
    let s3 = enroll_step(s2, e2, read).state;
    let r3 = r2.drop_first();
    assert(r2.len() > 1);
    assert(enroll_run(s2, r2, read) == enroll_run(s3, r3, read));
    if s3 is Spent {
        lemma_spent_is_never_done(r3, read);
    }
    let e3 = r3[0];
    let s4 = enroll_step(s3, e3, read).state;
    let r4 = r3.drop_first();
    assert(r3.len() > 1);
    assert(enroll_run(s3, r3, read) == enroll_run(s4, r4, read));
    if s4 is Spent {
        lemma_spent_is_never_done(r4, read);
    }
    let e4 = r4[0];
    if r4.len() > 1 {
        assert(enroll_step(s4, e4, read).state is Spent);
        lemma_spent_is_never_done(r4.drop_first(), read);
    }
    let api = e1->ApiCertificate_0->Ok_0;
    let media = e2->MediaCertificate_0->Ok_0;
    assert(events[1] == e1 && events[2] == e2 && events[3] == e3 && events[4] == e4);
    assert(r4.len() == 1 && events.len() == 5);
    assert(e0 == EnrollEventView::Start);
    assert(e1 == EnrollEventView::ApiCertificate(Ok(api)));
    assert(e2 == EnrollEventView::MediaCertificate(Ok(media)));
    assert(e3->Connected_0->Ok_0 == ());
    assert(e4->CamerasListed_0->Ok_0 == ());
    assert(e3 == EnrollEventView::Connected(Ok(())));
    assert(e4 == EnrollEventView::CamerasListed(Ok(())));
    assert(events =~= success(api, media));
    law_enrollment_keeps_the_observed_pins(settings, read->0, api, media);
}

} // verus!

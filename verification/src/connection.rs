//! The connection to a paired console: what the host may ask of it and what is
//! answered.
use crate::cameras::{
    camera_status, children_of, has_camera, list_children, lists_all, plain_cameras,
    plain_children, Camera, Child,
};
use crate::certificate::{
    hex_text, law_observed_pin_accepts_only_what_was_seen, pin_accepts, sha256_of,
};
use crate::enrollment::{
    enroll_run, law_enrollment_keeps_the_observed_pins, pinned_to, plain_outcome, success,
    Enrollment, EnrollmentView, PinnedLocal, PinnedLocalView,
};
use crate::errors::{
    bare, refusal, refused, settle, settled, Error, HostError, HostErrorKind, HostErrorView,
};
use crate::location::{address_text, ip_of_text, IpAddress};
use crate::settings::{
    address_or_refusal, are_texts, credential_fields, holds_credential, is_credential, judged,
    law_credential_is_unambiguous, law_credential_reads_back, plain_fields, plain_verdict, Field,
    FieldView, ProtectCredential, ProtectSettings, SettingsView,
};
use vstd::prelude::*;

verus! {

/// How long a live view lasts at most, in seconds.
pub const VIEW_SECONDS: u8 = 60;

/// The kind of device that a console is.
pub const KIND: &'static str = "unifi-protect";

/// What this kind of device is called.
pub const LABEL: &'static str = "UniFi Protect";

/// What kind of device a child is.
#[derive(Clone, Copy, PartialEq, Eq, Structural, Debug)]
pub enum DeviceKind {
    Camera,
}

/// What the host shows a child as.
#[derive(Clone, Copy, PartialEq, Eq, Structural, Debug)]
pub enum ChildComponent {
    Camera,
}

/// A kind of child that a console has.
#[derive(Debug)]
pub struct ChildKind {
    pub kind: String,
    pub label: String,
    pub device_kind: DeviceKind,
    pub component: ChildComponent,
    pub capabilities: Vec<String>,
    pub actions: Vec<String>,
}

/// Whether an outcome is what connecting comes to. The settings are judged first;
/// then a credential is needed; and what is connected to is the address, with the
/// key and under the pins of the credential.
pub open spec fn connects(
    read: Option<IpAddress>,
    key: Seq<char>,
    key_accepted: bool,
    credential: Option<Seq<FieldView>>,
    outcome: Result<PinnedLocalView, HostErrorView>,
) -> bool {
    match judged(read, key, key_accepted) {
        Err(error) => outcome == Err::<PinnedLocalView, _>(error),
        Ok(_) => match credential {
            None => outcome == Err::<PinnedLocalView, _>(bare(HostErrorKind::Unpaired)),
            Some(fields) => match outcome {
                Ok(local) => {
                    &&& Some(local.address) == read
                    &&& local.api_key == key
                    &&& holds_credential(
                        fields,
                        local.api_certificate_sha256,
                        local.media_certificate_sha256,
                    )
                },
                Err(error) => error == bare(HostErrorKind::Unpaired) && !is_credential(fields),
            },
        },
    }
}

/// A stored credential as plain text.
pub open spec fn optional_fields(credential: Option<&Vec<Field>>) -> Option<Seq<FieldView>> {
    match credential {
        Some(fields) => Some(plain_fields(fields@)),
        None => None,
    }
}

/// The connection to a paired console.
pub struct ProtectConnection {
    pub settings: PinnedLocal,
}

impl View for ProtectConnection {
    type V = PinnedLocalView;

    open spec fn view(&self) -> PinnedLocalView {
        self.settings@
    }
}

impl ProtectConnection {
    /// The kind of device that this is.
    pub fn kind() -> (kind: &'static str)
        ensures
            kind@ == "unifi-protect"@,
    {
        KIND
    }

    /// What this kind of device is called.
    pub fn label() -> (label: &'static str)
        ensures
            label@ == "UniFi Protect"@,
    {
        LABEL
    }

    /// A console itself can do nothing for the host.
    pub fn capabilities() -> (capabilities: Vec<String>)
        ensures
            capabilities@.len() == 0,
    {
        Vec::new()
    }

    /// A console has cameras, and a camera has no capabilities or actions of its
    /// own.
    pub fn child_kinds() -> (kinds: Vec<ChildKind>)
        ensures
            kinds@.len() == 1,
            kinds@[0].kind@ == "camera"@,
            kinds@[0].label@ == "UniFi Protect camera"@,
            kinds@[0].device_kind == DeviceKind::Camera,
            kinds@[0].component == ChildComponent::Camera,
            kinds@[0].capabilities@.len() == 0,
            kinds@[0].actions@.len() == 0,
    {
        vec![
            ChildKind {
                kind: "camera".to_owned(),
                label: "UniFi Protect camera".to_owned(),
                device_kind: DeviceKind::Camera,
                component: ChildComponent::Camera,
                capabilities: Vec::new(),
                actions: Vec::new(),
            },
        ]
    }

    /// Connects without a credential, which never succeeds.
    pub fn connect(settings: &ProtectSettings, key_accepted: bool) -> (outcome: Result<
        ProtectConnection,
        HostError,
    >)
        ensures
            plain_outcome(outcome) == (match judged(
                ip_of_text(settings.address@),
                settings.api_key@,
                key_accepted,
            ) {
                Err(error) => Err::<PinnedLocalView, _>(error),
                Ok(_) => Err(bare(HostErrorKind::Unpaired)),
            }),
    {
        ProtectConnection::connect_with(settings, key_accepted, None)
    }

    /// Connects with the credential that pairing left behind. `key_accepted` says
    /// whether the console's API takes the key for one.
    pub fn connect_with(
        settings: &ProtectSettings,
        key_accepted: bool,
        credential: Option<&Vec<Field>>,
    ) -> (outcome: Result<ProtectConnection, HostError>)
        ensures
            connects(
                ip_of_text(settings.address@),
                settings.api_key@,
                key_accepted,
                optional_fields(credential),
                plain_outcome(outcome),
            ),
            forall|ip: IpAddress|
                settings.address@ == #[trigger] address_text(ip) && settings.api_key@.len() > 0
                    && key_accepted && credential is Some && is_credential(
                    plain_fields(credential->0@),
                ) ==> (outcome matches Ok(made) && made.settings.address == ip),
            outcome matches Ok(made) ==> {
                &&& ip_of_text(settings.address@) == Some(made.settings.address)
                &&& settings.api_key@.len() > 0 && key_accepted
                &&& made.settings.api_key@ == settings.api_key@
                &&& credential is Some && are_texts(
                    credential->0@,
                    "api_certificate_sha256"@,
                    made.settings.api_certificate_sha256@,
                    "media_certificate_sha256"@,
                    made.settings.media_certificate_sha256@,
                )
            },
            outcome is Err && ip_of_text(settings.address@) is Some && settings.api_key@.len() > 0
                && key_accepted ==> credential is None || forall|api: Seq<char>, media: Seq<char>|
                !#[trigger] are_texts(
                    credential->0@,
                    "api_certificate_sha256"@,
                    api,
                    "media_certificate_sha256"@,
                    media,
                ),
    {
        let read: Option<IpAddress> = IpAddress::parse(settings.address.as_str());
        ProtectConnection::connect_at(settings, read, key_accepted, credential)
    }

    /// Connects with a credential, given the address that the settings write down.
    pub fn connect_at(
        settings: &ProtectSettings,
        read: Option<IpAddress>,
        key_accepted: bool,
        credential: Option<&Vec<Field>>,
    ) -> (outcome: Result<ProtectConnection, HostError>)
        ensures
            connects(
                read,
                settings.api_key@,
                key_accepted,
                optional_fields(credential),
                plain_outcome(outcome),
            ),
            outcome matches Ok(made) ==> {
                &&& read == Some(made.settings.address)
                &&& settings.api_key@.len() > 0 && key_accepted
                &&& made.settings.api_key@ == settings.api_key@
                &&& credential is Some && are_texts(
                    credential->0@,
                    "api_certificate_sha256"@,
                    made.settings.api_certificate_sha256@,
                    "media_certificate_sha256"@,
                    made.settings.media_certificate_sha256@,
                )
            },
            outcome is Err && read is Some && settings.api_key@.len() > 0 && key_accepted
                ==> credential is None || forall|api: Seq<char>, media: Seq<char>|
                !#[trigger] are_texts(
                    credential->0@,
                    "api_certificate_sha256"@,
                    api,
                    "media_certificate_sha256"@,
                    media,
                ),
    {
        let address: IpAddress = match address_or_refusal(read) {
            Ok(address) => address,
            Err(error) => return Err(error),
        };
        if let Err(error) = settings.validate_key(key_accepted) {
            return Err(error);
        }
        let fields: &Vec<Field> = match credential {
            Some(fields) => fields,
            None => return Err(HostError::bare(HostErrorKind::Unpaired)),
        };
        match ProtectCredential::parse(fields) {
            Err(error) => Err(error),
            Ok(pins) => Ok(
                ProtectConnection { settings: pinned_to(address, settings, pins) },
            ),
        }
    }

    /// Begins to pair a console. The settings are judged first.
    pub fn pair_start(settings: &ProtectSettings, key_accepted: bool) -> (outcome: Result<
        Enrollment,
        HostError,
    >)
        ensures
            plain_outcome(outcome) == (match judged(
                ip_of_text(settings.address@),
                settings.api_key@,
                key_accepted,
            ) {
                Err(error) => Err::<EnrollmentView, _>(error),
                Ok(_) => Ok(EnrollmentView::Fresh { settings: settings@ }),
            }),
            forall|ip: IpAddress|
                settings.address@ == #[trigger] address_text(ip) && settings.api_key@.len() > 0
                    && key_accepted ==> outcome is Ok,
            outcome is Ok <==> ip_of_text(settings.address@) is Some && settings.api_key@.len() > 0
                && key_accepted,
            outcome matches Ok(begun) ==> (begun matches Enrollment::Fresh { settings: kept }
                && kept.address@ == settings.address@ && kept.api_key@ == settings.api_key@),
    {
        match settings.validate(key_accepted) {
            Err(error) => Err(error),
            Ok(_) => Ok(Enrollment::Fresh { settings: settings.clone() }),
        }
    }

    /// No function can be executed on a console.
    pub fn execute(&self) -> (outcome: Result<(), HostError>)
        ensures
            plain_verdict(outcome) == Err::<(), _>(bare(HostErrorKind::Unsupported)),
    {
        Err(HostError::bare(HostErrorKind::Unsupported))
    }

    /// Lists the cameras that the console has named, under labels of at most
    /// `max_label` bytes.
    pub fn children(&self, cameras: Result<Vec<Camera>, Error>, max_label: usize) -> (
        children: Result<Vec<Child>, HostError>)
        ensures
            match cameras {
                Ok(named) => children matches Ok(listed) && plain_children(listed@) == children_of(
                    plain_cameras(named@),
                    max_label as int,
                ),
                Err(error) => children matches Err(e) && e@ == refusal(error),
            },
            match cameras {
                Ok(named) => children matches Ok(listed) && listed@.len() == named@.len()
                    && lists_all(named@, listed@, max_label as int),
                Err(_) => children is Err,
            },
    {
        match cameras {
            Ok(named) => Ok(list_children(named, max_label)),
            Err(error) => Err(refused(error)),
        }
    }

    /// No command can be given to a camera.
    pub fn child_command(&self, resource: &str) -> (outcome: Result<(), HostError>)
        ensures
            plain_verdict(outcome) == Err::<(), _>(bare(HostErrorKind::Unsupported)),
    {
        Err(HostError::bare(HostErrorKind::Unsupported))
    }

    /// The status of a camera: it has one as long as the console names it.
    pub fn child_status(&self, cameras: Result<Vec<Camera>, Error>, resource: &str) -> (
        status: Result<(), HostError>)
        ensures
            plain_verdict(status) == (match cameras {
                Ok(named) => if has_camera(plain_cameras(named@), resource@) {
                    Ok::<(), _>(())
                } else {
                    Err(bare(HostErrorKind::Rejected))
                },
                Err(error) => Err(refusal(error)),
            }),
            match cameras {
                Ok(named) => {
                    &&& forall|i: int|
                        0 <= i < named@.len() && (#[trigger] named@[i]).id@ == resource@
                            ==> status is Ok
                    &&& status is Ok ==> exists|i: int|
                        0 <= i < named@.len() && (#[trigger] named@[i]).id@ == resource@
                    &&& status matches Err(e) ==> e.kind == HostErrorKind::Rejected
                        && e.reason is None
                },
                Err(error) => status matches Err(e) && e@ == refusal(error),
            },
    {
        match cameras {
            Ok(named) => camera_status(&named, resource),
            Err(error) => Err(refused(error)),
        }
    }

    /// What to ask the console for when a snapshot is wanted: a picture of this
    /// camera, from the main channel.
    pub fn snapshot_request(&self, resource: &str) -> (asked: SnapshotRequest)
        ensures
            asked.resource@ == resource@,
            asked.channel == SnapshotChannel::Main,
    {
        SnapshotRequest { resource: resource.to_owned(), channel: SnapshotChannel::Main }
    }

    /// A snapshot, as the console gave it.
    pub fn camera_snapshot(&self, snapshot: Result<Vec<u8>, Error>) -> (seen: Result<
        Vec<u8>,
        HostError,
    >)
        ensures
            settled(snapshot, seen),
            match snapshot {
                Ok(picture) => seen == Ok::<_, HostError>(picture),
                Err(error) => seen matches Err(e) && e@ == refusal(error),
            },
    {
        settle(snapshot)
    }

    /// Begins to open a live view of a camera: the low-quality stream, for as long
    /// as a view may last.
    pub fn camera_open(&self, resource: &str) -> (begun: (CameraOpening, CameraAction))
        ensures
            begun.0 == CameraOpening::Requesting,
            begun.1@ == (CameraActionView::RequestView {
                resource: resource@,
                quality: Quality::Low,
                seconds: VIEW_SECONDS,
            }),
    {
        (
            CameraOpening::Requesting,
            CameraAction::RequestView {
                resource: resource.to_owned(),
                quality: Quality::Low,
                seconds: VIEW_SECONDS,
            },
        )
    }
}

/// The channel of a camera that a snapshot is taken from. Only the main one is ever
/// asked for.
#[derive(Clone, Copy, PartialEq, Eq, Structural, Debug)]
pub enum SnapshotChannel {
    Main,
}

/// A picture to ask the console for.
#[derive(Debug)]
pub struct SnapshotRequest {
    pub resource: String,
    pub channel: SnapshotChannel,
}

/// The quality of a live stream. Only the low one is ever asked for.
#[derive(Clone, Copy, PartialEq, Eq, Structural, Debug)]
pub enum Quality {
    Low,
}

/// How far the opening of a live view has come.
#[derive(Clone, Copy, PartialEq, Eq, Structural, Debug)]
pub enum CameraOpening {
    Requesting,
    Connecting,
    Finished,
}

/// What the opening of a live view asks to be done next.
#[derive(Debug)]
pub enum CameraAction {
    /// Ask the console for a view.
    RequestView { resource: String, quality: Quality, seconds: u8 },
    /// Connect to the media server.
    ConnectMedia,
    /// Hand the stream to the host, for so long.
    Serve { seconds: u8 },
}

/// A request of an opening as plain text.
pub enum CameraActionView {
    RequestView { resource: Seq<char>, quality: Quality, seconds: u8 },
    ConnectMedia,
    Serve { seconds: u8 },
}

impl View for CameraAction {
    type V = CameraActionView;

    open spec fn view(&self) -> CameraActionView {
        match self {
            CameraAction::RequestView { resource, quality, seconds } => {
                CameraActionView::RequestView {
                    resource: resource@,
                    quality: *quality,
                    seconds: *seconds,
                }
            },
            CameraAction::ConnectMedia => CameraActionView::ConnectMedia,
            CameraAction::Serve { seconds } => CameraActionView::Serve { seconds: *seconds },
        }
    }
}

/// What came of the last request.
#[derive(Clone, Copy, Debug)]
pub enum CameraEvent {
    ViewReady(Result<(), Error>),
    MediaReady(Result<(), Error>),
}

/// A step of an opening: the next state, and the next request or a failure.
pub struct CameraStep {
    pub state: CameraOpening,
    pub outcome: Result<CameraActionView, HostErrorView>,
}

/// The step that an opening takes when it learns what came of its request.
/// Whatever is no answer to the request is invalid.
pub open spec fn camera_step(state: CameraOpening, event: CameraEvent) -> CameraStep {
    match (state, event) {
        (CameraOpening::Requesting, CameraEvent::ViewReady(Ok(_))) => CameraStep {
            state: CameraOpening::Connecting,
            outcome: Ok(CameraActionView::ConnectMedia),
        },
        (CameraOpening::Connecting, CameraEvent::MediaReady(Ok(_))) => CameraStep {
            state: CameraOpening::Finished,
            outcome: Ok(CameraActionView::Serve { seconds: VIEW_SECONDS }),
        },
        (CameraOpening::Requesting, CameraEvent::ViewReady(Err(error)))
        | (CameraOpening::Connecting, CameraEvent::MediaReady(Err(error))) => CameraStep {
            state: CameraOpening::Finished,
            outcome: Err(refusal(error)),
        },
        _ => CameraStep {
            state: CameraOpening::Finished,
            outcome: Err(bare(HostErrorKind::Invalid)),
        },
    }
}

impl CameraOpening {
    /// Goes on with what came of the last request.
    pub fn step(&mut self, event: CameraEvent) -> (outcome: Result<CameraAction, HostError>)
        ensures
            *final(self) == camera_step(*old(self), event).state,
            plain_outcome(outcome) == camera_step(*old(self), event).outcome,
            *old(self) == CameraOpening::Requesting ==> (event matches CameraEvent::ViewReady(view)
                ==> match view {
                Ok(_) => outcome matches Ok(CameraAction::ConnectMedia) && *final(self)
                    == CameraOpening::Connecting,
                Err(error) => outcome matches Err(seen) && seen@ == refusal(error) && *final(self)
                    == CameraOpening::Finished,
            }),
            *old(self) == CameraOpening::Connecting ==> (event matches CameraEvent::MediaReady(media)
                ==> match media {
                Ok(_) => outcome matches Ok(CameraAction::Serve { seconds }) && seconds == 60
                    && *final(self) == CameraOpening::Finished,
                Err(error) => outcome matches Err(seen) && seen@ == refusal(error) && *final(self)
                    == CameraOpening::Finished,
            }),
            outcome matches Ok(CameraAction::ConnectMedia) ==> *old(self)
                == CameraOpening::Requesting && (event matches CameraEvent::ViewReady(Ok(_))),
            outcome matches Ok(CameraAction::Serve { .. }) ==> *old(self)
                == CameraOpening::Connecting && (event matches CameraEvent::MediaReady(Ok(_))),
            !(outcome matches Ok(CameraAction::RequestView { .. })),
    {
        let state: CameraOpening = *self;
        *self = CameraOpening::Finished;
        match (state, event) {
            (CameraOpening::Requesting, CameraEvent::ViewReady(view)) => match view {
                Ok(_) => {
                    *self = CameraOpening::Connecting;
                    Ok(CameraAction::ConnectMedia)
                },
                Err(error) => Err(refused(error)),
            },
            (CameraOpening::Connecting, CameraEvent::MediaReady(media)) => match media {
                Ok(_) => Ok(CameraAction::Serve { seconds: VIEW_SECONDS }),
                Err(error) => Err(refused(error)),
            },
            _ => Err(HostError::bare(HostErrorKind::Invalid)),
        }
    }
}

/// The media server is connected to only after the console has granted the view, and
/// always then.
pub proof fn law_media_follows_a_granted_view(state: CameraOpening, event: CameraEvent)
    ensures
        camera_step(state, event).outcome == Ok::<_, HostErrorView>(CameraActionView::ConnectMedia)
            <==> state == CameraOpening::Requesting && event == CameraEvent::ViewReady(Ok(())),
        camera_step(state, event).state == CameraOpening::Connecting <==> state
            == CameraOpening::Requesting && event == CameraEvent::ViewReady(Ok(())),
        camera_step(state, event).outcome == Ok::<_, HostErrorView>(
            CameraActionView::Serve { seconds: 60 },
        ) <==> state == CameraOpening::Connecting && event == CameraEvent::MediaReady(Ok(())),
        camera_step(state, event).outcome is Ok ==> event == CameraEvent::ViewReady(Ok(())) || event
            == CameraEvent::MediaReady(Ok(())),
{
    assert(event->ViewReady_0->Ok_0 == ());
    assert(event->MediaReady_0->Ok_0 == ());
}

/// A view that the console refuses, and a media server that cannot be connected to,
/// end the opening, and the host is told why.
pub proof fn law_refused_views_end(error: Error)
    ensures
        camera_step(CameraOpening::Requesting, CameraEvent::ViewReady(Err(error))) == (CameraStep {
            state: CameraOpening::Finished,
            outcome: Err(refusal(error)),
        }),
        camera_step(CameraOpening::Connecting, CameraEvent::MediaReady(Err(error))) == (CameraStep {
            state: CameraOpening::Finished,
            outcome: Err(refusal(error)),
        }),
{
}

/// What is no answer to the last request ends the opening as invalid.
pub proof fn law_stray_events_end_the_opening(state: CameraOpening, event: CameraEvent)
    requires
        !(state == CameraOpening::Requesting && event is ViewReady),
        !(state == CameraOpening::Connecting && event is MediaReady),
    ensures
        camera_step(state, event).state == CameraOpening::Finished,
        camera_step(state, event).outcome matches Err(error) && error.kind == HostErrorKind::Invalid
            && error.reason is None,
{
}

/// Connecting succeeds exactly with an address that can be read, an accepted key and
/// stored fields that are a credential, and it takes all of them over; the settings
/// are refused before a credential is missed.
pub proof fn law_connecting_takes_what_it_is_given(
    read: Option<IpAddress>,
    key: Seq<char>,
    key_accepted: bool,
    credential: Option<Seq<FieldView>>,
    outcome: Result<PinnedLocalView, HostErrorView>,
)
    requires
        connects(read, key, key_accepted, credential, outcome),
    ensures
        outcome is Ok <==> read is Some && key.len() > 0 && key_accepted && credential is Some
            && is_credential(credential->0),
        outcome matches Ok(local) ==> {
            &&& read == Some(local.address)
            &&& local.api_key == key
            &&& holds_credential(
                credential->0,
                local.api_certificate_sha256,
                local.media_certificate_sha256,
            )
        },
        outcome matches Err(error) ==> (error.kind == HostErrorKind::Unpaired <==> read is Some
            && key.len() > 0 && key_accepted),
        outcome matches Err(error) ==> (error.kind == HostErrorKind::Unpaired || error.kind
            == HostErrorKind::Invalid),
{
    if let Ok(local) = outcome {
        assert(holds_credential(
            credential->0,
            local.api_certificate_sha256,
            local.media_certificate_sha256,
        ));
    }
}

/// What a connection is made from loses nothing as plain text.
pub proof fn law_plain_connection_is_the_connection(connection: ProtectConnection)
    ensures
        connection@.address == connection.settings.address,
        connection@.api_key == connection.settings.api_key@,
        connection@.api_certificate_sha256 == connection.settings.api_certificate_sha256@,
        connection@.media_certificate_sha256 == connection.settings.media_certificate_sha256@,
{
}

/// A live view that is served ends after at most sixty seconds, and it is served
/// only once the media server has been connected to.
pub proof fn law_live_views_end(state: CameraOpening, event: CameraEvent, seconds: u8)
    requires
        camera_step(state, event).outcome == Ok::<_, HostErrorView>(
            CameraActionView::Serve { seconds },
        ),
    ensures
        seconds <= 60,
        event == CameraEvent::MediaReady(Ok(())),
        camera_step(state, event).state == CameraOpening::Finished,
{
    assert(event->MediaReady_0->Ok_0 == ());
}

/// A connection with the credential that pairing stored goes to the same address,
/// with the same key and under the same pins as the connection that pairing tried
/// the key on.
pub proof fn law_stored_credential_connects_under_the_same_pins(
    address: IpAddress,
    key: Seq<char>,
    api: Seq<char>,
    media: Seq<char>,
    outcome: Result<PinnedLocalView, HostErrorView>,
)
    requires
        key.len() > 0,
        connects(Some(address), key, true, Some(credential_fields(api, media)), outcome),
    ensures
        outcome == Ok::<_, HostErrorView>(
            PinnedLocalView {
                address,
                api_key: key,
                api_certificate_sha256: api,
                media_certificate_sha256: media,
            },
        ),
{
    let fields = credential_fields(api, media);
    law_credential_reads_back(api, media, api, media);
    match outcome {
        Ok(local) => {
            law_credential_reads_back(
                api,
                media,
                local.api_certificate_sha256,
                local.media_certificate_sha256,
            );
        },
        Err(_) => {
            assert(is_credential(fields));
        },
    }
}

/// A console that was paired while it showed two certificates is connected to, from
/// then on, under pins that accept exactly the certificates with the digests of
/// these two.
pub proof fn law_paired_console_has_to_keep_its_certificates(
    settings: SettingsView,
    address: IpAddress,
    api_cert: Seq<u8>,
    media_cert: Seq<u8>,
    outcome: Result<PinnedLocalView, HostErrorView>,
    cert: Seq<u8>,
)
    requires
        settings.api_key.len() > 0,
        ({
            let events = success(hex_text(sha256_of(api_cert)@), hex_text(sha256_of(media_cert)@));
            let paired = enroll_run(EnrollmentView::Fresh { settings }, events, Some(address));
            connects(
                Some(address),
                settings.api_key,
                true,
                Some(paired.outcome->Ok_0->credential),
                outcome,
            )
        }),
    ensures
        outcome matches Ok(local) && local.address == address && local.api_key == settings.api_key
            && (pin_accepts(local.api_certificate_sha256, cert) <==> sha256_of(cert)@ == sha256_of(
            api_cert,
        )@) && (pin_accepts(local.media_certificate_sha256, cert) <==> sha256_of(cert)@
            == sha256_of(media_cert)@),
{
    let api = hex_text(sha256_of(api_cert)@);
    let media = hex_text(sha256_of(media_cert)@);
    law_enrollment_keeps_the_observed_pins(settings, address, api, media);
    law_stored_credential_connects_under_the_same_pins(
        address,
        settings.api_key,
        api,
        media,
        outcome,
    );
    law_observed_pin_accepts_only_what_was_seen(api_cert, cert);
    law_observed_pin_accepts_only_what_was_seen(media_cert, cert);
}

/// Without a credential nothing is connected to.
pub proof fn law_unpaired_connects_nowhere(
    read: Option<IpAddress>,
    key: Seq<char>,
    key_accepted: bool,
    outcome: Result<PinnedLocalView, HostErrorView>,
)
    requires
        connects(read, key, key_accepted, None, outcome),
    ensures
        outcome is Err,
{
}

/// What connecting comes to is determined by the settings and the credential.
pub proof fn law_connecting_is_determined(
    read: Option<IpAddress>,
    key: Seq<char>,
    key_accepted: bool,
    credential: Option<Seq<FieldView>>,
    a: Result<PinnedLocalView, HostErrorView>,
    b: Result<PinnedLocalView, HostErrorView>,
)
    requires
        connects(read, key, key_accepted, credential, a),
        connects(read, key, key_accepted, credential, b),
    ensures
        a == b,
{
    if let (Ok(x), Ok(y)) = (a, b) {
        law_credential_is_unambiguous(
            credential->0,
            x.api_certificate_sha256,
            x.media_certificate_sha256,
            y.api_certificate_sha256,
            y.media_certificate_sha256,
        );
    }
}

} // verus!

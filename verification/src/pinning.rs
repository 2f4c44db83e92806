//! Trust in exact certificates: the connector that speaks to one pinned origin
//! only, and the observation that learns a leaf certificate in the first place.
use crate::certificate::{
    fingerprint_text, hex_text, is_pin, law_pin_reads_back, pin_bytes, PinnedVerifier,
};
use crate::errors::Error;
use crate::location::{
    api_url, dotted, host_text, https_origin, ip_of_text, is_api_origin, is_server_name,
    law_https_url_has_its_own_origin, lemma_dotted_is_unbracketed, media_url, optional_url,
    origin_of_text, same_origin, server_name_valid, unbracketed, url_host, url_of_text,
    without_brackets, ConsoleUrl, ConsoleUrlView, IpAddress, Origin, OriginView,
};
use crate::text::same_text;
use vstd::prelude::*;

verus! {

/// Why a connection to a target is not made.
#[derive(Clone, Copy, PartialEq, Eq, Structural, Debug)]
pub enum ConnectRefusal {
    InvalidOrigin,
    OriginMismatch,
    MissingTransport,
    MissingHost,
    InvalidHost,
}

/// A refusal in words.
pub open spec fn connect_refusal_text(refusal: ConnectRefusal) -> Seq<char> {
    match refusal {
        ConnectRefusal::InvalidOrigin => "Invalid pinned origin"@,
        ConnectRefusal::OriginMismatch => "Pinned certificate origin mismatch"@,
        ConnectRefusal::MissingTransport => "Missing underlying transport"@,
        ConnectRefusal::MissingHost => "Missing pinned host"@,
        ConnectRefusal::InvalidHost => "Invalid pinned host"@,
    }
}

impl ConnectRefusal {
    /// The refusal in words.
    pub fn text(&self) -> (text: &'static str)
        ensures
            text@ == connect_refusal_text(*self),
    {
        match self {
            ConnectRefusal::InvalidOrigin => "Invalid pinned origin",
            ConnectRefusal::OriginMismatch => "Pinned certificate origin mismatch",
            ConnectRefusal::MissingTransport => "Missing underlying transport",
            ConnectRefusal::MissingHost => "Missing pinned host",
            ConnectRefusal::InvalidHost => "Invalid pinned host",
        }
    }
}

/// The host that a target may be reached at, over a transport that may be
/// missing, from a connector that is pinned to one origin.
pub open spec fn target_host(
    pinned: OriginView,
    target: Option<ConsoleUrlView>,
    target_origin: OriginView,
    has_transport: bool,
) -> Result<Seq<char>, ConnectRefusal> {
    match target {
        None => Err(ConnectRefusal::InvalidOrigin),
        Some(url) => if url.scheme != "https"@ || !same_origin(target_origin, pinned) {
            Err(ConnectRefusal::OriginMismatch)
        } else if !has_transport {
            Err(ConnectRefusal::MissingTransport)
        } else {
            match url.host {
                None => Err(ConnectRefusal::MissingHost),
                Some(host) => Ok(unbracketed(host)),
            }
        },
    }
}

/// A host that has to be a name that a TLS server may go by.
pub open spec fn named_host(
    host: Result<Seq<char>, ConnectRefusal>,
    valid: bool,
) -> Result<Seq<char>, ConnectRefusal> {
    match host {
        Ok(name) => if valid {
            Ok(name)
        } else {
            Err(ConnectRefusal::InvalidHost)
        },
        Err(refusal) => Err(refusal),
    }
}

/// The server name for a connection to the URL that `uri` writes down.
pub open spec fn connect_name(
    pinned: OriginView,
    uri: Seq<char>,
    has_transport: bool,
) -> Result<Seq<char>, ConnectRefusal> {
    let origin = match origin_of_text(uri) {
        Some(origin) => origin,
        None => OriginView::Opaque,
    };
    let host = target_host(pinned, url_of_text(uri), origin, has_transport);
    named_host(host, is_server_name(host->Ok_0))
}

/// Whether a URL is an `https` URL at this host.
pub open spec fn at_host(url: Option<ConsoleUrlView>, host: Seq<char>) -> bool {
    url matches Some(u) && u.scheme == "https"@ && u.host == Some(host)
}

/// A result with its text in plain characters.
pub open spec fn plain_name(name: Result<String, ConnectRefusal>) -> Result<
    Seq<char>,
    ConnectRefusal,
> {
    match name {
        Ok(text) => Ok(text@),
        Err(refusal) => Err(refusal),
    }
}

/// Makes connections to one origin, under one pinned certificate.
#[derive(Debug)]
pub struct PinnedConnector {
    pub verifier: PinnedVerifier,
    pub origin: Origin,
}

impl PinnedConnector {
    /// The connector for the origin of a URL and a certificate pin. It is a
    /// configuration error if the one is no URL or the other no pin. For the API at an
    /// address and a pin there always is one.
    pub fn new(url: &str, pin: &str) -> (connector: Result<PinnedConnector, Error>)
        ensures
            connector is Ok <==> is_pin(pin@) && url_of_text(url@) is Some,
            connector matches Ok(c) ==> {
                &&& c.verifier.digest@ == pin_bytes(pin@)
                &&& origin_of_text(url@) == Some(c.origin@)
            },
            connector matches Err(e) ==> e == Error::Configuration,
            forall|a: u8, b: u8, c: u8, d: u8|
                url@ == api_url(#[trigger] dotted(a, b, c, d)) && is_pin(pin@) ==> (
                connector matches Ok(made) && made.origin@ == https_origin(dotted(a, b, c, d))),
            forall|address: IpAddress|
                url@ == api_url(#[trigger] host_text(address)) && is_pin(pin@) ==> (
                connector matches Ok(made) && is_api_origin(made.origin@, address)),
    {
        let verifier: PinnedVerifier = match PinnedVerifier::from_pin(pin) {
            Ok(verifier) => verifier,
            Err(error) => return Err(error),
        };
        match Origin::parse(url) {
            Some(origin) => Ok(PinnedConnector { verifier, origin }),
            None => Err(Error::Configuration),
        }
    }

    /// The host of a target, if this connector may speak to it.
    pub fn host_for(
        &self,
        target: &Option<ConsoleUrl>,
        target_origin: &Origin,
        has_transport: bool,
    ) -> (host: Result<String, ConnectRefusal>)
        ensures
            plain_name(host) == target_host(
                self.origin@,
                optional_url(*target),
                target_origin@,
                has_transport,
            ),
    {
        match target {
            None => Err(ConnectRefusal::InvalidOrigin),
            Some(url) => {
                if !same_text(url.scheme.as_str(), "https") || !target_origin.same(&self.origin) {
                    Err(ConnectRefusal::OriginMismatch)
                } else if !has_transport {
                    Err(ConnectRefusal::MissingTransport)
                } else {
                    match &url.host {
                        None => Err(ConnectRefusal::MissingHost),
                        Some(host) => Ok(without_brackets(host.as_str())),
                    }
                }
            },
        }
    }

    /// The server name for a connection to `uri`. Only an `https` URL of the
    /// pinned origin has one. The URL of the API at an address, and every URL at a
    /// version 4 address, is connected to if its origin is the pinned one.
    pub fn connect(&self, uri: &str, has_transport: bool) -> (name: Result<
        String,
        ConnectRefusal,
    >)
        ensures
            plain_name(name) == connect_name(self.origin@, uri@, has_transport),
            match name {
                Ok(n) => connect_name(self.origin@, uri@, has_transport) == Ok::<_, ConnectRefusal>(
                    n@,
                ),
                Err(refusal) => connect_name(self.origin@, uri@, has_transport) == Err::<
                    Seq<char>,
                    _,
                >(refusal),
            },
            forall|address: IpAddress|
                uri@ == api_url(#[trigger] host_text(address)) && origin_of_text(uri@) == Some(
                    self.origin@,
                ) && has_transport ==> (name matches Ok(n) && n@ == url_host(address) && ip_of_text(
                    n@,
                ) == Some(address)),
            forall|a: u8, b: u8, c: u8, d: u8|
                at_host(url_of_text(uri@), #[trigger] dotted(a, b, c, d)) && origin_of_text(uri@)
                    == Some(self.origin@) && has_transport ==> (name matches Ok(n) && n@ == dotted(
                    a,
                    b,
                    c,
                    d,
                )),
    {
        let target: Option<ConsoleUrl> = ConsoleUrl::parse(uri);
        proof {
            if target is Some && target->0@.scheme == "https"@ && target->0@.host is Some {
                law_https_url_has_its_own_origin(uri@);
            }
            assert forall|a: u8, b: u8, c: u8, d: u8|
                at_host(url_of_text(uri@), #[trigger] dotted(a, b, c, d)) implies unbracketed(
                target->0@.host->0,
            ) == dotted(a, b, c, d) by {
                lemma_dotted_is_unbracketed(a, b, c, d);
            }
            assert forall|address: IpAddress|
                uri@ == api_url(#[trigger] host_text(address)) implies unbracketed(
                target->0@.host->0,
            ) == url_host(address) by {}
        }
        let mut target_origin: Origin = Origin::Opaque;
        if let Some(url) = &target {
            if same_text(url.scheme.as_str(), "https") {
                if let Some(origin) = Origin::parse(uri) {
                    target_origin = origin;
                }
            }
        }
        let host: String = self.host_for(&target, &target_origin, has_transport)?;
        let valid: bool = server_name_valid(host.as_str());
        PinnedConnector::name_for(host, valid)
    }

    /// The server name for a host, which has to be one that a TLS server may go by.
    pub fn name_for(host: String, valid: bool) -> (name: Result<String, ConnectRefusal>)
        ensures
            plain_name(name) == named_host(Ok(host@), valid),
    {
        if valid {
            Ok(host)
        } else {
            Err(ConnectRefusal::InvalidHost)
        }
    }
}

/// A connection is made only over `https`, only to the pinned origin and only
/// under a valid server name.
pub proof fn law_connects_to_the_pinned_origin_only(
    pinned: OriginView,
    uri: Seq<char>,
    has_transport: bool,
)
    requires
        connect_name(pinned, uri, has_transport) is Ok,
    ensures
        url_of_text(uri) matches Some(url) && url.scheme == "https"@,
        origin_of_text(uri) == Some(pinned),
        pinned is Tuple,
        has_transport,
        is_server_name(connect_name(pinned, uri, has_transport)->Ok_0),
{
}

/// The pinned URL itself is connected to, under its host.
pub proof fn law_pinned_url_connects(pinned: OriginView, uri: Seq<char>)
    requires
        pinned is Tuple,
        origin_of_text(uri) == Some(pinned),
        url_of_text(uri) matches Some(url) && url.scheme == "https"@ && url.host is Some
            && is_server_name(unbracketed(url.host->0)),
    ensures
        connect_name(pinned, uri, true) == Ok::<_, ConnectRefusal>(
            unbracketed(url_of_text(uri)->0.host->0),
        ),
{
}

/// A connection is refused exactly in these ways, and for the first of them that
/// holds: the target is no URL; it is not `https`, or of another origin than the
/// pinned one; the transport is missing; the target has no host; its host is no name
/// that a TLS server may go by.
pub proof fn law_connections_are_refused_in_order(
    pinned: OriginView,
    uri: Seq<char>,
    has_transport: bool,
)
    ensures
        ({
            let name = connect_name(pinned, uri, has_transport);
            let url = url_of_text(uri)->0;
            let known = url_of_text(uri) is Some;
            let ours = known && url.scheme == "https"@ && pinned is Tuple && origin_of_text(uri)
                == Some(pinned);
            &&& name == Err::<Seq<char>, _>(ConnectRefusal::InvalidOrigin) <==> !known
            &&& name == Err::<Seq<char>, _>(ConnectRefusal::OriginMismatch) <==> known && !ours
            &&& name == Err::<Seq<char>, _>(ConnectRefusal::MissingTransport) <==> ours
                && !has_transport
            &&& name == Err::<Seq<char>, _>(ConnectRefusal::MissingHost) <==> ours && has_transport
                && url.host is None
            &&& name == Err::<Seq<char>, _>(ConnectRefusal::InvalidHost) <==> ours && has_transport
                && url.host is Some && !is_server_name(unbracketed(url.host->0))
            &&& name is Ok <==> ours && has_transport && url.host is Some && is_server_name(
                unbracketed(url.host->0),
            )
            &&& name is Ok ==> name->Ok_0 == unbracketed(url.host->0)
        }),
{
}

/// Two URLs of one origin and one host are treated alike, whatever else they
/// hold.
pub proof fn law_connection_depends_on_origin_and_host(
    pinned: OriginView,
    a: Seq<char>,
    b: Seq<char>,
    has_transport: bool,
)
    requires
        origin_of_text(a) == origin_of_text(b),
        url_of_text(a) matches Some(u) && url_of_text(b) matches Some(v) && u.scheme == v.scheme
            && u.host == v.host,
    ensures
        connect_name(pinned, a, has_transport) == connect_name(pinned, b, has_transport),
{
}

/// A connector that is pinned to an opaque origin connects to nothing.
pub proof fn law_opaque_pin_connects_nowhere(uri: Seq<char>, has_transport: bool)
    ensures
        connect_name(OriginView::Opaque, uri, has_transport) is Err,
{
}

/// What is to be done with a transport to the pinned origin.
#[derive(Clone, Copy, PartialEq, Eq, Structural, Debug)]
pub enum HandshakeAction {
    /// Go on with the handshake.
    Continue,
    /// Hand the transport out, to be written on.
    HandOut,
}

/// What is to be done with a transport while, and after, its TLS handshake goes on:
/// it is handed out only once the certificate and the handshake's signature have
/// been checked, so nothing is written on it before.
pub fn handshake_step(handshaking: bool) -> (action: HandshakeAction)
    ensures
        action == HandshakeAction::HandOut <==> !handshaking,
{
    if handshaking {
        HandshakeAction::Continue
    } else {
        HandshakeAction::HandOut
    }
}

/// A span of time in seconds and nanoseconds.
#[derive(Clone, Copy, PartialEq, Eq, Structural, Debug)]
pub struct Timeout {
    pub secs: u64,
    pub nanos: u32,
}

/// The length of a span of time in nanoseconds.
pub open spec fn nanoseconds(timeout: Timeout) -> int {
    timeout.secs * 1_000_000_000 + timeout.nanos
}

/// A URL whose certificate may be observed: a bare `https` or `rtsps` origin, and
/// a time limit of more than nothing and at most thirty seconds.
pub open spec fn observable(url: ConsoleUrlView, timeout: Timeout) -> bool {
    &&& url.scheme == "https"@ || url.scheme == "rtsps"@
    &&& url.host is Some
    &&& url.path == ""@ || url.path == "/"@
    &&& url.query is None
    &&& url.fragment is None
    &&& url.username == ""@
    &&& url.password is None
    &&& 0 < nanoseconds(timeout) <= 30_000_000_000
}

/// The port to observe at: the URL's own, or the scheme's.
pub open spec fn observed_port(url: ConsoleUrlView) -> u16 {
    match url.port {
        Some(port) => port,
        None => if url.scheme == "https"@ {
            443
        } else {
            322
        },
    }
}

/// The host to observe: the URL's, without the brackets of a version 6 address.
pub open spec fn observed_host(url: ConsoleUrlView) -> Seq<char> {
    unbracketed(url.host->0)
}

/// The name to ask for: the one given, or the host.
pub open spec fn observed_name(url: ConsoleUrlView, server_name: Option<Seq<char>>) -> Seq<char> {
    match server_name {
        Some(name) => name,
        None => observed_host(url),
    }
}

/// What a TLS connection says of itself.
#[derive(Clone, Copy, PartialEq, Eq, Structural, Debug)]
pub struct TlsStatus {
    pub handshaking: bool,
    pub wants_write: bool,
    pub wants_read: bool,
}

/// How far an observation has come.
#[derive(Clone, Copy, PartialEq, Eq, Structural, Debug)]
pub enum ObserveStage {
    Connecting,
    SettingTimeouts,
    StartingTls,
    Writing,
    Reading,
    Processing,
    Waiting,
    TakingDigest,
    Finished,
}

/// What an observation asks to be done next.
#[derive(Debug)]
pub enum ObserveAction {
    /// Resolve the host and connect to its first address that answers in time.
    Connect { host: String, port: u16, timeout: Timeout },
    /// Put the time limit on reading and writing.
    SetTimeouts { timeout: Timeout },
    /// Begin a TLS connection under this name.
    StartTls { name: String },
    /// Send the TLS records that are waiting.
    WriteTls,
    /// Receive TLS records.
    ReadTls,
    /// Process what was received.
    ProcessPackets,
    /// Look at the connection again.
    Poll,
    /// Give the digest of the certificate that was seen.
    TakeDigest,
    /// The observation is over.
    Done { fingerprint: String },
}

/// A request of an observation as plain text.
pub enum ObserveActionView {
    Connect { host: Seq<char>, port: u16, timeout: Timeout },
    SetTimeouts { timeout: Timeout },
    StartTls { name: Seq<char> },
    WriteTls,
    ReadTls,
    ProcessPackets,
    Poll,
    TakeDigest,
    Done { fingerprint: Seq<char> },
}

impl View for ObserveAction {
    type V = ObserveActionView;

    open spec fn view(&self) -> ObserveActionView {
        match self {
            ObserveAction::Connect { host, port, timeout } => ObserveActionView::Connect {
                host: host@,
                port: *port,
                timeout: *timeout,
            },
            ObserveAction::SetTimeouts { timeout } => ObserveActionView::SetTimeouts {
                timeout: *timeout,
            },
            ObserveAction::StartTls { name } => ObserveActionView::StartTls { name: name@ },
            ObserveAction::WriteTls => ObserveActionView::WriteTls,
            ObserveAction::ReadTls => ObserveActionView::ReadTls,
            ObserveAction::ProcessPackets => ObserveActionView::ProcessPackets,
            ObserveAction::Poll => ObserveActionView::Poll,
            ObserveAction::TakeDigest => ObserveActionView::TakeDigest,
            ObserveAction::Done { fingerprint } => ObserveActionView::Done {
                fingerprint: fingerprint@,
            },
        }
    }
}

/// What came of the last request. A missing value, like a `false`, is a failure.
#[derive(Clone, Copy, Debug)]
pub enum ObserveEvent {
    Connected(bool),
    TimeoutsSet(bool),
    TlsStarted(TlsStatus),
    TlsConfigRefused,
    TlsConnectionRefused,
    Written(Option<TlsStatus>),
    Received(Option<usize>),
    Processed(Option<TlsStatus>),
    Polled(TlsStatus),
    Digest(Option<[u8; 32]>),
}

/// What stays the same all through an observation: the server name that is asked
/// for, whether it is one, and the time limit.
pub struct ObservePlan {
    pub name: Seq<char>,
    pub name_valid: bool,
    pub timeout: Timeout,
}

/// A step of an observation: the next stage, and the next request or a failure.
pub struct ObserveStep {
    pub stage: ObserveStage,
    pub outcome: Result<ObserveActionView, Error>,
}

/// A step that asks for something.
pub open spec fn observe_ask(stage: ObserveStage, action: ObserveActionView) -> ObserveStep {
    ObserveStep { stage, outcome: Ok(action) }
}

/// A step that fails.
pub open spec fn observe_fail(error: Error) -> ObserveStep {
    ObserveStep { stage: ObserveStage::Finished, outcome: Err(error) }
}

/// The rest of a round: write while there is something to write, then read once;
/// with neither to do, the next round begins.
pub open spec fn finish_round(status: TlsStatus) -> ObserveStep {
    if status.wants_write {
        observe_ask(ObserveStage::Writing, ObserveActionView::WriteTls)
    } else if status.wants_read {
        observe_ask(ObserveStage::Reading, ObserveActionView::ReadTls)
    } else if status.handshaking {
        observe_ask(ObserveStage::Waiting, ObserveActionView::Poll)
    } else {
        observe_ask(ObserveStage::TakingDigest, ObserveActionView::TakeDigest)
    }
}

/// The start of a round: once the handshake is over, the digest is taken.
pub open spec fn begin_round(status: TlsStatus) -> ObserveStep {
    if status.handshaking {
        finish_round(status)
    } else {
        observe_ask(ObserveStage::TakingDigest, ObserveActionView::TakeDigest)
    }
}

/// The step that an observation takes when it learns what came of its request.
/// Whatever is no good answer to that request is a failure of the transport.
pub open spec fn observe_step(
    stage: ObserveStage,
    plan: ObservePlan,
    event: ObserveEvent,
) -> ObserveStep {
    match (stage, event) {
        (ObserveStage::Connecting, ObserveEvent::Connected(true)) => observe_ask(
            ObserveStage::SettingTimeouts,
            ObserveActionView::SetTimeouts { timeout: plan.timeout },
        ),
        (ObserveStage::SettingTimeouts, ObserveEvent::TimeoutsSet(true)) => if plan.name_valid {
            observe_ask(ObserveStage::StartingTls, ObserveActionView::StartTls { name: plan.name })
        } else {
            observe_fail(Error::Configuration)
        },
        (ObserveStage::StartingTls, ObserveEvent::TlsStarted(status)) => begin_round(status),
        (ObserveStage::StartingTls, ObserveEvent::TlsConfigRefused) => observe_fail(
            Error::Configuration,
        ),
        (ObserveStage::Writing, ObserveEvent::Written(Some(status))) => finish_round(status),
        (ObserveStage::Reading, ObserveEvent::Received(Some(count))) => if count == 0 {
            observe_fail(Error::Transport)
        } else {
            observe_ask(ObserveStage::Processing, ObserveActionView::ProcessPackets)
        },
        (ObserveStage::Processing, ObserveEvent::Processed(Some(status))) => begin_round(status),
        (ObserveStage::Waiting, ObserveEvent::Polled(status)) => begin_round(status),
        (ObserveStage::TakingDigest, ObserveEvent::Digest(Some(digest))) => observe_ask(
            ObserveStage::Finished,
            ObserveActionView::Done { fingerprint: hex_text(digest@) },
        ),
        _ => observe_fail(Error::Transport),
    }
}

/// A request or a failure as plain text.
pub open spec fn plain_action(action: Result<ObserveAction, Error>) -> Result<
    ObserveActionView,
    Error,
> {
    match action {
        Ok(a) => Ok(a@),
        Err(error) => Err(error),
    }
}

/// Observes the leaf certificate of an origin. Nothing but TLS records is ever
/// sent: no request, no credential.
pub struct Observation {
    pub stage: ObserveStage,
    pub name: String,
    pub name_valid: bool,
    pub timeout: Timeout,
}

/// One step of an observation, as executed.
struct Move {
    stage: ObserveStage,
    outcome: Result<ObserveAction, Error>,
}

impl Move {
    spec fn plain(&self) -> ObserveStep {
        ObserveStep { stage: self.stage, outcome: plain_action(self.outcome) }
    }

    fn ask(stage: ObserveStage, action: ObserveAction) -> (step: Move)
        ensures
            step.plain() == observe_ask(stage, action@),
    {
        Move { stage, outcome: Ok(action) }
    }

    fn fail(error: Error) -> (step: Move)
        ensures
            step.plain() == observe_fail(error),
    {
        Move { stage: ObserveStage::Finished, outcome: Err(error) }
    }

    fn finish(status: TlsStatus) -> (step: Move)
        ensures
            step.plain() == finish_round(status),
    {
        if status.wants_write {
            Move::ask(ObserveStage::Writing, ObserveAction::WriteTls)
        } else if status.wants_read {
            Move::ask(ObserveStage::Reading, ObserveAction::ReadTls)
        } else if status.handshaking {
            Move::ask(ObserveStage::Waiting, ObserveAction::Poll)
        } else {
            Move::ask(ObserveStage::TakingDigest, ObserveAction::TakeDigest)
        }
    }

    fn begin(status: TlsStatus) -> (step: Move)
        ensures
            step.plain() == begin_round(status),
    {
        if status.handshaking {
            Move::finish(status)
        } else {
            Move::ask(ObserveStage::TakingDigest, ObserveAction::TakeDigest)
        }
    }
}

/// An optional name as optional plain text.
pub open spec fn optional_name(name: Option<&str>) -> Option<Seq<char>> {
    match name {
        Some(text) => Some(text@),
        None => None,
    }
}

/// Whether an observation of a URL begins as it should: with a connection to the
/// host where the URL may be observed, and with a configuration error elsewhere.
pub open spec fn begins(
    url: ConsoleUrlView,
    server_name: Option<Seq<char>>,
    timeout: Timeout,
    begun: Result<(Observation, ObserveAction), Error>,
) -> bool {
    match begun {
        Ok((observation, action)) => {
            &&& observable(url, timeout)
            &&& observation.stage == ObserveStage::Connecting
            &&& observation.name@ == observed_name(url, server_name)
            &&& observation.name_valid == is_server_name(observed_name(url, server_name))
            &&& observation.timeout == timeout
            &&& action@ == (ObserveActionView::Connect {
                host: observed_host(url),
                port: observed_port(url),
                timeout,
            })
        },
        Err(error) => !observable(url, timeout) && error == Error::Configuration,
    }
}

/// Whether a request is to connect to an address, at this port and within this limit.
pub open spec fn connects_to(
    action: ObserveActionView,
    address: IpAddress,
    port: u16,
    timeout: Timeout,
) -> bool {
    action matches ObserveActionView::Connect { host, port: p, timeout: t } && ip_of_text(host)
        == Some(address) && p == port && t == timeout
}

/// Whether a time limit is more than nothing and at most thirty seconds.
fn timeout_allowed(timeout: Timeout) -> (allowed: bool)
    ensures
        allowed == (0 < nanoseconds(timeout) <= 30_000_000_000),
{
    let total: u128 = timeout.secs as u128 * 1_000_000_000 + timeout.nanos as u128;
    0 < total && total <= 30_000_000_000
}

impl Observation {
    /// What stays the same all through this observation.
    pub open spec fn plan(&self) -> ObservePlan {
        ObservePlan { name: self.name@, name_valid: self.name_valid, timeout: self.timeout }
    }

    /// Begins to observe the certificate at a URL, which has to be a bare
    /// `https` or `rtsps` origin.
    pub fn start(url: &ConsoleUrl, server_name: Option<&str>, timeout: Timeout) -> (begun: Result<
        (Observation, ObserveAction),
        Error,
    >)
        ensures
            begins(url@, optional_name(server_name), timeout, begun),
            begun matches Ok((observation, _)) ==> observation.name@ == (match server_name {
                Some(name) => name@,
                None => unbracketed(url@.host->0),
            }),
            forall|address: IpAddress|
                observed_name(url@, optional_name(server_name)) == #[trigger] url_host(address)
                    && begun is Ok ==> begun->Ok_0.0.name_valid,
            observed_name(url@, optional_name(server_name)) == "unifi.local"@ && begun is Ok
                ==> begun->Ok_0.0.name_valid,
    {
        let https: bool = same_text(url.scheme.as_str(), "https");
        if !https && !same_text(url.scheme.as_str(), "rtsps") {
            return Err(Error::Configuration);
        }
        if !same_text(url.path.as_str(), "") && !same_text(url.path.as_str(), "/") {
            return Err(Error::Configuration);
        }
        if url.query.is_some() || url.fragment.is_some() || !same_text(url.username.as_str(), "")
            || url.password.is_some() || !timeout_allowed(timeout) {
            return Err(Error::Configuration);
        }
        match &url.host {
            None => Err(Error::Configuration),
            Some(host) => {
                let port: u16 = match url.port {
                    Some(port) => port,
                    None => if https {
                        443
                    } else {
                        322
                    },
                };
                let host: String = without_brackets(host.as_str());
                let name: String = match server_name {
                    Some(name) => name.to_owned(),
                    None => host.clone(),
                };
                let name_valid: bool = server_name_valid(name.as_str());
                let observation: Observation = Observation {
                    stage: ObserveStage::Connecting,
                    name,
                    name_valid,
                    timeout,
                };
                Ok((observation, ObserveAction::Connect { host, port, timeout }))
            },
        }
    }

    /// Begins to observe the certificate at the URL that a text writes down. A text
    /// that is no URL is a configuration error. The API and the media server at an
    /// address can always be observed, the API under the address itself and the media
    /// server under the name `unifi.local`; and it is this address that is connected
    /// to.
    pub fn start_at(text: &str, server_name: Option<&str>, timeout: Timeout) -> (begun: Result<
        (Observation, ObserveAction),
        Error,
    >)
        ensures
            match url_of_text(text@) {
                Some(url) => begins(url, optional_name(server_name), timeout, begun),
                None => begun matches Err(e) && e == Error::Configuration,
            },
            server_name matches Some(name) ==> (begun matches Ok((observation, _))
                ==> observation.name@ == name@),
            forall|address: IpAddress|
                (text@ == api_url(#[trigger] host_text(address)) || text@ == media_url(
                    host_text(address),
                )) && 0 < nanoseconds(timeout) <= 30_000_000_000 ==> begun is Ok,
            forall|address: IpAddress|
                text@ == api_url(#[trigger] host_text(address)) && server_name is None
                    && begun is Ok ==> begun->Ok_0.0.name_valid,
            server_name matches Some(name) && name@ == "unifi.local"@ && begun is Ok
                ==> begun->Ok_0.0.name_valid,
            forall|a: u8, b: u8, c: u8, d: u8|
                text@ == api_url(#[trigger] dotted(a, b, c, d)) && begun is Ok
                    ==> begun->Ok_0.1@ == (ObserveActionView::Connect {
                    host: dotted(a, b, c, d),
                    port: 443,
                    timeout,
                }),
            forall|a: u8, b: u8, c: u8, d: u8|
                text@ == media_url(#[trigger] dotted(a, b, c, d)) && begun is Ok
                    ==> begun->Ok_0.1@ == (ObserveActionView::Connect {
                    host: dotted(a, b, c, d),
                    port: 7441,
                    timeout,
                }),
            forall|address: IpAddress|
                text@ == api_url(#[trigger] host_text(address)) && begun is Ok ==> connects_to(
                    begun->Ok_0.1@,
                    address,
                    443,
                    timeout,
                ),
            forall|address: IpAddress|
                text@ == media_url(#[trigger] host_text(address)) && begun is Ok ==> connects_to(
                    begun->Ok_0.1@,
                    address,
                    7441,
                    timeout,
                ),
    {
        match ConsoleUrl::parse(text) {
            Some(url) => {
                let begun: Result<(Observation, ObserveAction), Error> = Observation::start(
                    &url,
                    server_name,
                    timeout,
                );
                assert forall|address: IpAddress|
                    text@ == api_url(#[trigger] host_text(address)) && server_name is None
                        && begun is Ok implies begun->Ok_0.0.name_valid by {
                    assert(observed_name(url@, None) == url_host(address));
                }
                assert forall|a: u8, b: u8, c: u8, d: u8|
                    url@.host == Some(#[trigger] dotted(a, b, c, d)) implies observed_host(url@)
                    == dotted(a, b, c, d) by {
                    lemma_dotted_is_unbracketed(a, b, c, d);
                }
                begun
            },
            None => Err(Error::Configuration),
        }
    }

    /// Goes on with what came of the last request.
    pub fn step(&mut self, event: ObserveEvent) -> (outcome: Result<ObserveAction, Error>)
        ensures
            ({
                let step = observe_step(old(self).stage, old(self).plan(), event);
                &&& final(self).stage == step.stage
                &&& plain_action(outcome) == step.outcome
                &&& match outcome {
                    Ok(action) => step.outcome == Ok::<_, Error>(action@),
                    Err(error) => step.outcome == Err::<ObserveActionView, _>(error),
                }
            }),
            final(self).plan() == old(self).plan(),
            old(self).stage == ObserveStage::Reading ==> (event matches ObserveEvent::Received(
                Some(count),
            ) ==> (count > 0 ==> (outcome matches Ok(ObserveAction::ProcessPackets))
                && final(self).stage == ObserveStage::Processing)),
            old(self).stage == ObserveStage::TakingDigest ==> (event matches ObserveEvent::Digest(
                Some(digest),
            ) ==> (outcome matches Ok(ObserveAction::Done { fingerprint }) && fingerprint@
                == hex_text(digest@))),
            outcome matches Ok(ObserveAction::Done { .. }) ==> old(self).stage
                == ObserveStage::TakingDigest && (event matches ObserveEvent::Digest(Some(_))),
            outcome matches Ok(ObserveAction::StartTls { name }) ==> name@ == old(self).name@
                && old(self).name_valid,
            outcome matches Ok(ObserveAction::SetTimeouts { timeout }) ==> timeout
                == old(self).timeout,
            !(outcome matches Ok(ObserveAction::Connect { .. })),
            final(self).name@ == old(self).name@,
            final(self).name_valid == old(self).name_valid,
            final(self).timeout == old(self).timeout,
    {
        let step: Move = match (self.stage, event) {
            (ObserveStage::Connecting, ObserveEvent::Connected(true)) => Move::ask(
                ObserveStage::SettingTimeouts,
                ObserveAction::SetTimeouts { timeout: self.timeout },
            ),
            (ObserveStage::SettingTimeouts, ObserveEvent::TimeoutsSet(true)) => if self.name_valid {
                Move::ask(
                    ObserveStage::StartingTls,
                    ObserveAction::StartTls { name: self.name.clone() },
                )
            } else {
                Move::fail(Error::Configuration)
            },
            (ObserveStage::StartingTls, ObserveEvent::TlsStarted(status)) => Move::begin(status),
            (ObserveStage::StartingTls, ObserveEvent::TlsConfigRefused) => Move::fail(
                Error::Configuration,
            ),
            (ObserveStage::Writing, ObserveEvent::Written(Some(status))) => Move::finish(status),
            (ObserveStage::Reading, ObserveEvent::Received(Some(count))) => if count == 0 {
                Move::fail(Error::Transport)
            } else {
                Move::ask(ObserveStage::Processing, ObserveAction::ProcessPackets)
            },
            (ObserveStage::Processing, ObserveEvent::Processed(Some(status))) => {
                Move::begin(status)
            },
            (ObserveStage::Waiting, ObserveEvent::Polled(status)) => Move::begin(status),
            (ObserveStage::TakingDigest, ObserveEvent::Digest(Some(digest))) => Move::ask(
                ObserveStage::Finished,
                ObserveAction::Done { fingerprint: fingerprint_text(&digest) },
            ),
            _ => Move::fail(Error::Transport),
        };
        self.stage = step.stage;
        step.outcome
    }
}

/// An observation begins exactly with a bare `https` or `rtsps` origin and a time limit
/// of more than nothing and at most thirty seconds. It begins with a connection to the
/// host, at the port that the URL names or else at the usual one of the scheme.
pub proof fn law_bare_origins_are_observed_and_nothing_else(
    url: ConsoleUrlView,
    server_name: Option<Seq<char>>,
    timeout: Timeout,
    begun: Result<(Observation, ObserveAction), Error>,
)
    requires
        begins(url, server_name, timeout, begun),
    ensures
        begun is Ok <==> {
            &&& url.scheme == "https"@ || url.scheme == "rtsps"@
            &&& url.host is Some
            &&& url.path.len() == 0 || url.path == seq!['/']
            &&& url.query is None && url.fragment is None
            &&& url.username.len() == 0 && url.password is None
            &&& timeout.secs > 0 || timeout.nanos > 0
            &&& timeout.secs * 1_000_000_000 + timeout.nanos <= 30 * 1_000_000_000
        },
        begun matches Err(error) ==> error == Error::Configuration,
        begun matches Ok((observation, action)) ==> {
            &&& observation.stage == ObserveStage::Connecting
            &&& observation.timeout == timeout
            &&& server_name matches Some(name) ==> observation.name@ == name
            &&& server_name is None ==> observation.name@ == unbracketed(url.host->0)
            &&& observation.name_valid == is_server_name(observation.name@)
            &&& action matches ObserveAction::Connect { host, port, timeout: limit }
            &&& host@ == unbracketed(url.host->0)
            &&& limit == timeout
            &&& url.port matches Some(own) ==> port == own
            &&& url.port is None && url.scheme == "https"@ ==> port == 443
            &&& url.port is None && url.scheme == "rtsps"@ ==> port == 322
        },
{
    reveal_strlit("");
    reveal_strlit("/");
    reveal_strlit("https");
    reveal_strlit("rtsps");
    assert("/"@ =~= seq!['/']);
    assert(""@ =~= Seq::<char>::empty());
    assert("https"@[0] != "rtsps"@[0]);
    if url.path.len() == 0 {
        assert(url.path =~= ""@);
    }
    if url.username.len() == 0 {
        assert(url.username =~= ""@);
    }
}

/// Once connected, an observation asks for its time limit; with the limit set, it
/// begins TLS under its server name, if that is one.
pub proof fn law_connection_leads_to_tls(plan: ObservePlan)
    ensures
        observe_step(ObserveStage::Connecting, plan, ObserveEvent::Connected(true)) == (ObserveStep {
            stage: ObserveStage::SettingTimeouts,
            outcome: Ok(ObserveActionView::SetTimeouts { timeout: plan.timeout }),
        }),
        plan.name_valid ==> observe_step(
            ObserveStage::SettingTimeouts,
            plan,
            ObserveEvent::TimeoutsSet(true),
        ) == (ObserveStep {
            stage: ObserveStage::StartingTls,
            outcome: Ok(ObserveActionView::StartTls { name: plan.name }),
        }),
        !plan.name_valid ==> observe_step(
            ObserveStage::SettingTimeouts,
            plan,
            ObserveEvent::TimeoutsSet(true),
        ) == (ObserveStep { stage: ObserveStage::Finished, outcome: Err(Error::Configuration) }),
{
}

/// Whatever is received is processed, in reads of any size. Only a read of nothing is
/// a failure.
pub proof fn law_reads_of_any_size_are_processed(plan: ObservePlan, count: usize)
    ensures
        count > 0 ==> observe_step(
            ObserveStage::Reading,
            plan,
            ObserveEvent::Received(Some(count)),
        ) == (ObserveStep {
            stage: ObserveStage::Processing,
            outcome: Ok(ObserveActionView::ProcessPackets),
        }),
        count == 0 ==> observe_step(
            ObserveStage::Reading,
            plan,
            ObserveEvent::Received(Some(count)),
        ) == (ObserveStep { stage: ObserveStage::Finished, outcome: Err(Error::Transport) }),
{
}

/// As long as the handshake goes on, what waits to be written is written first, and
/// what is to be read is read next; with neither to do, the connection is looked at
/// again. Once the handshake is over, the digest is taken.
pub proof fn law_handshake_goes_on_until_it_is_over(
    stage: ObserveStage,
    plan: ObservePlan,
    event: ObserveEvent,
    status: TlsStatus,
)
    requires
        stage == ObserveStage::StartingTls && event == ObserveEvent::TlsStarted(status) || stage
            == ObserveStage::Processing && event == ObserveEvent::Processed(Some(status)) || stage
            == ObserveStage::Waiting && event == ObserveEvent::Polled(status) || stage
            == ObserveStage::Writing && event == ObserveEvent::Written(Some(status)),
    ensures
        ({
            let step = observe_step(stage, plan, event);
            let writes = ObserveStep {
                stage: ObserveStage::Writing,
                outcome: Ok(ObserveActionView::WriteTls),
            };
            let reads = ObserveStep {
                stage: ObserveStage::Reading,
                outcome: Ok(ObserveActionView::ReadTls),
            };
            let polls = ObserveStep {
                stage: ObserveStage::Waiting,
                outcome: Ok(ObserveActionView::Poll),
            };
            let takes = ObserveStep {
                stage: ObserveStage::TakingDigest,
                outcome: Ok(ObserveActionView::TakeDigest),
            };
            let open = status.handshaking || stage == ObserveStage::Writing;
            &&& open && status.wants_write ==> step == writes
            &&& open && !status.wants_write && status.wants_read ==> step == reads
            &&& status.handshaking && !status.wants_write && !status.wants_read ==> step == polls
            &&& !status.handshaking && !open ==> step == takes
            &&& !status.handshaking && !status.wants_write && !status.wants_read ==> step == takes
        }),
{
}

/// A digest that was taken is given as a fingerprint, and with that the observation is
/// over.
pub proof fn law_digest_becomes_the_fingerprint(plan: ObservePlan, digest: [u8; 32])
    ensures
        observe_step(ObserveStage::TakingDigest, plan, ObserveEvent::Digest(Some(digest))) == (
        ObserveStep {
            stage: ObserveStage::Finished,
            outcome: Ok(ObserveActionView::Done { fingerprint: hex_text(digest@) }),
        }),
{
}

/// Whatever is no good answer to the last request ends the observation: as a
/// configuration error where the TLS configuration or the server name is refused, and
/// as a failure of the transport everywhere else.
pub proof fn law_bad_answers_end_the_observation(
    stage: ObserveStage,
    plan: ObservePlan,
    event: ObserveEvent,
)
    ensures
        observe_step(stage, plan, event).outcome is Ok <==> {
            ||| stage == ObserveStage::Connecting && event == ObserveEvent::Connected(true)
            ||| stage == ObserveStage::SettingTimeouts && event == ObserveEvent::TimeoutsSet(true)
                && plan.name_valid
            ||| stage == ObserveStage::StartingTls && event is TlsStarted
            ||| stage == ObserveStage::Writing && (event matches ObserveEvent::Written(Some(_)))
            ||| stage == ObserveStage::Reading && (event matches ObserveEvent::Received(Some(n)) && n
                > 0)
            ||| stage == ObserveStage::Processing && (event matches ObserveEvent::Processed(Some(_)))
            ||| stage == ObserveStage::Waiting && event is Polled
            ||| stage == ObserveStage::TakingDigest && (event matches ObserveEvent::Digest(Some(_)))
        },
        observe_step(stage, plan, event).outcome matches Err(error) ==> {
            &&& observe_step(stage, plan, event).stage == ObserveStage::Finished
            &&& error == Error::Configuration || error == Error::Transport
            &&& error == Error::Configuration <==> stage == ObserveStage::StartingTls && event
                == ObserveEvent::TlsConfigRefused || stage == ObserveStage::SettingTimeouts && event
                == ObserveEvent::TimeoutsSet(true)
        },
{
}

/// Whether one event comes after another in an observation that goes well: each is a
/// good answer to what the one before led to.
pub open spec fn goes_well(before: ObserveEvent, after: ObserveEvent) -> bool {
    match before {
        ObserveEvent::Connected(done) => done && after == ObserveEvent::TimeoutsSet(true),
        ObserveEvent::TimeoutsSet(done) => done && after is TlsStarted,
        ObserveEvent::Received(count) => count is Some && count->0 > 0 && (
        after matches ObserveEvent::Processed(Some(_))),
        ObserveEvent::Written(status) => status is Some && (if status->0.wants_write {
            after matches ObserveEvent::Written(Some(_))
        } else if status->0.wants_read {
            after matches ObserveEvent::Received(Some(n)) && n > 0
        } else if status->0.handshaking {
            after is Polled
        } else {
            after matches ObserveEvent::Digest(Some(_))
        }),
        ObserveEvent::TlsStarted(status) => round_goes_well(status, after),
        ObserveEvent::Processed(status) => status is Some && round_goes_well(status->0, after),
        ObserveEvent::Polled(status) => round_goes_well(status, after),
        _ => false,
    }
}

/// Whether an event comes after the start of a round that goes well.
pub open spec fn round_goes_well(status: TlsStatus, after: ObserveEvent) -> bool {
    if !status.handshaking {
        after matches ObserveEvent::Digest(Some(_))
    } else if status.wants_write {
        after matches ObserveEvent::Written(Some(_))
    } else if status.wants_read {
        after matches ObserveEvent::Received(Some(n)) && n > 0
    } else {
        after is Polled
    }
}

/// The stage at which an event is a good answer.
spec fn stage_of(event: ObserveEvent) -> ObserveStage {
    match event {
        ObserveEvent::Connected(_) => ObserveStage::Connecting,
        ObserveEvent::TimeoutsSet(_) => ObserveStage::SettingTimeouts,
        ObserveEvent::TlsStarted(_) => ObserveStage::StartingTls,
        ObserveEvent::Written(_) => ObserveStage::Writing,
        ObserveEvent::Received(_) => ObserveStage::Reading,
        ObserveEvent::Processed(_) => ObserveStage::Processing,
        ObserveEvent::Polled(_) => ObserveStage::Waiting,
        ObserveEvent::Digest(_) => ObserveStage::TakingDigest,
        _ => ObserveStage::Finished,
    }
}

/// Every observation that goes well comes to its fingerprint, from any stage on.
proof fn lemma_good_runs_end(plan: ObservePlan, events: Seq<ObserveEvent>, digest: [u8; 32])
    requires
        plan.name_valid,
        events.len() > 0,
        forall|i: int|
            0 <= i < events.len() - 1 ==> goes_well(#[trigger] events[i], events[i + 1]),
        events.last() == ObserveEvent::Digest(Some(digest)),
    ensures
        observe_run(stage_of(events[0]), plan, events).outcome == Ok::<_, Error>(
            ObserveActionView::Done { fingerprint: hex_text(digest@) },
        ),
    decreases events.len(),
{
    if events.len() > 1 {
        let rest = events.drop_first();
        assert(goes_well(events[0], events[1]));
        assert(rest[0] == events[1]);
        assert(rest.last() == events.last());
        assert forall|i: int| 0 <= i < rest.len() - 1 implies goes_well(
            #[trigger] rest[i],
            rest[i + 1],
        ) by {
            assert(goes_well(events[i + 1], events[i + 1 + 1]));
        }
        lemma_good_runs_end(plan, rest, digest);
        assert(observe_step(stage_of(events[0]), plan, events[0]).stage == stage_of(events[1]));
    }
}

/// An observation that connects, that gets a good answer to everything it asks for,
/// and whose handshake comes to an end, gives the fingerprint of the digest that was
/// seen, however many rounds and reads of whatever size it takes.
pub proof fn law_good_observations_give_the_fingerprint(
    plan: ObservePlan,
    events: Seq<ObserveEvent>,
    digest: [u8; 32],
)
    requires
        plan.name_valid,
        events.len() > 0,
        events[0] == ObserveEvent::Connected(true),
        forall|i: int|
            0 <= i < events.len() - 1 ==> goes_well(#[trigger] events[i], events[i + 1]),
        events.last() == ObserveEvent::Digest(Some(digest)),
    ensures
        observe_run(ObserveStage::Connecting, plan, events).outcome == Ok::<_, Error>(
            ObserveActionView::Done { fingerprint: hex_text(digest@) },
        ),
{
    lemma_good_runs_end(plan, events, digest);
}

/// Whether an event shows that the handshake is over.
pub open spec fn shows_handshake_over(event: ObserveEvent) -> bool {
    match event {
        ObserveEvent::TlsStarted(status) => !status.handshaking,
        ObserveEvent::Written(Some(status)) => !status.handshaking,
        ObserveEvent::Processed(Some(status)) => !status.handshaking,
        ObserveEvent::Polled(status) => !status.handshaking,
        _ => false,
    }
}

/// The certificate is taken only once the handshake, and with it the check of
/// the handshake's signature, is over.
pub proof fn law_digest_follows_handshake(
    stage: ObserveStage,
    plan: ObservePlan,
    event: ObserveEvent,
)
    requires
        observe_step(stage, plan, event).outcome == Ok::<_, Error>(
            ObserveActionView::TakeDigest,
        ),
    ensures
        shows_handshake_over(event),
{
}

/// The last step of an observation that learns of these events one after the
/// other.
pub open spec fn observe_run(
    stage: ObserveStage,
    plan: ObservePlan,
    events: Seq<ObserveEvent>,
) -> ObserveStep
    decreases events.len(),
{
    if events.len() == 0 {
        ObserveStep { stage, outcome: Err(Error::Transport) }
    } else if events.len() == 1 {
        observe_step(stage, plan, events[0])
    } else {
        observe_run(
            observe_step(stage, plan, events[0]).stage,
            plan,
            events.drop_first(),
        )
    }
}

/// Whether one of some events shows that the handshake is over.
pub open spec fn handshake_ended(events: Seq<ObserveEvent>) -> bool {
    exists|i: int| 0 <= i < events.len() && shows_handshake_over(#[trigger] events[i])
}

/// Whether an observation at this stage has yet to learn that the handshake is
/// over.
spec fn before_handshake(stage: ObserveStage) -> bool {
    stage != ObserveStage::TakingDigest && stage != ObserveStage::Finished
}

/// An observation that is done was last told of a digest, and unless the handshake
/// was over at the start it was told of that too.
proof fn lemma_done_after_handshake(
    stage: ObserveStage,
    plan: ObservePlan,
    events: Seq<ObserveEvent>,
)
    requires
        ({
            let last = observe_run(stage, plan, events).outcome;
            last is Ok && last->Ok_0 is Done
        }),
    ensures
        events.len() > 0,
        events.last() matches ObserveEvent::Digest(Some(digest)) && observe_run(
            stage,
            plan,
            events,
        ).outcome->Ok_0->fingerprint == hex_text(digest@),
        before_handshake(stage) ==> handshake_ended(events),
        stage == ObserveStage::Connecting || stage == ObserveStage::SettingTimeouts
            ==> plan.name_valid,
    decreases events.len(),
{
    if events.len() > 1 {
        let rest = events.drop_first();
        let next = observe_step(stage, plan, events[0]).stage;
        lemma_done_after_handshake(next, plan, rest);
        assert(rest.last() == events.last());
        if before_handshake(stage) {
            if before_handshake(next) {
                let i = choose|i: int|
                    0 <= i < rest.len() && shows_handshake_over(#[trigger] rest[i]);
                assert(events[i + 1] == rest[i]);
            } else if next == ObserveStage::TakingDigest {
                assert(shows_handshake_over(events[0]));
            } else {
                lemma_finished_is_never_done(plan, rest);
            }
        }
    }
}

/// An observation that has ended never becomes done.
proof fn lemma_finished_is_never_done(
    plan: ObservePlan,
    events: Seq<ObserveEvent>,
)
    ensures
        observe_run(ObserveStage::Finished, plan, events).outcome is Err,
    decreases events.len(),
{
    if events.len() > 1 {
        lemma_finished_is_never_done(plan, events.drop_first());
    }
}

/// An observation gives a fingerprint in no other way than this: under a valid
/// server name, after the handshake has come to its end, and with the digest that
/// was seen.
pub proof fn law_observation_is_done_only_after_the_handshake(
    plan: ObservePlan,
    events: Seq<ObserveEvent>,
)
    requires
        ({
            let last = observe_run(ObserveStage::Connecting, plan, events).outcome;
            last is Ok && last->Ok_0 is Done
        }),
    ensures
        plan.name_valid,
        handshake_ended(events),
        events.last() matches ObserveEvent::Digest(Some(digest)) && observe_run(
            ObserveStage::Connecting,
            plan,
            events,
        ).outcome->Ok_0->fingerprint == hex_text(digest@),
{
    lemma_done_after_handshake(ObserveStage::Connecting, plan, events);
}

/// The limit that is put on reading and writing is the one that the observation was
/// begun with.
pub proof fn law_time_limit_is_the_one_judged(
    url: ConsoleUrlView,
    server_name: Option<Seq<char>>,
    timeout: Timeout,
    begun: (Observation, ObserveAction),
    stage: ObserveStage,
    event: ObserveEvent,
    set: Timeout,
)
    requires
        begins(url, server_name, timeout, Ok(begun)),
        observe_step(stage, begun.0.plan(), event).outcome == Ok::<_, Error>(
            ObserveActionView::SetTimeouts { timeout: set },
        ),
    ensures
        set == timeout,
        0 < nanoseconds(set) <= 30_000_000_000,
{
}

/// An observation that has failed or is done stays so.
pub proof fn law_observation_ends_once(
    stage: ObserveStage,
    plan: ObservePlan,
    event: ObserveEvent,
    later: ObserveEvent,
)
    requires
        ({
            let outcome = observe_step(stage, plan, event).outcome;
            outcome is Err || outcome->Ok_0 is Done
        }),
    ensures
        observe_step(stage, plan, event).stage == ObserveStage::Finished,
        observe_step(ObserveStage::Finished, plan, later) == observe_fail(
            Error::Transport,
        ),
{
}

/// A fingerprint that an observation gives is a pin, and it stands for the
/// digest that was seen.
pub proof fn law_observed_fingerprint_is_a_pin(
    plan: ObservePlan,
    digest: [u8; 32],
)
    ensures
        observe_step(
            ObserveStage::TakingDigest,
            plan,
            ObserveEvent::Digest(Some(digest)),
        ).outcome matches Ok(ObserveActionView::Done { fingerprint }) && is_pin(fingerprint)
            && pin_bytes(fingerprint) == digest@,
{
    law_pin_reads_back(digest@);
}

} // verus!

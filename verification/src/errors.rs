//! What can go wrong at the console, and how each failure is put to the host.
use vstd::prelude::*;

verus! {

/// A failure at the console.
#[derive(Clone, Copy, PartialEq, Eq, Structural, Debug)]
pub enum Error {
    /// A setting or a request that cannot be right.
    Configuration,
    /// The console does not know the API key.
    Authentication,
    /// The API key may not do this.
    Permission,
    /// No such camera.
    NotFound,
    /// The console or the camera is offline.
    Offline,
    /// Too many requests.
    RateLimited,
    /// The camera's low-quality stream is switched off.
    StreamNotEnabled,
    /// The time for this is over.
    Expired,
    /// An answer that cannot be read.
    Response,
    /// An answer with an unexpected status.
    Status(u16),
    /// The media certificate is not the pinned one.
    MediaTls,
    /// The connection failed.
    Transport,
    /// The media address does not resolve.
    MediaResolve,
    /// The media port does not answer.
    MediaConnect,
    /// The media connection failed while writing.
    MediaWrite,
    /// The media connection failed while reading.
    MediaRead,
    /// The media OPTIONS request failed.
    MediaOptions,
    /// The media DESCRIBE request failed.
    MediaDescribe,
    /// The media SETUP request failed.
    MediaSetup,
    /// The media PLAY request failed.
    MediaPlay,
}

/// The kinds of failure that the host distinguishes.
#[derive(Clone, Copy, PartialEq, Eq, Structural, Debug)]
pub enum HostErrorKind {
    Invalid,
    Unpaired,
    Rejected,
    Transport,
    Timeout,
    Protocol,
    Unsupported,
}

/// Why something was refused, for the person in front of the host.
#[derive(Debug)]
pub enum Reason {
    /// A sentence.
    Message { text: String },
    /// A setting that has to be entered again.
    InvalidSetting { field: String, text: String },
}

/// A reason as plain text.
pub enum ReasonView {
    Message { text: Seq<char> },
    InvalidSetting { field: Seq<char>, text: Seq<char> },
}

impl View for Reason {
    type V = ReasonView;

    open spec fn view(&self) -> ReasonView {
        match self {
            Reason::Message { text } => ReasonView::Message { text: text@ },
            Reason::InvalidSetting { field, text } => ReasonView::InvalidSetting {
                field: field@,
                text: text@,
            },
        }
    }
}

/// A failure as the host sees it.
#[derive(Debug)]
pub struct HostError {
    pub kind: HostErrorKind,
    pub reason: Option<Reason>,
}

/// A host failure with its reason as plain text.
pub struct HostErrorView {
    pub kind: HostErrorKind,
    pub reason: Option<ReasonView>,
}

impl View for HostError {
    type V = HostErrorView;

    open spec fn view(&self) -> HostErrorView {
        HostErrorView {
            kind: self.kind,
            reason: match self.reason {
                Some(reason) => Some(reason@),
                None => None,
            },
        }
    }
}

/// A host failure without a reason.
pub open spec fn bare(kind: HostErrorKind) -> HostErrorView {
    HostErrorView { kind, reason: None }
}

/// A host failure with a sentence.
pub open spec fn because(kind: HostErrorKind, text: Seq<char>) -> HostErrorView {
    HostErrorView { kind, reason: Some(ReasonView::Message { text }) }
}

/// The refusal of a setting.
pub open spec fn invalid_setting(field: Seq<char>, text: Seq<char>) -> HostErrorView {
    HostErrorView {
        kind: HostErrorKind::Invalid,
        reason: Some(ReasonView::InvalidSetting { field, text }),
    }
}

/// How a failure at the console is put to the host.
pub open spec fn refusal(error: Error) -> HostErrorView {
    match error {
        Error::Configuration => bare(HostErrorKind::Invalid),
        Error::Authentication | Error::Permission => because(
            HostErrorKind::Unpaired,
            "Protect rejected the API key. Enter a new key and connect again"@,
        ),
        Error::NotFound => because(
            HostErrorKind::Rejected,
            "That camera is no longer on this NVR"@,
        ),
        Error::RateLimited => because(
            HostErrorKind::Rejected,
            "Protect is busy. Try again shortly"@,
        ),
        Error::StreamNotEnabled => because(
            HostErrorKind::Rejected,
            "Enable the camera's low-quality RTSPS stream in UniFi Protect"@,
        ),
        Error::Expired => bare(HostErrorKind::Timeout),
        Error::Response | Error::Status(_) => bare(HostErrorKind::Protocol),
        Error::MediaTls => because(
            HostErrorKind::Unpaired,
            "The NVR media certificate changed. Connect the NVR again"@,
        ),
        _ => bare(HostErrorKind::Transport),
    }
}

/// What becomes of an outcome at the console: success stays, a failure is put
/// to the host.
pub open spec fn settled<T>(outcome: Result<T, Error>, seen: Result<T, HostError>) -> bool {
    match outcome {
        Ok(value) => seen == Ok::<T, HostError>(value),
        Err(error) => seen matches Err(e) && e@ == refusal(error),
    }
}

/// The host is told to pair again exactly when the key or the media certificate
/// is no longer good.
pub proof fn law_pair_again_iff_key_or_certificate(error: Error)
    ensures
        refusal(error).kind == HostErrorKind::Unpaired <==> {
            ||| error == Error::Authentication
            ||| error == Error::Permission
            ||| error == Error::MediaTls
        },
{
}

/// Every refusal that asks for something to be done says what.
pub proof fn law_refusals_to_act_on_carry_a_reason(error: Error)
    ensures
        (refusal(error).kind == HostErrorKind::Unpaired || refusal(error).kind
            == HostErrorKind::Rejected) <==> refusal(error).reason is Some,
{
}

/// What kind of failure the host is told of: a configuration error is invalid, an
/// unreadable answer or any unexpected status breaks the protocol, what has expired
/// has timed out, and what can be put right at the console is rejected. Whatever is
/// left is a failure of the transport.
pub proof fn law_failures_are_told_apart(error: Error)
    ensures
        refusal(error).kind == HostErrorKind::Invalid <==> error == Error::Configuration,
        refusal(error).kind == HostErrorKind::Timeout <==> error == Error::Expired,
        refusal(error).kind == HostErrorKind::Protocol <==> (error == Error::Response
            || error is Status),
        refusal(error).kind == HostErrorKind::Rejected <==> (error == Error::NotFound || error
            == Error::RateLimited || error == Error::StreamNotEnabled),
        refusal(error).kind != HostErrorKind::Unsupported,
{
}

/// Every reason says which failure it is given for.
pub proof fn law_reasons_tell_failures_apart(error: Error, text: Seq<char>)
    ensures
        refusal(error).reason == Some(ReasonView::Message { text }) <==> {
            ||| (error == Error::Authentication || error == Error::Permission) && text
                == "Protect rejected the API key. Enter a new key and connect again"@
            ||| error == Error::NotFound && text == "That camera is no longer on this NVR"@
            ||| error == Error::RateLimited && text == "Protect is busy. Try again shortly"@
            ||| error == Error::StreamNotEnabled && text
                == "Enable the camera's low-quality RTSPS stream in UniFi Protect"@
            ||| error == Error::MediaTls && text
                == "The NVR media certificate changed. Connect the NVR again"@
        },
        !(refusal(error).reason matches Some(ReasonView::InvalidSetting { .. })),
{
}

/// The refusal of a setting is invalid input, and it names the setting and what to
/// enter.
pub proof fn law_refused_setting_names_itself(field: Seq<char>, text: Seq<char>)
    ensures
        invalid_setting(field, text).kind == HostErrorKind::Invalid,
        invalid_setting(field, text).reason == Some(ReasonView::InvalidSetting { field, text }),
{
}

/// A failure loses nothing as plain text.
pub proof fn law_plain_failure_is_the_failure(error: HostError)
    ensures
        error@.kind == error.kind,
        match error.reason {
            None => error@.reason is None,
            Some(Reason::Message { text }) => error@.reason == Some(
                ReasonView::Message { text: text@ },
            ),
            Some(Reason::InvalidSetting { field, text }) => error@.reason == Some(
                ReasonView::InvalidSetting { field: field@, text: text@ },
            ),
        },
{
}

/// A sentence as a reason.
pub fn reason(text: &str) -> (reason: Reason)
    ensures
        reason@ == (ReasonView::Message { text: text@ }),
{
    Reason::Message { text: text.to_owned() }
}

impl HostError {
    /// A failure without a reason.
    pub fn bare(kind: HostErrorKind) -> (error: HostError)
        ensures
            error@ == bare(kind),
    {
        HostError { kind, reason: None }
    }

    /// A failure with a reason.
    pub fn because(kind: HostErrorKind, reason: Reason) -> (error: HostError)
        ensures
            error@ == (HostErrorView { kind, reason: Some(reason@) }),
    {
        HostError { kind, reason: Some(reason) }
    }

    /// The refusal of a setting.
    pub fn invalid_setting(field: &str, text: &str) -> (error: HostError)
        ensures
            error@ == invalid_setting(field@, text@),
    {
        HostError {
            kind: HostErrorKind::Invalid,
            reason: Some(
                Reason::InvalidSetting { field: field.to_owned(), text: text.to_owned() },
            ),
        }
    }
}

/// Puts a failure at the console to the host.
pub fn refused(error: Error) -> (seen: HostError)
    ensures
        seen@ == refusal(error),
        seen.kind == refusal(error).kind,
        error is Status ==> seen.kind == HostErrorKind::Protocol && seen.reason is None,
{
    match error {
        Error::Configuration => HostError::bare(HostErrorKind::Invalid),
        Error::Authentication | Error::Permission => HostError::because(
            HostErrorKind::Unpaired,
            reason("Protect rejected the API key. Enter a new key and connect again"),
        ),
        Error::NotFound => HostError::because(
            HostErrorKind::Rejected,
            reason("That camera is no longer on this NVR"),
        ),
        Error::Offline => HostError::bare(HostErrorKind::Transport),
        Error::RateLimited => HostError::because(
            HostErrorKind::Rejected,
            reason("Protect is busy. Try again shortly"),
        ),
        Error::StreamNotEnabled => HostError::because(
            HostErrorKind::Rejected,
            reason("Enable the camera's low-quality RTSPS stream in UniFi Protect"),
        ),
        Error::Expired => HostError::bare(HostErrorKind::Timeout),
        Error::Response | Error::Status(_) => HostError::bare(HostErrorKind::Protocol),
        Error::MediaTls => HostError::because(
            HostErrorKind::Unpaired,
            reason("The NVR media certificate changed. Connect the NVR again"),
        ),
        Error::Transport
        | Error::MediaResolve
        | Error::MediaConnect
        | Error::MediaWrite
        | Error::MediaRead
        | Error::MediaOptions
        | Error::MediaDescribe
        | Error::MediaSetup
        | Error::MediaPlay => HostError::bare(HostErrorKind::Transport),
    }
}

/// Puts the failure of an outcome to the host and keeps a success.
pub fn settle<T>(outcome: Result<T, Error>) -> (seen: Result<T, HostError>)
    ensures
        settled(outcome, seen),
        match outcome {
            Ok(value) => seen == Ok::<T, HostError>(value),
            Err(error) => seen matches Err(e) && e@ == refusal(error),
        },
{
    match outcome {
        Ok(value) => Ok(value),
        Err(error) => Err(refused(error)),
    }
}

} // verus!

use couch_unifi_protect::errors::{reason, refused, settle, Error, HostErrorKind, Reason};

fn seen(error: Error) -> (HostErrorKind, Option<String>) {
    let host = refused(error);
    let text = host.reason.map(|reason| match reason {
        Reason::Message { text } => text,
        Reason::InvalidSetting { .. } => panic!("no setting is at fault"),
    });
    (host.kind, text)
}

#[test]
fn every_failure_is_put_to_the_host() {
    let key = "Protect rejected the API key. Enter a new key and connect again";
    for (error, kind, text) in [
        (Error::Configuration, HostErrorKind::Invalid, None),
        (Error::Authentication, HostErrorKind::Unpaired, Some(key)),
        (Error::Permission, HostErrorKind::Unpaired, Some(key)),
        (
            Error::NotFound,
            HostErrorKind::Rejected,
            Some("That camera is no longer on this NVR"),
        ),
        (Error::Offline, HostErrorKind::Transport, None),
        (
            Error::RateLimited,
            HostErrorKind::Rejected,
            Some("Protect is busy. Try again shortly"),
        ),
        (
            Error::StreamNotEnabled,
            HostErrorKind::Rejected,
            Some("Enable the camera's low-quality RTSPS stream in UniFi Protect"),
        ),
        (Error::Expired, HostErrorKind::Timeout, None),
        (Error::Response, HostErrorKind::Protocol, None),
        (Error::Status(500), HostErrorKind::Protocol, None),
        (
            Error::MediaTls,
            HostErrorKind::Unpaired,
            Some("The NVR media certificate changed. Connect the NVR again"),
        ),
        (Error::Transport, HostErrorKind::Transport, None),
        (Error::MediaResolve, HostErrorKind::Transport, None),
        (Error::MediaConnect, HostErrorKind::Transport, None),
        (Error::MediaWrite, HostErrorKind::Transport, None),
        (Error::MediaRead, HostErrorKind::Transport, None),
        (Error::MediaOptions, HostErrorKind::Transport, None),
        (Error::MediaDescribe, HostErrorKind::Transport, None),
        (Error::MediaSetup, HostErrorKind::Transport, None),
        (Error::MediaPlay, HostErrorKind::Transport, None),
    ] {
        assert_eq!(seen(error), (kind, text.map(|text| text.to_string())));
    }
}

#[test]
fn a_success_stays_and_a_failure_is_put_to_the_host() {
    assert_eq!(settle::<u8>(Ok(7)).unwrap(), 7);
    assert_eq!(
        settle::<u8>(Err(Error::Expired)).unwrap_err().kind,
        HostErrorKind::Timeout
    );
    assert!(matches!(reason("why"), Reason::Message { text } if text == "why"));
}

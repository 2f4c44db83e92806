use couch_unifi_protect::cameras::Camera;
use couch_unifi_protect::certificate::{ObservedVerifier, PinnedVerifier};
use couch_unifi_protect::connection::{
    CameraAction, CameraEvent, CameraOpening, ChildComponent, DeviceKind, ProtectConnection,
    Quality, SnapshotChannel, VIEW_SECONDS,
};
use couch_unifi_protect::enrollment::{
    pinned, EnrollAction, EnrollEvent, Enrollment, PinnedLocal,
};
use couch_unifi_protect::errors::{Error, HostError, HostErrorKind};
use couch_unifi_protect::location::IpAddress;
use couch_unifi_protect::settings::{Field, ProtectCredential, ProtectSettings};

fn settings(address: &str) -> ProtectSettings {
    ProtectSettings {
        address: address.to_string(),
        api_key: "fixture-private-key".to_string(),
    }
}

fn credential() -> ProtectCredential {
    ProtectCredential {
        api_certificate_sha256: "aa".repeat(32),
        media_certificate_sha256: "bb".repeat(32),
    }
}

fn enrollment(address: &str) -> Enrollment {
    match ProtectConnection::pair_start(&settings(address), true) {
        Ok(enrollment) => enrollment,
        Err(_) => panic!("pairing should start"),
    }
}

fn failure<T>(outcome: Result<T, HostError>) -> HostErrorKind {
    match outcome {
        Ok(_) => panic!("a failure was expected"),
        Err(error) => error.kind,
    }
}

fn same_local(a: &PinnedLocal, b: &PinnedLocal) -> bool {
    a.address == b.address
        && a.api_key == b.api_key
        && a.api_certificate_sha256 == b.api_certificate_sha256
        && a.media_certificate_sha256 == b.media_certificate_sha256
}

fn observed(action: Result<EnrollAction, HostError>) -> (String, Option<String>, u64) {
    match action {
        Ok(EnrollAction::Observe {
            url,
            server_name,
            timeout_secs,
        }) => (url, server_name, timeout_secs),
        _ => panic!("an observation was expected"),
    }
}

fn paired(address: &str) -> (PinnedLocal, Vec<Field>, String) {
    let mut flow = enrollment(address);
    observed(flow.step(EnrollEvent::Start));
    observed(flow.step(EnrollEvent::ApiCertificate(Ok("aa".repeat(32)))));
    let local = match flow.step(EnrollEvent::MediaCertificate(Ok("bb".repeat(32)))) {
        Ok(EnrollAction::Connect { local }) => local,
        _ => panic!("a connection was expected"),
    };
    assert!(matches!(
        flow.step(EnrollEvent::Connected(Ok(()))),
        Ok(EnrollAction::ListCameras)
    ));
    match flow.step(EnrollEvent::CamerasListed(Ok(()))) {
        Ok(EnrollAction::Done {
            credential,
            message,
        }) => {
            assert!(matches!(flow, Enrollment::Spent));
            (local, credential, message)
        }
        _ => panic!("pairing should be done"),
    }
}

#[test]
fn pairing_observes_both_certificates_first() {
    let mut flow = enrollment("192.0.2.8");
    let (url, name, seconds) = observed(flow.step(EnrollEvent::Start));
    assert_eq!(url, "https://192.0.2.8");
    assert_eq!(name, None);
    assert_eq!(seconds, 3);
    let (url, name, seconds) = observed(flow.step(EnrollEvent::ApiCertificate(Ok("a".into()))));
    assert_eq!(url, "rtsps://192.0.2.8:7441");
    assert_eq!(name.as_deref(), Some("unifi.local"));
    assert_eq!(seconds, 3);
}

#[test]
fn pairing_puts_version_6_addresses_in_brackets() {
    let mut flow = enrollment("FE80::0:1");
    assert_eq!(observed(flow.step(EnrollEvent::Start)).0, "https://[fe80::1]");
    assert_eq!(
        observed(flow.step(EnrollEvent::ApiCertificate(Ok("a".into())))).0,
        "rtsps://[fe80::1]:7441"
    );
}

#[test]
fn pairing_keeps_the_pins_that_were_observed() {
    let (local, credential, message) = paired("192.0.2.8");
    assert_eq!(local.address, IpAddress::V4(192, 0, 2, 8));
    assert_eq!(local.api_key, "fixture-private-key");
    assert_eq!(message, "Connected to UniFi Protect at 192.0.2.8");
    let kept = match ProtectCredential::parse(&credential) {
        Ok(kept) => kept,
        Err(_) => panic!("pairing leaves a credential"),
    };
    assert_eq!(kept.api_certificate_sha256, "aa".repeat(32));
    assert_eq!(kept.media_certificate_sha256, "bb".repeat(32));
    assert_eq!(local.api_certificate_sha256, kept.api_certificate_sha256);
    assert_eq!(local.media_certificate_sha256, kept.media_certificate_sha256);
}

#[test]
fn a_later_connection_uses_the_pins_of_pairing() {
    let (local, credential, _) = paired("192.0.2.8");
    match ProtectConnection::connect_with(&settings("192.0.2.8"), true, Some(&credential)) {
        Ok(connection) => assert!(same_local(&connection.settings, &local)),
        Err(_) => panic!("a paired console should connect"),
    }
    match pinned(&settings("192.0.2.8"), self::credential()) {
        Ok(made) => assert!(same_local(&made, &local)),
        Err(_) => panic!("the address can be read"),
    }
    assert_eq!(
        failure(pinned(&settings("nvr"), self::credential())),
        HostErrorKind::Invalid
    );
}

#[test]
fn failures_end_pairing() {
    let refused = |flow: &mut Enrollment, event: EnrollEvent, kind: HostErrorKind| {
        assert_eq!(failure(flow.step(event)), kind);
        assert!(matches!(flow, Enrollment::Spent));
        assert_eq!(failure(flow.step(EnrollEvent::Start)), HostErrorKind::Invalid);
    };
    let mut flow = Enrollment::Fresh {
        settings: settings("nvr"),
    };
    refused(&mut flow, EnrollEvent::Start, HostErrorKind::Invalid);
    let mut flow = enrollment("192.0.2.8");
    refused(
        &mut flow,
        EnrollEvent::CamerasListed(Ok(())),
        HostErrorKind::Invalid,
    );
    let mut flow = enrollment("192.0.2.8");
    observed(flow.step(EnrollEvent::Start));
    refused(
        &mut flow,
        EnrollEvent::ApiCertificate(Err(Error::Transport)),
        HostErrorKind::Transport,
    );
    let mut flow = enrollment("192.0.2.8");
    observed(flow.step(EnrollEvent::Start));
    observed(flow.step(EnrollEvent::ApiCertificate(Ok("a".into()))));
    refused(
        &mut flow,
        EnrollEvent::MediaCertificate(Err(Error::Expired)),
        HostErrorKind::Timeout,
    );
    let mut flow = Enrollment::Connecting {
        settings: settings("192.0.2.8"),
        api_pin: "a".into(),
        media_pin: "b".into(),
    };
    refused(
        &mut flow,
        EnrollEvent::Connected(Err(Error::Configuration)),
        HostErrorKind::Invalid,
    );
    let mut flow = Enrollment::Listing {
        settings: settings("192.0.2.8"),
        api_pin: "a".into(),
        media_pin: "b".into(),
    };
    refused(
        &mut flow,
        EnrollEvent::CamerasListed(Err(Error::Authentication)),
        HostErrorKind::Unpaired,
    );
}

#[test]
fn pairing_goes_by_the_address_that_it_is_given() {
    let mut flow = Enrollment::Fresh {
        settings: settings("nvr"),
    };
    let (url, _, _) = observed(flow.step_at(EnrollEvent::Start, Some(IpAddress::V4(10, 0, 0, 1))));
    assert_eq!(url, "https://10.0.0.1");
    let mut flow = Enrollment::Fresh {
        settings: settings("192.0.2.8"),
    };
    assert_eq!(
        failure(flow.step_at(EnrollEvent::Start, None)),
        HostErrorKind::Invalid
    );
}

#[test]
fn pairing_and_connecting_judge_the_settings_first() {
    assert_eq!(
        failure(ProtectConnection::pair_start(&settings("nvr"), true)),
        HostErrorKind::Invalid
    );
    assert_eq!(
        failure(ProtectConnection::pair_start(&settings("192.0.2.8"), false)),
        HostErrorKind::Invalid
    );
    assert_eq!(
        failure(ProtectConnection::connect_with(&settings("nvr"), true, None)),
        HostErrorKind::Invalid
    );
    assert_eq!(
        failure(ProtectConnection::connect_with(&settings("192.0.2.8"), false, None)),
        HostErrorKind::Invalid
    );
}

#[test]
fn an_unpaired_console_is_not_connected_to() {
    assert_eq!(
        failure(ProtectConnection::connect(&settings("192.0.2.8"), true)),
        HostErrorKind::Unpaired
    );
    assert_eq!(
        failure(ProtectConnection::connect(&settings("nvr"), true)),
        HostErrorKind::Invalid
    );
    assert_eq!(
        failure(ProtectConnection::connect_with(
            &settings("192.0.2.8"),
            true,
            Some(&Vec::new())
        )),
        HostErrorKind::Unpaired
    );
    assert_eq!(
        failure(ProtectConnection::connect_at(
            &settings("192.0.2.8"),
            None,
            true,
            Some(&credential().store())
        )),
        HostErrorKind::Invalid
    );
}

fn connection() -> ProtectConnection {
    match ProtectConnection::connect_with(
        &settings("192.0.2.8"),
        true,
        Some(&credential().store()),
    ) {
        Ok(connection) => connection,
        Err(_) => panic!("a paired console should connect"),
    }
}

#[test]
fn a_console_offers_cameras_and_nothing_else() {
    assert_eq!(ProtectConnection::kind(), "unifi-protect");
    assert_eq!(ProtectConnection::label(), "UniFi Protect");
    assert!(ProtectConnection::capabilities().is_empty());
    let kinds = ProtectConnection::child_kinds();
    assert_eq!(kinds.len(), 1);
    assert_eq!(kinds[0].kind, "camera");
    assert_eq!(kinds[0].label, "UniFi Protect camera");
    assert_eq!(kinds[0].device_kind, DeviceKind::Camera);
    assert_eq!(kinds[0].component, ChildComponent::Camera);
    assert!(kinds[0].capabilities.is_empty() && kinds[0].actions.is_empty());
    assert_eq!(failure(connection().execute()), HostErrorKind::Unsupported);
    assert_eq!(
        failure(connection().child_command("camera")),
        HostErrorKind::Unsupported
    );
}

#[test]
fn cameras_and_snapshots_come_from_the_console() {
    let camera = || Camera {
        id: "1".to_string(),
        name: Some("Porch".to_string()),
        model: "G4".to_string(),
    };
    let children = connection().children(Ok(vec![camera()]), 64).unwrap();
    assert_eq!(children[0].label, "Porch");
    assert_eq!(
        failure(connection().children(Err(Error::MediaTls), 64)),
        HostErrorKind::Unpaired
    );
    assert!(connection().child_status(Ok(vec![camera()]), "1").is_ok());
    assert_eq!(
        failure(connection().child_status(Ok(vec![camera()]), "2")),
        HostErrorKind::Rejected
    );
    assert_eq!(
        failure(connection().child_status(Err(Error::Response), "1")),
        HostErrorKind::Protocol
    );
    let asked = connection().snapshot_request("1");
    assert_eq!(asked.resource, "1");
    assert_eq!(asked.channel, SnapshotChannel::Main);
    assert_eq!(connection().camera_snapshot(Ok(vec![1, 2])).unwrap(), [1, 2]);
    assert_eq!(
        failure(connection().camera_snapshot(Err(Error::NotFound))),
        HostErrorKind::Rejected
    );
}

#[test]
fn live_views_are_of_low_quality_and_end_after_a_minute() {
    assert_eq!(VIEW_SECONDS, 60);
    let (mut opening, action) = connection().camera_open("camera-1");
    match action {
        CameraAction::RequestView {
            resource,
            quality,
            seconds,
        } => {
            assert_eq!(resource, "camera-1");
            assert_eq!(quality, Quality::Low);
            assert_eq!(seconds, 60);
        }
        _ => panic!("a view has to be requested first"),
    }
    assert!(matches!(
        opening.step(CameraEvent::ViewReady(Ok(()))),
        Ok(CameraAction::ConnectMedia)
    ));
    assert!(matches!(
        opening.step(CameraEvent::MediaReady(Ok(()))),
        Ok(CameraAction::Serve { seconds: 60 })
    ));
    assert_eq!(opening, CameraOpening::Finished);
}

#[test]
fn live_views_that_fail_are_put_to_the_host() {
    let mut opening = CameraOpening::Requesting;
    assert_eq!(
        failure(opening.step(CameraEvent::ViewReady(Err(Error::StreamNotEnabled)))),
        HostErrorKind::Rejected
    );
    assert_eq!(opening, CameraOpening::Finished);
    let mut opening = CameraOpening::Connecting;
    assert_eq!(
        failure(opening.step(CameraEvent::MediaReady(Err(Error::MediaTls)))),
        HostErrorKind::Unpaired
    );
    let mut opening = CameraOpening::Requesting;
    assert_eq!(
        failure(opening.step(CameraEvent::MediaReady(Ok(())))),
        HostErrorKind::Invalid
    );
}

#[test]
fn a_paired_console_has_to_keep_its_certificates() {
    let mut api = ObservedVerifier::new();
    api.verify_server_cert(b"the API certificate");
    let mut media = ObservedVerifier::new();
    media.verify_server_cert(b"the media certificate");
    let stored = ProtectCredential {
        api_certificate_sha256: api.fingerprint().unwrap(),
        media_certificate_sha256: media.fingerprint().unwrap(),
    }
    .store();
    let connected =
        match ProtectConnection::connect_with(&settings("192.0.2.8"), true, Some(&stored)) {
            Ok(connection) => connection.settings,
            Err(_) => panic!("a paired console should connect"),
        };
    let api = PinnedVerifier::from_pin(&connected.api_certificate_sha256).unwrap();
    let media = PinnedVerifier::from_pin(&connected.media_certificate_sha256).unwrap();
    assert!(api.verify_server_cert(b"the API certificate").is_ok());
    assert!(api.verify_server_cert(b"the media certificate").is_err());
    assert!(media.verify_server_cert(b"the media certificate").is_ok());
    assert!(media.verify_server_cert(b"a new media certificate").is_err());
}

#[test]
fn the_key_makes_no_difference_to_what_is_observed() {
    for key in ["one", "two"] {
        let mut flow = Enrollment::Fresh {
            settings: ProtectSettings {
                address: "192.0.2.8".to_string(),
                api_key: key.to_string(),
            },
        };
        assert_eq!(
            observed(flow.step(EnrollEvent::Start)),
            ("https://192.0.2.8".to_string(), None, 3)
        );
        assert_eq!(
            observed(flow.step(EnrollEvent::ApiCertificate(Ok("a".into())))).0,
            "rtsps://192.0.2.8:7441"
        );
        match flow.step(EnrollEvent::MediaCertificate(Ok("b".into()))) {
            Ok(EnrollAction::Connect { local }) => assert_eq!(local.api_key, key),
            _ => panic!("a connection was expected"),
        }
    }
}

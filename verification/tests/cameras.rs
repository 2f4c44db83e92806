use couch_unifi_protect::cameras::{
    camera_status, list_children, shown, sort_cameras, Camera,
};
use couch_unifi_protect::errors::HostErrorKind;

const MAX_CHILD_LABEL: usize = 64;

fn camera(id: &str, name: Option<&str>, model: &str) -> Camera {
    Camera {
        id: id.to_string(),
        name: name.map(|name| name.to_string()),
        model: model.to_string(),
    }
}

fn ids(cameras: &[Camera]) -> Vec<&str> {
    cameras.iter().map(|camera| camera.id.as_str()).collect()
}

#[test]
fn camera_names_are_printable_and_bounded() {
    assert_eq!(shown("Front\nyard", MAX_CHILD_LABEL), "Frontyard");
    assert_eq!(shown("", MAX_CHILD_LABEL), "UniFi camera");
    assert!(shown(&"é".repeat(100), MAX_CHILD_LABEL).len() <= MAX_CHILD_LABEL);
}

#[test]
fn labels_are_cut_between_characters() {
    assert_eq!(shown(&"é".repeat(100), 64), "é".repeat(32));
    assert_eq!(shown(&"é".repeat(100), 63), "é".repeat(31));
    assert_eq!(shown("a日本", 4), "a日");
    assert_eq!(shown("a日本", 3), "a");
    assert_eq!(shown("📷📷", 7), "📷");
    assert_eq!(shown("📷📷", 3), "");
    assert_eq!(shown("abc", 0), "");
    assert_eq!(shown("exact", 5), "exact");
}

#[test]
fn the_longest_beginning_that_fits_is_kept() {
    let name = "aé日📷zé日📷";
    for max in 0..=name.len() + 2 {
        let mut end = max.min(name.len());
        while !name.is_char_boundary(end) {
            end -= 1;
        }
        assert_eq!(shown(name, max), &name[..end]);
    }
}

#[test]
fn names_without_anything_to_print_get_the_general_word() {
    assert_eq!(shown("\n\t\u{7f}\u{9f}", MAX_CHILD_LABEL), "UniFi camera");
    assert_eq!(shown("\u{0}", 4), "UniFi camera");
}

#[test]
fn control_characters_are_those_of_the_standard_library() {
    for c in '\0'..=char::MAX {
        let mut name = String::from("a");
        name.push(c);
        let expected = if c.is_control() { "a" } else { name.as_str() };
        assert_eq!(shown(&name, MAX_CHILD_LABEL), expected);
    }
}

#[test]
fn labels_of_labels_are_the_same() {
    for name in ["", "\n", "Front\nyard", "é", "Garage 2", "\u{85}日"] {
        let once = shown(name, 12);
        assert_eq!(shown(&once, 12), once);
    }
}

#[test]
fn cameras_are_listed_by_name_and_then_by_id() {
    let sorted = sort_cameras(vec![
        camera("9", Some("Porch"), ""),
        camera("4", Some("Garage"), ""),
        camera("2", Some("Porch"), ""),
        camera("7", None, "G4"),
        camera("1", None, "G5"),
        camera("3", Some("Äpfel"), ""),
        camera("5", Some("garage"), ""),
    ]);
    assert_eq!(ids(&sorted), ["1", "7", "4", "2", "9", "5", "3"]);
}

#[test]
fn cameras_at_one_place_keep_their_order() {
    let sorted = sort_cameras(vec![
        camera("1", Some("b"), "first"),
        camera("1", Some(""), "second"),
        camera("1", None, "third"),
        camera("1", Some("b"), "fourth"),
        camera("1", Some(""), "fifth"),
    ]);
    let models: Vec<&str> = sorted.iter().map(|camera| camera.model.as_str()).collect();
    assert_eq!(models, ["second", "third", "fifth", "first", "fourth"]);
}

#[test]
fn the_order_is_that_of_a_stable_sort() {
    let names = ["", "a", "aa", "ab", "b", "é", "日", "📷", "Z", "~"];
    let mut cameras = Vec::new();
    let mut seed: u32 = 12345;
    for index in 0..60u32 {
        seed = seed.wrapping_mul(1664525).wrapping_add(1013904223);
        let name = names[(seed >> 16) as usize % names.len()];
        let id = ((seed >> 8) % 3).to_string();
        let name = if seed % 5 == 0 { None } else { Some(name) };
        cameras.push(camera(&id, name, &index.to_string()));
    }
    let mut expected: Vec<(String, String, String)> = cameras
        .iter()
        .map(|c| (c.name.clone().unwrap_or_default(), c.id.clone(), c.model.clone()))
        .collect();
    expected.sort_by(|a, b| a.0.cmp(&b.0).then(a.1.cmp(&b.1)));
    let found: Vec<(String, String, String)> = sort_cameras(cameras)
        .iter()
        .map(|c| (c.name.clone().unwrap_or_default(), c.id.clone(), c.model.clone()))
        .collect();
    assert_eq!(found, expected);
}

#[test]
fn distinct_cameras_are_listed_alike_in_any_arrival() {
    let one = sort_cameras(vec![
        camera("1", Some("a"), ""),
        camera("2", Some("a"), ""),
        camera("3", Some("b"), ""),
    ]);
    let other = sort_cameras(vec![
        camera("3", Some("b"), ""),
        camera("2", Some("a"), ""),
        camera("1", Some("a"), ""),
    ]);
    assert_eq!(ids(&one), ids(&other));
}

#[test]
fn cameras_are_labelled_by_name_or_model_or_general_word() {
    let children = list_children(
        vec![
            camera("c", Some("Yard\n"), "G4 Pro"),
            camera("a", None, "G4 Pro"),
            camera("b", None, ""),
            camera("d", Some(""), "Z"),
        ],
        MAX_CHILD_LABEL,
    );
    let seen: Vec<(&str, &str, &str)> = children
        .iter()
        .map(|child| (child.id.as_str(), child.kind.as_str(), child.label.as_str()))
        .collect();
    assert_eq!(
        seen,
        [
            ("a", "camera", "G4 Pro"),
            ("b", "camera", "UniFi camera"),
            ("d", "camera", "UniFi camera"),
            ("c", "camera", "Yard"),
        ]
    );
}

#[test]
fn no_cameras_make_no_children() {
    assert!(list_children(Vec::new(), MAX_CHILD_LABEL).is_empty());
}

#[test]
fn every_listed_camera_has_a_status() {
    let cameras = vec![camera("a", None, ""), camera("b", Some("x"), "")];
    assert!(camera_status(&cameras, "a").is_ok());
    assert!(camera_status(&cameras, "b").is_ok());
    let gone = camera_status(&cameras, "x").unwrap_err();
    assert_eq!(gone.kind, HostErrorKind::Rejected);
    assert!(gone.reason.is_none());
    assert!(camera_status(&Vec::new(), "").is_err());
}

use zink::application::same_text;
use zink::topic::{routable_path, split_topic, ROUTING_PREFIX};

fn strings(parts: &[&str]) -> Vec<String> {
    parts.iter().map(|s| s.to_string()).collect()
}

#[test]
fn a_topic_splits_at_its_slashes() {
    assert_eq!(split_topic("x/y/sensors"), strings(&["x", "y", "sensors"]));
    assert_eq!(
        split_topic("kaa/demo1/dcx-instance-1/endpoint/json"),
        strings(&["kaa", "demo1", "dcx-instance-1", "endpoint", "json"])
    );
    assert_eq!(split_topic("single"), strings(&["single"]));
}

#[test]
fn empty_segments_are_kept() {
    assert_eq!(split_topic(""), strings(&[""]));
    assert_eq!(split_topic("/"), strings(&["", ""]));
    assert_eq!(split_topic("//"), strings(&["", "", ""]));
    assert_eq!(split_topic("/a"), strings(&["", "a"]));
    assert_eq!(split_topic("a/"), strings(&["a", ""]));
    assert_eq!(split_topic("a//b"), strings(&["a", "", "b"]));
}

#[test]
fn splitting_counts_characters_not_bytes() {
    assert_eq!(split_topic("é/ü€/𝄞"), strings(&["é", "ü€", "𝄞"]));
    assert_eq!(split_topic("température/é/"), strings(&["température", "é", ""]));
}

#[test]
fn splitting_agrees_with_std() {
    for topic in ["", "/", "a", "a/b", "/a/b/", "a//b///c", "é/😀//x", "no slash at all"] {
        let expected: Vec<String> = topic.split('/').map(String::from).collect();
        assert_eq!(split_topic(topic), expected, "{:?}", topic);
    }
}

#[test]
fn the_routable_path_lies_behind_two_segments() {
    assert_eq!(ROUTING_PREFIX, 2);
    assert_eq!(routable_path("x/y/sensors"), Some(strings(&["sensors"])));
    assert_eq!(routable_path("x/y/sensors/1/2"), Some(strings(&["sensors", "1", "2"])));
    assert_eq!(routable_path("x/y"), Some(strings(&[])));
    assert_eq!(routable_path("x/y/"), Some(strings(&[""])));
    assert_eq!(routable_path("/"), Some(strings(&[])));
    assert_eq!(routable_path("//a"), Some(strings(&["a"])));
}

#[test]
fn a_topic_of_one_segment_has_no_routable_path() {
    assert_eq!(routable_path(""), None);
    assert_eq!(routable_path("x"), None);
    assert_eq!(routable_path("sensors"), None);
}

#[test]
fn same_text_compares_whole_texts() {
    assert!(same_text("", ""));
    assert!(same_text("sensors", "sensors"));
    assert!(same_text("é€", "é€"));
    assert!(!same_text("sensors", "sensor"));
    assert!(!same_text("sensor", "sensors"));
    assert!(!same_text("a", "b"));
    assert!(!same_text("é", "e"));
    assert!(!same_text("", "x"));
}

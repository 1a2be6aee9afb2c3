use std::sync::atomic::{AtomicUsize, Ordering};
use std::sync::{Arc, Mutex};

use zink::{Application, Extension, ZinkMessage};

struct TestExtension<'a> {
    pub expected_path: &'a [&'a str],
    pub expected_payload: &'a [u8],
    pub times_called: AtomicUsize,
}

impl<'a> TestExtension<'a> {
    pub fn new() -> TestExtension<'a> {
        TestExtension {
            expected_path: &[],
            expected_payload: &[],
            times_called: AtomicUsize::new(0),
        }
    }
}

impl<'a> Extension for TestExtension<'a> {
    fn handle_request(&self, path: &[&str], payload: &[u8]) {
        assert_eq!(self.expected_path, path);
        assert_eq!(self.expected_payload, payload);
        self.times_called.fetch_add(1, Ordering::Relaxed);
    }
}

/// Writes down, in a log shared with the test, who was called with what.
struct Recorder {
    name: &'static str,
    log: Arc<Mutex<Vec<(&'static str, Vec<String>, Vec<u8>)>>>,
}

impl Extension for Recorder {
    fn handle_request(&self, path: &[&str], payload: &[u8]) {
        let path: Vec<String> = path.iter().map(|s| s.to_string()).collect();
        self.log.lock().unwrap().push((self.name, path, payload.to_vec()));
    }
}

fn recorder(
    name: &'static str,
    log: &Arc<Mutex<Vec<(&'static str, Vec<String>, Vec<u8>)>>>,
) -> Box<Recorder> {
    Box::new(Recorder { name, log: log.clone() })
}

#[test]
fn create_empty_application() {
    let _ = Application::new();
}

#[test]
fn register_extension() {
    let test_extension = Box::new(TestExtension::new());

    let mut app = Application::new();
    app.register_extension("test", test_extension);
}

#[test]
fn handle_request() {
    let test_extension = TestExtension::new();

    {
        let mut app = Application::new();
        app.register_extension("test", Box::new(test_extension));
        app.handle_request(&["test"], &[]);
    }
}

#[test]
fn handle_request_reports_the_handler_it_invoked() {
    let mut app = Application::new();
    app.register_extension("test", Box::new(TestExtension::new()));
    assert_eq!(app.handle_request(&["test"], &[]), vec![0]);
}

#[test]
fn fan_out_invokes_every_handler_once_in_registration_order() {
    let log = Arc::new(Mutex::new(Vec::new()));
    let mut app = Application::new();
    app.register_extension("sensors", recorder("first", &log));
    app.register_extension("sensors", recorder("second", &log));

    let invoked = app.handle_request(&["sensors"], b"{}");

    assert_eq!(invoked, vec![0, 1]);
    let log = log.lock().unwrap();
    assert_eq!(
        *log,
        vec![
            ("first", Vec::<String>::new(), b"{}".to_vec()),
            ("second", Vec::<String>::new(), b"{}".to_vec()),
        ]
    );
}

#[test]
fn handlers_under_other_keys_are_not_invoked() {
    let log = Arc::new(Mutex::new(Vec::new()));
    let mut app = Application::new();
    app.register_extension("a", recorder("a1", &log));
    app.register_extension("b", recorder("b1", &log));
    app.register_extension("a", recorder("a2", &log));

    let invoked = app.handle_request(&["a", "x", "y"], &[1, 2, 3]);

    assert_eq!(invoked, vec![0, 2]);
    let log = log.lock().unwrap();
    assert_eq!(
        *log,
        vec![
            ("a1", vec!["x".to_string(), "y".to_string()], vec![1, 2, 3]),
            ("a2", vec!["x".to_string(), "y".to_string()], vec![1, 2, 3]),
        ]
    );
}

#[test]
fn dispatch_miss_is_silent() {
    let log = Arc::new(Mutex::new(Vec::new()));
    let mut app = Application::new();
    app.register_extension("sensors", recorder("only", &log));

    let invoked = app.handle_request(&["actuators", "x"], b"{}");

    assert_eq!(invoked, Vec::<usize>::new());
    assert!(log.lock().unwrap().is_empty());
}

#[test]
fn dispatch_of_the_empty_path_does_nothing() {
    let log = Arc::new(Mutex::new(Vec::new()));
    let mut app = Application::new();
    app.register_extension("", recorder("empty key", &log));

    assert_eq!(app.handle_request(&[], b"{}"), Vec::<usize>::new());
    assert!(log.lock().unwrap().is_empty());
    assert_eq!(app.select(&[]), Vec::<usize>::new());
}

#[test]
fn select_lists_the_positions_without_invoking() {
    let log = Arc::new(Mutex::new(Vec::new()));
    let mut app = Application::new();
    app.register_extension("k", recorder("0", &log));
    app.register_extension("other", recorder("1", &log));
    app.register_extension("k", recorder("2", &log));

    assert_eq!(app.select(&["k"]), vec![0, 2]);
    assert_eq!(app.select(&["other", "k"]), vec![1]);
    assert_eq!(app.select(&["none"]), Vec::<usize>::new());
    assert!(log.lock().unwrap().is_empty());
}

#[test]
fn keys_are_compared_as_whole_texts() {
    let log = Arc::new(Mutex::new(Vec::new()));
    let mut app = Application::new();
    app.register_extension("sensor", recorder("short", &log));
    app.register_extension("sensors", recorder("long", &log));
    app.register_extension("Sensors", recorder("upper", &log));
    app.register_extension("sénsors", recorder("accent", &log));

    assert_eq!(app.select(&["sensors"]), vec![1]);
    assert_eq!(app.select(&["sénsors"]), vec![3]);
    assert_eq!(app.select(&["sensorss"]), Vec::<usize>::new());
}

#[test]
fn dispatch_strips_the_first_two_segments_of_the_topic() {
    let log = Arc::new(Mutex::new(Vec::new()));
    let mut app = Application::new();
    app.register_extension("dcx-instance-1", recorder("csv", &log));

    let message = ZinkMessage {
        path: "kaa/demo1/dcx-instance-1/endpoint/json".to_string(),
        payload: b"[]".to_vec(),
    };
    assert_eq!(app.dispatch(&message), vec![0]);
    assert_eq!(
        *log.lock().unwrap(),
        vec![("csv", vec!["endpoint".to_string(), "json".to_string()], b"[]".to_vec())]
    );
}

#[test]
fn dispatch_of_a_short_topic_goes_nowhere() {
    let log = Arc::new(Mutex::new(Vec::new()));
    let mut app = Application::new();
    app.register_extension("a", recorder("a", &log));
    app.register_extension("", recorder("empty", &log));

    for topic in ["a", "", "a/b", "x/y"] {
        let message = ZinkMessage { path: topic.to_string(), payload: vec![] };
        assert_eq!(app.dispatch(&message), Vec::<usize>::new(), "topic {:?}", topic);
    }
    assert!(log.lock().unwrap().is_empty());

    let message = ZinkMessage { path: "x/y/".to_string(), payload: vec![7] };
    assert_eq!(app.dispatch(&message), vec![1]);
    assert_eq!(*log.lock().unwrap(), vec![("empty", Vec::<String>::new(), vec![7])]);
}

use std::cell::RefCell;

use mqttrust::{Mqtt, MqttError, Packet, QoS, SubscribeTopic};
use rustot::provisioning::topics::{
    paths_between, sent, subscriptions_between, PayloadFormat, Subscribe, Topic, Unsubscribe,
};
use rustot::provisioning::Error;

use PayloadFormat::{Cbor, Json};

/// A client that writes down what it is asked, and refuses from the
/// `fail_from`-th call on.
struct Recorder {
    subscribed: RefCell<Vec<Vec<(String, QoS)>>>,
    unsubscribed: RefCell<Vec<Vec<String>>>,
    calls: RefCell<usize>,
    fail_from: usize,
}

impl Recorder {
    fn new(fail_from: usize) -> Self {
        Recorder {
            subscribed: RefCell::new(Vec::new()),
            unsubscribed: RefCell::new(Vec::new()),
            calls: RefCell::new(0),
            fail_from,
        }
    }

    fn answer(&self) -> Result<(), MqttError> {
        let mut calls = self.calls.borrow_mut();
        *calls += 1;
        if *calls > self.fail_from {
            Err(MqttError::Full)
        } else {
            Ok(())
        }
    }
}

impl Mqtt for Recorder {
    fn send(&self, _packet: Packet<'_>) -> Result<(), MqttError> {
        self.answer()
    }

    fn client_id(&self) -> &str {
        "recorder"
    }

    fn subscribe(&self, topics: &[SubscribeTopic<'_>]) -> Result<(), MqttError> {
        self.subscribed
            .borrow_mut()
            .push(topics.iter().map(|t| (t.topic_path.to_string(), t.qos)).collect());
        self.answer()
    }

    fn unsubscribe(&self, topics: &[&str]) -> Result<(), MqttError> {
        self.unsubscribed.borrow_mut().push(topics.iter().map(|t| t.to_string()).collect());
        self.answer()
    }
}

const NAMES: [&str; 7] = ["a", "b", "c", "d", "e", "f", "g"];

fn path_of(name: &str) -> String {
    format!("$aws/provisioning-templates/{}/provision/json/accepted", name)
}

#[test]
fn subscribe_starts_empty() {
    assert_eq!(Subscribe::<4>::new().topics(), Ok(vec![]));
}

#[test]
fn subscribe_keeps_order_and_qos() {
    let s = Subscribe::<4>::new()
        .topic(Topic::CreateKeysAndCertificateRejected(Cbor), QoS::AtLeastOnce)
        .topic(Topic::RegisterThingAccepted("tpl", Json), QoS::AtMostOnce)
        .topic(Topic::CreateKeysAndCertificateAccepted(Cbor), QoS::ExactlyOnce);
    assert_eq!(
        s.topics(),
        Ok(vec![
            ("$aws/certificates/create/cbor/rejected".to_string(), QoS::AtLeastOnce),
            ("$aws/provisioning-templates/tpl/provision/json/accepted".to_string(), QoS::AtMostOnce),
            ("$aws/certificates/create/cbor/accepted".to_string(), QoS::ExactlyOnce),
        ])
    );
}

#[test]
fn subscribe_ignores_outgoing_topics() {
    let s = Subscribe::<4>::new()
        .topic(Topic::CreateKeysAndCertificateAccepted(Json), QoS::AtLeastOnce)
        .topic(Topic::CreateKeysAndCertificate(Json), QoS::AtLeastOnce)
        .topic(Topic::RegisterThing("tpl", Json), QoS::AtLeastOnce)
        .topic(Topic::CreateCertificateFromCsr(Cbor), QoS::AtLeastOnce);
    assert_eq!(
        s.topics(),
        Ok(vec![("$aws/certificates/create/json/accepted".to_string(), QoS::AtLeastOnce)])
    );
}

#[test]
fn subscribe_lists_a_topic_once() {
    let name = String::from("tpl");
    let s = Subscribe::<4>::new()
        .topic(Topic::RegisterThingAccepted("tpl", Json), QoS::AtLeastOnce)
        .topic(Topic::RegisterThingAccepted(&name, Json), QoS::AtMostOnce)
        .topic(Topic::RegisterThingAccepted("tpl", Json), QoS::AtLeastOnce);
    assert_eq!(
        s.topics(),
        Ok(vec![(
            "$aws/provisioning-templates/tpl/provision/json/accepted".to_string(),
            QoS::AtLeastOnce
        )])
    );
}

#[test]
fn subscribe_drops_what_is_over_its_bound() {
    let mut s = Subscribe::<3>::new();
    for name in NAMES {
        s = s.topic(Topic::RegisterThingAccepted(name, Json), QoS::AtLeastOnce);
    }
    let listed = s.topics().unwrap();
    assert_eq!(listed.len(), 3);
    assert_eq!(listed[0].0, path_of("a"));
    assert_eq!(listed[1].0, path_of("b"));
    assert_eq!(listed[2].0, path_of("c"));
    let none = Subscribe::<0>::new().topic(Topic::RegisterThingAccepted("a", Json), QoS::AtLeastOnce);
    assert_eq!(none.topics(), Ok(vec![]));
}

#[test]
fn subscribe_topics_overflow_at_128_bytes() {
    // the path is 52 bytes longer than the name
    let fits = "n".repeat(76);
    let s = Subscribe::<2>::new().topic(Topic::RegisterThingAccepted(&fits, Json), QoS::AtLeastOnce);
    assert_eq!(s.topics().unwrap()[0].0.len(), 128);
    let long = "n".repeat(77);
    let s = Subscribe::<2>::new()
        .topic(Topic::CreateKeysAndCertificateAccepted(Json), QoS::AtLeastOnce)
        .topic(Topic::RegisterThingAccepted(&long, Json), QoS::AtLeastOnce);
    assert_eq!(s.topics(), Err(Error::Overflow));
}

#[test]
fn subscribe_sends_seven_topics_in_two_calls() {
    let mut s = Subscribe::<8>::new();
    for name in NAMES {
        s = s.topic(Topic::RegisterThingAccepted(name, Json), QoS::AtLeastOnce);
    }
    let mqtt = Recorder::new(usize::MAX);
    assert_eq!(s.send(&mqtt), Ok(()));
    let calls = mqtt.subscribed.borrow();
    assert_eq!(calls.len(), 2);
    assert_eq!(calls[0].len(), 5);
    assert_eq!(calls[1].len(), 2);
    let sent_paths: Vec<(String, QoS)> = calls.iter().flatten().cloned().collect();
    let expected: Vec<(String, QoS)> =
        NAMES.iter().map(|n| (path_of(n), QoS::AtLeastOnce)).collect();
    assert_eq!(sent_paths, expected);
    assert!(mqtt.unsubscribed.borrow().is_empty());
}

#[test]
fn subscribe_sends_nothing_when_empty() {
    let mqtt = Recorder::new(0);
    assert_eq!(Subscribe::<4>::new().send(&mqtt), Ok(()));
    assert!(mqtt.subscribed.borrow().is_empty());
    assert_eq!(*mqtt.calls.borrow(), 0);
}

#[test]
fn subscribe_sends_nothing_on_overflow() {
    let long = "n".repeat(200);
    let s = Subscribe::<4>::new()
        .topic(Topic::CreateKeysAndCertificateAccepted(Json), QoS::AtLeastOnce)
        .topic(Topic::RegisterThingAccepted(&long, Json), QoS::AtLeastOnce);
    let mqtt = Recorder::new(usize::MAX);
    assert_eq!(s.send(&mqtt), Err(Error::Overflow));
    assert!(mqtt.subscribed.borrow().is_empty());
}

#[test]
fn subscribe_stops_at_the_first_refusal() {
    let mut s = Subscribe::<16>::new();
    for name in NAMES {
        s = s.topic(Topic::RegisterThingAccepted(name, Json), QoS::AtLeastOnce);
        s = s.topic(Topic::RegisterThingRejected(name, Json), QoS::AtLeastOnce);
    }
    let mqtt = Recorder::new(1);
    assert_eq!(s.send(&mqtt), Err(Error::Mqtt(MqttError::Full)));
    assert_eq!(mqtt.subscribed.borrow().len(), 2);
}

#[test]
fn unsubscribe_starts_empty() {
    assert_eq!(Unsubscribe::<4>::new().topics(), Ok(vec![]));
}

#[test]
fn unsubscribe_ignores_outgoing_and_repeated_topics() {
    let u = Unsubscribe::<4>::new()
        .topic(Topic::CreateCertificateFromCsrAccepted(Cbor))
        .topic(Topic::CreateCertificateFromCsr(Cbor))
        .topic(Topic::CreateCertificateFromCsrAccepted(Cbor))
        .topic(Topic::CreateCertificateFromCsrRejected(Cbor));
    assert_eq!(
        u.topics(),
        Ok(vec![
            "$aws/certificates/create-from-csr/cbor/accepted".to_string(),
            "$aws/certificates/create-from-csr/cbor/rejected".to_string(),
        ])
    );
}

#[test]
fn unsubscribe_drops_what_is_over_its_bound() {
    let mut u = Unsubscribe::<2>::new();
    for name in NAMES {
        u = u.topic(Topic::RegisterThingAccepted(name, Json));
    }
    assert_eq!(u.topics(), Ok(vec![path_of("a"), path_of("b")]));
}

#[test]
fn unsubscribe_topics_overflow_at_256_bytes() {
    let fits = "n".repeat(204);
    let u = Unsubscribe::<2>::new().topic(Topic::RegisterThingAccepted(&fits, Json));
    assert_eq!(u.topics().unwrap()[0].len(), 256);
    let long = "n".repeat(205);
    let u = Unsubscribe::<2>::new().topic(Topic::RegisterThingAccepted(&long, Json));
    assert_eq!(u.topics(), Err(Error::Overflow));
}

#[test]
fn unsubscribe_sends_in_batches_of_five() {
    let mut u = Unsubscribe::<8>::new();
    for name in NAMES {
        u = u.topic(Topic::RegisterThingAccepted(name, Json));
    }
    let mqtt = Recorder::new(usize::MAX);
    assert_eq!(u.send(&mqtt), Ok(()));
    let calls = mqtt.unsubscribed.borrow();
    assert_eq!(calls.len(), 2);
    assert_eq!(calls[0], NAMES[..5].iter().map(|n| path_of(n)).collect::<Vec<String>>());
    assert_eq!(calls[1], NAMES[5..].iter().map(|n| path_of(n)).collect::<Vec<String>>());
    assert!(mqtt.subscribed.borrow().is_empty());
}

#[test]
fn unsubscribe_hands_on_the_refusal() {
    let u = Unsubscribe::<2>::new().topic(Topic::CreateKeysAndCertificateAccepted(Json));
    let mqtt = Recorder::new(0);
    assert_eq!(u.send(&mqtt), Err(Error::Mqtt(MqttError::Full)));
    assert_eq!(mqtt.unsubscribed.borrow().len(), 1);
    let mqtt = Recorder::new(0);
    assert_eq!(Unsubscribe::<2>::new().send(&mqtt), Ok(()));
    assert!(mqtt.unsubscribed.borrow().is_empty());
}

#[test]
fn sent_maps_the_answer_of_the_client() {
    assert_eq!(sent(Ok(())), Ok(()));
    assert_eq!(sent(Err(MqttError::Borrow)), Err(Error::Mqtt(MqttError::Borrow)));
    assert_eq!(sent(Err(MqttError::Overflow)), Err(Error::Mqtt(MqttError::Overflow)));
}

#[test]
fn default_builders_are_empty() {
    assert_eq!(Subscribe::<4>::default().topics(), Ok(vec![]));
    assert_eq!(Unsubscribe::<4>::default().topics(), Ok(vec![]));
}

#[test]
fn subscriptions_between_takes_a_run() {
    let paths: Vec<(String, QoS)> = vec![
        ("a".to_string(), QoS::AtMostOnce),
        ("b".to_string(), QoS::AtLeastOnce),
        ("c".to_string(), QoS::ExactlyOnce),
        ("d".to_string(), QoS::AtMostOnce),
    ];
    assert_eq!(
        subscriptions_between(&paths, 1, 3),
        vec![("b", QoS::AtLeastOnce), ("c", QoS::ExactlyOnce)]
    );
    assert_eq!(subscriptions_between(&paths, 0, 4).len(), 4);
    assert!(subscriptions_between(&paths, 2, 2).is_empty());
}

#[test]
fn paths_between_takes_a_run() {
    let paths: Vec<String> = vec!["a".to_string(), "b".to_string(), "c".to_string()];
    assert_eq!(paths_between(&paths, 1, 3), vec!["b", "c"]);
    assert_eq!(paths_between(&paths, 0, 1), vec!["a"]);
    assert!(paths_between(&paths, 3, 3).is_empty());
}

//! Sending one message to each of a set of devices.

use matrix_rtc::commands::{CommandReply, NoopCommandSender, RtcCommand, ToDeviceRecipient};
use matrix_rtc::delivery::{BatchStep, DeviceLookup, ToDeviceBatch};
use matrix_rtc::json::Json;

fn recipients(named: &[(&str, &str)]) -> Vec<ToDeviceRecipient> {
    named
        .iter()
        .map(|(user, device)| ToDeviceRecipient::new(user, device))
        .collect()
}

/// A client that knows some devices, and more once it asked for them.
struct Client {
    known: Vec<(String, String)>,
    learns: Vec<(String, String)>,
    queries: Vec<String>,
}

impl Client {
    fn new(known: &[(&str, &str)], learns: &[(&str, &str)]) -> Client {
        let owned = |pairs: &[(&str, &str)]| {
            pairs
                .iter()
                .map(|(user, device)| (user.to_string(), device.to_string()))
                .collect()
        };
        Client {
            known: owned(known),
            learns: owned(learns),
            queries: Vec::new(),
        }
    }

    fn look_up(&self, recipient: &ToDeviceRecipient) -> DeviceLookup {
        if !recipient.user_id.starts_with('@') {
            return DeviceLookup::Unparseable("missing leading sigil".to_string());
        }
        if recipient.device_id == "BROKEN" {
            return DeviceLookup::Failed("store is closed".to_string());
        }
        let wanted = (recipient.user_id.clone(), recipient.device_id.clone());
        if self.known.contains(&wanted) {
            DeviceLookup::Found
        } else {
            DeviceLookup::Missing
        }
    }

    /// Runs a batch up to the point where it is sent, and says whether it is.
    fn settle(&mut self, batch: &mut ToDeviceBatch) -> bool {
        loop {
            match batch.next_step() {
                BatchStep::LookUp(recipient) => batch.on_lookup(self.look_up(&recipient)),
                BatchStep::QueryAndLookUp(recipient) => {
                    self.queries.push(recipient.user_id.clone());
                    self.known.append(&mut self.learns);
                    batch.on_lookup(self.look_up(&recipient));
                }
                BatchStep::Send => return true,
                BatchStep::Finish => return false,
            }
        }
    }
}

#[test]
fn everyone_gets_exactly_one_outcome() {
    let named = [
        ("@alice:example.org", "A1"),
        ("@bob:example.org", "B1"),
        ("mallory", "M1"),
        ("@bob:example.org", "BROKEN"),
        ("@alice:example.org", "A2"),
    ];
    let mut client = Client::new(
        &[("@alice:example.org", "A1"), ("@alice:example.org", "A2")],
        &[],
    );
    let mut batch = ToDeviceBatch::new(recipients(&named));
    assert!(client.settle(&mut batch));
    let mut deliveries: Vec<(String, String, Option<String>)> = batch
        .finish(&recipients(&[("@alice:example.org", "A2")]))
        .into_iter()
        .map(|delivery| {
            (
                delivery.recipient.user_id,
                delivery.recipient.device_id,
                delivery.error,
            )
        })
        .collect();
    deliveries.sort();
    let outcome = |user: &str, device: &str, error: Option<&str>| {
        (
            user.to_string(),
            device.to_string(),
            error.map(str::to_string),
        )
    };
    assert_eq!(
        deliveries,
        vec![
            outcome("@alice:example.org", "A1", None),
            outcome(
                "@alice:example.org",
                "A2",
                Some("the homeserver did not accept the message")
            ),
            outcome("@bob:example.org", "B1", Some("no such known device")),
            outcome(
                "@bob:example.org",
                "BROKEN",
                Some("could not look up the device: store is closed")
            ),
            outcome(
                "mallory",
                "M1",
                Some("unparseable user id: missing leading sigil")
            ),
        ]
    );
}

#[test]
fn a_user_is_asked_about_once_per_batch() {
    let named = [
        ("@bob:example.org", "B1"),
        ("@bob:example.org", "B2"),
        ("@bob:example.org", "B3"),
    ];
    let mut client = Client::new(&[], &[("@bob:example.org", "B1"), ("@bob:example.org", "B3")]);
    let mut batch = ToDeviceBatch::new(recipients(&named));
    assert!(client.settle(&mut batch));
    assert_eq!(client.queries, vec!["@bob:example.org"]);
    let sent: Vec<String> = batch
        .finish(&Vec::new())
        .into_iter()
        .filter(|delivery| delivery.is_sent())
        .map(|delivery| delivery.recipient.device_id)
        .collect();
    assert_eq!(sent, vec!["B1", "B3"]);
}

#[test]
fn a_batch_nobody_can_be_reached_in_is_not_sent() {
    let mut client = Client::new(&[], &[]);
    let mut batch = ToDeviceBatch::new(recipients(&[("@bob:example.org", "B1")]));
    assert!(!client.settle(&mut batch));
    let deliveries = batch.finish(&Vec::new());
    assert_eq!(deliveries.len(), 1);
    assert!(!deliveries[0].is_sent());

    let mut empty = ToDeviceBatch::new(Vec::new());
    assert!(!client.settle(&mut empty));
    assert!(empty.finish(&Vec::new()).is_empty());
}

#[test]
fn a_host_without_a_network_reports_success() {
    let host = NoopCommandSender;
    let reply = host.perform(RtcCommand::SendToDevice {
        recipients: recipients(&[("@bob:example.org", "B1")]),
        message_type: "m.rtc.encryption_key".to_string(),
        content: Json::object(),
    });
    let CommandReply::Deliveries(deliveries) = reply else {
        panic!("a batch is answered with its outcomes");
    };
    assert!(deliveries.len() == 1 && deliveries[0].is_sent());
    let reply = host.perform(RtcCommand::SendSticky {
        room_id: "!room:example.org".to_string(),
        event_type: "m.rtc.member".to_string(),
        content: Json::object(),
        duration_ms: 1,
    });
    assert!(matches!(reply, CommandReply::Accepted(id) if id == "$mock-sticky-event"));
}

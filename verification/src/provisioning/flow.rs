use vstd::prelude::*;
use mqttrust::{MqttError, QoS};
use super::Error;
use super::topics::{
    path_passes_check, reading, str_eq, topics_of, Operation, PayloadFormat, Stage, Subscribe,
    Topic, TopicModel,
};

verus! {

/// How far a provisioning attempt has come.
#[derive(Debug, Clone, Copy, PartialEq, Eq, Structural)]
pub enum Phase {
    /// Nothing was subscribed to yet.
    Uninitialized,
    /// The answer topics were subscribed to; the acknowledgement is awaited.
    Initialized,
    /// The certificate was asked for.
    AwaitingCredentials,
    /// The thing's registration was asked for.
    AwaitingRegistration,
    /// The thing is registered.
    Done,
    /// The attempt has failed for good.
    Failed,
}

/// The certificate that the cloud made for the device.
#[derive(Debug, Clone, PartialEq)]
pub struct Credentials {
    pub certificate_id: String,
    pub certificate_pem: String,
    pub private_key: Option<String>,
}

/// What the bytes of a message were decoded to.
#[derive(Debug, Clone, PartialEq)]
pub enum Payload {
    Credentials(Credentials),
    /// The parameters that the cloud gives a registered thing.
    DeviceConfiguration(Vec<(String, String)>),
    /// No bytes, or none that mean anything here.
    Nothing,
    /// Bytes that are not in the encoding that the topic names.
    Undecodable,
}

/// What the payload of a message is to be decoded to.
#[derive(Debug, Clone, Copy, PartialEq, Eq, Structural)]
pub enum Expected {
    /// The message is not awaited: its payload is of no interest.
    Nothing,
    Credentials,
    DeviceConfiguration,
}

/// What the MQTT client reports.
#[derive(Debug, PartialEq)]
pub enum Event<'e> {
    /// A subscription was acknowledged.
    SubAck,
    /// A message arrived on the topic of the given name.
    Publish(&'e str, Payload),
    /// The client could not publish or subscribe.
    ClientFailed(MqttError),
}

/// What the caller is to do next.
#[derive(Debug, Clone, PartialEq)]
pub enum Action<'a> {
    Nothing,
    /// Publish the request of this topic.
    Publish(Topic<'a>),
    /// Take the credentials and the configuration: the thing is registered.
    Finished,
}

/// One provisioning attempt.
#[derive(Debug)]
pub struct FleetProvisioner<'a> {
    pub template_name: &'a str,
    pub format: PayloadFormat,
    /// Whether the certificate is made from a signing request of the device.
    pub with_csr: bool,
    pub phase: Phase,
    pub credentials: Option<Credentials>,
    pub configuration: Option<Vec<(String, String)>>,
}

impl<'a> FleetProvisioner<'a> {
    /// Credentials are there once they were received, and the configuration
    /// once the thing is registered.
    pub open spec fn wf(self) -> bool {
        &&& self.phase == Phase::AwaitingRegistration || self.phase == Phase::Done
            ==> self.credentials is Some
        &&& self.phase == Phase::Done ==> self.configuration is Some
    }

    /// A finished or failed attempt takes no further step.
    pub open spec fn terminal(self) -> bool {
        self.phase == Phase::Done || self.phase == Phase::Failed
    }

    /// Whether a topic belongs to this attempt: it has the attempt's payload
    /// format, and is of its template or of its way to a certificate.
    pub open spec fn concerns(self, t: TopicModel) -> bool {
        &&& t.format == self.format
        &&& match t.operation {
            Operation::RegisterThing(name) => name == self.template_name@,
            Operation::CreateKeysAndCertificate => !self.with_csr,
            Operation::CreateCertificateFromCsr => self.with_csr,
        }
    }

    /// The topic of the request for a certificate.
    pub open spec fn certificate_request(self) -> Topic<'a> {
        if self.with_csr {
            Topic::CreateCertificateFromCsr(self.format)
        } else {
            Topic::CreateKeysAndCertificate(self.format)
        }
    }

    /// The attempt in another phase.
    pub open spec fn in_phase(self, phase: Phase) -> Self {
        FleetProvisioner { phase, ..self }
    }

    /// The step that an event makes the attempt take: the attempt after
    /// it, and what the caller is told.
    pub open spec fn step(self, event: Event) -> (Self, Result<Action<'a>, Error>) {
        match event {
            Event::SubAck => if self.phase == Phase::Initialized {
                (
                    self.in_phase(Phase::AwaitingCredentials),
                    Ok(Action::Publish(self.certificate_request())),
                )
            } else {
                (self, Ok(Action::Nothing))
            },
            Event::ClientFailed(e) => if self.terminal() {
                (self, Ok(Action::Nothing))
            } else {
                (self.in_phase(Phase::Failed), Err(Error::Mqtt(e)))
            },
            Event::Publish(name, payload) => match reading(name@) {
                None => (self, Ok(Action::Nothing)),
                Some(t) => if self.terminal() || !self.concerns(t) {
                    (self, Ok(Action::Nothing))
                } else if t.stage == Stage::Rejected {
                    (self.in_phase(Phase::Failed), Err(Error::Rejected))
                } else if t.operation is RegisterThing {
                    self.registered(payload)
                } else {
                    self.certified(payload)
                },
            },
        }
    }

    /// The step on the answer that the certificate was made.
    pub open spec fn certified(self, payload: Payload) -> (Self, Result<Action<'a>, Error>) {
        if self.phase != Phase::AwaitingCredentials {
            (self, Ok(Action::Nothing))
        } else {
            match payload {
                Payload::Credentials(c) => (
                    FleetProvisioner {
                        phase: Phase::AwaitingRegistration,
                        credentials: Some(c),
                        ..self
                    },
                    Ok(Action::Publish(Topic::RegisterThing(self.template_name, self.format))),
                ),
                _ => (self.in_phase(Phase::Failed), Err(Error::Decode)),
            }
        }
    }

    /// The step on the answer that the thing was registered.
    pub open spec fn registered(self, payload: Payload) -> (Self, Result<Action<'a>, Error>) {
        if self.phase != Phase::AwaitingRegistration {
            (self, Ok(Action::Nothing))
        } else {
            match payload {
                Payload::DeviceConfiguration(c) => (
                    FleetProvisioner { phase: Phase::Done, configuration: Some(c), ..self },
                    Ok(Action::Finished),
                ),
                _ => (self.in_phase(Phase::Failed), Err(Error::Decode)),
            }
        }
    }

    /// What the attempt awaits in a message on the topic of the given name:
    /// the credentials or the configuration where the topic is the accepted
    /// answer to the request under way, nothing otherwise.
    pub open spec fn awaits(self, name: Seq<char>) -> Expected {
        match reading(name) {
            None => Expected::Nothing,
            Some(t) => if self.terminal() || !self.concerns(t) || t.stage != Stage::Accepted {
                Expected::Nothing
            } else if t.operation is RegisterThing {
                if self.phase == Phase::AwaitingRegistration {
                    Expected::DeviceConfiguration
                } else {
                    Expected::Nothing
                }
            } else {
                if self.phase == Phase::AwaitingCredentials {
                    Expected::Credentials
                } else {
                    Expected::Nothing
                }
            },
        }
    }

    /// The six answer topics of an attempt, in the order in which they are
    /// subscribed to.
    pub open spec fn answers(self) -> Seq<TopicModel> {
        seq![
            Topic::CreateKeysAndCertificateAccepted(self.format)@,
            Topic::CreateKeysAndCertificateRejected(self.format)@,
            Topic::CreateCertificateFromCsrAccepted(self.format)@,
            Topic::CreateCertificateFromCsrRejected(self.format)@,
            Topic::RegisterThingAccepted(self.template_name, self.format)@,
            Topic::RegisterThingRejected(self.template_name, self.format)@,
        ]
    }

    /// A new attempt, with nothing subscribed to yet.
    pub fn new(template_name: &'a str, format: PayloadFormat, with_csr: bool) -> (r: Self)
        ensures
            r == (FleetProvisioner {
                template_name,
                format,
                with_csr,
                phase: Phase::Uninitialized,
                credentials: None,
                configuration: None,
            }),
            r.wf(),
    {
        FleetProvisioner {
            template_name,
            format,
            with_csr,
            phase: Phase::Uninitialized,
            credentials: None,
            configuration: None,
        }
    }

    /// Starts the attempt: gives the subscriptions to the six answer
    /// topics, each with the given quality of service, for the caller to
    /// send. An attempt that was started before gives none and stays as it is.
    pub fn initialize(&mut self, qos: QoS) -> (r: Option<Subscribe<'a, 6>>)
        ensures
            old(self).phase != Phase::Uninitialized ==> r is None && *final(self) == *old(self),
            old(self).phase == Phase::Uninitialized ==> {
                &&& *final(self) == old(self).in_phase(Phase::Initialized)
                &&& r matches Some(b) && b.wf() && topics_of(b@) == old(self).answers()
                    && forall|i: int| 0 <= i < b@.len() ==> (#[trigger] b@[i]).1 == qos
            },
    {
        if self.phase != Phase::Uninitialized {
            return None;
        }
        let f = self.format;
        let name = self.template_name;
        let b0 = Subscribe::<6>::new();
        assert(topics_of(b0@) =~= Seq::<TopicModel>::empty());
        let b1 = b0.topic(Topic::CreateKeysAndCertificateAccepted(f), qos);
        let b2 = b1.topic(Topic::CreateKeysAndCertificateRejected(f), qos);
        let b3 = b2.topic(Topic::CreateCertificateFromCsrAccepted(f), qos);
        let b4 = b3.topic(Topic::CreateCertificateFromCsrRejected(f), qos);
        let b5 = b4.topic(Topic::RegisterThingAccepted(name, f), qos);
        let b6 = b5.topic(Topic::RegisterThingRejected(name, f), qos);
        assert(topics_of(b6@) =~= self.answers());
        self.phase = Phase::Initialized;
        Some(b6)
    }

    /// Whether the attempt is finished or has failed.
    pub fn is_terminal(&self) -> (r: bool)
        ensures
            r == self.terminal(),
    {
        self.phase == Phase::Done || self.phase == Phase::Failed
    }

    /// Whether a topic belongs to this attempt.
    pub fn is_about(&self, topic: &Topic<'_>) -> (r: bool)
        ensures
            r == self.concerns(topic@),
    {
        if topic.payload_format() != self.format {
            return false;
        }
        match topic {
            Topic::RegisterThing(name, _)
            | Topic::RegisterThingAccepted(name, _)
            | Topic::RegisterThingRejected(name, _) => str_eq(name, self.template_name),
            Topic::CreateKeysAndCertificate(_)
            | Topic::CreateKeysAndCertificateAccepted(_)
            | Topic::CreateKeysAndCertificateRejected(_) => !self.with_csr,
            _ => self.with_csr,
        }
    }

    /// Says what to decode the payload of a message to, in the attempt's
    /// payload format, before the message is handed to `handle`.
    pub fn expects(&self, name: &str) -> (r: Expected)
        ensures
            r == self.awaits(name@),
    {
        if !Topic::check(name) {
            proof {
                if let Some(t) = reading(name@) {
                    path_passes_check(t);
                }
            }
            return Expected::Nothing;
        }
        let topic = match Topic::from_str(name) {
            Some(t) => t,
            None => {
                return Expected::Nothing;
            },
        };
        if self.is_terminal() || !self.is_about(&topic) || topic.stage() != Stage::Accepted {
            return Expected::Nothing;
        }
        match topic.template_name() {
            Some(_) => if self.phase == Phase::AwaitingRegistration {
                Expected::DeviceConfiguration
            } else {
                Expected::Nothing
            },
            None => if self.phase == Phase::AwaitingCredentials {
                Expected::Credentials
            } else {
                Expected::Nothing
            },
        }
    }

    /// Takes one event of the MQTT client and says what to do next. A
    /// message on a topic that is none of this attempt's answers changes
    /// nothing; a rejection, or an answer whose payload is not what the
    /// topic promises, ends the attempt.
    pub fn handle(&mut self, event: Event<'_>) -> (r: Result<Action<'a>, Error>)
        ensures
            (*final(self), r) == old(self).step(event),
            old(self).wf() ==> final(self).wf(),
    {
        match event {
            Event::SubAck => {
                if self.phase == Phase::Initialized {
                    self.phase = Phase::AwaitingCredentials;
                    let topic = if self.with_csr {
                        Topic::CreateCertificateFromCsr(self.format)
                    } else {
                        Topic::CreateKeysAndCertificate(self.format)
                    };
                    Ok(Action::Publish(topic))
                } else {
                    Ok(Action::Nothing)
                }
            },
            Event::ClientFailed(e) => {
                if self.is_terminal() {
                    Ok(Action::Nothing)
                } else {
                    self.phase = Phase::Failed;
                    Err(Error::Mqtt(e))
                }
            },
            Event::Publish(name, payload) => {
                if !Topic::check(name) {
                    proof {
                        if let Some(t) = reading(name@) {
                            path_passes_check(t);
                        }
                    }
                    return Ok(Action::Nothing);
                }
                let topic = match Topic::from_str(name) {
                    Some(t) => t,
                    None => {
                        return Ok(Action::Nothing);
                    },
                };
                if self.is_terminal() || !self.is_about(&topic) {
                    return Ok(Action::Nothing);
                }
                match topic.stage() {
                    Stage::Rejected => {
                        self.phase = Phase::Failed;
                        return Err(Error::Rejected);
                    },
                    _ => {},
                }
                match topic.template_name() {
                    Some(_) => {
                        if self.phase != Phase::AwaitingRegistration {
                            return Ok(Action::Nothing);
                        }
                        match payload {
                            Payload::DeviceConfiguration(c) => {
                                self.configuration = Some(c);
                                self.phase = Phase::Done;
                                Ok(Action::Finished)
                            },
                            _ => {
                                self.phase = Phase::Failed;
                                Err(Error::Decode)
                            },
                        }
                    },
                    None => {
                        if self.phase != Phase::AwaitingCredentials {
                            return Ok(Action::Nothing);
                        }
                        match payload {
                            Payload::Credentials(c) => {
                                self.credentials = Some(c);
                                self.phase = Phase::AwaitingRegistration;
                                Ok(Action::Publish(Topic::RegisterThing(self.template_name, self.format)))
                            },
                            _ => {
                                self.phase = Phase::Failed;
                                Err(Error::Decode)
                            },
                        }
                    },
                }
            },
        }
    }
}

/// A message on a topic that is no answer of fleet provisioning changes
/// nothing, in whatever phase, and asks for nothing.
pub proof fn unrelated_topic_is_ignored(state: FleetProvisioner, name: &str, payload: Payload)
    requires
        reading(name@) is None,
    ensures
        state.step(Event::Publish(name, payload)) == (state, Ok::<Action, Error>(Action::Nothing)),
{
}

/// A rejection that belongs to a running attempt ends it: the caller is
/// told of the rejection, and no request follows.
pub proof fn rejection_ends_the_attempt(state: FleetProvisioner, name: &str, payload: Payload)
    requires
        !state.terminal(),
        reading(name@) matches Some(t) && state.concerns(t) && t.stage == Stage::Rejected,
    ensures
        state.step(Event::Publish(name, payload)) == (
            state.in_phase(Phase::Failed),
            Err::<Action, Error>(Error::Rejected),
        ),
        state.in_phase(Phase::Failed).terminal(),
{
}

/// An attempt that is finished or has failed stays as it is and asks for
/// nothing, whatever comes.
pub proof fn terminal_phase_is_final(state: FleetProvisioner, event: Event)
    requires
        state.terminal(),
    ensures
        state.step(event) == (state, Ok::<Action, Error>(Action::Nothing)),
{
}

/// A request is published only when the attempt moves on to await its
/// answer, so one request at most is under way.
pub proof fn one_request_at_a_time(state: FleetProvisioner, event: Event)
    requires
        state.step(event).1 matches Ok(Action::Publish(_)),
    ensures
        ({
            let next = state.step(event).0;
            ||| state.phase == Phase::Initialized && next.phase == Phase::AwaitingCredentials
                    && state.step(event).1 == Ok::<Action, Error>(
                    Action::Publish(state.certificate_request()),
                )
            ||| state.phase == Phase::AwaitingCredentials && next.phase
                == Phase::AwaitingRegistration && state.step(event).1 == Ok::<Action, Error>(
                Action::Publish(Topic::RegisterThing(state.template_name, state.format)),
            )
        }),
{
}

/// Every step keeps the template, the payload format and the way to the
/// certificate, and keeps the attempt well formed.
pub proof fn step_keeps_the_attempt(state: FleetProvisioner, event: Event)
    ensures
        state.step(event).0.template_name == state.template_name,
        state.step(event).0.format == state.format,
        state.step(event).0.with_csr == state.with_csr,
        state.wf() ==> state.step(event).0.wf(),
{
}

/// A payload is put to use only where it was awaited: with any other
/// message the attempt keeps its credentials and its configuration.
pub proof fn unawaited_payload_is_not_kept(state: FleetProvisioner, name: &str, payload: Payload)
    requires
        state.awaits(name@) == Expected::Nothing,
    ensures
        state.step(Event::Publish(name, payload)).0.credentials == state.credentials,
        state.step(Event::Publish(name, payload)).0.configuration == state.configuration,
        !(state.step(Event::Publish(name, payload)).1 matches Ok(Action::Publish(_))),
        !(state.step(Event::Publish(name, payload)).1 matches Ok(Action::Finished)),
{
}

} // verus!

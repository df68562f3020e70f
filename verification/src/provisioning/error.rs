use vstd::prelude::*;

verus! {

/// The error type of the MQTT client, carried through unopened.
#[verifier::external_type_specification]
#[verifier::external_body]
pub struct ExMqttError(mqttrust::MqttError);

/// What can go wrong while talking the fleet provisioning protocol.
#[derive(Debug, Clone, Copy, PartialEq)]
pub enum Error {
    /// A formatted topic does not fit into the buffer it was meant for.
    Overflow,
    /// A topic segment names no known payload encoding.
    UnknownFormat,
    /// The MQTT client refused a request.
    Mqtt(mqttrust::MqttError),
    /// The cloud rejected a request.
    Rejected,
    /// A payload on a recognised topic could not be decoded.
    Decode,
}

} // verus!

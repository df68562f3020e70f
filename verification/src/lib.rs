//! Fleet provisioning over MQTT: the topics of the protocol, the builders of
//! subscriptions to them, and the steps of a provisioning attempt.

pub mod provisioning;

//! Webhook relay for a chat platform: authenticates inbound webhook requests,
//! decodes their events, selects the text messages that carry the configured
//! trigger, and drives the exchange with the completion and reply services.

pub mod base64;
pub mod bot;
pub mod client;
pub mod completion;
pub mod dispatch;
pub mod events;
pub mod json;
pub mod messages;
pub mod session;
pub mod signature;
pub mod text;
pub mod webhook;

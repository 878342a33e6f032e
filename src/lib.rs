//! Intent classification and reply rendering for a chat assistant that routes
//! free-text messages to transit, ledger, weather and summary services.

pub mod text;
pub mod amount;
pub mod arrival;
pub mod forecast;
pub mod spending;
pub mod dispatch;

//! A password-quality policy engine.
//!
//! The engine keeps a settings store of tunable policy options, checks
//! candidate passwords against those options (optionally relative to a
//! previous password and a user name), and synthesizes random passwords
//! that pass the same policy.

mod check;
mod config;
mod error;
mod generate;
mod options;
mod pwq;
mod settings;
mod text;

pub use check::CheckOutcome;
pub use generate::GENERATE_MIN_ATTEMPTS;
pub use generate::PWQ_MAX_ENTROPY_BITS;
pub use generate::PWQ_MIN_ENTROPY_BITS;
pub use error::ErrorKind;
pub use error::PWQError;
pub use pwq::PWQuality;
pub use settings::IntSetting;
pub use settings::PWQ_BASE_MIN_LENGTH;
pub use settings::PWQ_NUM_CLASSES;
pub use settings::StrSetting;
pub use settings::pwquality_settings;

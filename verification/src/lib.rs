pub mod account;
pub mod auth;
pub mod config;
pub mod errors;
pub mod store;
mod strutil;

pub use account::{AccountType, YuukiAccount, YuukiDeviceCode, YuukiTokenResponse};
pub use auth::AuthManager;
pub use config::{default_profile, JavaConfig, LoaderType, ProfileConfig, Settings};
pub use errors::YuukiError;

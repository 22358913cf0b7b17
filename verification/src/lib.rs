pub mod capture;
pub mod chain;
pub mod digest;
pub mod encoding;
pub mod error;
pub mod event;
pub mod hexfields;
pub mod hexfmt;
pub mod json;
pub mod keyfile;
pub mod merkle;
pub mod numbers;
pub mod pack;
pub mod paths;
pub mod seal;
pub mod signing;
pub mod text;
pub mod verify;

//! Verified core of a thermometer endurance tester: the device protocol's
//! frame decoders, the fixture's motion decisions and the per-device
//! reading histograms.
pub mod aggregate;
pub mod codec;
pub mod fixture;
pub mod readings;
pub mod report;
pub mod run;
pub mod session;
pub mod text;

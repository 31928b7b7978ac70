//! screen-hop: guarded DDC/CI monitor input switching, local two-source configuration,
//! monitor identity, quirks, and the LAN mesh's pure decision logic.

pub mod strmap;
pub mod text;
pub mod types;
pub mod driver;
pub mod executor;
pub mod lock;
pub mod ownership;
pub mod calibration;
pub mod fingerprint;
pub mod collision;
pub mod peers;
pub mod reconcile;
pub mod replay;
pub mod pins;
pub mod crypto;
pub mod identity;
pub mod message;
pub mod transport;
pub mod handshake;
pub mod mesh;
pub mod runtime;
pub mod quirks;
pub mod local_config;
pub mod local_switcher;
pub mod orchestration;
pub mod harness;
pub mod ddc;
pub mod ui;
pub mod spike;
pub mod discovery;
pub mod persist;
pub mod worker;
pub mod actuator;
pub mod ui_flow;

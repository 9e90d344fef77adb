//! Host-side control library for FPGA signal-processing boards whose
//! gateware is produced by the CASPER toolflow.
//!
//! The board runs a small TFTP-derived server ("TAPCP") that exposes register
//! memory, onboard flash, a device directory and a program-boot endpoint over
//! UDP. This crate holds the verified core of a client for that server: the
//! TFTP packet codec and transfer state machines, the compact sorted-list
//! codec used by the device directory, the bitstream-descriptor parser, the
//! word-aligned transport arithmetic, and the typed peripheral objects that
//! sit on top of a transport.

pub mod encoding;
pub mod tftp;
pub mod csl;
pub mod fpg;
pub mod transport;
pub mod mock;
pub mod tapcp;
pub mod session;
pub mod clockswitch;
pub mod swreg;
pub mod bram;
pub mod snapshot;
pub mod ten_gbe;
pub mod hmcad1511;
pub mod adc16;
pub mod snapadc;
pub mod binder;

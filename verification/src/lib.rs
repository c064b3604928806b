//! Caliptra's SPDM responder and its surroundings, verified.
//!
//! On the device: negotiation of capabilities and algorithms
//! ([`capabilities`], [`algorithms`], [`negotiation`]), the responder tasks and
//! their memory budgets ([`responder`], [`scratch`]), boot of the certificate
//! store from OTP ([`cert_store`], [`otp`]), checks of certificate services
//! ([`cert_checks`]) and the system driver ([`system`]).
//!
//! On the host: the socket session with an SPDM validator
//! ([`validator_runner`]), the commands and the course of validator programs
//! ([`validator_command`], [`validator_run`]) and the verdict on their logs
//! ([`validator_log`], [`validator_log_end`],
//! [`validator_log_indent`], on [`text`]).
//!
//! The library computes and decides. Sockets, processes, mailboxes and clocks
//! belong to its users, who hand in what came back and carry out what is asked
//! for.

pub mod algorithms;
pub mod bytes;
pub mod cap_flags;
pub mod capabilities;
pub mod cert_checks;
pub mod cert_store;
pub mod codec;
pub mod connection;
pub mod negotiation;
pub mod otp;
pub mod responder;
pub mod scratch;
pub mod system;
pub mod text;
pub mod validator_command;
pub mod validator_log;
pub mod validator_log_end;
pub mod validator_log_indent;
pub mod validator_run;
pub mod validator_runner;

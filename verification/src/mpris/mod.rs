//! MPRIS player discovery, metadata parsing and the decisions of the
//! player service. The program owns the DBus connection; it hands the
//! values it reads to the functions here.

pub mod discovery;
pub mod pactl;
pub mod parser;
pub mod service;

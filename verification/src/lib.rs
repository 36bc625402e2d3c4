//! Overdue-charge reporting and payment reminders: the decisions, texts and
//! request bodies of the program, with their contracts. The program around the
//! library performs the HTTP calls, the waiting and the console I/O.

pub mod text;
pub mod phone;
pub mod retry;
pub mod json;
pub mod dates;
pub mod http;
pub mod config;
pub mod omie;
pub mod asaas;
pub mod whatsapp;
pub mod sheets;
pub mod sheet_updater;
pub mod charge_processor;
pub mod single_charge;
pub mod console;

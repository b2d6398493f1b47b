pub mod accounts;
pub mod action;
pub mod encrypt;

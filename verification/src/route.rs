pub mod assignment;
pub mod fp_web;
pub mod quiz;

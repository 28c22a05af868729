//! Verified core of a debugger helper plugin: address telescoping, HTML
//! colouring of log lines, hexadecimal parsing and formatting, page
//! alignment for emulator memory mapping and instruction operand analysis.
pub mod colors;
pub mod common;
pub mod telescope;
pub mod unicorn;

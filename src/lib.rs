//! NIC tag tables: two line-oriented parsers for tag files and the
//! tab-separated report printed from their result.
pub mod grammar;
pub mod laws;
pub mod nic_tag;
pub mod parse;
pub mod report;
pub mod table;

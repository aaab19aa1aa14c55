//! Browser session state: tabs with navigation history, the address bar
//! and the developer tools panel.

pub mod tab;
pub mod devtools;
pub mod address_bar;

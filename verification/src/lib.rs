//! Verified core of the Zver browser engine: text handling, the DOM tree,
//! CSS values and cascade, event listeners and browser session state.

pub mod text;
pub mod strmap;
pub mod css;
pub mod dom;
pub mod js;
pub mod layout;
pub mod network;
pub mod resource_loader;
pub mod browser;

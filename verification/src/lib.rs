//! Vellum's rules, verified: the link-preview scraper and its cache, vault
//! paths and folder prefixes, folder links and their reconciliation rules,
//! the local MCP server's URIs, authentication, note tools and notification
//! coalescing, sharing a note, the browser vault's durable storage and
//! command surface, and the desktop shell's background-sync decisions.
pub mod text;
pub mod preview;
pub mod paths;
pub mod link;
pub mod mcp;
pub mod share;
pub mod store;
pub mod bridge;
pub mod desktop;
pub mod tools;
pub mod spike;
pub mod server;

pub mod commands;
pub mod ids;
pub mod json;
pub mod mcp;
pub mod settings;
pub mod text;
pub mod startup;

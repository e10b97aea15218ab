
pub mod config;
pub mod decimal;
pub mod derive;
pub mod metrics;
pub mod rank;
pub mod scrape;
pub mod state;
pub mod uptime;

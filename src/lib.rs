//! Airline-safety ETL core: turns CSV bytes into the statements that load the
//! `AirlineSafetyDB` table, and decides how an ad-hoc SQL statement is run,
//! printed and logged. Network, file and database access live with the caller.

pub mod text;
pub mod query;
pub mod loader;
pub mod table;

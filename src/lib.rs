//! Country data compiled from loosely structured JSON feeds into exact-match
//! lookup tables keyed by name, capital, region and ISO 3166-1 codes.
pub mod json;
pub mod time;
pub mod country;
pub mod countries;
pub mod tables;
pub mod laws;
pub mod codegen;
pub mod emit;
pub mod pipeline;

pub use country::{Country, CountryData, CountryDataBuilder, Currency, Language};
pub use countries::{Zone, get_countries, get_time, timezone_vec};
pub use json::Json;
pub use pipeline::{build_tables, generate};
pub use tables::{Tables, compile};
pub use time::second_offset_to_utc_offset;

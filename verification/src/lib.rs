//! Converts annual firearms manufacturing and exportation reports (AFMER)
//! into rows keyed by license, enriched with a temporal dimension of federal
//! firearms licenses (FFL).

pub mod cells;
pub mod column_laws;
pub mod columns;
pub mod curation_laws;
pub mod database;
pub mod database_laws;
pub mod enrichment_laws;
pub mod export;
pub mod export_laws;
pub mod ffl;
pub mod ffl_laws;
pub mod groups;
pub mod histpdf;
pub mod histpdf_laws;
pub mod joined;
pub mod json;
pub mod json_grammar;
pub mod json_reading;
pub mod jsonc;
pub mod jsonout;
pub mod labels;
pub mod line_laws;
pub mod links;
pub mod loading;
pub mod meta_laws;
pub mod number;
pub mod pdf;
pub mod record_laws;
pub mod records;
pub mod reports;
pub mod run;
pub mod section_laws;
pub mod snapshots;
pub mod statement_laws;
pub mod statement_words;
pub mod text;
pub mod view_laws;
pub mod views;
pub mod workbook_laws;
pub mod xlsx;

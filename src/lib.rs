//! Conversion of survey points from geographic coordinates to grid
//! records (point, easting, northing, level, description).

pub mod laws;
pub mod number;
pub mod penzd;
pub mod survey;
pub mod table;

pub use number::{is_float_literal, parse_point_id};
pub use penzd::{convert_all, to_penzd, Penzd, Projection, SurveyPoint};
pub use survey::{
    decode_survey_row, decode_survey_table, read_survey, resolve_columns, Column, Columns,
    ReadError, SurveyRow, TableError,
};
pub use table::text_equals;

pub mod csv_data;
pub mod inference;
pub mod reader;

//! SQL over delimited text files.
//!
//! A query names files where it would name tables. The library finds those
//! names in the parsed query, reads each file as delimited text, infers the
//! types of its columns, loads it into an in-memory relational store, and
//! rewrites the query to name the tables it made. It also reports the
//! inferred types of the files of a query, and computes statistics of the
//! columns of a file.
//!
//! Every function is verified against its contract. What is taken on trust
//! of the crates the library calls is marked `external_body` or stands in an
//! `assume_specification`, and says in its own words what is claimed.

pub mod csv;
pub mod db;
pub mod error;
pub mod parser;
pub mod qsv;
pub mod string_map;
pub mod text;

//! The verified core of a small SQLite-backed CMS: SQL identifiers and
//! statements for user tables and views, column migrations, the table data
//! viewer and its stored preferences, test data generation, layout files and
//! packages, widget types, the contact form's signed tokens, backups and
//! admin accounts. Database and file access stand outside this crate; the
//! functions here decide what is read, written and answered.
use vstd::prelude::*;

pub mod accounts;
pub mod backup;
pub mod contact;
pub mod create_sql;
pub mod db_objects;
pub mod ddl;
pub mod error;
pub mod layouts;
pub mod names;
pub mod numbers;
pub mod prefs;
pub mod read_back;
pub mod samples;
pub mod schema;
pub mod seed;
pub mod session;
pub mod sql_build;
pub mod sql_scan;
pub mod sql_view;
pub mod static_files;
pub mod table_data;
pub mod test_data;
pub mod text;
pub mod table_view;
pub mod timestamps;
pub mod widgets;

pub mod text;
pub mod error;
pub mod commit;
pub mod version;
pub mod changelog;
pub mod version_files;
pub mod config;
pub mod release;
pub mod execute;
pub mod remote;
pub mod github;
pub mod hooks;

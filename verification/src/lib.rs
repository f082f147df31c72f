//! A verified model of the state layer of an encrypted cloud-folder client:
//! remote file trees, browsers, pickers, repository creation and file details.
pub mod strings;
pub mod keymap;
pub mod common;
pub mod paths;
pub mod remote;
pub mod sorting;
pub mod remote_files;
pub mod remote_files_browsers;
pub mod remote_files_dir_pickers;
pub mod remote_files_tags;
pub mod repo_files_tags;
pub mod repo_files;
pub mod cipher;
pub mod hex_text;
pub mod natural_order;
pub mod store;
pub mod seq_facts;
pub mod selection;
pub mod dir_pickers;
pub mod repos;
pub mod rclone;
pub mod repo_config_backup;
pub mod repo_create;
pub mod transfers;
pub mod files;
pub mod repo_files_details;
pub mod repo_files_browsers;
pub mod repo_files_move;
pub mod repo_files_dir_pickers;
pub mod repo_files_read;
pub mod repo_files_list;

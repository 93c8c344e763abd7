//! Locating, unpacking and converting a bundle of per-speaker audio tracks.
//!
//! The library decides; the caller performs. [`locate`] finds where the resources are,
//! [`archive`] takes the flat files out of a bundled archive, [`plan`] turns a folder
//! listing and the user's choices into encoder invocations (with [`graph`] building the
//! chunked mixing filter), and [`run`] sequences those invocations fail-fast.

pub mod archive;
pub mod error;
pub mod format;
pub mod graph;
pub mod locate;
pub mod plan;
pub mod run;
pub mod status;
pub mod text;

pub use archive::{ArchiveFile, archive_entry_names, extract_flat_files, is_flat_entry_name, open_archive, select_flat_entries};
pub use error::PackError;
pub use format::AudioFormat;
pub use graph::{MAX_MIX_INPUTS, mix_filter_graph};
pub use locate::{DEBUG_FOLDER_NAME, MAX_SEARCH_SIZE, PackSource, find_pack_source, find_zip_signature};
pub use plan::{
    AUP_FOLDER_NAME, AUP_HEADER, CommandArg, ConversionPlan, Job, data_subfolder, MANIFEST_FILE_NAME, ProgressInfo, REQUIRED_BINARY,
    is_input_file_name, plan_conversion, select_inputs,
};
pub use status::{AppStatus, StatusBoard, progress_label};
pub use run::{AppProgress, ConversionRun, ProcessProgress, RunAction, RunPhase, exit_outcome};

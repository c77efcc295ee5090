pub mod ansi;
pub mod app;
pub mod asking;
pub mod choices;
pub mod encoding;
pub mod entry;
pub mod filetype;
pub mod filters;
pub mod format;
pub mod input;
pub mod keys;
pub mod laws;
pub mod layout;
pub mod list;
pub mod listings;
pub mod load;
pub mod moves;
pub mod paging;
pub mod place;
pub mod preview;
pub mod query;
pub mod reading;
pub mod render;
pub mod reply;
pub mod root;
pub mod showing;
pub mod soundness;
pub mod status;
pub mod table;
pub mod telling;
pub mod text;
pub mod tree;
pub mod wording;

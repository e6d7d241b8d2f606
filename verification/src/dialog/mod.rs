//! Dialog support: the file dialog's listings and the colour dialog's data.

pub mod filedlg;
pub mod file_order;

pub use filedlg::{DirEntry, DirListBox, FileCollection, FileList, SearchRec, FA_DIREC};
pub use file_order::search_rec_compare;
pub mod colordlg;
pub mod layout;

pub use colordlg::{ColorGroup, ColorIndex, ColorItem};
pub use layout::{std_button, ButtonRowAlign, BUTTON_GAP, BUTTON_ROW_FROM_BOTTOM, MARGIN_LEFT, MARGIN_RIGHT, MARGIN_TOP};

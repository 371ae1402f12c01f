//! What each screen shows, computed from the data; the drawing itself is
//! left to the terminal front end.
pub mod bookmarks;
pub mod browser;
pub mod search;
pub mod sparql;
pub mod status;
pub mod widgets;

//! The bookmark library shared by the command line tool and the desktop front end.
pub mod bookmark;

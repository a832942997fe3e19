//! Core of a static-site builder: which documents are published as
//! articles, in what order, under which routes, and how each page is
//! composed from the site's configuration and the processed documents.

pub mod text;
pub mod date;
pub mod content;
pub mod html;
pub mod assets;
pub mod route;
pub mod pages;
pub mod site;

//! A verified core for browsing a WMTS tiled-map service: parsing a
//! capabilities document into a tile-matrix-set model, resolving tile
//! addresses from a URL template, and a quad-tree navigation cursor over the
//! tile pyramid.

pub mod capabilities;
pub mod coordinator;
pub mod errors;
pub mod navigation;
pub mod text;
pub mod url_template;
pub mod xml;

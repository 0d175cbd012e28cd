pub mod svg;

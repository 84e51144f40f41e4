//! Verified text handling and page assembly for a family of Chinese comic sources.

pub mod text;
pub mod model;
pub mod assemble;
pub mod filters;
pub mod http;
pub mod favcomic;
pub mod mh18;
pub mod gmh8;
pub mod jmd52;
pub mod kanman;
pub mod kukanmanhua;
pub mod manwa;
pub mod pipimanhua;
pub mod qiruiyaoye;
pub mod decode;
pub mod veryim;
pub mod wnacg;
pub mod laws;

pub mod entries;
pub mod lockfile;
pub mod manifest;

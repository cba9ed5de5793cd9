pub mod adapt;
pub mod assets;
pub mod files;
pub mod frontmatter;
pub mod report;
pub mod run;

//! Bounds on what a render may consume and produce.
use vstd::prelude::*;

verus! {

/// `std::time::Duration::from_secs`; the value is opaque to the proofs.
pub assume_specification[ core::time::Duration::from_secs ](secs: u64) -> core::time::Duration;

/// Size limits on sources, assets and HTML, and the wall-clock budget of one
/// compile.
#[derive(Clone, Copy, Debug)]
pub struct RenderLimits {
    pub max_source_bytes: usize,
    pub max_asset_bytes: usize,
    pub max_html_bytes: usize,
    pub timeout: std::time::Duration,
}

impl Default for RenderLimits {
    /// 512 KiB of source, 5 MiB per asset, 2 MiB of HTML and ten seconds.
    fn default() -> (r: RenderLimits)
        ensures
            r.max_source_bytes == 512 * 1024,
            r.max_asset_bytes == 5 * 1024 * 1024,
            r.max_html_bytes == 2 * 1024 * 1024,
    {
        RenderLimits {
            max_source_bytes: 512 * 1024,
            max_asset_bytes: 5 * 1024 * 1024,
            max_html_bytes: 2 * 1024 * 1024,
            timeout: std::time::Duration::from_secs(10),
        }
    }
}

} // verus!

//! The verified core of a desktop front end for yt-dlp: the yt-dlp command
//! line built from the options chosen in the window, the reading of its
//! output, the log pane, the platform decisions (font, tools, openers), and
//! the Pix donation code with its QR picture.
use vstd::prelude::*;

pub mod args;
pub mod checksum;
pub mod download;
pub mod log;
pub mod pix;
pub mod platform;
pub mod qr;
pub mod text;

pub use args::{build_args, DownloadOptions, ToolSetup};
pub use checksum::crc16_ccitt;
pub use log::prepend_log;
pub use pix::pix_br_code;
pub use platform::{mono_font, TargetOs};
pub use qr::generate_qr_image;

verus! {
} // verus!

//! Static analysis of Android application packages: DEX parsing, Dalvik
//! instruction decoding, expression reconstruction, call graphs and
//! entry-point-to-sink flow queries.

pub mod apk;
pub mod dex;
pub mod text;

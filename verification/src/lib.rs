pub mod appconfig;
pub mod codec;
pub mod parameters;
pub mod process;
pub mod source;
pub mod strutil;

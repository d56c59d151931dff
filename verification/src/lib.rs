//! Capture, filter and display of macro invocations at build time.
//!
//! A build is instrumented in three steps, and each has its part here.
//!
//! * Which packages to instrument: [`resolve`] walks the dependency graph
//!   and selects the packages that define macros, without the support
//!   library and everything it depends on.
//! * How to instrument them: [`patch`] rewrites a library source and a
//!   manifest, and [`transaction`] is the protocol by which a file is
//!   patched and restored without ever losing its content. [`cli`] turns the
//!   options of the command into the query for the capture and the options
//!   for the build, and [`attrs`] reads a macro definition's attributes.
//! * What happens at each macro call: [`wrapper`] numbers the call and
//!   decides with [`filter`] whether to show it; [`classify`] finds the
//!   syntax category of the output, [`truncate`] cuts the output to a depth
//!   for display, and [`show`] lays out what is displayed.
//!
//! [`token`] is the token tree that the capture works on, [`entry`] one
//! captured call, and [`text`] the helpers on character sequences.
//!
//! Nothing here reads or writes a file, the environment or a terminal: that
//! is left to the caller, who hands in plain values and gets plain values
//! back.

pub mod attrs;
pub mod classify;
pub mod cli;
pub mod entry;
pub mod filter;
pub mod patch;
pub mod resolve;
pub mod show;
pub mod text;
pub mod token;
pub mod transaction;
pub mod truncate;
pub mod wrapper;

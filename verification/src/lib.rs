//! English names for integers.
//!
//! `integer_name` turns any 128-bit signed or unsigned integer into its
//! written-out English form ("forty-two", "one billion, seven",
//! "negative one hundred seventy undecillion, ...").  The naming rules are
//! stated as spec functions over sequences of characters, the executable
//! functions are proved to match them, and the structural properties of the
//! output (hyphenation, the shape of hundreds, the sign prefix, the absence
//! of stray separators) are proved as lemmas.

pub mod laws;
pub mod naming;
pub mod words;

pub use naming::integer_name;
pub use naming::integer_name_u128;
pub use naming::tiny_integer_name;

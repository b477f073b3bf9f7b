//! Application policy of a LocalSend desktop client: the session state, the
//! rules that decide what is offered, received, shown and stored, and the
//! parsing of clipboard, locale, release and protocol inputs.
use vstd::prelude::*;

pub mod clipboard;
pub mod diagnostics;
pub mod i18n;
pub mod localsend;
pub mod model;
pub mod seqs;
pub mod system;
pub mod text;
pub mod updates;
pub mod views;

verus! {

} // verus!

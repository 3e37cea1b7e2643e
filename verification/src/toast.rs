//! App-wide toast notifications.

use vstd::prelude::*;

verus! {

/// The kind of a toast, which decides its colour.
#[derive(Debug, Clone, PartialEq)]
pub enum ToastKind {
    Info,
    Success,
    Error,
}

/// A short notification shown over the window.
#[derive(Debug, Clone)]
pub struct Toast {
    pub id: u64,
    pub body: String,
    pub kind: ToastKind,
}

} // verus!

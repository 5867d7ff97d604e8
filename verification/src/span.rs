//! Source positions, and values that carry one.

use vstd::prelude::*;

verus! {

/// A range of byte positions in one file.
#[derive(Clone, Copy, Debug, PartialEq, Eq, Structural)]
pub struct Span {
    /// The first byte.
    pub start: usize,
    /// The byte after the last one.
    pub end: usize,
}

/// A source file, known by its number in the file table.
#[derive(Clone, Copy, Debug, PartialEq, Eq, Structural)]
pub struct FileRef(pub usize);

/// A span together with the file that it lies in.
#[derive(Clone, Copy, Debug, PartialEq, Eq, Structural)]
pub struct FileSpan {
    /// The file.
    pub file: FileRef,
    /// The range in the file.
    pub span: Span,
}

impl FileSpan {
    /// Whether a value whose own position is `inner` may be reported at that position while a
    /// construct at `self` is being read: it lies in the same file and starts no earlier.
    pub open spec fn admits(self, inner: FileSpan) -> bool {
        inner.file == self.file && inner.span.start >= self.span.start
    }

    /// The span to report for a value whose own position, where it has one, is `inner`.
    pub open spec fn narrow(self, inner: Option<FileSpan>) -> Span {
        match inner {
            Some(fsp) => if self.admits(fsp) {
                fsp.span
            } else {
                self.span
            },
            None => self.span,
        }
    }
}

/// A value with the place that it was read from.
#[derive(Debug)]
pub struct Spanned<T> {
    /// Where the value stands.
    pub span: FileSpan,
    /// The value.
    pub k: T,
}

impl<T: DeepView> DeepView for Spanned<T> {
    type V = Spanned<T::V>;

    open spec fn deep_view(&self) -> Spanned<T::V> {
        Spanned { span: self.span, k: self.k.deep_view() }
    }
}

} // verus!

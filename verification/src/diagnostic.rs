//! What a build reports about definitions that it could not take as they were.

use vstd::prelude::*;

verus! {

/// One finding of a build. None of them stops the build.
#[derive(Clone, Debug)]
pub enum Diagnostic {
    /// The inventory holds no hardware with this id; the definition lost it.
    HardwareNotFound { hardware_id: String },
    /// The definition named here held an internal index without a hardware
    /// id; the index was dropped.
    InconsistentIndex { name: String },
    /// No node admitted so far has this name and a kind that fits; the
    /// definition lost its input.
    InputNotFound { input: String },
    /// The controller named here has its drop-out threshold at or above its
    /// trip threshold: a value between the two makes it switch at every
    /// tick.
    NoHysteresisBand { name: String },
}

/// A diagnostic as the contracts see it.
pub enum DiagnosticView {
    HardwareNotFound { hardware_id: Seq<char> },
    InconsistentIndex { name: Seq<char> },
    InputNotFound { input: Seq<char> },
    NoHysteresisBand { name: Seq<char> },
}

impl View for Diagnostic {
    type V = DiagnosticView;

    open spec fn view(&self) -> DiagnosticView {
        match self {
            Diagnostic::HardwareNotFound { hardware_id } => DiagnosticView::HardwareNotFound {
                hardware_id: hardware_id@,
            },
            Diagnostic::InconsistentIndex { name } => DiagnosticView::InconsistentIndex {
                name: name@,
            },
            Diagnostic::InputNotFound { input } => DiagnosticView::InputNotFound { input: input@ },
            Diagnostic::NoHysteresisBand { name } => DiagnosticView::NoHysteresisBand {
                name: name@,
            },
        }
    }
}

/// The views of a list of diagnostics.
pub open spec fn diagnostic_views(diagnostics: Seq<Diagnostic>) -> Seq<DiagnosticView> {
    diagnostics.map_values(|diagnostic: Diagnostic| diagnostic@)
}

/// Appends one diagnostic.
pub fn report(diagnostics: &mut Vec<Diagnostic>, diagnostic: Diagnostic)
    ensures
        diagnostic_views(final(diagnostics)@) == diagnostic_views(old(diagnostics)@).push(
            diagnostic@,
        ),
{
    diagnostics.push(diagnostic);
}

} // verus!

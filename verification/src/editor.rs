//! What the editor renders in answer to the events of its interface.
use vstd::prelude::*;

verus! {

/// A request of the editor's interface.
#[derive(Clone, Debug)]
pub enum UiEvent {
    /// Render the part in the file at `path`.
    Render { path: String },
    /// Render the part shown last again.
    ReRender(),
    /// Export the part shown.
    Export(),
}

/// The document to render for `event`, given the one rendered last, if any:
/// a render request names its own; a re-render takes the last one, and
/// without one there is nothing to render.
pub open spec fn render_target_of(last: Option<Seq<char>>, event: UiEvent) -> Option<Seq<char>> {
    match event {
        UiEvent::Render { path } => Some(path@),
        UiEvent::ReRender() => last,
        UiEvent::Export() => None,
    }
}

/// The document to render for `event`, given the one rendered last.
/// Exporting has no implementation in the editor and stops it, so such an
/// event is not taken.
pub fn render_target(last: &Option<String>, event: &UiEvent) -> (target: Option<String>)
    requires
        !(event is Export),
    ensures
        match target {
            Some(t) => render_target_of(
                match last {
                    Some(l) => Some(l@),
                    None => None,
                },
                *event,
            ) == Some(t@),
            None => render_target_of(
                match last {
                    Some(l) => Some(l@),
                    None => None,
                },
                *event,
            ) is None,
        },
{
    match event {
        UiEvent::Render { path } => Some(path.clone()),
        UiEvent::ReRender() => match last {
            Some(l) => Some(l.clone()),
            None => None,
        },
        UiEvent::Export() => None,
    }
}

} // verus!

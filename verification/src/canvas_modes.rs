//! The interaction modes of the annotation canvas: dragging, panning and
//! the review target the view follows. The zoom factor and pan offset are
//! floating-point and stay with the drawing code, which tells these
//! functions whether the image is zoomed in.
use vstd::prelude::*;
use crate::text;

verus! {

/// What the review view is centred on.
#[derive(Debug)]
pub enum ReviewViewTarget {
    /// Review focus is not tracked.
    Disabled,
    /// The whole image.
    FullImage,
    /// One annotation, at one version.
    Annotation(String, u32),
}

/// The review target as plain values.
pub open spec fn target_view(t: ReviewViewTarget) -> Option<Option<(Seq<char>, u32)>> {
    match t {
        ReviewViewTarget::Disabled => None,
        ReviewViewTarget::FullImage => Some(None),
        ReviewViewTarget::Annotation(id, v) => Some(Some((id@, v))),
    }
}

/// The modes of the canvas.
#[derive(Debug)]
pub struct CanvasModes {
    /// A create, move or resize interaction is in progress.
    pub dragging: bool,
    /// Panning because the pan modifier is held.
    pub modifier_pan: bool,
    /// Pan mode chosen by the annotator.
    pub pan_mode: bool,
    /// Pan mode imposed by the workflow.
    pub pan_mode_required: bool,
    /// The primary button pans.
    pub primary_pan: bool,
    /// The review target the view follows.
    pub review_target: ReviewViewTarget,
    /// A view change towards the review target is waiting to be applied.
    pub review_view_pending: bool,
}

/// `after` is `before` with pan mode switched by hand: nothing changes
/// while pan mode is required; otherwise any drag is dropped, and pan mode
/// turns on only when it was off and the image is zoomed in.
pub open spec fn toggled(before: CanvasModes, zoomed_in: bool, after: CanvasModes) -> bool {
    if before.pan_mode_required {
        after == before
    } else {
        after == (CanvasModes {
            dragging: false,
            primary_pan: false,
            pan_mode: zoomed_in && !before.pan_mode,
            ..before
        })
    }
}

/// The review target a focus request asks for.
pub open spec fn wanted_target(annotation: Option<(Seq<char>, u32)>) -> Option<Option<(Seq<char>, u32)>> {
    Some(annotation)
}

/// `after` follows the requested review target: a view change is scheduled
/// only when the target changed, and `changed` says whether it did.
pub open spec fn focused(before: CanvasModes, annotation: Option<(Seq<char>, u32)>, after: CanvasModes, changed: bool) -> bool {
    &&& changed == (target_view(before.review_target) != wanted_target(annotation))
    &&& changed ==> target_view(after.review_target) == wanted_target(annotation) && after.review_view_pending && after
        == (CanvasModes { review_target: after.review_target, review_view_pending: true, ..before })
    &&& !changed ==> after == before
}

impl CanvasModes {
    /// A canvas at rest: nothing dragged, no panning, no review focus.
    pub fn new() -> (c: Self)
        ensures
            !c.dragging && !c.modifier_pan && !c.pan_mode && !c.pan_mode_required && !c.primary_pan,
            c.review_target is Disabled,
            !c.review_view_pending,
    {
        CanvasModes {
            dragging: false,
            modifier_pan: false,
            pan_mode: false,
            pan_mode_required: false,
            primary_pan: false,
            review_target: ReviewViewTarget::Disabled,
            review_view_pending: false,
        }
    }

    /// Whether an annotation create, move or resize interaction is active.
    pub fn is_dragging(&self) -> (r: bool)
        ensures
            r == self.dragging,
    {
        self.dragging
    }

    /// Whether the canvas pans: by choice or because it is required.
    pub fn in_pan_mode(&self) -> (r: bool)
        ensures
            r == (self.pan_mode_required || self.pan_mode),
    {
        self.pan_mode_required || self.pan_mode
    }

    /// Switches pan mode by hand, which is possible only while it is not
    /// required: any drag is dropped, and pan mode turns on only when it was
    /// off and the image is zoomed in.
    pub fn toggle_pan_mode(&mut self, zoomed_in: bool)
        ensures
            toggled(*old(self), zoomed_in, *final(self)),
    {
        if self.pan_mode_required {
            return;
        }
        self.dragging = false;
        self.primary_pan = false;
        self.pan_mode = zoomed_in && !self.pan_mode;
    }

    /// Leaves pan mode, unless it is required.
    pub fn exit_pan_mode(&mut self)
        ensures
            old(self).pan_mode_required ==> *final(self) == *old(self),
            !old(self).pan_mode_required ==> *final(self) == (CanvasModes {
                pan_mode: false,
                primary_pan: false,
                ..*old(self)
            }),
    {
        if self.pan_mode_required {
            return;
        }
        self.primary_pan = false;
        self.pan_mode = false;
    }

    /// Makes pan mode required or not; on a change every drag and pan is
    /// dropped.
    pub fn require_pan_mode(&mut self, required: bool)
        ensures
            old(self).pan_mode_required == required ==> *final(self) == *old(self),
            old(self).pan_mode_required != required ==> *final(self) == (CanvasModes {
                dragging: false,
                modifier_pan: false,
                primary_pan: false,
                pan_mode: false,
                pan_mode_required: required,
                ..*old(self)
            }),
    {
        if self.pan_mode_required == required {
            return;
        }
        self.dragging = false;
        self.modifier_pan = false;
        self.primary_pan = false;
        self.pan_mode = false;
        self.pan_mode_required = required;
    }

    /// The modes after the view was fitted to the image, or zoomed out to
    /// it: no drag and no chosen panning.
    pub fn fit_view(&mut self)
        ensures
            *final(self) == (CanvasModes { dragging: false, pan_mode: false, primary_pan: false, ..*old(self) }),
    {
        self.dragging = false;
        self.pan_mode = false;
        self.primary_pan = false;
    }

    /// The modes after zooming in one step: any drag ends.
    pub fn zoom_in(&mut self)
        ensures
            *final(self) == (CanvasModes { dragging: false, ..*old(self) }),
    {
        self.dragging = false;
    }

    /// The modes after zooming out one step: any drag ends, and when the
    /// zoom reached the fitted view (`at_minimum`) chosen panning ends too.
    pub fn zoom_out(&mut self, at_minimum: bool)
        ensures
            !at_minimum ==> *final(self) == (CanvasModes { dragging: false, ..*old(self) }),
            at_minimum ==> *final(self) == (CanvasModes {
                dragging: false,
                pan_mode: false,
                primary_pan: false,
                ..*old(self)
            }),
    {
        self.dragging = false;
        if at_minimum {
            self.pan_mode = false;
            self.primary_pan = false;
        }
    }

    /// Follows a review target: the annotation under review (its ID and
    /// version), or the whole image when there is none. A view change is
    /// scheduled only when the target changed; reports whether it did.
    pub fn set_review_focus(&mut self, annotation: Option<(&str, u32)>) -> (changed: bool)
        ensures
            focused(
                *old(self),
                match annotation {
                    Some((id, v)) => Some((id@, v)),
                    None => None,
                },
                *final(self),
                changed,
            ),
    {
        let same = match (&self.review_target, annotation) {
            (ReviewViewTarget::FullImage, None) => true,
            (ReviewViewTarget::Annotation(id, v), Some((a, av))) => *v == av && text::str_eq(id.as_str(), a),
            _ => false,
        };
        if same {
            return false;
        }
        self.review_target = match annotation {
            Some((id, v)) => ReviewViewTarget::Annotation(text::to_string(id), v),
            None => ReviewViewTarget::FullImage,
        };
        self.review_view_pending = true;
        true
    }

    /// Stops following review targets without changing the view.
    pub fn clear_review_focus(&mut self)
        ensures
            *final(self) == (CanvasModes {
                review_target: ReviewViewTarget::Disabled,
                review_view_pending: false,
                ..*old(self)
            }),
    {
        self.review_target = ReviewViewTarget::Disabled;
        self.review_view_pending = false;
    }
}

/// Switching pan mode twice while zoomed in, when it is not required,
/// returns to the mode chosen before, with any drag dropped.
pub proof fn toggle_pan_mode_twice_restores(a: CanvasModes, b: CanvasModes, c: CanvasModes)
    requires
        toggled(a, true, b),
        toggled(b, true, c),
    ensures
        c.pan_mode == a.pan_mode,
        !a.pan_mode_required ==> c == (CanvasModes { dragging: false, primary_pan: false, ..a }),
{
}

/// Asking twice for the same review target schedules a view change at most
/// once: the second request changes nothing.
pub proof fn review_focus_is_idempotent(
    a: CanvasModes,
    annotation: Option<(Seq<char>, u32)>,
    b: CanvasModes,
    first: bool,
    c: CanvasModes,
    second: bool,
)
    requires
        focused(a, annotation, b, first),
        focused(b, annotation, c, second),
    ensures
        !second,
        c == b,
{
}

} // verus!

//! Cursor tracking for the custom shader pipeline.
//!
//! The coordinate type `T` is the renderer's pixel type; the tracker only
//! copies coordinates around, while comparisons between coordinates are
//! made by the caller and handed in with each update.

use vstd::prelude::*;

use crate::display::{cursor_style_int, secondary_cursor_slots, shader_cursor_counts, CursorShape};
use crate::shader::MAX_MULTI_CURSORS;

verus! {

/// A cursor rectangle `(x_left, y_bottom, width, height)` or an RGBA color.
pub type Quad<T> = [T; 4];

/// Mathematical model of a [`CursorState`].
pub struct CursorModel<T> {
    pub current: Quad<T>,
    pub previous: Quad<T>,
    pub color: Quad<T>,
    pub time_cursor_change: T,
    pub visible: bool,
    pub multi_cursors: Seq<Quad<T>>,
    pub previous_multi_cursors: Seq<Quad<T>>,
    pub multi_cursor_types: Seq<i32>,
    pub multi_cursor_count: i32,
    pub previous_multi_cursor_count: i32,
    pub app_visible: bool,
    pub time_mode_change: T,
    pub previous_color: Quad<T>,
    pub cursor_style: i32,
    pub previous_cursor_style: i32,
}

/// Tracks cursor position/color for the custom shader pipeline.
pub struct CursorState<T> {
    current: Quad<T>,
    previous: Quad<T>,
    color: Quad<T>,
    time_cursor_change: T,
    visible: bool,
    multi_cursors: Vec<Quad<T>>,
    previous_multi_cursors: Vec<Quad<T>>,
    multi_cursor_types: Vec<i32>,
    multi_cursor_count: i32,
    previous_multi_cursor_count: i32,
    /// App-level cursor visibility (DECTCEM), not affected by blink.
    app_visible: bool,
    /// Timestamp of the last app-level mode change (DECTCEM transition).
    time_mode_change: T,
    /// Previous cursor color for transition detection.
    previous_color: Quad<T>,
    /// Current cursor style (ghostty-compatible int).
    cursor_style: i32,
    /// Previous cursor style for transition detection.
    previous_cursor_style: i32,
}

/// One observation of the cursors, with the comparisons against the
/// tracked state that the caller made.
pub struct CursorUpdate<T> {
    /// Rectangle of the primary cursor.
    pub rect: Quad<T>,
    /// Color of the primary cursor.
    pub color: Quad<T>,
    /// Time of the observation.
    pub now: T,
    /// Shape of the primary cursor (`Hidden` while blinked off or hidden).
    pub shape: CursorShape,
    /// Whether the application shows the cursor (DECTCEM).
    pub app_visible: bool,
    /// Whether `rect`'s position differs from the tracked current position.
    pub position_changed: bool,
    /// Whether `rect`'s size differs from the tracked current size.
    pub size_differs: bool,
    /// Whether `color` differs from the tracked current color.
    pub color_differs: bool,
    /// Rectangles of the secondary cursors, in order.
    pub extra_cursors: Vec<Quad<T>>,
    /// Whether the first rectangles of `extra_cursors` (up to
    /// [`MAX_MULTI_CURSORS`]) differ from the tracked secondary cursors at
    /// the same positions.
    pub extra_rects_differ: bool,
}

impl<T> View for CursorState<T> {
    type V = CursorModel<T>;

    closed spec fn view(&self) -> CursorModel<T> {
        CursorModel {
            current: self.current,
            previous: self.previous,
            color: self.color,
            time_cursor_change: self.time_cursor_change,
            visible: self.visible,
            multi_cursors: self.multi_cursors@,
            previous_multi_cursors: self.previous_multi_cursors@,
            multi_cursor_types: self.multi_cursor_types@,
            multi_cursor_count: self.multi_cursor_count,
            previous_multi_cursor_count: self.previous_multi_cursor_count,
            app_visible: self.app_visible,
            time_mode_change: self.time_mode_change,
            previous_color: self.previous_color,
            cursor_style: self.cursor_style,
            previous_cursor_style: self.previous_cursor_style,
        }
    }
}

/// What every tracker state holds: [`MAX_MULTI_CURSORS`] entries in each
/// secondary array and both secondary counts in `0..=MAX_MULTI_CURSORS`.
pub open spec fn tracker_bounds<T>(m: CursorModel<T>) -> bool {
    &&& m.multi_cursors.len() == MAX_MULTI_CURSORS
    &&& m.previous_multi_cursors.len() == MAX_MULTI_CURSORS
    &&& m.multi_cursor_types.len() == MAX_MULTI_CURSORS
    &&& 0 <= m.multi_cursor_count <= MAX_MULTI_CURSORS
    &&& 0 <= m.previous_multi_cursor_count <= MAX_MULTI_CURSORS
}

/// The rectangle `r` moved to the position of `p`, keeping its size.
pub open spec fn moved_to<T>(r: Quad<T>, p: Quad<T>) -> Quad<T> {
    [p[0], p[1], r[2], r[3]]
}

/// Number of secondary cursors tracked from `n` reported ones.
pub open spec fn tracked_count(n: nat) -> nat {
    if n <= MAX_MULTI_CURSORS {
        n
    } else {
        MAX_MULTI_CURSORS as nat
    }
}

/// `s` with its entries in `[from, to)` taken from `new`.
pub open spec fn overwrite<A>(s: Seq<A>, new: Seq<A>, from: int, to: int) -> Seq<A> {
    Seq::new(s.len(), |k: int| if from <= k < to { new[k] } else { s[k] })
}

impl<T> CursorState<T> {
    #[verifier::type_invariant]
    spec fn wf(self) -> bool {
        &&& self.multi_cursors@.len() == MAX_MULTI_CURSORS
        &&& self.previous_multi_cursors@.len() == MAX_MULTI_CURSORS
        &&& self.multi_cursor_types@.len() == MAX_MULTI_CURSORS
        &&& 0 <= self.multi_cursor_count <= MAX_MULTI_CURSORS
        &&& 0 <= self.previous_multi_cursor_count <= MAX_MULTI_CURSORS
    }
}

impl<T: Copy> CursorState<T> {
    /// A tracker with no movement yet: the cursor at `rect` in `color`,
    /// times at `zero`, no secondary cursors.
    pub fn new(rect: Quad<T>, color: Quad<T>, zero: T) -> (r: Self)
        ensures
            tracker_bounds(r@),
            r@.current == rect,
            r@.previous == rect,
            r@.color == color,
            r@.previous_color == color,
            r@.time_cursor_change == zero,
            r@.time_mode_change == zero,
            r@.visible,
            r@.app_visible,
            r@.multi_cursors == Seq::new(MAX_MULTI_CURSORS as nat, |k: int| [zero, zero, zero, zero]),
            r@.previous_multi_cursors == Seq::new(
                MAX_MULTI_CURSORS as nat,
                |k: int| [zero, zero, zero, zero],
            ),
            r@.multi_cursor_types == Seq::new(MAX_MULTI_CURSORS as nat, |k: int| 0i32),
            r@.multi_cursor_count == 0,
            r@.previous_multi_cursor_count == 0,
            r@.cursor_style == 0,
            r@.previous_cursor_style == 0,
    {
        let mut rects: Vec<Quad<T>> = Vec::new();
        let mut types: Vec<i32> = Vec::new();
        let mut k: usize = 0;
        while k < MAX_MULTI_CURSORS
            invariant
                k <= MAX_MULTI_CURSORS,
                rects@ == Seq::new(k as nat, |m: int| [zero, zero, zero, zero]),
                types@ == Seq::new(k as nat, |m: int| 0i32),
            decreases MAX_MULTI_CURSORS - k,
        {
            rects.push([zero, zero, zero, zero]);
            types.push(0);
            k = k + 1;
            proof {
                assert(rects@ =~= Seq::new(k as nat, |m: int| [zero, zero, zero, zero]));
                assert(types@ =~= Seq::new(k as nat, |m: int| 0i32));
            }
        }
        let previous_rects = copy_quads(&rects);
        CursorState {
            current: rect,
            previous: rect,
            color,
            time_cursor_change: zero,
            visible: true,
            multi_cursors: rects,
            previous_multi_cursors: previous_rects,
            multi_cursor_types: types,
            multi_cursor_count: 0,
            previous_multi_cursor_count: 0,
            app_visible: true,
            time_mode_change: zero,
            previous_color: color,
            cursor_style: 0,
            previous_cursor_style: 0,
        }
    }
}

/// The tracker state after observing `e` in state `m`, as a conjunction of
/// its fields. The primary cursor is tracked while visible and whenever it
/// moves or the application shows/hides it; each movement pushes the old
/// rectangle into `previous` and restarts the cursor-change time, except
/// for plain moves while secondary cursors are shown; secondary cursors are
/// tracked up to [`MAX_MULTI_CURSORS`], with their previous positions kept
/// for trails.
pub open spec fn cursor_update<T>(m: CursorModel<T>, e: CursorUpdate<T>, r: CursorModel<T>) -> bool {
    let visible = !(e.shape is Hidden);
    let mode_changed = e.app_visible != m.app_visible;
    let touched = visible || e.position_changed || mode_changed;
    let moved = e.position_changed || mode_changed || (visible && e.size_differs);
    let n = tracked_count(e.extra_cursors@.len());
    let extra = e.extra_cursors@.len() > 0;
    let positions_changed = extra && (n != m.multi_cursor_count || e.extra_rects_differ);
    let previous_base = if moved {
        m.current
    } else {
        m.previous
    };
    let multi_base = if positions_changed {
        m.multi_cursors
    } else {
        m.previous_multi_cursors
    };
    let multi_new = if positions_changed && n > m.multi_cursor_count {
        overwrite(multi_base, e.extra_cursors@, m.multi_cursor_count as int, n as int)
    } else {
        multi_base
    };
    &&& r.visible == visible
    &&& r.app_visible == e.app_visible
    &&& r.current == if !touched {
        m.current
    } else if visible {
        e.rect
    } else {
        moved_to(m.current, e.rect)
    }
    &&& r.color == if touched && visible {
        e.color
    } else {
        m.color
    }
    &&& r.previous_color == if touched && visible && e.color_differs {
        m.color
    } else {
        m.previous_color
    }
    &&& r.previous == if mode_changed {
        moved_to(previous_base, e.rect)
    } else {
        previous_base
    }
    &&& (r.cursor_style, r.previous_cursor_style) == match cursor_style_of(e.shape) {
        Some(style) => if style != m.cursor_style {
            (style, m.cursor_style)
        } else {
            (m.cursor_style, m.previous_cursor_style)
        },
        None => (m.cursor_style, m.previous_cursor_style),
    }
    &&& r.time_mode_change == if mode_changed && !e.position_changed {
        e.now
    } else {
        m.time_mode_change
    }
    &&& r.time_cursor_change == if (moved && (mode_changed || !extra || m.multi_cursor_count == 0)) || (
    !extra && m.multi_cursor_count != 0) || positions_changed {
        e.now
    } else {
        m.time_cursor_change
    }
    &&& r.previous_multi_cursor_count == if moved || (!extra && m.multi_cursor_count != 0)
        || positions_changed {
        m.multi_cursor_count
    } else {
        m.previous_multi_cursor_count
    }
    &&& r.multi_cursor_count == if extra {
        n as i32
    } else {
        0i32
    }
    &&& r.multi_cursors == if extra {
        overwrite(m.multi_cursors, e.extra_cursors@, 0, n as int)
    } else {
        m.multi_cursors
    }
    &&& r.previous_multi_cursors == if !extra {
        if m.multi_cursor_count != 0 {
            m.multi_cursors
        } else {
            m.previous_multi_cursors
        }
    } else if mode_changed {
        overwrite(multi_new, e.extra_cursors@, 0, n as int)
    } else {
        multi_new
    }
    &&& r.multi_cursor_types == if extra {
        overwrite(
            m.multi_cursor_types,
            Seq::new(MAX_MULTI_CURSORS as nat, |k: int| 1i32),
            0,
            n as int,
        )
    } else {
        m.multi_cursor_types
    }
}

impl<T: Copy> CursorState<T> {
    /// Update cursor tracking only while a custom shader pipeline runs;
    /// returns whether it does (and the frame goes through the shaders).
    pub fn update_if_active(&mut self, has_pipeline: bool, e: &CursorUpdate<T>) -> (r: bool)
        ensures
            r == has_pipeline,
            tracker_bounds(old(self)@),
            tracker_bounds(final(self)@),
            has_pipeline ==> cursor_update(old(self)@, *e, final(self)@),
            !has_pipeline ==> final(self)@ == old(self)@,
    {
        proof {
            use_type_invariant(&*self);
        }
        if !has_pipeline {
            return false;
        }
        self.update(e);
        true
    }
}

/// A visible cursor that moves, or changes size, records its old
/// rectangle as the previous one (at the new position when the application
/// also shows or hides it), takes the new rectangle and color, and restarts
/// the cursor-change time, unless only its position changed while
/// secondary cursors stay shown.
pub proof fn lemma_visible_change_is_recorded<T>(m: CursorModel<T>, e: CursorUpdate<T>, r: CursorModel<T>)
    requires
        cursor_update(m, e, r),
        !(e.shape is Hidden),
        e.position_changed || e.size_differs,
    ensures
        r.current == e.rect,
        r.color == e.color,
        r.visible,
        e.app_visible == m.app_visible ==> r.previous == m.current,
        e.app_visible != m.app_visible ==> r.previous == [e.rect[0], e.rect[1], m.current[2], m.current[3]],
        (e.extra_cursors@.len() == 0 || m.multi_cursor_count == 0 || e.app_visible != m.app_visible)
            ==> r.time_cursor_change == e.now,
        r.previous_multi_cursor_count == m.multi_cursor_count,
{
}

/// An observation that reports no movement, no size change and no show or
/// hide by the application keeps the primary cursor's previous rectangle;
/// a hidden cursor that did not move also keeps its current rectangle and
/// color.
pub proof fn lemma_still_cursor_keeps_previous<T>(m: CursorModel<T>, e: CursorUpdate<T>, r: CursorModel<T>)
    requires
        cursor_update(m, e, r),
        !e.position_changed,
        !e.size_differs,
        e.app_visible == m.app_visible,
    ensures
        r.previous == m.previous,
        r.time_mode_change == m.time_mode_change,
        e.shape is Hidden ==> r.current == m.current && r.color == m.color && !r.visible,
{
}

/// A hidden cursor that moves takes the new position but keeps its last
/// visible size and color; a visible cursor whose color changes keeps the
/// old color as the previous one.
pub proof fn lemma_hidden_move_and_color<T>(m: CursorModel<T>, e: CursorUpdate<T>, r: CursorModel<T>)
    requires
        cursor_update(m, e, r),
    ensures
        e.shape is Hidden && e.position_changed ==> r.current == [e.rect[0], e.rect[1], m.current[2], m.current[3]]
            && r.color == m.color && !r.visible,
        !(e.shape is Hidden) && e.color_differs ==> r.previous_color == m.color && r.color == e.color,
        !e.color_differs ==> r.previous_color == m.previous_color,
{
}

/// `e` observed again at time `now`, with nothing reported as changed.
pub open spec fn unchanged_observation<T>(e: CursorUpdate<T>, again: CursorUpdate<T>) -> bool {
    &&& again.rect == e.rect
    &&& again.color == e.color
    &&& again.shape == e.shape
    &&& again.app_visible == e.app_visible
    &&& again.extra_cursors@ == e.extra_cursors@
    &&& !again.position_changed
    &&& !again.size_differs
    &&& !again.color_differs
    &&& !again.extra_rects_differ
}

/// Once an observation has been taken in, observing the same cursors again
/// with nothing reported as changed leaves the tracker as it was, whatever
/// the time: no movement is recorded and no animation is restarted.
pub proof fn lemma_update_settles<T>(
    m: CursorModel<T>,
    e: CursorUpdate<T>,
    r: CursorModel<T>,
    again: CursorUpdate<T>,
    r2: CursorModel<T>,
)
    requires
        m.multi_cursors.len() == MAX_MULTI_CURSORS,
        m.previous_multi_cursors.len() == MAX_MULTI_CURSORS,
        m.multi_cursor_types.len() == MAX_MULTI_CURSORS,
        cursor_update(m, e, r),
        unchanged_observation(e, again),
        cursor_update(r, again, r2),
    ensures
        r2 == r,
{
    if e.extra_cursors@.len() > 0 {
        assert(r2.multi_cursors =~= r.multi_cursors);
        assert(r2.multi_cursor_types =~= r.multi_cursor_types);
    }
}

/// When the application shows or hides the cursor, no trail is drawn: the
/// previous positions of the primary and of every tracked secondary cursor
/// are those just observed.
pub proof fn lemma_mode_change_suppresses_trails<T>(
    m: CursorModel<T>,
    e: CursorUpdate<T>,
    r: CursorModel<T>,
)
    requires
        m.multi_cursors.len() == MAX_MULTI_CURSORS,
        m.previous_multi_cursors.len() == MAX_MULTI_CURSORS,
        cursor_update(m, e, r),
        e.app_visible != m.app_visible,
    ensures
        r.previous[0] == e.rect[0],
        r.previous[1] == e.rect[1],
        forall|k: int|
            0 <= k < tracked_count(e.extra_cursors@.len()) ==> #[trigger] r.previous_multi_cursors[k]
                == e.extra_cursors@[k],
{
}

/// Shader style number of a cursor shape; `None` for a hidden cursor.
pub open spec fn cursor_style_of(shape: CursorShape) -> Option<i32> {
    match shape {
        CursorShape::Block => Some(0i32),
        CursorShape::HollowBlock => Some(1i32),
        CursorShape::Beam => Some(2i32),
        CursorShape::Underline => Some(3i32),
        CursorShape::Hidden => None,
    }
}

/// Overwrite the entries `[from, to)` of `v` with those of `new`.
fn overwrite_range<A: Copy>(v: &mut Vec<A>, new: &Vec<A>, from: usize, to: usize)
    requires
        from <= to <= old(v)@.len(),
        to <= new@.len(),
    ensures
        final(v)@ == overwrite(old(v)@, new@, from as int, to as int),
{
    let mut k: usize = from;
    while k < to
        invariant
            from <= k <= to <= v@.len(),
            to <= new@.len(),
            v@.len() == old(v)@.len(),
            v@ == overwrite(old(v)@, new@, from as int, k as int),
        decreases to - k,
    {
        v.set(k, new[k]);
        k = k + 1;
        proof {
            assert(v@ =~= overwrite(old(v)@, new@, from as int, k as int));
        }
    }
}

impl<T: Copy> CursorState<T> {
    /// Update cursor tracking from one observation of the cursors.
    #[verifier::rlimit(30)]
    pub fn update(&mut self, e: &CursorUpdate<T>)
        ensures
            tracker_bounds(old(self)@),
            tracker_bounds(final(self)@),
            cursor_update(old(self)@, *e, final(self)@),
    {
        proof {
            use_type_invariant(&*self);
        }
        let now = e.now;
        let new_rect = e.rect;

        // Always extract position, regardless of visibility.
        let cursor_visible = match e.shape {
            CursorShape::Hidden => false,
            _ => true,
        };

        // Detect app-level mode change (DECTCEM), ignoring blink transitions.
        let mode_changed = e.app_visible != self.app_visible;

        // Only update rect when visible OR when position has changed, to avoid
        // overwriting a good rect with a potentially zero-size hidden rect.
        let pos_changed = e.position_changed;
        if cursor_visible || pos_changed || mode_changed {
            let size_changed = cursor_visible && e.size_differs;
            if pos_changed || size_changed || mode_changed {
                self.previous = self.current;
                self.previous_multi_cursor_count = self.multi_cursor_count;
                // Skip the timer reset for position-only moves while
                // secondary cursors are shown.
                if mode_changed || e.extra_cursors.len() == 0 || self.multi_cursor_count == 0 {
                    self.time_cursor_change = now;
                }
            }
            // On mode change, suppress trail by syncing previous to new position.
            if mode_changed {
                self.previous = [new_rect[0], new_rect[1], self.previous[2], self.previous[3]];
            }
            if cursor_visible {
                // Full update: position, size, and color.
                if e.color_differs {
                    self.previous_color = self.color;
                }
                self.current = new_rect;
                self.color = e.color;
            } else {
                // Hidden but moved: update position only, keep last-known size.
                self.current = [new_rect[0], new_rect[1], self.current[2], self.current[3]];
            }
        }
        self.visible = cursor_visible;

        // Track cursor style changes; Hidden preserves the last-known style.
        match cursor_style_int(e.shape) {
            Some(new_style) => {
                if new_style != self.cursor_style {
                    self.previous_cursor_style = self.cursor_style;
                    self.cursor_style = new_style;
                }
            },
            None => {},
        }

        if mode_changed && !pos_changed {
            // Only timestamp mode changes at the same position.
            self.time_mode_change = now;
        }
        self.app_visible = e.app_visible;

        // Process extra cursors; all of them are secondary.
        self.update_secondary(e, mode_changed);
    }

    /// The secondary-cursor part of [`Self::update`], for a mode change
    /// `mode_changed` seen by the primary part.
    #[verifier::rlimit(50)]
    fn update_secondary(&mut self, e: &CursorUpdate<T>, mode_changed: bool)
        ensures
            ({
                let m = old(self)@;
                let r = final(self)@;
                let n = tracked_count(e.extra_cursors@.len());
                let extra = e.extra_cursors@.len() > 0;
                let positions_changed = extra && (n != m.multi_cursor_count || e.extra_rects_differ);
                let multi_base = if positions_changed {
                    m.multi_cursors
                } else {
                    m.previous_multi_cursors
                };
                let multi_new = if positions_changed && n > m.multi_cursor_count {
                    overwrite(multi_base, e.extra_cursors@, m.multi_cursor_count as int, n as int)
                } else {
                    multi_base
                };
                &&& r.current == m.current
                &&& r.previous == m.previous
                &&& r.color == m.color
                &&& r.previous_color == m.previous_color
                &&& r.visible == m.visible
                &&& r.app_visible == m.app_visible
                &&& r.cursor_style == m.cursor_style
                &&& r.previous_cursor_style == m.previous_cursor_style
                &&& r.time_mode_change == m.time_mode_change
                &&& r.time_cursor_change == if (!extra && m.multi_cursor_count != 0) || positions_changed {
                    e.now
                } else {
                    m.time_cursor_change
                }
                &&& r.previous_multi_cursor_count == if (!extra && m.multi_cursor_count != 0)
                    || positions_changed {
                    m.multi_cursor_count
                } else {
                    m.previous_multi_cursor_count
                }
                &&& r.multi_cursor_count == if extra {
                    n as i32
                } else {
                    0i32
                }
                &&& r.multi_cursors == if extra {
                    overwrite(m.multi_cursors, e.extra_cursors@, 0, n as int)
                } else {
                    m.multi_cursors
                }
                &&& r.previous_multi_cursors == if !extra {
                    if m.multi_cursor_count != 0 {
                        m.multi_cursors
                    } else {
                        m.previous_multi_cursors
                    }
                } else if mode_changed {
                    overwrite(multi_new, e.extra_cursors@, 0, n as int)
                } else {
                    multi_new
                }
                &&& r.multi_cursor_types == if extra {
                    overwrite(
                        m.multi_cursor_types,
                        Seq::new(MAX_MULTI_CURSORS as nat, |k: int| 1i32),
                        0,
                        n as int,
                    )
                } else {
                    m.multi_cursor_types
                }
            }),
    {
        proof {
            use_type_invariant(&*self);
        }
        let now = e.now;
        if e.extra_cursors.len() == 0 {
            if self.multi_cursor_count != 0 {
                // Cursor count transition (multi -> single): treat as mode change.
                self.previous_multi_cursors = copy_quads(&self.multi_cursors);
                self.previous_multi_cursor_count = self.multi_cursor_count;
                self.time_cursor_change = now;
                self.multi_cursor_count = 0;
            }
        } else {
            let count: usize = if e.extra_cursors.len() <= MAX_MULTI_CURSORS {
                e.extra_cursors.len()
            } else {
                MAX_MULTI_CURSORS
            };
            let mut types = copy_types(&self.multi_cursor_types);
            let ones = secondary_types();
            overwrite_range(&mut types, &ones, 0, count);
            self.multi_cursor_types = types;

            // Only save previous positions and update the timestamp when
            // cursors actually moved.
            let positions_changed = count as i32 != self.multi_cursor_count || e.extra_rects_differ;
            if positions_changed {
                self.previous_multi_cursors = copy_quads(&self.multi_cursors);
                self.previous_multi_cursor_count = self.multi_cursor_count;
                self.time_cursor_change = now;

                // New cursors (indices beyond old count) have no previous
                // position: initialize their previous to current.
                let old_count = self.multi_cursor_count as usize;
                if count > old_count {
                    let mut previous = copy_quads(&self.previous_multi_cursors);
                    overwrite_range(&mut previous, &e.extra_cursors, old_count, count);
                    self.previous_multi_cursors = previous;
                }
            }
            let mut current = copy_quads(&self.multi_cursors);
            overwrite_range(&mut current, &e.extra_cursors, 0, count);
            self.multi_cursors = current;

            // On mode change, suppress trails by syncing all previous to current.
            if mode_changed {
                let mut previous = copy_quads(&self.previous_multi_cursors);
                overwrite_range(&mut previous, &e.extra_cursors, 0, count);
                self.previous_multi_cursors = previous;
            }

            self.multi_cursor_count = count as i32;
        }
    }
}

/// Cursor data handed to the post-processing shaders: the primary cursor in
/// slot 0 and the secondary cursors after it.
pub struct CursorUniforms<T> {
    pub time_cursor_change: T,
    pub time_mode_change: T,
    pub current_cursor: Quad<T>,
    pub previous_cursor: Quad<T>,
    pub current_cursor_color: Quad<T>,
    pub previous_cursor_color: Quad<T>,
    pub cursor_visible: bool,
    pub current_cursor_style: i32,
    pub previous_cursor_style: i32,
    pub current_cursors: Vec<Quad<T>>,
    pub previous_cursors: Vec<Quad<T>>,
    pub current_cursor_colors: Vec<Quad<T>>,
    pub current_cursor_styles: Vec<i32>,
    pub previous_cursor_styles: Vec<i32>,
    pub current_cursor_types: Vec<i32>,
    pub current_cursor_count: i32,
    pub previous_cursor_count: i32,
}

/// Whether shader slot `k` holds the secondary cursor `k - 1` of `count`
/// tracked ones, with `slots` secondary slots filled.
pub open spec fn slot_holds(k: int, count: int, slots: int) -> bool {
    1 <= k <= slots && k - 1 < count
}

/// Secondary slots filled for counts `sec` and `prev` (each in
/// `0..=MAX_MULTI_CURSORS`).
pub open spec fn secondary_slots(sec: int, prev: int) -> int {
    let larger = if sec >= prev { sec } else { prev };
    if larger <= MAX_MULTI_CURSORS - 1 { larger } else { MAX_MULTI_CURSORS - 1 }
}

/// Slot contents of a shader array: `first` in slot 0, `filled(k)` in the
/// slots `k` for which `holds(k)`, `empty` elsewhere.
pub open spec fn slot_array<A>(
    first: A,
    holds: spec_fn(int) -> bool,
    filled: spec_fn(int) -> A,
    empty: A,
) -> Seq<A> {
    Seq::new(
        MAX_MULTI_CURSORS as nat,
        |k: int|
            if k == 0 {
                first
            } else if holds(k) {
                filled(k)
            } else {
                empty
            },
    )
}

/// The shader data of tracker state `m`, with `zero` in unused slots.
pub open spec fn uniforms_of<T>(m: CursorModel<T>, zero: T, u: CursorUniforms<T>) -> bool {
    let sec = m.multi_cursor_count as int;
    let prev = m.previous_multi_cursor_count as int;
    let slots = secondary_slots(sec, prev);
    let z: Quad<T> = [zero, zero, zero, zero];
    let current_holds = |k: int| slot_holds(k, sec, slots);
    let previous_holds = |k: int| slot_holds(k, prev, slots);
    &&& u.time_cursor_change == m.time_cursor_change
    &&& u.time_mode_change == m.time_mode_change
    &&& u.current_cursor == m.current
    &&& u.previous_cursor == m.previous
    &&& u.current_cursor_color == m.color
    &&& u.previous_cursor_color == m.previous_color
    &&& u.cursor_visible == m.visible
    &&& u.current_cursor_style == m.cursor_style
    &&& u.previous_cursor_style == m.previous_cursor_style
    &&& u.current_cursors@ == slot_array(
        m.current,
        current_holds,
        |k: int| m.multi_cursors[k - 1],
        z,
    )
    &&& u.current_cursor_colors@ == slot_array(m.color, current_holds, |k: int| m.color, z)
    &&& u.current_cursor_styles@ == slot_array(
        m.cursor_style,
        current_holds,
        |k: int| m.cursor_style,
        0i32,
    )
    &&& u.current_cursor_types@ == slot_array(
        0i32,
        current_holds,
        |k: int| m.multi_cursor_types[k - 1],
        0i32,
    )
    &&& u.previous_cursors@ == slot_array(
        m.previous,
        previous_holds,
        |k: int| m.previous_multi_cursors[k - 1],
        z,
    )
    &&& u.previous_cursor_styles@ == slot_array(
        m.previous_cursor_style,
        |k: int| 1 <= k <= slots,
        |k: int| m.previous_cursor_style,
        0i32,
    )
    &&& u.previous_cursor_count == 1 + m.previous_multi_cursor_count
    &&& u.current_cursor_count == if m.visible || !m.app_visible {
        1 + m.multi_cursor_count
    } else {
        0
    }
}

/// Push onto `v` the entry `k` of `slot_array(first, holds, filled, empty)`.
fn push_slot<A: Copy>(
    v: &mut Vec<A>,
    holds: bool,
    filled: A,
    empty: A,
    Ghost(first): Ghost<A>,
    Ghost(spec_holds): Ghost<spec_fn(int) -> bool>,
    Ghost(spec_filled): Ghost<spec_fn(int) -> A>,
)
    requires
        1 <= old(v)@.len() < MAX_MULTI_CURSORS,
        old(v)@ == slot_array(first, spec_holds, spec_filled, empty).take(old(v)@.len() as int),
        holds == spec_holds(old(v)@.len() as int),
        holds ==> filled == spec_filled(old(v)@.len() as int),
    ensures
        final(v)@ == slot_array(first, spec_holds, spec_filled, empty).take(
            old(v)@.len() + 1 as int,
        ),
{
    if holds {
        v.push(filled);
    } else {
        v.push(empty);
    }
    proof {
        assert(v@ =~= slot_array(first, spec_holds, spec_filled, empty).take(v@.len() as int));
    }
}

impl<T: Copy> CursorState<T> {
    /// Time of the last cursor movement.
    pub fn time_cursor_change(&self) -> (r: T)
        ensures
            r == self@.time_cursor_change,
    {
        self.time_cursor_change
    }

    /// The stored secondary cursor rectangles, all [`MAX_MULTI_CURSORS`]
    /// of them (those past the tracked count are left from earlier frames).
    pub fn secondary_rects(&self) -> (r: Vec<Quad<T>>)
        ensures
            r@ == self@.multi_cursors,
    {
        copy_quads(&self.multi_cursors)
    }

    /// Time of the last application-level show/hide of the cursor.
    pub fn time_mode_change(&self) -> (r: T)
        ensures
            r == self@.time_mode_change,
    {
        self.time_mode_change
    }

    /// The cursor data for the shaders: slot 0 holds the primary cursor,
    /// the following slots the current and previous secondary cursors,
    /// which share the primary cursor's color and style; `zero` fills the
    /// unused slots.
    pub fn shader_uniforms(&self, zero: T) -> (u: CursorUniforms<T>)
        ensures
            tracker_bounds(self@),
            uniforms_of(self@, zero, u),
    {
        proof {
            use_type_invariant(self);
        }
        let ghost m = self@;
        let z: Quad<T> = [zero, zero, zero, zero];
        let sec = self.multi_cursor_count;
        let prev = self.previous_multi_cursor_count;
        let slots = secondary_cursor_slots(sec, prev);
        let ghost gslots = secondary_slots(sec as int, prev as int);
        let ghost current_holds = |k: int| slot_holds(k, sec as int, gslots);
        let ghost previous_holds = |k: int| slot_holds(k, prev as int, gslots);
        let ghost style_holds = |k: int| 1 <= k <= gslots;
        let ghost cur_f = |k: int| m.multi_cursors[k - 1];
        let ghost color_f = |k: int| m.color;
        let ghost style_f = |k: int| m.cursor_style;
        let ghost type_f = |k: int| m.multi_cursor_types[k - 1];
        let ghost prev_f = |k: int| m.previous_multi_cursors[k - 1];
        let ghost pstyle_f = |k: int| m.previous_cursor_style;
        let mut current_cursors: Vec<Quad<T>> = vec![self.current];
        let mut previous_cursors: Vec<Quad<T>> = vec![self.previous];
        let mut colors: Vec<Quad<T>> = vec![self.color];
        let mut styles: Vec<i32> = vec![self.cursor_style];
        let mut previous_styles: Vec<i32> = vec![self.previous_cursor_style];
        let mut types: Vec<i32> = vec![0];
        proof {
            assert(current_cursors@ =~= slot_array(m.current, current_holds, cur_f, z).take(1));
            assert(colors@ =~= slot_array(m.color, current_holds, color_f, z).take(1));
            assert(styles@ =~= slot_array(m.cursor_style, current_holds, style_f, 0i32).take(1));
            assert(types@ =~= slot_array(0i32, current_holds, type_f, 0i32).take(1));
            assert(previous_cursors@ =~= slot_array(m.previous, previous_holds, prev_f, z).take(1));
            assert(previous_styles@ =~= slot_array(
                m.previous_cursor_style,
                style_holds,
                pstyle_f,
                0i32,
            ).take(1));
        }
        let mut k: usize = 1;
        while k < MAX_MULTI_CURSORS
            invariant
                1 <= k <= MAX_MULTI_CURSORS,
                m == self@,
                slots == gslots,
                0 <= sec <= MAX_MULTI_CURSORS,
                0 <= prev <= MAX_MULTI_CURSORS,
                sec == m.multi_cursor_count,
                prev == m.previous_multi_cursor_count,
                m.multi_cursors.len() == MAX_MULTI_CURSORS,
                m.previous_multi_cursors.len() == MAX_MULTI_CURSORS,
                m.multi_cursor_types.len() == MAX_MULTI_CURSORS,
                z == [zero, zero, zero, zero],
                current_holds == (|k: int| slot_holds(k, sec as int, gslots)),
                previous_holds == (|k: int| slot_holds(k, prev as int, gslots)),
                style_holds == (|k: int| 1 <= k <= gslots),
                cur_f == (|k: int| m.multi_cursors[k - 1]),
                color_f == (|k: int| m.color),
                style_f == (|k: int| m.cursor_style),
                type_f == (|k: int| m.multi_cursor_types[k - 1]),
                prev_f == (|k: int| m.previous_multi_cursors[k - 1]),
                pstyle_f == (|k: int| m.previous_cursor_style),
                current_cursors@ == slot_array(m.current, current_holds, cur_f, z).take(k as int),
                colors@ == slot_array(m.color, current_holds, color_f, z).take(k as int),
                styles@ == slot_array(m.cursor_style, current_holds, style_f, 0i32).take(k as int),
                types@ == slot_array(0i32, current_holds, type_f, 0i32).take(k as int),
                previous_cursors@ == slot_array(m.previous, previous_holds, prev_f, z).take(
                    k as int,
                ),
                previous_styles@ == slot_array(
                    m.previous_cursor_style,
                    style_holds,
                    pstyle_f,
                    0i32,
                ).take(k as int),
            decreases MAX_MULTI_CURSORS - k,
        {
            let i = k - 1;
            let holds_current = k <= slots && i < sec as usize;
            let holds_previous = k <= slots && i < prev as usize;
            let holds_style = k <= slots;
            let cur = if holds_current {
                self.multi_cursors[i]
            } else {
                z
            };
            let ty = if holds_current {
                self.multi_cursor_types[i]
            } else {
                0
            };
            let pr = if holds_previous {
                self.previous_multi_cursors[i]
            } else {
                z
            };
            push_slot(&mut current_cursors, holds_current, cur, z, Ghost(m.current), Ghost(current_holds), Ghost(cur_f));
            push_slot(&mut colors, holds_current, self.color, z, Ghost(m.color), Ghost(current_holds), Ghost(color_f));
            push_slot(&mut styles, holds_current, self.cursor_style, 0, Ghost(m.cursor_style), Ghost(current_holds), Ghost(style_f));
            push_slot(&mut types, holds_current, ty, 0, Ghost(0i32), Ghost(current_holds), Ghost(type_f));
            push_slot(&mut previous_cursors, holds_previous, pr, z, Ghost(m.previous), Ghost(previous_holds), Ghost(prev_f));
            push_slot(
                &mut previous_styles,
                holds_style,
                self.previous_cursor_style,
                0,
                Ghost(m.previous_cursor_style),
                Ghost(style_holds),
                Ghost(pstyle_f),
            );
            k = k + 1;
        }
        proof {
            assert(current_cursors@ =~= slot_array(m.current, current_holds, cur_f, z));
            assert(colors@ =~= slot_array(m.color, current_holds, color_f, z));
            assert(styles@ =~= slot_array(m.cursor_style, current_holds, style_f, 0i32));
            assert(types@ =~= slot_array(0i32, current_holds, type_f, 0i32));
            assert(previous_cursors@ =~= slot_array(m.previous, previous_holds, prev_f, z));
            assert(previous_styles@ =~= slot_array(
                m.previous_cursor_style,
                style_holds,
                pstyle_f,
                0i32,
            ));
        }
        let counts = shader_cursor_counts(self.visible, self.app_visible, sec, prev);
        CursorUniforms {
            time_cursor_change: self.time_cursor_change,
            time_mode_change: self.time_mode_change,
            current_cursor: self.current,
            previous_cursor: self.previous,
            current_cursor_color: self.color,
            previous_cursor_color: self.previous_color,
            cursor_visible: self.visible,
            current_cursor_style: self.cursor_style,
            previous_cursor_style: self.previous_cursor_style,
            current_cursors,
            previous_cursors,
            current_cursor_colors: colors,
            current_cursor_styles: styles,
            previous_cursor_styles: previous_styles,
            current_cursor_types: types,
            current_cursor_count: counts.0,
            previous_cursor_count: counts.1,
        }
    }
}

fn copy_types(v: &Vec<i32>) -> (r: Vec<i32>)
    ensures
        r@ == v@,
{
    let mut out: Vec<i32> = Vec::new();
    let mut k: usize = 0;
    while k < v.len()
        invariant
            k <= v@.len(),
            out@ == v@.take(k as int),
        decreases v@.len() - k,
    {
        out.push(v[k]);
        k = k + 1;
        proof {
            assert(out@ =~= v@.take(k as int));
        }
    }
    proof {
        assert(v@.take(v@.len() as int) =~= v@);
    }
    out
}

fn secondary_types() -> (r: Vec<i32>)
    ensures
        r@ == Seq::new(MAX_MULTI_CURSORS as nat, |k: int| 1i32),
{
    let mut out: Vec<i32> = Vec::new();
    let mut k: usize = 0;
    while k < MAX_MULTI_CURSORS
        invariant
            k <= MAX_MULTI_CURSORS,
            out@ == Seq::new(k as nat, |m: int| 1i32),
        decreases MAX_MULTI_CURSORS - k,
    {
        out.push(1);
        k = k + 1;
        proof {
            assert(out@ =~= Seq::new(k as nat, |m: int| 1i32));
        }
    }
    out
}

fn copy_quads<T: Copy>(v: &Vec<Quad<T>>) -> (r: Vec<Quad<T>>)
    ensures
        r@ == v@,
{
    let mut out: Vec<Quad<T>> = Vec::new();
    let mut k: usize = 0;
    while k < v.len()
        invariant
            k <= v@.len(),
            out@ == v@.take(k as int),
        decreases v@.len() - k,
    {
        out.push(v[k]);
        k = k + 1;
        proof {
            assert(out@ =~= v@.take(k as int));
        }
    }
    proof {
        assert(v@.take(v@.len() as int) =~= v@);
    }
    out
}

} // verus!

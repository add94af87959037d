//! Display state: pending updates, input method state, frame pacing and the
//! small decisions the renderer takes from them.

use vstd::prelude::*;

use crate::shader::MAX_MULTI_CURSORS;
use crate::size_info::{lines_after_reserve, SizeInfo, SizeInfoModel};
use crate::memory::{all_digits, digits_value};
use crate::text::{chars_of, string_from_chars};

verus! {

/// A size in physical pixels.
#[derive(Debug, Clone, Copy, PartialEq, Eq)]
pub struct PhysicalSize {
    pub width: u32,
    pub height: u32,
}

/// Unprocessed display updates; `F` is the font configuration type.
#[derive(Clone, Debug)]
pub struct DisplayUpdate<F> {
    pub dirty: bool,
    dimensions: Option<PhysicalSize>,
    cursor_dirty: bool,
    font: Option<F>,
}

impl<F> Default for DisplayUpdate<F> {
    fn default() -> (r: Self)
        ensures
            !r.is_dirty(),
            r.dimensions_spec() is None,
            !r.cursor_dirty_spec(),
            r.font_spec() is None,
    {
        DisplayUpdate { dirty: false, dimensions: None, cursor_dirty: false, font: None }
    }
}

impl<F> DisplayUpdate<F> {
    /// Whether an update is pending.
    pub closed spec fn is_dirty(&self) -> bool {
        self.dirty
    }

    /// Requested new window dimensions.
    pub closed spec fn dimensions_spec(&self) -> Option<PhysicalSize> {
        self.dimensions
    }

    /// Whether the cursor needs redrawing.
    pub closed spec fn cursor_dirty_spec(&self) -> bool {
        self.cursor_dirty
    }

    /// Requested new font.
    pub closed spec fn font_spec(&self) -> Option<F> {
        self.font
    }

    pub fn dimensions(&self) -> (r: Option<PhysicalSize>)
        ensures
            r == self.dimensions_spec(),
    {
        self.dimensions
    }

    pub fn font(&self) -> (r: Option<&F>)
        ensures
            r is Some <==> self.font_spec() is Some,
            r is Some ==> *r->0 == self.font_spec()->0,
    {
        self.font.as_ref()
    }

    pub fn cursor_dirty(&self) -> (r: bool)
        ensures
            r == self.cursor_dirty_spec(),
    {
        self.cursor_dirty
    }

    pub fn set_dimensions(&mut self, dimensions: PhysicalSize)
        ensures
            final(self).is_dirty(),
            final(self).dimensions_spec() == Some(dimensions),
            final(self).cursor_dirty_spec() == old(self).cursor_dirty_spec(),
            final(self).font_spec() == old(self).font_spec(),
    {
        self.dimensions = Some(dimensions);
        self.dirty = true;
    }

    pub fn set_font(&mut self, font: F)
        ensures
            final(self).is_dirty(),
            final(self).font_spec() == Some(font),
            final(self).dimensions_spec() == old(self).dimensions_spec(),
            final(self).cursor_dirty_spec() == old(self).cursor_dirty_spec(),
    {
        self.font = Some(font);
        self.dirty = true;
    }

    pub fn set_cursor_dirty(&mut self)
        ensures
            final(self).is_dirty(),
            final(self).cursor_dirty_spec(),
            final(self).dimensions_spec() == old(self).dimensions_spec(),
            final(self).font_spec() == old(self).font_spec(),
    {
        self.cursor_dirty = true;
        self.dirty = true;
    }
}

/// Pending renderer updates.
///
/// All renderer updates are cached to be applied just before rendering, to
/// avoid platform-specific rendering issues.
#[derive(Debug, Clone, Copy, PartialEq, Eq)]
pub struct RendererUpdate {
    /// Should resize the window.
    pub resize: bool,
    /// Clear font caches.
    pub clear_font_cache: bool,
}

impl Default for RendererUpdate {
    fn default() -> (r: Self)
        ensures
            !r.resize,
            !r.clear_font_cache,
    {
        RendererUpdate { resize: false, clear_font_cache: false }
    }
}

impl RendererUpdate {
    /// Queue a font cache reset in the pending renderer update, creating the
    /// update when none is pending.
    pub fn queue_clear_font_cache(pending: &mut Option<RendererUpdate>)
        ensures
            *final(pending) matches Some(u) && u.clear_font_cache && u.resize == (match *old(pending) {
                Some(o) => o.resize,
                None => false,
            }),
    {
        let mut update = match *pending {
            Some(u) => u,
            None => RendererUpdate::default(),
        };
        update.clear_font_cache = true;
        *pending = Some(update);
    }

    /// Queue a resize in the pending renderer update, creating the update
    /// when none is pending.
    pub fn queue_resize(pending: &mut Option<RendererUpdate>)
        ensures
            *final(pending) matches Some(u) && u.resize && u.clear_font_cache == (match *old(pending) {
                Some(o) => o.clear_font_cache,
                None => false,
            }),
    {
        let mut update = match *pending {
            Some(u) => u,
            None => RendererUpdate::default(),
        };
        update.resize = true;
        *pending = Some(update);
    }
}

/// The renderer update pending after another one was requested: the
/// flags of `old` (if any) joined with `clear_font_cache` and `resize`;
/// nothing is pending when nothing was and nothing is requested.
pub open spec fn joined_renderer_update(
    old: Option<RendererUpdate>,
    clear_font_cache: bool,
    resize: bool,
) -> Option<RendererUpdate> {
    if !clear_font_cache && !resize {
        old
    } else {
        let base = match old {
            Some(u) => u,
            None => RendererUpdate { resize: false, clear_font_cache: false },
        };
        Some(
            RendererUpdate {
                resize: base.resize || resize,
                clear_font_cache: base.clear_font_cache || clear_font_cache,
            },
        )
    }
}

/// Outcome of taking in a display update: the new terminal size and
/// whether the terminal grid changed shape (so the terminal and the pty
/// have to be resized).
pub struct SizeUpdate<T> {
    pub size: SizeInfo<T>,
    pub resize_terminal: bool,
}

/// Take in the pending display update `update`: `fitted` is the size
/// computed from the new window and cell metrics, of which
/// `message_bar_lines` lines and one more while a search is active are
/// reserved. `metrics_differ` tells whether the pixel metrics of `fitted`
/// differ from those of `current`. A font change or a dirty cursor queues a
/// font cache reset; any change of the size queues a renderer resize.
pub fn apply_display_update<F, T: Copy>(
    update: &DisplayUpdate<F>,
    current: &SizeInfo<T>,
    fitted: SizeInfo<T>,
    message_bar_lines: usize,
    search_active: bool,
    metrics_differ: bool,
    renderer_update: &mut Option<RendererUpdate>,
) -> (r: SizeUpdate<T>)
    requires
        search_active ==> message_bar_lines < usize::MAX,
    ensures
        r.size@ == (SizeInfoModel {
            screen_lines: lines_after_reserve(
                fitted@.screen_lines,
                (message_bar_lines + if search_active { 1nat } else { 0nat }) as nat,
            ),
            ..fitted@
        }),
        r.resize_terminal == (current@.screen_lines != r.size@.screen_lines || current@.columns
            != r.size@.columns),
        *final(renderer_update) == joined_renderer_update(
            *old(renderer_update),
            update.font_spec() is Some || update.cursor_dirty_spec(),
            metrics_differ || r.resize_terminal,
        ),
{
    if update.font().is_some() || update.cursor_dirty() {
        RendererUpdate::queue_clear_font_cache(renderer_update);
    }
    let search_lines: usize = if search_active {
        1
    } else {
        0
    };
    let mut size = fitted;
    size.reserve_lines(message_bar_lines + search_lines);
    let resize_terminal = current.screen_lines() != size.screen_lines() || current.columns()
        != size.columns();
    if metrics_differ || resize_terminal {
        RendererUpdate::queue_resize(renderer_update);
    }
    SizeUpdate { size, resize_terminal }
}

/// Whether viewport line `v` must not carry a hyperlink preview: while
/// `active`, the lines of the mouse hint and of the cursor (grid lines,
/// shifted into the viewport by `display_offset`) are kept clear.
pub open spec fn preview_protected(
    v: int,
    active: bool,
    display_offset: int,
    mouse_line: Option<i32>,
    cursor_line: Option<i32>,
) -> bool {
    active && ((mouse_line matches Some(m) && m + display_offset == v) || (
    cursor_line matches Some(c) && c + display_offset == v))
}

/// The viewport lines from `v` up to the top that carry the next `n`
/// previews, bottom first.
pub open spec fn preview_lines_from(
    v: int,
    n: nat,
    active: bool,
    display_offset: int,
    mouse_line: Option<i32>,
    cursor_line: Option<i32>,
) -> Seq<int>
    decreases v + 1,
{
    if v < 0 || n == 0 {
        seq![]
    } else if preview_protected(v, active, display_offset, mouse_line, cursor_line) {
        preview_lines_from(v - 1, n, active, display_offset, mouse_line, cursor_line)
    } else {
        seq![v] + preview_lines_from(
            v - 1,
            (n - 1) as nat,
            active,
            display_offset,
            mouse_line,
            cursor_line,
        )
    }
}

/// The lines of `lines`, as integers.
pub open spec fn lines_int(lines: Seq<usize>) -> Seq<int> {
    lines.map_values(|l: usize| l as int)
}

/// Viewport lines for the previews of `uri_count` hyperlinks in a viewport
/// of `screen_lines` lines scrolled back by `display_offset`: the lowest
/// lines first, keeping clear the lines of the mouse hint and of the cursor
/// while the viewport has more than twice as many lines as there are
/// previews.
pub fn hyperlink_preview_lines(
    uri_count: usize,
    screen_lines: usize,
    display_offset: usize,
    mouse_line: Option<i32>,
    cursor_line: Option<i32>,
) -> (r: Vec<usize>)
    requires
        display_offset <= i32::MAX,
    ensures
        lines_int(r@) == preview_lines_from(
            screen_lines - 1,
            uri_count as nat,
            uri_count * 2 < screen_lines,
            display_offset as int,
            mouse_line,
            cursor_line,
        ),
{
    let active = uri_count <= usize::MAX / 2 && uri_count * 2 < screen_lines;
    let offset = display_offset as i64;
    let mut out: Vec<usize> = Vec::new();
    let mut v: usize = screen_lines;
    while v > 0 && out.len() < uri_count
        invariant
            v <= screen_lines,
            out@.len() <= uri_count,
            offset == display_offset,
            0 <= offset <= i32::MAX,
            active == (uri_count * 2 < screen_lines),
            lines_int(out@) + preview_lines_from(
                v - 1,
                (uri_count - out@.len()) as nat,
                active,
                offset as int,
                mouse_line,
                cursor_line,
            ) == preview_lines_from(
                screen_lines - 1,
                uri_count as nat,
                active,
                offset as int,
                mouse_line,
                cursor_line,
            ),
        decreases v,
    {
        let line = v - 1;
        let protected = active && (match mouse_line {
            Some(m) => {
                let sum = m as i64 + offset;
                sum >= 0 && sum as u64 == line as u64
            },
            None => false,
        } || match cursor_line {
            Some(c) => {
                let sum = c as i64 + offset;
                sum >= 0 && sum as u64 == line as u64
            },
            None => false,
        });
        proof {
            assert(protected == preview_protected(
                line as int,
                active,
                offset as int,
                mouse_line,
                cursor_line,
            ));
        }
        if !protected {
            let ghost before = out@;
            out.push(line);
            proof {
                assert(lines_int(out@) =~= lines_int(before) + seq![line as int]);
            }
        }
        v = line;
    }
    proof {
        assert(preview_lines_from(
            v - 1,
            (uri_count - out@.len()) as nat,
            active,
            offset as int,
            mouse_line,
            cursor_line,
        ) =~= seq![]);
    }
    out
}

/// Hyperlink previews go on distinct lines of the viewport, bottom first,
/// never on a protected line, and as many as were asked for while lines
/// are left.
pub proof fn lemma_preview_lines_clear(
    v: int,
    n: nat,
    active: bool,
    display_offset: int,
    mouse_line: Option<i32>,
    cursor_line: Option<i32>,
)
    ensures
        ({
            let lines = preview_lines_from(v, n, active, display_offset, mouse_line, cursor_line);
            &&& lines.len() <= n
            &&& v >= -1 ==> lines.len() <= v + 1
            &&& (!active && v + 1 >= n) ==> lines.len() == n
            &&& forall|i: int| 0 <= i < lines.len() ==> 0 <= #[trigger] lines[i] <= v
            &&& forall|i: int|
                0 <= i < lines.len() ==> !preview_protected(
                    #[trigger] lines[i],
                    active,
                    display_offset,
                    mouse_line,
                    cursor_line,
                )
            &&& forall|i: int, j: int| 0 <= i < j < lines.len() ==> #[trigger] lines[i] > #[trigger] lines[j]
        }),
    decreases v + 1,
{
    if v < 0 || n == 0 {
    } else if preview_protected(v, active, display_offset, mouse_line, cursor_line) {
        lemma_preview_lines_clear(v - 1, n, active, display_offset, mouse_line, cursor_line);
    } else {
        lemma_preview_lines_clear(
            v - 1,
            (n - 1) as nat,
            active,
            display_offset,
            mouse_line,
            cursor_line,
        );
        let rest = preview_lines_from(
            v - 1,
            (n - 1) as nat,
            active,
            display_offset,
            mouse_line,
            cursor_line,
        );
        let lines = seq![v] + rest;
        assert forall|i: int, j: int| 0 <= i < j < lines.len() implies #[trigger] lines[i]
            > #[trigger] lines[j] by {
            if i > 0 {
                assert(lines[i] == rest[i - 1]);
            }
            assert(lines[j] == rest[j - 1]);
        }
        assert forall|i: int| 0 <= i < lines.len() implies 0 <= #[trigger] lines[i] <= v by {
            if i > 0 {
                assert(lines[i] == rest[i - 1]);
            }
        }
        assert forall|i: int| 0 <= i < lines.len() implies !preview_protected(
            #[trigger] lines[i],
            active,
            display_offset,
            mouse_line,
            cursor_line,
        ) by {
            if i > 0 {
                assert(lines[i] == rest[i - 1]);
            }
        }
    }
}

/// What a configuration reload does to the custom shader pipeline.
#[derive(Debug, Clone, Copy, PartialEq, Eq)]
pub enum PipelineChange {
    /// Shaders are configured: build the whole pipeline anew.
    Reload,
    /// Shaders were removed from the configuration: drop the pipeline and
    /// reset the cursor tracking.
    Disable,
    /// No shaders before or after.
    Keep,
}

/// The pipeline change for a configuration with (`has_new_shaders`) or
/// without custom shaders, given whether a pipeline is running.
pub fn pipeline_change(has_new_shaders: bool, has_current_pipeline: bool) -> (r: PipelineChange)
    ensures
        r == if has_new_shaders {
            PipelineChange::Reload
        } else if has_current_pipeline {
            PipelineChange::Disable
        } else {
            PipelineChange::Keep
        },
{
    match (has_new_shaders, has_current_pipeline) {
        (true, _) => PipelineChange::Reload,
        (false, true) => PipelineChange::Disable,
        (false, false) => PipelineChange::Keep,
    }
}

/// Shape of the terminal cursor.
#[derive(Debug, Clone, Copy, PartialEq, Eq)]
pub enum CursorShape {
    Block,
    Underline,
    Beam,
    HollowBlock,
    Hidden,
}

/// Convert cursor shape to ghostty-compatible int for shader uniforms.
/// Hidden is not a style -- `iCursorVisible` signals that instead.
/// Returns `None` for Hidden so callers preserve the last-known style.
pub fn cursor_style_int(shape: CursorShape) -> (r: Option<i32>)
    ensures
        r == match shape {
            CursorShape::Block => Some(0i32),
            CursorShape::HollowBlock => Some(1i32),
            CursorShape::Beam => Some(2i32),
            CursorShape::Underline => Some(3i32),
            CursorShape::Hidden => None,
        },
{
    match shape {
        CursorShape::Block => Some(0),
        CursorShape::HollowBlock => Some(1),
        CursorShape::Beam => Some(2),
        CursorShape::Underline => Some(3),
        CursorShape::Hidden => None,
    }
}

/// Current and previous cursor counts handed to shaders: the primary cursor
/// plus the secondary ones. While the cursor is blinked off (not visible but
/// shown by the application) no current cursor is reported, so shaders can
/// animate its disappearance from the previous ones.
pub fn shader_cursor_counts(
    visible: bool,
    app_visible: bool,
    multi_cursor_count: i32,
    previous_multi_cursor_count: i32,
) -> (r: (i32, i32))
    requires
        multi_cursor_count < i32::MAX,
        previous_multi_cursor_count < i32::MAX,
    ensures
        r.1 == 1 + previous_multi_cursor_count,
        r.0 == if visible || !app_visible {
            1 + multi_cursor_count
        } else {
            0
        },
{
    if visible || !app_visible {
        (1 + multi_cursor_count, 1 + previous_multi_cursor_count)
    } else {
        (0, 1 + previous_multi_cursor_count)
    }
}

/// Number of secondary cursor slots filled for the shaders: the larger of
/// the current and previous secondary counts (negative counts taken as
/// zero), leaving slot 0 to the primary cursor.
pub fn secondary_cursor_slots(multi_cursor_count: i32, previous_multi_cursor_count: i32) -> (r: usize)
    ensures
        r == ({
            let sec: int = if multi_cursor_count > 0 { multi_cursor_count as int } else { 0 };
            let prev: int = if previous_multi_cursor_count > 0 {
                previous_multi_cursor_count as int
            } else {
                0
            };
            let larger = if sec >= prev { sec } else { prev };
            if larger <= MAX_MULTI_CURSORS - 1 { larger } else { MAX_MULTI_CURSORS - 1 }
        }),
        r < MAX_MULTI_CURSORS,
{
    let sec: usize = if multi_cursor_count > 0 {
        multi_cursor_count as usize
    } else {
        0
    };
    let prev: usize = if previous_multi_cursor_count > 0 {
        previous_multi_cursor_count as usize
    } else {
        0
    };
    let larger = if sec >= prev {
        sec
    } else {
        prev
    };
    if larger <= MAX_MULTI_CURSORS - 1 {
        larger
    } else {
        MAX_MULTI_CURSORS - 1
    }
}

/// Indices of the 1st and 99th percentile in `n` sorted samples.
pub fn percentile_indices(n: usize) -> (r: (usize, usize))
    requires
        n > 0,
    ensures
        r.0 == (if n / 100 >= 1 { n / 100 } else { 1 }) - 1,
        r.1 == n - (if n / 100 >= 1 { n / 100 } else { 1 }),
        r.0 <= r.1 < n,
{
    let step = if n / 100 >= 1 {
        n / 100
    } else {
        1
    };
    (step - 1, n - step)
}

/// Mathematical model of a [`FrameTimer`]: instants and durations in
/// nanoseconds on a monotonic clock.
pub struct FrameTimerModel {
    pub base: nat,
    pub last_synced_timestamp: nat,
    pub refresh_interval: nat,
}

/// The frame timer state.
#[derive(Debug, Clone, Copy)]
pub struct FrameTimer {
    /// Base timestamp used to compute sync points.
    base: u64,
    /// The last timestamp we synced to.
    last_synced_timestamp: u64,
    /// The refresh rate we've used to compute sync timestamps.
    refresh_interval: u64,
}

impl View for FrameTimer {
    type V = FrameTimerModel;

    closed spec fn view(&self) -> FrameTimerModel {
        FrameTimerModel {
            base: self.base as nat,
            last_synced_timestamp: self.last_synced_timestamp as nat,
            refresh_interval: self.refresh_interval as nat,
        }
    }
}

/// Whether [`FrameTimer::compute_timeout`] is defined for a timer in state
/// `m` at instant `now` with the given refresh interval: the next frame
/// instant must be representable, and catching up on missed frames needs a
/// refresh interval of at least one microsecond.
pub open spec fn timeout_defined(m: FrameTimerModel, refresh_interval: nat, now: nat) -> bool {
    m.refresh_interval != refresh_interval || {
        &&& m.last_synced_timestamp + m.refresh_interval <= u64::MAX
        &&& m.last_synced_timestamp + m.refresh_interval < now ==> m.refresh_interval >= 1000
    }
}

/// The timer state and the timeout that a timer in state `m` computes at
/// instant `now`:
/// - a changed refresh interval restarts the frame clock at `now` and waits
///   one full interval;
/// - when the next frame instant has already passed, redraw immediately and
///   resync to the last tick of the frame clock (counted in whole
///   microseconds since its base);
/// - otherwise wait until the next frame instant.
pub open spec fn next_timeout(m: FrameTimerModel, refresh_interval: nat, now: nat) -> (FrameTimerModel, nat) {
    if m.refresh_interval != refresh_interval {
        (
            FrameTimerModel {
                base: now,
                last_synced_timestamp: now,
                refresh_interval: refresh_interval,
            },
            refresh_interval,
        )
    } else {
        let next_frame = m.last_synced_timestamp + m.refresh_interval;
        if next_frame < now {
            let elapsed_micros: nat = if now >= m.base { ((now - m.base) / 1000) as nat } else { 0 };
            let refresh_micros: nat = m.refresh_interval / 1000;
            let back: nat = (elapsed_micros % refresh_micros) * 1000;
            (FrameTimerModel { last_synced_timestamp: (now - back) as nat, ..m }, 0)
        } else {
            (FrameTimerModel { last_synced_timestamp: next_frame, ..m }, (next_frame - now) as nat)
        }
    }
}

impl FrameTimer {
    /// A timer whose frame clock starts at `now` (nanoseconds).
    pub fn new(now: u64) -> (r: Self)
        ensures
            r@ == (FrameTimerModel { base: now as nat, last_synced_timestamp: now as nat, refresh_interval: 0 }),
    {
        FrameTimer { base: now, last_synced_timestamp: now, refresh_interval: 0 }
    }

    /// Compute the delay (nanoseconds) that we should use to achieve the
    /// target frame rate, at instant `now`.
    pub fn compute_timeout(&mut self, refresh_interval: u64, now: u64) -> (r: u64)
        requires
            timeout_defined(old(self)@, refresh_interval as nat, now as nat),
        ensures
            (final(self)@, r as nat) == next_timeout(old(self)@, refresh_interval as nat, now as nat),
    {
        // Handle refresh rate change.
        if self.refresh_interval != refresh_interval {
            self.base = now;
            self.last_synced_timestamp = now;
            self.refresh_interval = refresh_interval;
            return refresh_interval;
        }

        let next_frame = self.last_synced_timestamp + self.refresh_interval;

        if next_frame < now {
            // Redraw immediately if we haven't drawn in over `refresh_interval` microseconds.
            let elapsed_micros = now.saturating_sub(self.base) / 1000;
            let refresh_micros = self.refresh_interval / 1000;
            let rem = elapsed_micros % refresh_micros;
            proof {
                let span: int = if now >= self.base { now - self.base } else { 0 };
                assert(rem <= elapsed_micros) by (nonlinear_arith)
                    requires
                        rem == elapsed_micros % refresh_micros,
                        refresh_micros > 0,
                ;
                assert(elapsed_micros * 1000 <= span) by (nonlinear_arith)
                    requires
                        elapsed_micros == span / 1000,
                        span >= 0,
                ;
                assert(rem * 1000 <= elapsed_micros * 1000) by (nonlinear_arith)
                    requires
                        rem <= elapsed_micros,
                ;
            }
            self.last_synced_timestamp = now - rem * 1000;
            0
        } else {
            // Redraw on the next `refresh_interval` clock tick.
            self.last_synced_timestamp = next_frame;
            next_frame - now
        }
    }
}

impl FrameTimer {
    /// [`Self::compute_timeout`] where it is defined; `None`, with the timer
    /// unchanged, where the next frame instant overflows or catching up
    /// would divide by a refresh interval under one microsecond.
    pub fn try_compute_timeout(&mut self, refresh_interval: u64, now: u64) -> (r: Option<u64>)
        ensures
            timeout_defined(old(self)@, refresh_interval as nat, now as nat) ==> (r matches Some(t)
                && (final(self)@, t as nat) == next_timeout(
                old(self)@,
                refresh_interval as nat,
                now as nat,
            )),
            !timeout_defined(old(self)@, refresh_interval as nat, now as nat) ==> r is None
                && final(self)@ == old(self)@,
    {
        let defined = self.refresh_interval != refresh_interval || match self.last_synced_timestamp.checked_add(
            self.refresh_interval,
        ) {
            Some(next_frame) => !(next_frame < now) || self.refresh_interval >= 1000,
            None => false,
        };
        if defined {
            Some(self.compute_timeout(refresh_interval, now))
        } else {
            None
        }
    }
}

/// Once the last synced frame instant has passed, the timeout is at most one
/// refresh interval; a changed refresh interval always waits exactly one
/// interval.
pub proof fn lemma_timeout_within_interval(m: FrameTimerModel, refresh_interval: nat, now: nat)
    requires
        m.last_synced_timestamp <= now,
    ensures
        next_timeout(m, refresh_interval, now).1 <= refresh_interval,
        m.refresh_interval != refresh_interval ==> next_timeout(m, refresh_interval, now).1
            == refresh_interval,
{
}

/// The character of decimal digit `d`.
pub open spec fn digit_char(d: nat) -> char {
    if d == 0 {
        '0'
    } else if d == 1 {
        '1'
    } else if d == 2 {
        '2'
    } else if d == 3 {
        '3'
    } else if d == 4 {
        '4'
    } else if d == 5 {
        '5'
    } else if d == 6 {
        '6'
    } else if d == 7 {
        '7'
    } else if d == 8 {
        '8'
    } else {
        '9'
    }
}

/// Decimal representation of `n`, without leading zeros.
pub open spec fn decimal(n: nat) -> Seq<char>
    decreases n,
{
    if n < 10 {
        seq![digit_char(n)]
    } else {
        decimal(n / 10).push(digit_char(n % 10))
    }
}

fn digit(d: usize) -> (r: char)
    requires
        d < 10,
    ensures
        r == digit_char(d as nat),
{
    if d == 0 {
        '0'
    } else if d == 1 {
        '1'
    } else if d == 2 {
        '2'
    } else if d == 3 {
        '3'
    } else if d == 4 {
        '4'
    } else if d == 5 {
        '5'
    } else if d == 6 {
        '6'
    } else if d == 7 {
        '7'
    } else if d == 8 {
        '8'
    } else {
        '9'
    }
}

fn push_decimal(n: usize, out: &mut Vec<char>)
    ensures
        final(out)@ == old(out)@ + decimal(n as nat),
    decreases n,
{
    if n >= 10 {
        push_decimal(n / 10, out);
    }
    out.push(digit(n % 10));
    proof {
        if n >= 10 {
            assert(old(out)@ + decimal(n as nat) =~= old(out)@ + decimal((n / 10) as nat) + seq![
                digit_char((n % 10) as nat),
            ]);
        }
    }
}

/// The decimal text of `n` is base-10 digits that read back as `n`, with
/// no leading zero.
pub proof fn lemma_decimal_reads_back(n: nat)
    ensures
        all_digits(decimal(n)),
        digits_value(decimal(n)) == n,
        decimal(n).len() > 0,
        decimal(n)[0] == '0' ==> n == 0,
    decreases n,
{
    let d = decimal(n);
    if n < 10 {
        assert(d == seq![digit_char(n)]);
        assert(d.drop_last() =~= Seq::<char>::empty());
        assert(d.last() == digit_char(n));
        assert(digit_char(n) as int - '0' as int == n);
        assert(digits_value(d.drop_last()) == 0);
        assert(digits_value(d) == digits_value(d.drop_last()) * 10 + ((d.last() as int - '0' as int) as nat));
    } else {
        lemma_decimal_reads_back(n / 10);
        let p = decimal(n / 10);
        let c = digit_char(n % 10);
        assert(d == p.push(c));
        assert(d.drop_last() =~= p);
        assert(d.last() == c);
        assert(c as int - '0' as int == n % 10);
        assert(n / 10 * 10 + n % 10 == n);
        assert(digits_value(d) == digits_value(d.drop_last()) * 10 + ((d.last() as int - '0' as int) as nat));
        assert(d[0] == p[0]);
        assert(n / 10 > 0);
        assert(all_digits(d)) by {
            assert forall|i: int| 0 <= i < d.len() implies '0' <= #[trigger] d[i] <= '9' by {
                if i < p.len() {
                    assert(d[i] == p[i]);
                }
            }
        }
    }
}

/// The history position indicator reads `[`, the line number in base 10,
/// `/`, the last line's number in base 10, and `]`.
pub proof fn lemma_line_indicator_reads_back(line: nat, total_lines: nat)
    requires
        total_lines >= 1,
    ensures
        ({
            let t = line_indicator_text(line, total_lines);
            let a = decimal(line);
            let b = decimal((total_lines - 1) as nat);
            &&& t.len() == a.len() + b.len() + 3
            &&& t[0] == '['
            &&& t.subrange(1, a.len() + 1 as int) == a
            &&& all_digits(a) && digits_value(a) == line
            &&& t[a.len() + 1 as int] == '/'
            &&& t.subrange(a.len() + 2 as int, t.len() - 1) == b
            &&& all_digits(b) && digits_value(b) == total_lines - 1
            &&& t[t.len() - 1] == ']'
        }),
{
    lemma_decimal_reads_back(line);
    lemma_decimal_reads_back((total_lines - 1) as nat);
    let t = line_indicator_text(line, total_lines);
    let a = decimal(line);
    let b = decimal((total_lines - 1) as nat);
    assert(t.subrange(1, a.len() + 1 as int) =~= a);
    assert(t.subrange(a.len() + 2 as int, t.len() - 1) =~= b);
}

/// The text of the history position indicator: `[line/last]`, where `last`
/// is the index of the last line.
pub open spec fn line_indicator_text(line: nat, total_lines: nat) -> Seq<char> {
    seq!['['] + decimal(line) + seq!['/'] + decimal((total_lines - 1) as nat) + seq![']']
}

/// Indicator for the position of a line in history, shown in the top right
/// corner.
pub struct LineIndicator {
    /// The text to draw.
    pub text: String,
    /// The column the text starts at.
    pub column: usize,
    /// Whether to draw it: not when it would obscure the vi mode cursor.
    pub visible: bool,
}

/// Lay out the indicator for `line` of `total_lines` in a grid of `columns`
/// columns, where the vi mode cursor may sit in `obstructed_column` of the
/// top line.
pub fn line_indicator(line: usize, total_lines: usize, columns: usize, obstructed_column: Option<
    usize,
>) -> (r: LineIndicator)
    requires
        total_lines >= 1,
    ensures
        r.text@ == line_indicator_text(line as nat, total_lines as nat),
        r.column == (if columns >= r.text@.len() {
            columns - r.text@.len()
        } else {
            0
        }),
        r.visible == match obstructed_column {
            Some(c) => c < r.column,
            None => true,
        },
{
    let mut chars: Vec<char> = Vec::new();
    chars.push('[');
    push_decimal(line, &mut chars);
    chars.push('/');
    push_decimal(total_lines - 1, &mut chars);
    chars.push(']');
    proof {
        assert(chars@ =~= line_indicator_text(line as nat, total_lines as nat));
    }
    let column = columns.saturating_sub(chars.len());
    let visible = match obstructed_column {
        Some(c) => c < column,
        None => true,
    };
    LineIndicator { text: string_from_chars(chars.as_slice()), column, visible }
}

/// History position shown for the vi mode cursor on grid line `vi_line`
/// (negative in the scrollback), and the column it obstructs when it sits
/// on the top line of a viewport scrolled back by `display_offset`.
pub fn vi_line_indicator(
    vi_line: i32,
    vi_column: usize,
    screen_lines: usize,
    display_offset: usize,
) -> (r: (usize, Option<usize>))
    requires
        1 <= screen_lines <= i32::MAX,
        display_offset <= i32::MAX,
        vi_line <= screen_lines - 1,
    ensures
        r.0 == screen_lines - 1 - vi_line,
        r.1 == if vi_line == -(display_offset as int) {
            Some(vi_column)
        } else {
            None::<usize>
        },
{
    let bottommost = (screen_lines - 1) as i64;
    let line = (bottommost - vi_line as i64) as usize;
    let obstructed = if vi_line as i64 == -(display_offset as i64) {
        Some(vi_column)
    } else {
        None
    };
    (line, obstructed)
}

/// Whether a drawn frame asks for the next one: always while custom
/// shaders run, and on every platform but Wayland, where the compositor
/// paces frames.
pub fn should_request_frame(effect_active: bool, is_wayland: bool) -> (r: bool)
    ensures
        r == (effect_active || !is_wayland),
{
    effect_active || !is_wayland
}

/// Whether the renderer draws the terminal cursor itself: not while
/// secondary cursors are shown, since the shaders then draw every cursor.
pub fn draws_native_cursor(has_extra_cursors: bool) -> (r: bool)
    ensures
        r == !has_extra_cursors,
{
    !has_extra_cursors
}

/// Whether the frame goes through the custom shaders: the pipeline is
/// running and its scene framebuffer could be bound.
pub fn shader_effect_active(has_pipeline: bool, fbo_bound: bool) -> (r: bool)
    ensures
        r == (has_pipeline && fbo_bound),
{
    has_pipeline && fbo_bound
}

/// Whether the surface waits for vertical sync: exactly while a custom
/// shader pipeline runs (continuous rendering); on-demand rendering does
/// not benefit from it.
pub fn wants_vsync(has_pipeline: bool) -> (r: bool)
    ensures
        r == has_pipeline,
{
    has_pipeline
}

/// `text` padded with spaces to at least `width` characters.
pub open spec fn padded_text(text: Seq<char>, width: nat) -> Seq<char> {
    if text.len() >= width {
        text
    } else {
        text + Seq::new((width - text.len()) as nat, |i: int| ' ')
    }
}

/// The line of the search bar: the search text padded with spaces to at
/// least the width of the grid.
pub fn search_bar_line(text: &str, num_cols: usize) -> (r: String)
    ensures
        r@ == padded_text(text@, num_cols as nat),
{
    let mut chars = chars_of(text);
    let ghost start = chars@;
    while chars.len() < num_cols
        invariant
            start == text@,
            chars@.len() <= if text@.len() >= num_cols { text@.len() } else { num_cols as nat },
            chars@ == start + Seq::new((chars@.len() - start.len()) as nat, |i: int| ' '),
            chars@.len() >= start.len(),
        decreases num_cols - chars@.len(),
    {
        chars.push(' ');
        proof {
            assert(chars@ =~= start + Seq::new((chars@.len() - start.len()) as nat, |i: int| ' '));
        }
    }
    proof {
        if start.len() >= num_cols {
            assert(chars@ =~= start);
        }
    }
    string_from_chars(chars.as_slice())
}

} // verus!

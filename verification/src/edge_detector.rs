//! Edge detection: starting from a point of the screenshot, walk along one
//! axis in both directions and report every place where the luminance
//! changes by more than the engine's threshold.

use crate::pixels::{image_dimensions, image_pixel, image_samples, image_size, pixel_rgb, samples_fit, Screenshot};
use vstd::prelude::*;

verus! {

/// The direction along which edges are searched.
#[derive(Debug, Clone, Copy, PartialEq, Eq, Structural)]
pub enum Axis {
    Horizontal,
    Vertical,
}

/// Contrast above which a colour change counts as an edge.
pub const DEFAULT_THRESHOLD: u8 = 25;

/// Luminance of an RGB colour, with the Rec. 601 weights in thousandths:
/// `(299 * red + 587 * green + 114 * blue) / 1000`, rounded down.
pub open spec fn spec_luminance(c: Seq<u8>) -> int {
    (299 * c[0] + 587 * c[1] + 114 * c[2]) / 1000
}

/// Contrast between two RGB colours: the absolute difference of their
/// luminances.
#[verifier::opaque]
pub open spec fn spec_color_diff(c1: Seq<u8>, c2: Seq<u8>) -> int {
    let l1 = spec_luminance(c1);
    let l2 = spec_luminance(c2);
    if l1 >= l2 {
        l1 - l2
    } else {
        l2 - l1
    }
}

/// Luminance of an RGB colour (see `spec_luminance`), from 0 to 255.
pub fn luminance(rgb: [u8; 3]) -> (lum: u8)
    ensures
        lum == spec_luminance(rgb@),
{
    let weighted: u32 = 299 * (rgb[0] as u32) + 587 * (rgb[1] as u32) + 114 * (rgb[2] as u32);
    assert(weighted / 1000 <= 255) by {
        assert(weighted <= 255000);
        assert(weighted < 256000);
    }
    (weighted / 1000) as u8
}

/// The contrast of two RGB colours: how far apart their luminances are.
pub fn color_diff(c1: [u8; 3], c2: [u8; 3]) -> (d: u8)
    ensures
        d == spec_color_diff(c1@, c2@),
{
    reveal(spec_color_diff);
    let l1 = luminance(c1);
    let l2 = luminance(c2);
    if l1 >= l2 {
        l1 - l2
    } else {
        l2 - l1
    }
}

/// The walk along one direction. `ray(k)` is the colour `k` pixels away from
/// the start (`ray(0)` is the start itself). After `n` steps the walk has
/// recorded the steps at which the contrast to the last recorded colour (at
/// first the start colour) exceeds `threshold`, and returns them with the
/// colour it compares against next.
pub open spec fn scan_steps(ray: spec_fn(int) -> Seq<u8>, threshold: u8, n: nat) -> (Seq<int>, Seq<u8>)
    decreases n,
{
    if n == 0 {
        (Seq::empty(), ray(0))
    } else {
        let prev = scan_steps(ray, threshold, (n - 1) as nat);
        if spec_color_diff(ray(n as int), prev.1) > threshold {
            (prev.0.push(n as int), ray(n as int))
        } else {
            prev
        }
    }
}

/// The step that edge `i` of a walk was compared against: the previous edge,
/// or the start for the first one.
pub open spec fn anchor_step(steps: Seq<int>, i: int) -> int {
    if i == 0 {
        0
    } else {
        steps[i - 1]
    }
}

/// Edges are where the contrast exceeds the threshold, and only there: each
/// recorded step differs from the step before it (the previous edge, or the
/// start) by more than `threshold`; every step in between, and every step
/// after the last edge, differs from that anchor by at most `threshold`; the
/// steps are increasing and lie in `1..=n`.
pub proof fn lemma_scan_steps_contrast(ray: spec_fn(int) -> Seq<u8>, threshold: u8, n: nat)
    ensures
        ({
            let steps = scan_steps(ray, threshold, n).0;
            let last = scan_steps(ray, threshold, n).1;
            &&& forall|i: int| 0 <= i < steps.len() ==> 1 <= #[trigger] steps[i] <= n
            &&& forall|i: int, j: int|
                0 <= i < j < steps.len() ==> #[trigger] steps[i] < #[trigger] steps[j]
            &&& last == ray(anchor_step(steps, steps.len() as int))
            &&& forall|i: int|
                0 <= i < steps.len() ==> spec_color_diff(ray(#[trigger] steps[i]), ray(anchor_step(steps, i)))
                    > threshold
            &&& forall|i: int, k: int|
                #![trigger steps[i], ray(k)]
                0 <= i < steps.len() && anchor_step(steps, i) < k < steps[i] ==> spec_color_diff(
                    ray(k),
                    ray(anchor_step(steps, i)),
                ) <= threshold
            &&& forall|k: int|
                anchor_step(steps, steps.len() as int) < k <= n ==> spec_color_diff(#[trigger] ray(k), last)
                    <= threshold
        }),
    decreases n,
{
    if n > 0 {
        lemma_scan_steps_contrast(ray, threshold, (n - 1) as nat);
        let prev = scan_steps(ray, threshold, (n - 1) as nat);
        let steps = prev.0;
        if spec_color_diff(ray(n as int), prev.1) > threshold {
            let next = steps.push(n as int);
            assert forall|i: int| 0 <= i <= steps.len() implies anchor_step(next, i) == anchor_step(
                steps,
                i,
            ) by {}
            assert(next[steps.len() as int] == n);
            assert forall|i: int, k: int|
                #![trigger next[i], ray(k)]
                0 <= i < next.len() && anchor_step(next, i) < k < next[i] implies spec_color_diff(
                ray(k),
                ray(anchor_step(next, i)),
            ) <= threshold by {
                if i < steps.len() {
                    assert(next[i] == steps[i]);
                    assert(steps[i] < n);
                }
            }
            assert forall|i: int|
                0 <= i < next.len() implies spec_color_diff(ray(#[trigger] next[i]), ray(anchor_step(next, i)))
                > threshold by {
                if i < steps.len() {
                    assert(next[i] == steps[i]);
                }
            }
        }
    }
}

/// Finds the visual edges around a point of a screenshot.
pub struct EdgeEngine {
    screenshot: Screenshot,
    threshold: u8,
}

/// Position of the start point along an axis.
pub open spec fn axis_origin(axis: Axis, start_x: u32, start_y: u32) -> int {
    match axis {
        Axis::Horizontal => start_x as int,
        Axis::Vertical => start_y as int,
    }
}

impl EdgeEngine {
    /// The screenshot the engine searches.
    pub closed spec fn screenshot(self) -> Screenshot {
        self.screenshot
    }

    /// The contrast above which a colour change is an edge.
    pub closed spec fn threshold(self) -> u8 {
        self.threshold
    }

    /// Width of the screenshot.
    pub open spec fn width(self) -> int {
        image_dimensions(self.screenshot()).0 as int
    }

    /// Height of the screenshot.
    pub open spec fn height(self) -> int {
        image_dimensions(self.screenshot()).1 as int
    }

    /// Number of pixels along an axis.
    pub open spec fn extent(self, axis: Axis) -> int {
        match axis {
            Axis::Horizontal => self.width(),
            Axis::Vertical => self.height(),
        }
    }

    /// Whether `(x, y)` lies inside the screenshot.
    pub open spec fn contains(self, x: u32, y: u32) -> bool {
        x < self.width() && y < self.height()
    }

    /// Colour of the pixel at position `pos` along `axis`, on the line through
    /// the start point.
    pub open spec fn line_rgb(self, axis: Axis, start_x: u32, start_y: u32, pos: int) -> Seq<u8> {
        match axis {
            Axis::Horizontal => pixel_rgb(self.screenshot(), pos, start_y as int),
            Axis::Vertical => pixel_rgb(self.screenshot(), start_x as int, pos),
        }
    }

    /// Colours met when walking from the start point: `k` steps towards
    /// higher coordinates when `forward`, towards lower ones otherwise.
    pub open spec fn ray(self, axis: Axis, start_x: u32, start_y: u32, forward: bool) -> spec_fn(
        int,
    ) -> Seq<u8> {
        let origin = axis_origin(axis, start_x, start_y);
        |k: int|
            self.line_rgb(
                axis,
                start_x,
                start_y,
                if forward {
                    origin + k
                } else {
                    origin - k
                },
            )
    }

    /// Steps of the edges towards lower coordinates (down to 0).
    pub open spec fn negative_steps(self, axis: Axis, start_x: u32, start_y: u32) -> Seq<int> {
        let origin = axis_origin(axis, start_x, start_y);
        scan_steps(self.ray(axis, start_x, start_y, false), self.threshold(), origin as nat).0
    }

    /// Steps of the edges towards higher coordinates (up to the last pixel).
    pub open spec fn positive_steps(self, axis: Axis, start_x: u32, start_y: u32) -> Seq<int> {
        let origin = axis_origin(axis, start_x, start_y);
        scan_steps(
            self.ray(axis, start_x, start_y, true),
            self.threshold(),
            (self.extent(axis) - 1 - origin) as nat,
        ).0
    }

    /// The edges as coordinates: those towards lower coordinates, nearest
    /// first, and those towards higher coordinates, nearest first.
    pub open spec fn spec_find_edges(self, axis: Axis, start_x: u32, start_y: u32) -> (Seq<u32>, Seq<u32>) {
        let origin = axis_origin(axis, start_x, start_y);
        let neg = self.negative_steps(axis, start_x, start_y);
        let pos = self.positive_steps(axis, start_x, start_y);
        (
            Seq::new(neg.len(), |i: int| (origin - neg[i]) as u32),
            Seq::new(pos.len(), |i: int| (origin + pos[i]) as u32),
        )
    }

    /// An engine over the given screenshot, with the default threshold.
    pub fn new(screenshot: Screenshot) -> (engine: Self)
        ensures
            engine.screenshot() == screenshot,
            engine.threshold() == DEFAULT_THRESHOLD,
            engine.threshold() == 25,
            samples_fit(engine.screenshot()),
    {
        let _ = image_size(&screenshot);
        Self { screenshot, threshold: DEFAULT_THRESHOLD }
    }

    /// Whether `(x, y)` lies inside the screenshot.
    pub fn contains_point(&self, x: u32, y: u32) -> (inside: bool)
        ensures
            inside == self.contains(x, y),
    {
        let (width, height) = image_size(&self.screenshot);
        x < width && y < height
    }

    /// Finds all visual edges from a starting coordinate along a given axis.
    /// Returns the edges towards lower coordinates and those towards higher
    /// coordinates, each nearest first.
    pub fn find_edges(&self, start_x: u32, start_y: u32, axis: Axis) -> (edges: (Vec<u32>, Vec<u32>))
        requires
            self.contains(start_x, start_y),
        ensures
            edges.0@ == self.spec_find_edges(axis, start_x, start_y).0,
            edges.1@ == self.spec_find_edges(axis, start_x, start_y).1,
    {
        let (width, height) = image_size(&self.screenshot);
        let mut edges_negative: Vec<u32> = Vec::new();
        let mut edges_positive: Vec<u32> = Vec::new();

        let max_val = match axis {
            Axis::Horizontal => width,
            Axis::Vertical => height,
        };
        let origin = match axis {
            Axis::Horizontal => start_x,
            Axis::Vertical => start_y,
        };
        let ghost ray_neg = self.ray(axis, start_x, start_y, false);
        let ghost ray_pos = self.ray(axis, start_x, start_y, true);
        let ghost threshold = self.threshold;

        let mut last_color = self.get_rgb(start_x, start_y);
        assert(last_color@ == ray_neg(0));

        // Scan negative direction
        let mut current = origin;
        while current > 0
            invariant
                current <= origin,
                origin == axis_origin(axis, start_x, start_y),
                threshold == self.threshold,
                ray_neg == self.ray(axis, start_x, start_y, false),
                width == self.width(),
                height == self.height(),
                self.contains(start_x, start_y),
                ({
                    let s = scan_steps(ray_neg, threshold, (origin - current) as nat);
                    &&& last_color@ == s.1
                    &&& edges_negative@.len() == s.0.len()
                    &&& forall|i: int|
                        0 <= i < s.0.len() ==> edges_negative@[i] == origin - #[trigger] s.0[i]
                }),
            decreases current,
        {
            let ghost prev_edges = edges_negative@;
            current -= 1;
            let (x, y) = match axis {
                Axis::Horizontal => (current, start_y),
                Axis::Vertical => (start_x, current),
            };
            let color = self.get_rgb(x, y);
            let ghost n = (origin - current) as nat;
            assert(color@ == ray_neg(n as int));
            if color_diff(color, last_color) > self.threshold {
                edges_negative.push(current);
                last_color = color;
            }
            proof {
                let s = scan_steps(ray_neg, threshold, n);
                let p = scan_steps(ray_neg, threshold, (n - 1) as nat);
                assert forall|i: int| 0 <= i < s.0.len() implies edges_negative@[i] == origin
                    - #[trigger] s.0[i] by {
                    if i < p.0.len() {
                        assert(s.0[i] == p.0[i]);
                    }
                }
            }
        }

        // Scan positive direction
        last_color = self.get_rgb(start_x, start_y);
        assert(last_color@ == ray_pos(0));
        current = origin;
        while current < max_val - 1
            invariant
                origin <= current,
                current < max_val,
                max_val as int == self.extent(axis),
                origin == axis_origin(axis, start_x, start_y),
                threshold == self.threshold,
                ray_pos == self.ray(axis, start_x, start_y, true),
                width == self.width(),
                height == self.height(),
                self.contains(start_x, start_y),
                ({
                    let s = scan_steps(ray_pos, threshold, (current - origin) as nat);
                    &&& last_color@ == s.1
                    &&& edges_positive@.len() == s.0.len()
                    &&& forall|i: int|
                        0 <= i < s.0.len() ==> edges_positive@[i] == origin + #[trigger] s.0[i]
                }),
            decreases max_val - current,
        {
            current += 1;
            let (x, y) = match axis {
                Axis::Horizontal => (current, start_y),
                Axis::Vertical => (start_x, current),
            };
            let color = self.get_rgb(x, y);
            let ghost n = (current - origin) as nat;
            assert(color@ == ray_pos(n as int));
            if color_diff(color, last_color) > self.threshold {
                edges_positive.push(current);
                last_color = color;
            }
            proof {
                let s = scan_steps(ray_pos, threshold, n);
                let p = scan_steps(ray_pos, threshold, (n - 1) as nat);
                assert forall|i: int| 0 <= i < s.0.len() implies edges_positive@[i] == origin
                    + #[trigger] s.0[i] by {
                    if i < p.0.len() {
                        assert(s.0[i] == p.0[i]);
                    }
                }
            }
        }

        let ghost spec_edges = self.spec_find_edges(axis, start_x, start_y);
        assert(edges_negative@ =~= spec_edges.0);
        assert(edges_positive@ =~= spec_edges.1);
        (edges_negative, edges_positive)
    }

    /// The red, green and blue samples of pixel `(x, y)`.
    fn get_rgb(&self, x: u32, y: u32) -> (rgb: [u8; 3])
        requires
            self.contains(x, y),
        ensures
            rgb@ == pixel_rgb(self.screenshot(), x as int, y as int),
    {
        let (width, height) = image_size(&self.screenshot);
        proof {
            let w = width as int;
            let h = height as int;
            let xi = x as int;
            let yi = y as int;
            assert(4 * (yi * w + xi) + 4 <= 4 * w * h) by (nonlinear_arith)
                requires
                    0 <= xi < w,
                    0 <= yi < h,
            ;
        }
        let pixel = image_pixel(&self.screenshot, x, y);
        let rgb = [pixel[0], pixel[1], pixel[2]];
        assert(rgb@.len() == 3 && rgb@[0] == pixel@[0] && rgb@[1] == pixel@[1] && rgb@[2] == pixel@[2]);
        assert(rgb@ =~= pixel_rgb(self.screenshot(), x as int, y as int));
        rgb
    }
}

/// The edges found towards lower coordinates lie strictly below the start,
/// nearest first; those found towards higher coordinates lie strictly above
/// it and inside the screenshot, nearest first.
pub proof fn lemma_find_edges_ordered(engine: EdgeEngine, axis: Axis, start_x: u32, start_y: u32)
    requires
        engine.contains(start_x, start_y),
    ensures
        ({
            let origin = axis_origin(axis, start_x, start_y);
            let neg = engine.spec_find_edges(axis, start_x, start_y).0;
            let pos = engine.spec_find_edges(axis, start_x, start_y).1;
            &&& forall|i: int| 0 <= i < neg.len() ==> #[trigger] neg[i] < origin
            &&& forall|i: int, j: int| 0 <= i < j < neg.len() ==> #[trigger] neg[i] > #[trigger] neg[j]
            &&& forall|i: int| 0 <= i < pos.len() ==> origin < #[trigger] pos[i] < engine.extent(axis)
            &&& forall|i: int, j: int| 0 <= i < j < pos.len() ==> #[trigger] pos[i] < #[trigger] pos[j]
        }),
{
    let origin = axis_origin(axis, start_x, start_y);
    lemma_scan_steps_contrast(engine.ray(axis, start_x, start_y, false), engine.threshold(), origin as nat);
    lemma_scan_steps_contrast(
        engine.ray(axis, start_x, start_y, true),
        engine.threshold(),
        (engine.extent(axis) - 1 - origin) as nat,
    );
    let ns = engine.negative_steps(axis, start_x, start_y);
    let ps = engine.positive_steps(axis, start_x, start_y);
    let neg = engine.spec_find_edges(axis, start_x, start_y).0;
    let pos = engine.spec_find_edges(axis, start_x, start_y).1;
    assert forall|i: int| 0 <= i < neg.len() implies #[trigger] neg[i] == origin - ns[i] by {
        assert(1 <= ns[i] <= origin);
    }
    assert forall|i: int| 0 <= i < pos.len() implies #[trigger] pos[i] == origin + ps[i] by {
        assert(1 <= ps[i] <= engine.extent(axis) - 1 - origin);
    }
    assert forall|i: int, j: int| 0 <= i < j < neg.len() implies #[trigger] neg[i] > #[trigger] neg[j] by {
        assert(ns[i] < ns[j]);
        assert(neg[i] == origin - ns[i]);
        assert(neg[j] == origin - ns[j]);
    }
    assert forall|i: int, j: int| 0 <= i < j < pos.len() implies #[trigger] pos[i] < #[trigger] pos[j] by {
        assert(ps[i] < ps[j]);
        assert(pos[i] == origin + ps[i]);
        assert(pos[j] == origin + ps[j]);
    }
}

/// Absolute value.
pub open spec fn abs_int(v: int) -> int {
    if v >= 0 {
        v
    } else {
        -v
    }
}

/// Luminance of pixel `(x, y)` read straight from the sample buffer: its
/// red, green and blue samples are the first three of the four starting at
/// `4 * (y * width + x)`, weighted `299`, `587` and `114` thousandths.
#[verifier::opaque]
pub open spec fn sample_luminance(img: Screenshot, x: int, y: int) -> int {
    let s = image_samples(img);
    let i = 4 * (y * (image_dimensions(img).0 as int) + x);
    (299 * s[i] + 587 * s[i + 1] + 114 * s[i + 2]) / 1000
}

/// Luminance, read from the samples, of the pixel at position `pos` on the
/// line through the start point along `axis`.
#[verifier::opaque]
pub open spec fn luminance_on_line(engine: EdgeEngine, axis: Axis, start_x: u32, start_y: u32, pos: int) -> int {
    match axis {
        Axis::Horizontal => sample_luminance(engine.screenshot(), pos, start_y as int),
        Axis::Vertical => sample_luminance(engine.screenshot(), start_x as int, pos),
    }
}

/// Position of step `k` of a walk from `origin`.
pub open spec fn walk_position(origin: int, forward: bool, k: int) -> int {
    if forward {
        origin + k
    } else {
        origin - k
    }
}

proof fn lemma_pixel_luminance_from_samples(img: Screenshot, x: int, y: int)
    requires
        samples_fit(img),
        0 <= x < image_dimensions(img).0,
        0 <= y < image_dimensions(img).1,
    ensures
        spec_luminance(pixel_rgb(img, x, y)) == sample_luminance(img, x, y),
{
    let w = image_dimensions(img).0 as int;
    let h = image_dimensions(img).1 as int;
    let i = 4 * (y * w + x);
    assert(0 <= i && i + 4 <= 4 * w * h) by (nonlinear_arith)
        requires
            0 <= x < w,
            0 <= y < h,
            i == 4 * (y * w + x),
    ;
    let s = image_samples(img);
    let rgb = pixel_rgb(img, x, y);
    reveal(sample_luminance);
    assert(rgb[0] == s[i]);
    assert(rgb[1] == s[i + 1]);
    assert(rgb[2] == s[i + 2]);
}

proof fn lemma_line_contrast_from_samples(
    engine: EdgeEngine,
    axis: Axis,
    start_x: u32,
    start_y: u32,
    p: int,
    q: int,
)
    requires
        samples_fit(engine.screenshot()),
        engine.contains(start_x, start_y),
        0 <= p < engine.extent(axis),
        0 <= q < engine.extent(axis),
    ensures
        spec_color_diff(engine.line_rgb(axis, start_x, start_y, p), engine.line_rgb(axis, start_x, start_y, q))
            == abs_int(
            luminance_on_line(engine, axis, start_x, start_y, p) - luminance_on_line(
                engine,
                axis,
                start_x,
                start_y,
                q,
            ),
        ),
{
    reveal(spec_color_diff);
    reveal(luminance_on_line);
    let img = engine.screenshot();
    match axis {
        Axis::Horizontal => {
            lemma_pixel_luminance_from_samples(img, p, start_y as int);
            lemma_pixel_luminance_from_samples(img, q, start_y as int);
        },
        Axis::Vertical => {
            lemma_pixel_luminance_from_samples(img, start_x as int, p);
            lemma_pixel_luminance_from_samples(img, start_x as int, q);
        },
    }
}

proof fn lemma_walk_step_contrast(
    engine: EdgeEngine,
    axis: Axis,
    start_x: u32,
    start_y: u32,
    forward: bool,
    n: nat,
    k: int,
    j: int,
)
    requires
        samples_fit(engine.screenshot()),
        engine.contains(start_x, start_y),
        forward ==> axis_origin(axis, start_x, start_y) + n < engine.extent(axis),
        !forward ==> n <= axis_origin(axis, start_x, start_y),
        0 <= k <= n,
        0 <= j <= n,
    ensures
        ({
            let origin = axis_origin(axis, start_x, start_y);
            let ray = engine.ray(axis, start_x, start_y, forward);
            spec_color_diff(ray(k), ray(j)) == abs_int(
                luminance_on_line(engine, axis, start_x, start_y, walk_position(origin, forward, k))
                    - luminance_on_line(engine, axis, start_x, start_y, walk_position(origin, forward, j)),
            )
        }),
{
    let origin = axis_origin(axis, start_x, start_y);
    let ray = engine.ray(axis, start_x, start_y, forward);
    assert(ray(k) == engine.line_rgb(axis, start_x, start_y, walk_position(origin, forward, k)));
    assert(ray(j) == engine.line_rgb(axis, start_x, start_y, walk_position(origin, forward, j)));
    lemma_line_contrast_from_samples(
        engine,
        axis,
        start_x,
        start_y,
        walk_position(origin, forward, k),
        walk_position(origin, forward, j),
    );
}

#[verifier::rlimit(40)]
proof fn lemma_walk_luminance(engine: EdgeEngine, axis: Axis, start_x: u32, start_y: u32, forward: bool, n: nat)
    requires
        samples_fit(engine.screenshot()),
        engine.contains(start_x, start_y),
        forward ==> axis_origin(axis, start_x, start_y) + n < engine.extent(axis),
        !forward ==> n <= axis_origin(axis, start_x, start_y),
    ensures
        ({
            let origin = axis_origin(axis, start_x, start_y);
            let steps = scan_steps(engine.ray(axis, start_x, start_y, forward), engine.threshold(), n).0;
            let t = engine.threshold() as int;
            &&& forall|i: int| 0 <= i < steps.len() ==> 1 <= #[trigger] steps[i] <= n
            &&& forall|i: int|
                0 <= i < steps.len() ==> abs_int(
                    luminance_on_line(engine, axis, start_x, start_y, walk_position(origin, forward, #[trigger] steps[i]))
                        - luminance_on_line(
                        engine,
                        axis,
                        start_x,
                        start_y,
                        walk_position(origin, forward, anchor_step(steps, i)),
                    ),
                ) > t
            &&& forall|i: int, k: int|
                #![trigger steps[i], walk_position(origin, forward, k)]
                0 <= i < steps.len() && anchor_step(steps, i) < k < steps[i] ==> abs_int(
                    luminance_on_line(engine, axis, start_x, start_y, walk_position(origin, forward, k))
                        - luminance_on_line(
                        engine,
                        axis,
                        start_x,
                        start_y,
                        walk_position(origin, forward, anchor_step(steps, i)),
                    ),
                ) <= t
            &&& forall|k: int|
                anchor_step(steps, steps.len() as int) < k <= n ==> abs_int(
                    luminance_on_line(engine, axis, start_x, start_y, #[trigger] walk_position(origin, forward, k))
                        - luminance_on_line(
                        engine,
                        axis,
                        start_x,
                        start_y,
                        walk_position(origin, forward, anchor_step(steps, steps.len() as int)),
                    ),
                ) <= t
        }),
{
    let origin = axis_origin(axis, start_x, start_y);
    let ray = engine.ray(axis, start_x, start_y, forward);
    let t = engine.threshold();
    lemma_scan_steps_contrast(ray, t, n);
    let steps = scan_steps(ray, t, n).0;
    let last = scan_steps(ray, t, n).1;
    assert forall|i: int| 0 <= i <= steps.len() implies 0 <= #[trigger] anchor_step(steps, i) <= n by {
        if i > 0 {
            assert(1 <= steps[i - 1] <= n);
        }
    }
    assert forall|i: int|
        0 <= i < steps.len() implies abs_int(
        luminance_on_line(engine, axis, start_x, start_y, walk_position(origin, forward, #[trigger] steps[i]))
            - luminance_on_line(
            engine,
            axis,
            start_x,
            start_y,
            walk_position(origin, forward, anchor_step(steps, i)),
        ),
    ) > t by {
        assert(0 <= anchor_step(steps, i) <= n);
        assert(spec_color_diff(ray(steps[i]), ray(anchor_step(steps, i))) > t);
        lemma_walk_step_contrast(engine, axis, start_x, start_y, forward, n, steps[i], anchor_step(steps, i));
    }
    assert forall|i: int, k: int|
        #![trigger steps[i], walk_position(origin, forward, k)]
        0 <= i < steps.len() && anchor_step(steps, i) < k < steps[i] implies abs_int(
        luminance_on_line(engine, axis, start_x, start_y, walk_position(origin, forward, k))
            - luminance_on_line(
            engine,
            axis,
            start_x,
            start_y,
            walk_position(origin, forward, anchor_step(steps, i)),
        ),
    ) <= t by {
        assert(0 <= anchor_step(steps, i) <= n);
        assert(spec_color_diff(ray(k), ray(anchor_step(steps, i))) <= t);
        lemma_walk_step_contrast(engine, axis, start_x, start_y, forward, n, k, anchor_step(steps, i));
    }
    assert forall|k: int|
        anchor_step(steps, steps.len() as int) < k <= n implies abs_int(
        luminance_on_line(engine, axis, start_x, start_y, #[trigger] walk_position(origin, forward, k))
            - luminance_on_line(
            engine,
            axis,
            start_x,
            start_y,
            walk_position(origin, forward, anchor_step(steps, steps.len() as int)),
        ),
    ) <= t by {
        assert(0 <= anchor_step(steps, steps.len() as int) <= n);
        assert(spec_color_diff(ray(k), last) <= t);
        lemma_walk_step_contrast(
            engine,
            axis,
            start_x,
            start_y,
            forward,
            n,
            k,
            anchor_step(steps, steps.len() as int),
        );
    }
}

/// The position an edge is compared against: the previous edge on the same
/// side, or the start for the nearest one.
pub open spec fn edge_anchor(origin: int, edges: Seq<u32>, i: int) -> int {
    if i == 0 {
        origin
    } else {
        edges[i - 1] as int
    }
}

/// The edges are the luminance changes of the line through the start, with
/// luminance read from the screenshot's samples: on each side, every edge
/// differs in luminance from the previous edge (or the start) by more than
/// the threshold, every pixel between them differs from that previous edge
/// by at most the threshold, and so does every pixel beyond the last edge up
/// to the border of the screenshot.
pub proof fn lemma_find_edges_luminance(engine: EdgeEngine, axis: Axis, start_x: u32, start_y: u32)
    requires
        samples_fit(engine.screenshot()),
        engine.contains(start_x, start_y),
    ensures
        ({
            let origin = axis_origin(axis, start_x, start_y);
            let t = engine.threshold() as int;
            let pos = engine.spec_find_edges(axis, start_x, start_y).1;
            &&& forall|i: int|
                0 <= i < pos.len() ==> abs_int(
                    luminance_on_line(engine, axis, start_x, start_y, #[trigger] pos[i] as int)
                        - luminance_on_line(engine, axis, start_x, start_y, edge_anchor(origin, pos, i)),
                ) > t
            &&& forall|i: int, p: int|
                #![trigger pos[i], luminance_on_line(engine, axis, start_x, start_y, p)]
                0 <= i < pos.len() && edge_anchor(origin, pos, i) < p < pos[i] ==> abs_int(
                    luminance_on_line(engine, axis, start_x, start_y, p) - luminance_on_line(
                        engine,
                        axis,
                        start_x,
                        start_y,
                        edge_anchor(origin, pos, i),
                    ),
                ) <= t
            &&& forall|p: int|
                edge_anchor(origin, pos, pos.len() as int) < p < engine.extent(axis) ==> abs_int(
                    #[trigger] luminance_on_line(engine, axis, start_x, start_y, p) - luminance_on_line(
                        engine,
                        axis,
                        start_x,
                        start_y,
                        edge_anchor(origin, pos, pos.len() as int),
                    ),
                ) <= t
        }),
        ({
            let origin = axis_origin(axis, start_x, start_y);
            let t = engine.threshold() as int;
            let neg = engine.spec_find_edges(axis, start_x, start_y).0;
            &&& forall|i: int|
                0 <= i < neg.len() ==> abs_int(
                    luminance_on_line(engine, axis, start_x, start_y, #[trigger] neg[i] as int)
                        - luminance_on_line(engine, axis, start_x, start_y, edge_anchor(origin, neg, i)),
                ) > t
            &&& forall|i: int, p: int|
                #![trigger neg[i], luminance_on_line(engine, axis, start_x, start_y, p)]
                0 <= i < neg.len() && neg[i] < p < edge_anchor(origin, neg, i) ==> abs_int(
                    luminance_on_line(engine, axis, start_x, start_y, p) - luminance_on_line(
                        engine,
                        axis,
                        start_x,
                        start_y,
                        edge_anchor(origin, neg, i),
                    ),
                ) <= t
            &&& forall|p: int|
                0 <= p < edge_anchor(origin, neg, neg.len() as int) ==> abs_int(
                    #[trigger] luminance_on_line(engine, axis, start_x, start_y, p) - luminance_on_line(
                        engine,
                        axis,
                        start_x,
                        start_y,
                        edge_anchor(origin, neg, neg.len() as int),
                    ),
                ) <= t
        }),
{
    let origin = axis_origin(axis, start_x, start_y);
    let np = (engine.extent(axis) - 1 - origin) as nat;
    let nn = origin as nat;
    lemma_walk_luminance(engine, axis, start_x, start_y, true, np);
    lemma_walk_luminance(engine, axis, start_x, start_y, false, nn);
    let ps = engine.positive_steps(axis, start_x, start_y);
    let ns = engine.negative_steps(axis, start_x, start_y);
    let pos = engine.spec_find_edges(axis, start_x, start_y).1;
    let neg = engine.spec_find_edges(axis, start_x, start_y).0;
    assert forall|i: int| 0 <= i < pos.len() implies #[trigger] pos[i] == walk_position(origin, true, ps[i]) by {
        assert(1 <= ps[i] <= np);
    }
    assert forall|i: int| 0 <= i < neg.len() implies #[trigger] neg[i] == walk_position(origin, false, ns[i]) by {
        assert(1 <= ns[i] <= nn);
    }
    assert forall|i: int| 0 <= i <= pos.len() implies #[trigger] edge_anchor(origin, pos, i) == walk_position(
        origin,
        true,
        anchor_step(ps, i),
    ) by {
        if i > 0 {
            assert(pos[i - 1] == walk_position(origin, true, ps[i - 1]));
        }
    }
    assert forall|i: int| 0 <= i <= neg.len() implies #[trigger] edge_anchor(origin, neg, i) == walk_position(
        origin,
        false,
        anchor_step(ns, i),
    ) by {
        if i > 0 {
            assert(neg[i - 1] == walk_position(origin, false, ns[i - 1]));
        }
    }
    assert forall|i: int, p: int|
        #![trigger pos[i], luminance_on_line(engine, axis, start_x, start_y, p)]
        0 <= i < pos.len() && edge_anchor(origin, pos, i) < p < pos[i] implies abs_int(
        luminance_on_line(engine, axis, start_x, start_y, p) - luminance_on_line(
            engine,
            axis,
            start_x,
            start_y,
            edge_anchor(origin, pos, i),
        ),
    ) <= engine.threshold() by {
        let k = p - origin;
        assert(walk_position(origin, true, k) == p);
        assert(anchor_step(ps, i) < k < ps[i]);
    }
    assert forall|p: int|
        edge_anchor(origin, pos, pos.len() as int) < p < engine.extent(axis) implies abs_int(
        #[trigger] luminance_on_line(engine, axis, start_x, start_y, p) - luminance_on_line(
            engine,
            axis,
            start_x,
            start_y,
            edge_anchor(origin, pos, pos.len() as int),
        ),
    ) <= engine.threshold() by {
        let k = p - origin;
        assert(walk_position(origin, true, k) == p);
    }
    assert forall|i: int, p: int|
        #![trigger neg[i], luminance_on_line(engine, axis, start_x, start_y, p)]
        0 <= i < neg.len() && neg[i] < p < edge_anchor(origin, neg, i) implies abs_int(
        luminance_on_line(engine, axis, start_x, start_y, p) - luminance_on_line(
            engine,
            axis,
            start_x,
            start_y,
            edge_anchor(origin, neg, i),
        ),
    ) <= engine.threshold() by {
        let k = origin - p;
        assert(walk_position(origin, false, k) == p);
        assert(anchor_step(ns, i) < k < ns[i]);
    }
    assert forall|p: int|
        0 <= p < edge_anchor(origin, neg, neg.len() as int) implies abs_int(
        #[trigger] luminance_on_line(engine, axis, start_x, start_y, p) - luminance_on_line(
            engine,
            axis,
            start_x,
            start_y,
            edge_anchor(origin, neg, neg.len() as int),
        ),
    ) <= engine.threshold() by {
        let k = origin - p;
        assert(walk_position(origin, false, k) == p);
    }
}

} // verus!

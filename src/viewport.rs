use vstd::prelude::*;

verus! {

/// Fixed-point scale: a zoom or pan value `v` stands for `v / SCALE`.
pub const SCALE: u64 = 1_000_000_000;

/// Smallest zoom, in `SCALE` units (1e-8 pixels per nanosecond).
pub const ZOOM_FLOOR: u64 = 10;

/// Largest pan, in `SCALE` units (half a nanosecond).
pub const PAN_CEIL: i128 = 500_000_000;

/// Zoom at construction and after a reset: 12.8 pixels per nanosecond.
pub const INITIAL_ZOOM: u64 = 12_800_000_000;

/// Pan at construction and after a reset: half a nanosecond.
pub const INITIAL_PAN: i128 = 500_000_000;

pub open spec fn clamp_zoom(z: int) -> int {
    if z < ZOOM_FLOOR {
        ZOOM_FLOOR as int
    } else if z > u64::MAX {
        u64::MAX as int
    } else {
        z
    }
}

pub open spec fn clamp_pan(p: int) -> int {
    if p > PAN_CEIL {
        PAN_CEIL as int
    } else if p < i128::MIN {
        i128::MIN as int
    } else {
        p
    }
}

/// The zoom after scaling `zoom` by `1 + delta / 100`.
pub open spec fn zoomed(zoom: int, delta: int) -> int {
    if 100 + delta <= 0 {
        ZOOM_FLOOR as int
    } else {
        clamp_zoom(zoom * (100 + delta) / 100)
    }
}

/// `delta / zoom` in pan units, rounded toward zero.
pub open spec fn pan_shift(zoom: int, delta: int) -> int {
    if delta >= 0 {
        delta * SCALE * SCALE / zoom
    } else {
        -((-delta) * SCALE * SCALE / zoom)
    }
}

/// `ns * zoom + pan * zoom` in pixels, rounded down.
pub open spec fn screen_x_of(zoom: int, pan: int, ns: int) -> int {
    (ns * SCALE + pan) * zoom / (SCALE * SCALE)
}

/// The timestamp under screen position `x`: `(x - pan * zoom) / zoom`, rounded down.
pub open spec fn ns_at_of(zoom: int, pan: int, x: int) -> int {
    (x * SCALE * SCALE - pan * zoom) / (zoom * SCALE)
}

/// Whether the products that `ns_at_of` needs fit in an `i128`.
pub open spec fn ns_at_fits(zoom: int, pan: int, x: int) -> bool {
    &&& i128::MIN <= pan * zoom <= i128::MAX
    &&& i128::MIN <= x * SCALE * SCALE - pan * zoom <= i128::MAX
}

/// Zoom and pan of the map from nanoseconds to screen pixels, in `SCALE` units.
pub struct Viewport {
    zoom: u64,
    pan: i128,
}

impl Viewport {
    pub closed spec fn zoom_spec(&self) -> int {
        self.zoom as int
    }

    pub closed spec fn pan_spec(&self) -> int {
        self.pan as int
    }

    /// Zoom stays at or above its floor and pan at or below its ceiling.
    pub open spec fn wf(&self) -> bool {
        self.zoom_spec() >= ZOOM_FLOOR && self.pan_spec() <= PAN_CEIL
    }

    pub fn new() -> (r: Viewport)
        ensures
            r.wf(),
            r.zoom_spec() == INITIAL_ZOOM,
            r.pan_spec() == INITIAL_PAN,
    {
        Viewport { zoom: INITIAL_ZOOM, pan: INITIAL_PAN }
    }

    pub fn zoom(&self) -> (r: u64)
        ensures
            r == self.zoom_spec(),
    {
        self.zoom
    }

    pub fn pan(&self) -> (r: i128)
        ensures
            r == self.pan_spec(),
    {
        self.pan
    }

    /// Stores `max(zoom, ZOOM_FLOOR)`.
    pub fn set_zoom(&mut self, zoom: u64)
        ensures
            final(self).zoom_spec() == clamp_zoom(zoom as int),
            final(self).pan_spec() == old(self).pan_spec(),
    {
        self.zoom = if zoom < ZOOM_FLOOR {
            ZOOM_FLOOR
        } else {
            zoom
        };
    }

    /// Stores `min(pan, PAN_CEIL)`.
    pub fn set_pan(&mut self, pan: i128)
        ensures
            final(self).pan_spec() == clamp_pan(pan as int),
            final(self).zoom_spec() == old(self).zoom_spec(),
    {
        self.pan = if pan > PAN_CEIL {
            PAN_CEIL
        } else {
            pan
        };
    }

    /// Scales the zoom by `1 + delta / 100`, then clamps it.
    pub fn update_zoom(&mut self, delta: i32)
        ensures
            final(self).zoom_spec() == zoomed(old(self).zoom_spec(), delta as int),
            final(self).pan_spec() == old(self).pan_spec(),
    {
        let factor: i64 = 100 + delta as i64;
        if factor <= 0 {
            self.zoom = ZOOM_FLOOR;
        } else {
            let f = factor as u128;
            assert(self.zoom as u128 * f <= u64::MAX as u128 * 3_000_000_000u128) by (nonlinear_arith)
                requires
                    f <= 3_000_000_000u128,
            ;
            let z: u128 = self.zoom as u128 * f / 100;
            self.zoom = if z < ZOOM_FLOOR as u128 {
                ZOOM_FLOOR
            } else if z > u64::MAX as u128 {
                u64::MAX
            } else {
                z as u64
            };
        }
    }

    /// Moves the view by `delta` pixels: pan grows by `delta / zoom` nanoseconds, then is
    /// clamped.
    pub fn update_pan(&mut self, delta: i64)
        requires
            old(self).wf(),
        ensures
            final(self).pan_spec() == clamp_pan(
                old(self).pan_spec() + pan_shift(old(self).zoom_spec(), delta as int),
            ),
            final(self).zoom_spec() == old(self).zoom_spec(),
    {
        let z = self.zoom as i128;
        let mag: i128 = if delta >= 0 {
            delta as i128
        } else {
            -(delta as i128)
        };
        assert(mag * 1_000_000_000_000_000_000 <= 9_223_372_036_854_775_808 * 1_000_000_000_000_000_000)
            by (nonlinear_arith)
            requires
                0 <= mag <= 9_223_372_036_854_775_808,
        ;
        let q: i128 = mag * 1_000_000_000_000_000_000 / z;
        assert(q as int <= mag as int * 1_000_000_000_000_000_000) by (nonlinear_arith)
            requires
                q as int == (mag as int * 1_000_000_000_000_000_000) / (z as int),
                z >= 1,
                mag >= 0,
        ;
        let shift: i128 = if delta >= 0 {
            q
        } else {
            -q
        };
        let p: i128 = if shift < 0 && self.pan < i128::MIN - shift {
            i128::MIN
        } else {
            self.pan + shift
        };
        self.pan = if p > PAN_CEIL {
            PAN_CEIL
        } else {
            p
        };
    }

    /// Fits `[data_min, data_max]` onto `[0, width]` pixels; leaves the view unchanged when
    /// the range is empty or a single point.
    pub fn auto_fit(&mut self, width: u64, data_min: u64, data_max: u64)
        ensures
            data_min < data_max ==> final(self).zoom_spec() == clamp_zoom(
                width * SCALE / (data_max - data_min),
            ) && final(self).pan_spec() == -(data_min * SCALE),
            data_min >= data_max ==> *final(self) == *old(self),
    {
        if data_min < data_max {
            assert(width as u128 * 1_000_000_000u128 <= u64::MAX as u128 * 1_000_000_000u128)
                by (nonlinear_arith);
            assert(data_min as i128 * 1_000_000_000i128 <= u64::MAX as i128 * 1_000_000_000i128)
                by (nonlinear_arith);
            let z: u128 = width as u128 * 1_000_000_000u128 / (data_max - data_min) as u128;
            self.zoom = if z < ZOOM_FLOOR as u128 {
                ZOOM_FLOOR
            } else if z > u64::MAX as u128 {
                u64::MAX
            } else {
                z as u64
            };
            self.pan = -(data_min as i128 * 1_000_000_000i128);
        }
    }

    /// Restores the initial zoom and pan.
    pub fn reset(&mut self)
        ensures
            final(self).zoom_spec() == INITIAL_ZOOM,
            final(self).pan_spec() == INITIAL_PAN,
    {
        self.zoom = INITIAL_ZOOM;
        self.pan = INITIAL_PAN;
    }

    /// The screen position of timestamp `ns`, `ns * zoom + pan * zoom` rounded down, or
    /// `None` where the product before the rounding does not fit in an `i128`.
    pub fn screen_x(&self, ns: u64) -> (r: Option<i128>)
        requires
            self.wf(),
        ensures
            r.is_some() ==> r.unwrap() == screen_x_of(self.zoom_spec(), self.pan_spec(), ns as int),
            r.is_none() ==> !(i128::MIN < (ns * SCALE + self.pan_spec()) * self.zoom_spec()
                <= i128::MAX),
    {
        assert(ns as i128 * 1_000_000_000i128 <= u64::MAX as i128 * 1_000_000_000i128)
            by (nonlinear_arith);
        let v: i128 = ns as i128 * 1_000_000_000i128 + self.pan;
        let z = self.zoom as i128;
        let d: i128 = 1_000_000_000_000_000_000;
        if v >= 0 {
            match v.checked_mul(z) {
                Some(p) => Some(p / d),
                None => None,
            }
        } else if v == i128::MIN {
            assert((v as int) * (z as int) <= i128::MIN) by (nonlinear_arith)
                requires
                    v == i128::MIN,
                    z >= 1,
            ;
            None
        } else {
            match (-v).checked_mul(z) {
                Some(p) => {
                    let q: i128 = if p % d == 0 {
                        p / d
                    } else {
                        p / d + 1
                    };
                    assert(-(q as int) == ((v as int) * (z as int)) / (d as int)) by (nonlinear_arith)
                        requires
                            p as int == -(v as int) * (z as int),
                            q as int == if p % d == 0 { p / d } else { p / d + 1 },
                            d == 1_000_000_000_000_000_000,
                            p >= 0,
                    ;
                    Some(-q)
                },
                None => {
                    assert((v as int) * (z as int) <= i128::MIN) by (nonlinear_arith)
                        requires
                            (-(v as int)) * (z as int) > i128::MAX,
                    ;
                    None
                },
            }
        }
    }

    /// The timestamp under screen position `x`, `(x - pan * zoom) / zoom` rounded down, or
    /// `None` where `pan * zoom` or the numerator does not fit in an `i128`.
    pub fn ns_at(&self, x: i64) -> (r: Option<i128>)
        requires
            self.wf(),
        ensures
            r.is_some() ==> r.unwrap() == ns_at_of(self.zoom_spec(), self.pan_spec(), x as int),
            r.is_none() ==> !ns_at_fits(self.zoom_spec(), self.pan_spec(), x as int),
    {
        let z = self.zoom as i128;
        assert((x as int) * 1_000_000_000_000_000_000 <= 9_223_372_036_854_775_807int * 1_000_000_000_000_000_000) by (nonlinear_arith)
            requires x <= 9_223_372_036_854_775_807int;
        assert((x as int) * 1_000_000_000_000_000_000 >= -9_223_372_036_854_775_808int * 1_000_000_000_000_000_000) by (nonlinear_arith)
            requires x >= -9_223_372_036_854_775_808int;
        let num0: i128 = x as i128 * 1_000_000_000_000_000_000i128;
        assert(self.zoom as int * 1_000_000_000 <= u64::MAX as int * 1_000_000_000) by (nonlinear_arith);
        let den: i128 = z * 1_000_000_000i128;
        let pz = match self.pan.checked_mul(z) {
            Some(v) => v,
            None => {
                return None;
            },
        };
        let n = match num0.checked_sub(pz) {
            Some(v) => v,
            None => {
                return None;
            },
        };
        if n >= 0 {
            Some(n / den)
        } else {
            let m: i128 = -(n + 1);
            let q: i128 = m / den;
            assert(-(q as int) - 1 == (n as int) / (den as int)) by (nonlinear_arith)
                requires
                    m as int == -(n as int) - 1,
                    q as int == (m as int) / (den as int),
                    den > 0,
                    n < 0,
            ;
            Some(-q - 1)
        }
    }
}

} // verus!

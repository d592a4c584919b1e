//! Grouping the rows of a time column by windows of fixed length.

use vstd::prelude::*;

verus! {

/// A span of time in nanoseconds.
#[derive(Clone, Copy, Debug, PartialEq, Eq, Structural)]
pub struct Duration {
    pub nanoseconds: i64,
}

impl Duration {
    pub fn from_nanoseconds(v: i64) -> (r: Duration)
        ensures
            r.nanoseconds == v,
    {
        Duration { nanoseconds: v }
    }

    /// A span of whole seconds; the longest span where the seconds do not
    /// fit.
    pub fn from_seconds(v: i64) -> (r: Duration)
        ensures
            r.nanoseconds == if i64::MIN <= v * 1_000_000_000 <= i64::MAX {
                (v * 1_000_000_000) as i64
            } else if v < 0 {
                i64::MIN
            } else {
                i64::MAX
            },
    {
        match v.checked_mul(1_000_000_000) {
            Some(n) => Duration { nanoseconds: n },
            None => if v < 0 {
                Duration { nanoseconds: i64::MIN }
            } else {
                Duration { nanoseconds: i64::MAX }
            },
        }
    }

    /// The span in nanoseconds.
    pub fn duration(&self) -> (r: i64)
        ensures
            r == self.nanoseconds,
    {
        self.nanoseconds
    }
}

/// The times from `start` up to, not including, `stop`.
#[derive(Clone, Copy, Debug, PartialEq, Eq, Structural)]
pub struct Bounds {
    pub start: i64,
    pub stop: i64,
}

impl Bounds {
    pub fn new(start: i64, stop: i64) -> (r: Bounds)
        ensures
            r == (Bounds { start, stop }),
    {
        Bounds { start, stop }
    }

    /// From the first to the last of the times; from zero to zero where
    /// there is no time.
    pub fn from_times(time: &[i64]) -> (r: Bounds)
        ensures
            r == bounds_of(time@),
    {
        if time.len() == 0 {
            Bounds { start: 0, stop: 0 }
        } else {
            Bounds { start: time[0], stop: time[time.len() - 1] }
        }
    }

    /// Whether a time lies within the bounds.
    pub open spec fn holds(self, t: i64) -> bool {
        self.start <= t < self.stop
    }

    /// Whether a time lies within the bounds.
    pub fn is_member(&self, t: i64) -> (r: bool)
        ensures
            r == self.holds(t),
    {
        t >= self.start && t < self.stop
    }
}

/// From the first to the last of the times.
pub open spec fn bounds_of(time: Seq<i64>) -> Bounds {
    if time.len() == 0 {
        Bounds { start: 0, stop: 0 }
    } else {
        Bounds { start: time[0], stop: time.last() }
    }
}

/// Windows of length `period` that start every `every`, shifted by
/// `offset`.  `every` is positive.
#[derive(Clone, Copy, Debug)]
pub struct Window {
    every: Duration,
    period: Duration,
    offset: Duration,
}

/// The latest start of a window of step `every` that is not behind `t`.
pub open spec fn truncated(t: int, every: int) -> int {
    t - (t % every)
}

/// Window `k` over a span that starts at `t`: it starts `k` steps behind
/// the latest start that is not behind `t`, shifted by the offset.
pub open spec fn window_start(every: int, offset: int, t: int, k: int) -> int {
    truncated(t, every) + offset + k * every
}

impl Window {
    #[verifier::type_invariant]
    spec fn positive(&self) -> bool {
        self.every.nanoseconds > 0
    }

    pub closed spec fn every(&self) -> int {
        self.every.nanoseconds as int
    }

    pub closed spec fn period(&self) -> int {
        self.period.nanoseconds as int
    }

    pub closed spec fn offset(&self) -> int {
        self.offset.nanoseconds as int
    }

    /// Windows of the given step, length and shift; none where the step is
    /// not positive.
    pub fn new(every: Duration, period: Duration, offset: Duration) -> (r: Option<Window>)
        ensures
            match r {
                Some(w) => every.nanoseconds > 0 && w.every() == every.nanoseconds && w.period()
                    == period.nanoseconds && w.offset() == offset.nanoseconds,
                None => every.nanoseconds <= 0,
            },
    {
        if every.nanoseconds > 0 {
            Some(Window { every, period, offset })
        } else {
            None
        }
    }

    /// The first window over a span that starts at `t`; none where its
    /// bounds are not times that can be held.
    pub fn get_earliest_bounds(&self, t: i64) -> (r: Option<Bounds>)
        ensures
            self.every() > 0,
            match r {
                Some(b) => b.start == window_start(self.every(), self.offset(), t as int, 0)
                    && b.stop == b.start + self.period(),
                None => !(i64::MIN <= window_start(self.every(), self.offset(), t as int, 0)
                    <= i64::MAX && i64::MIN <= window_start(
                    self.every(),
                    self.offset(),
                    t as int,
                    0,
                ) + self.period() <= i64::MAX),
            },
    {
        proof {
            use_type_invariant(self);
        }
        let every = self.every.nanoseconds as i128;
        let t = t as i128;
        // the remainder of a negative time is brought into 0..every
        let rem = if t >= 0 {
            t % every
        } else {
            let m = (-t) % every;
            if m == 0 {
                0
            } else {
                every - m
            }
        };
        proof {
            lemma_rem(t as int, every as int);
        }
        assert(rem == (t as int) % (every as int));
        let start = t - rem + self.offset.nanoseconds as i128;
        let stop = start + self.period.nanoseconds as i128;
        assert(0 * (every as int) == 0);
        if start < i64::MIN as i128 || start > i64::MAX as i128 || stop < i64::MIN as i128 || stop
            > i64::MAX as i128 {
            None
        } else {
            Some(Bounds { start: start as i64, stop: stop as i64 })
        }
    }
}

/// What the truncating remainder of the machine gives for a positive
/// divisor, brought into `0..d`, is the remainder of mathematics.
pub proof fn lemma_rem(t: int, d: int)
    requires
        d > 0,
    ensures
        0 <= t % d < d,
        t < 0 ==> t % d == if (-t) % d == 0 {
            0
        } else {
            d - (-t) % d
        },
{
    assert(0 <= t % d < d) by (nonlinear_arith)
        requires
            d > 0,
    ;
    if t < 0 {
        let m = (-t) % d;
        let q = (-t) / d;
        assert(-t == d * q + m && 0 <= m < d) by (nonlinear_arith)
            requires
                d > 0,
                m == (-t) % d,
                q == (-t) / d,
        ;
        if m == 0 {
            assert(t == d * (-q)) by (nonlinear_arith)
                requires
                    -t == d * q + m,
                    m == 0,
            ;
            assert(t % d == 0) by (nonlinear_arith)
                requires
                    d > 0,
                    t == d * (-q),
            ;
        } else {
            assert(t == d * (-q - 1) + (d - m)) by (nonlinear_arith)
                requires
                    -t == d * q + m,
            ;
            assert(t % d == d - m) by (nonlinear_arith)
                requires
                    d > 0,
                    t == d * (-q - 1) + (d - m),
                    0 < d - m < d,
            ;
        }
    }
}

/// The first row from `from` on whose time lies within the bounds; the
/// number of rows where there is none.
pub open spec fn first_inside(time: Seq<i64>, b: Bounds, from: int) -> int
    decreases time.len() - from,
{
    if from < 0 || from >= time.len() {
        time.len() as int
    } else if b.holds(time[from]) {
        from
    } else {
        first_inside(time, b, from + 1)
    }
}

/// The first row from `from` on whose time does not lie within the bounds;
/// the number of rows where there is none.
pub open spec fn first_outside(time: Seq<i64>, b: Bounds, from: int) -> int
    decreases time.len() - from,
{
    if from < 0 || from >= time.len() {
        time.len() as int
    } else if !b.holds(time[from]) {
        from
    } else {
        first_outside(time, b, from + 1)
    }
}

/// The rows from `lo` to `hi`, both included.
pub open spec fn row_span(lo: int, hi: int) -> Seq<u32> {
    Seq::new((hi - lo + 1) as nat, |i: int| (lo + i) as u32)
}

/// The group of one window: from the first row, at or behind `from`, whose
/// time lies in the window, up to and including the first row behind it
/// whose time does not; where the times run out, the number of rows stands
/// for the row that is missing.
pub open spec fn window_group(time: Seq<i64>, b: Bounds, from: int) -> Seq<u32> {
    row_span(first_inside(time, b, from), first_outside(time, b, first_inside(time, b, from)))
}

/// The groups of the windows from window `k` on, the search for rows
/// starting at row `from`.  The windows end where one starts at or behind
/// `stop`, or where its bounds are not times that can be held.
pub open spec fn window_groups(
    time: Seq<i64>,
    start: int,
    period: int,
    every: int,
    stop: int,
    from: int,
) -> Seq<Seq<u32>>
    decreases
            (if stop > start {
                stop - start
            } else {
                0
            }),
    when every > 0
{
    if start >= stop || start + period < i64::MIN || start + period > i64::MAX || start < i64::MIN
        || start > i64::MAX {
        Seq::empty()
    } else {
        let b = Bounds { start: start as i64, stop: (start + period) as i64 };
        seq![window_group(time, b, from)] + window_groups(
            time,
            start + every,
            period,
            every,
            stop,
            first_inside(time, b, from),
        )
    }
}

/// The models of a vector of groups.
pub open spec fn groups_view(groups: Seq<Vec<u32>>) -> Seq<Seq<u32>> {
    Seq::new(groups.len(), |g: int| groups[g]@)
}

/// Groups the rows of a time column by the windows that overlap its span,
/// which runs from its first to its last time.  The windows are taken in
/// order, and each searches for its rows from where the window before it
/// found its first.
pub fn groupby(window: Window, time: &[i64]) -> (group_tuples: Vec<Vec<u32>>)
    requires
        time@.len() < u32::MAX,
    ensures
        groups_view(group_tuples@) == match window_start(
            window.every(),
            window.offset(),
            bounds_of(time@).start as int,
            0,
        ) {
            start => if i64::MIN <= start <= i64::MAX && i64::MIN <= start + window.period()
                <= i64::MAX {
                window_groups(
                    time@,
                    start,
                    window.period(),
                    window.every(),
                    bounds_of(time@).stop as int,
                    0,
                )
            } else {
                Seq::<Seq<u32>>::empty()
            },
        },
{
    proof {
        use_type_invariant(&window);
    }
    let boundary = Bounds::from_times(time);
    let mut group_tuples: Vec<Vec<u32>> = Vec::new();
    let first = match window.get_earliest_bounds(boundary.start) {
        Some(b) => b,
        None => {
            assert(groups_view(group_tuples@) =~= Seq::<Seq<u32>>::empty());
            return group_tuples;
        },
    };
    let every = window.every.nanoseconds;
    let period = window.period.nanoseconds;
    let ghost all = window_groups(
        time@,
        first.start as int,
        period as int,
        every as int,
        boundary.stop as int,
        0,
    );
    let mut start: i128 = first.start as i128;
    let mut latest_start: usize = 0;
    assert(groups_view(group_tuples@) =~= Seq::<Seq<u32>>::empty());
    loop
        invariant
            every > 0,
            time@.len() < u32::MAX,
            latest_start <= time.len(),
            i64::MIN <= start <= i64::MAX + every,
            all == groups_view(group_tuples@) + window_groups(
                time@,
                start as int,
                period as int,
                every as int,
                boundary.stop as int,
                latest_start as int,
            ),
        ensures
            groups_view(group_tuples@) == all,
        decreases
                (if boundary.stop > start {
                    boundary.stop - start
                } else {
                    0
                }),
    {
        let stop = start + period as i128;
        if start >= boundary.stop as i128 || stop < i64::MIN as i128 || stop > i64::MAX as i128
            || start > i64::MAX as i128 {
            assert(window_groups(
                time@,
                start as int,
                period as int,
                every as int,
                boundary.stop as int,
                latest_start as int,
            ) =~= Seq::<Seq<u32>>::empty());
            assert(all =~= groups_view(group_tuples@));
            break ;
        }
        let bi = Bounds { start: start as i64, stop: stop as i64 };
        // the first row at or behind `latest_start` that lies in the window
        let ghost from = latest_start as int;
        while latest_start < time.len() && !bi.is_member(time[latest_start])
            invariant
                from <= latest_start <= time.len(),
                first_inside(time@, bi, from) == first_inside(time@, bi, latest_start as int),
            decreases time.len() - latest_start,
        {
            latest_start += 1;
        }
        assert(first_inside(time@, bi, from) == latest_start);
        // the rows of the window, and the one behind them
        let mut group: Vec<u32> = Vec::new();
        let mut i: usize = latest_start;
        assert(group@ =~= row_span(latest_start as int, latest_start as int - 1));
        loop
            invariant_except_break
                group@ == row_span(latest_start as int, i as int - 1),
            invariant
                latest_start <= i <= time.len(),
                time@.len() < u32::MAX,
                first_outside(time@, bi, latest_start as int) == first_outside(
                    time@,
                    bi,
                    i as int,
                ),
            ensures
                group@ == row_span(
                    latest_start as int,
                    first_outside(time@, bi, latest_start as int),
                ),
            decreases time.len() - i,
        {
            group.push(i as u32);
            assert(group@ =~= row_span(latest_start as int, i as int));
            if i >= time.len() || !bi.is_member(time[i]) {
                break ;
            }
            i += 1;
        }
        let ghost before = groups_view(group_tuples@);
        group_tuples.push(group);
        proof {
            assert(groups_view(group_tuples@) =~= before + seq![
                window_group(time@, bi, from),
            ]);
            let rest = window_groups(
                time@,
                start + every,
                period as int,
                every as int,
                boundary.stop as int,
                latest_start as int,
            );
            assert(all =~= groups_view(group_tuples@) + rest);
        }
        start = start + every as i128;
    }
    group_tuples
}

} // verus!

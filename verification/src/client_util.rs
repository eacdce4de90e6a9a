//! Small helpers used by the interactive client: a wrapping cursor for list
//! navigation, border highlighting, and the payload tabs of the send view.

use vstd::prelude::*;

verus! {

/// How a pane's border is drawn: plain, or highlighted in one color.
#[derive(Debug, Copy, Clone, PartialEq, Eq, Structural)]
pub enum Border {
    NoHighlight,
    Blue,
    Magenta,
}

impl Border {
    /// Whether this border is drawn highlighted at all.
    pub fn is_highlighted(self) -> (r: bool)
        ensures
            r == (self != Border::NoHighlight),
    {
        !matches!(self, Border::NoHighlight)
    }

    /// Keep the highlight color only while the pane is focused.
    pub fn highlighted(self, highlight: bool) -> (r: Self)
        ensures
            highlight ==> r == self,
            !highlight ==> r == Border::NoHighlight,
    {
        if highlight {
            self
        } else {
            Self::NoHighlight
        }
    }
}

/// The payload tabs of the send view, one per payload the client can build.
#[derive(Debug, Clone, Copy, Eq, PartialEq, Structural)]
pub enum PayloadTabKind {
    UpdateFrequency,
    Light,
    AirConditioning,
}

impl PayloadTabKind {
    /// The next tab in the given direction, wrapping around.
    pub fn cycle(self, up: bool) -> (r: Self)
        ensures
            r == (match (up, self) {
                (true, PayloadTabKind::UpdateFrequency) => PayloadTabKind::Light,
                (true, PayloadTabKind::Light) => PayloadTabKind::AirConditioning,
                (true, PayloadTabKind::AirConditioning) => PayloadTabKind::UpdateFrequency,
                (false, PayloadTabKind::UpdateFrequency) => PayloadTabKind::AirConditioning,
                (false, PayloadTabKind::Light) => PayloadTabKind::UpdateFrequency,
                (false, PayloadTabKind::AirConditioning) => PayloadTabKind::Light,
            }),
    {
        match (up, self) {
            (true, Self::UpdateFrequency) => Self::Light,
            (true, Self::Light) => Self::AirConditioning,
            (true, Self::AirConditioning) => Self::UpdateFrequency,
            (false, Self::UpdateFrequency) => Self::AirConditioning,
            (false, Self::Light) => Self::UpdateFrequency,
            (false, Self::AirConditioning) => Self::Light,
        }
    }

    /// Every tab, in display order.
    pub fn all() -> (r: Vec<PayloadTabKind>)
        ensures
            r@ == seq![
                PayloadTabKind::UpdateFrequency,
                PayloadTabKind::Light,
                PayloadTabKind::AirConditioning,
            ],
    {
        let mut v: Vec<PayloadTabKind> = Vec::new();
        v.push(Self::UpdateFrequency);
        v.push(Self::Light);
        v.push(Self::AirConditioning);
        proof {
            assert(v@ =~= seq![
                PayloadTabKind::UpdateFrequency,
                PayloadTabKind::Light,
                PayloadTabKind::AirConditioning,
            ]);
        }
        v
    }
}

/// Which stage of the send dialog the user is in.
#[derive(Debug, Clone, Copy, PartialEq, Eq, Structural)]
pub enum SendStage {
    EntitySelect,
    PayloadSelect,
}

/// A cursor over the inclusive range `0..=max` that wraps around at both ends.
#[derive(Copy, Clone, Debug)]
pub struct Wrapping {
    current: usize,
    max: usize,
}

impl Wrapping {
    /// The position the cursor currently points at.
    pub closed spec fn spec_current(self) -> usize {
        self.current
    }

    /// The largest position the cursor can point at.
    pub closed spec fn spec_max(self) -> usize {
        self.max
    }

    #[must_use]
    pub fn new(current: usize, max: usize) -> (r: Self)
        ensures
            r.spec_current() == current,
            r.spec_max() == max,
    {
        Self { current, max }
    }

    #[must_use]
    pub fn current(self) -> (r: usize)
        ensures
            r == self.spec_current(),
    {
        self.current
    }

    /// Move one position forward, wrapping to 0 past `max`.
    #[must_use]
    pub fn inc(self) -> (r: Self)
        ensures
            r.spec_max() == self.spec_max(),
            self.spec_current() >= self.spec_max() ==> r.spec_current() == 0,
            self.spec_current() < self.spec_max() ==> r.spec_current() == self.spec_current() + 1,
    {
        let mut this = self;
        if this.current >= this.max {
            this.current = 0;
        } else {
            this.current = this.current + 1;
        }
        this
    }

    /// Move one position backward, wrapping to `max` below 0.
    #[must_use]
    pub fn dec(self) -> (r: Self)
        ensures
            r.spec_max() == self.spec_max(),
            self.spec_current() == 0 ==> r.spec_current() == self.spec_max(),
            self.spec_current() > 0 ==> r.spec_current() == self.spec_current() - 1,
    {
        let mut this = self;
        if this.current == 0 {
            this.current = this.max;
        } else {
            this.current = this.current - 1;
        }
        this
    }
}

} // verus!

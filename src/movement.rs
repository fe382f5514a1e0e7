use vstd::prelude::*;

verus! {

/// Milliseconds in the span that a quartz drift is expressed over: a month of
/// 30.416 days.
pub const QUARTZ_UNIT_MS: i64 = 2628000000;

/// Milliseconds in the span that a mechanical drift is expressed over: a day.
pub const MECHANICAL_UNIT_MS: i64 = 86400000;

/// The mechanism inside a watch. It decides the span of time that a drift is
/// normalised against.
#[derive(Clone, Copy, Debug, PartialEq, Eq, Structural)]
pub enum Movement {
    Quartz,
    Mechanical,
}

impl Movement {
    /// The normalisation span of this movement, in milliseconds.
    pub open spec fn unit_ms(self) -> int {
        match self {
            Movement::Quartz => QUARTZ_UNIT_MS as int,
            Movement::Mechanical => MECHANICAL_UNIT_MS as int,
        }
    }

    /// The word naming the normalisation span ("month" or "day").
    pub open spec fn unit_label(self) -> Seq<char> {
        match self {
            Movement::Quartz => "month"@,
            Movement::Mechanical => "day"@,
        }
    }

    /// The display name of the movement.
    pub open spec fn label(self) -> Seq<char> {
        match self {
            Movement::Quartz => "Quartz"@,
            Movement::Mechanical => "Mechanical"@,
        }
    }

    /// The movement picked by answer "1" (quartz) or "2" (mechanical).
    pub fn from_choice(choice: &str) -> (r: Option<Movement>)
        ensures
            r == if choice@ == "1"@ {
                Some(Movement::Quartz)
            } else if choice@ == "2"@ {
                Some(Movement::Mechanical)
            } else {
                None
            },
    {
        let answer = choice.to_owned();
        if answer == "1".to_owned() {
            Some(Movement::Quartz)
        } else if answer == "2".to_owned() {
            Some(Movement::Mechanical)
        } else {
            None
        }
    }

    pub fn unit(&self) -> (r: i64)
        ensures
            r == self.unit_ms(),
            r > 0,
    {
        match self {
            Movement::Quartz => QUARTZ_UNIT_MS,
            Movement::Mechanical => MECHANICAL_UNIT_MS,
        }
    }

    pub fn unit_str(&self) -> (r: &'static str)
        ensures
            r@ == self.unit_label(),
    {
        match self {
            Movement::Quartz => "month",
            Movement::Mechanical => "day",
        }
    }

    pub fn to_str(&self) -> (r: &'static str)
        ensures
            r@ == self.label(),
    {
        match self {
            Movement::Quartz => "Quartz",
            Movement::Mechanical => "Mechanical",
        }
    }
}

} // verus!

//! How fast a memory hog grows.

use vstd::prelude::*;
use vstd::string::*;

use crate::error::Error;
use crate::text::same;

verus! {

broadcast use vstd::string::group_string_axioms;

/// The speed of a memory hog.
#[derive(Clone, Copy, Debug, PartialEq, Eq, Structural)]
pub enum MemHogSpeed {
    Hog10Pct,
    Hog25Pct,
    Hog50Pct,
    Hog1x,
    Hog2x,
}

impl MemHogSpeed {
    /// The name of a speed in a job's properties.
    pub open spec fn name(self) -> Seq<char> {
        match self {
            Self::Hog10Pct => "10%"@,
            Self::Hog25Pct => "25%"@,
            Self::Hog50Pct => "50%"@,
            Self::Hog1x => "1x"@,
            Self::Hog2x => "2x"@,
        }
    }

    /// The name of the sideload that runs a hog of this speed.
    pub open spec fn sideload_name(self) -> Seq<char> {
        match self {
            Self::Hog10Pct => "mem-hog-10pct"@,
            Self::Hog25Pct => "mem-hog-25pct"@,
            Self::Hog50Pct => "mem-hog-50pct"@,
            Self::Hog1x => "mem-hog-1x"@,
            Self::Hog2x => "mem-hog-2x"@,
        }
    }

    /// Reads the name of a speed. The name that a speed is shown by gives that
    /// speed back.
    pub fn from_str(input: &str) -> (r: Result<Self, Error>)
        ensures
            r matches Ok(speed) ==> input@ == speed.name(),
            r matches Err(e) ==> e == Error::BadSpeed,
            forall|speed: Self| #![trigger speed.name()] speed.name() == input@ ==> r == Ok::<Self, Error>(speed),
    {
        proof {
            assert forall|a: Self, b: Self| #[trigger] a.name() == #[trigger] b.name() implies a == b by {
                lemma_speed_names_distinct(a, b);
            }
            assert(Self::Hog10Pct.name() == "10%"@ && Self::Hog25Pct.name() == "25%"@ && Self::Hog50Pct.name()
                == "50%"@ && Self::Hog1x.name() == "1x"@ && Self::Hog2x.name() == "2x"@);
        }
        if same(input, "10%") {
            Ok(Self::Hog10Pct)
        } else if same(input, "25%") {
            Ok(Self::Hog25Pct)
        } else if same(input, "50%") {
            Ok(Self::Hog50Pct)
        } else if same(input, "1x") {
            Ok(Self::Hog1x)
        } else if same(input, "2x") {
            Ok(Self::Hog2x)
        } else {
            Err(Error::BadSpeed)
        }
    }

    /// The name of the sideload that runs a hog of this speed.
    pub fn to_sideload_name(&self) -> (r: &'static str)
        ensures
            r@ == self.sideload_name(),
    {
        match self {
            Self::Hog10Pct => "mem-hog-10pct",
            Self::Hog25Pct => "mem-hog-25pct",
            Self::Hog50Pct => "mem-hog-50pct",
            Self::Hog1x => "mem-hog-1x",
            Self::Hog2x => "mem-hog-2x",
        }
    }

    /// The name of the speed.
    pub fn to_string(&self) -> (r: String)
        ensures
            r@ == self.name(),
    {
        let s = match self {
            Self::Hog10Pct => "10%",
            Self::Hog25Pct => "25%",
            Self::Hog50Pct => "50%",
            Self::Hog1x => "1x",
            Self::Hog2x => "2x",
        };
        s.to_owned()
    }
}

/// Each speed has a name of its own.
pub proof fn lemma_speed_names_distinct(a: MemHogSpeed, b: MemHogSpeed)
    requires
        a.name() == b.name(),
    ensures
        a == b,
{
    reveal_strlit("10%");
    reveal_strlit("25%");
    reveal_strlit("50%");
    reveal_strlit("1x");
    reveal_strlit("2x");
    assert("10%"@[0] == '1' && "25%"@[0] == '2' && "50%"@[0] == '5');
    assert("1x"@.len() == 2 && "2x"@.len() == 2 && "1x"@[0] == '1' && "2x"@[0] == '2');
    assert("10%"@.len() == 3 && "25%"@.len() == 3 && "50%"@.len() == 3);
}

/// Each speed has a sideload of its own.
pub proof fn lemma_sideload_names_distinct(a: MemHogSpeed, b: MemHogSpeed)
    requires
        a.sideload_name() == b.sideload_name(),
    ensures
        a == b,
{
    reveal_strlit("mem-hog-10pct");
    reveal_strlit("mem-hog-25pct");
    reveal_strlit("mem-hog-50pct");
    reveal_strlit("mem-hog-1x");
    reveal_strlit("mem-hog-2x");
    assert("mem-hog-10pct"@[8] == '1' && "mem-hog-25pct"@[8] == '2' && "mem-hog-50pct"@[8] == '5');
    assert("mem-hog-1x"@.len() == 10 && "mem-hog-2x"@.len() == 10);
    assert("mem-hog-1x"@[8] == '1' && "mem-hog-2x"@[8] == '2');
    assert("mem-hog-10pct"@.len() == 13 && "mem-hog-25pct"@.len() == 13 && "mem-hog-50pct"@.len() == 13);
}

} // verus!

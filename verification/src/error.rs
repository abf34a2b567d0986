//! What can go wrong.

use vstd::prelude::*;
use vstd::string::*;

verus! {

broadcast use vstd::string::group_string_axioms;

/// Why a string is no number.
#[derive(Clone, Copy, Debug, PartialEq, Eq, Structural)]
pub enum NumberFault {
    /// There is nothing in it.
    Empty,
    /// It holds something else than digits behind an optional plus sign.
    InvalidDigit,
    /// The number does not fit.
    TooLarge,
}

/// What can go wrong in a job.
#[derive(Debug)]
pub enum Error {
    /// `speed` should be one of 10%, 25%, 50%, 1x or 2x.
    BadSpeed,
    /// `scenario` is missing or names no scenario.
    BadScenario,
    /// `loops` is no number.
    BadLoops(NumberFault),
    /// `loops` can't be zero.
    ZeroLoops,
    /// `load` is no fraction; with what the fraction parser said.
    BadLoad(String),
    /// A mem-hog scenario has no property of this name.
    UnknownMemHogProperty(String),
    /// `passive` is neither empty nor a boolean.
    BadPassive,
    /// `balloon` is no size; with what the size parser said.
    BadBalloon(String),
    /// A protection job has no property of this name.
    UnknownProperty(String),
    /// The agent's report lists no `mem-hog` sysload.
    NoMemHogSysload,
    /// The memory hog never swapped.
    SwapStayedZero,
}

/// How `{:?}` shows a string, which is in quotes and with escapes.
pub uninterp spec fn debug_text(s: Seq<char>) -> Seq<char>;

/// Shows a string with `{:?}`, that is with `<str as Debug>::fmt`. What it
/// shows depends on the string alone; nothing more is said of the escapes.
#[verifier::external_body]
fn quoted(s: &str) -> (r: String)
    ensures
        r@ == debug_text(s@),
{
    format!("{:?}", s)
}

impl NumberFault {
    /// The fault in words.
    pub open spec fn words(self) -> Seq<char> {
        match self {
            NumberFault::Empty => "cannot parse integer from empty string"@,
            NumberFault::InvalidDigit => "invalid digit found in string"@,
            NumberFault::TooLarge => "number too large to fit in target type"@,
        }
    }

    /// The fault in words.
    pub fn message(&self) -> (r: &'static str)
        ensures
            r@ == self.words(),
    {
        match self {
            NumberFault::Empty => "cannot parse integer from empty string",
            NumberFault::InvalidDigit => "invalid digit found in string",
            NumberFault::TooLarge => "number too large to fit in target type",
        }
    }
}

impl Error {
    /// The error in words, where `key` is how the property name is shown that
    /// the error may hold.
    pub open spec fn words(self, key: Seq<char>) -> Seq<char> {
        match self {
            Error::BadSpeed => "\"speed\" should be one of 10%, 25%, 50%, 1x or 2x"@,
            Error::BadScenario => "\"scenario\" invalid or missing"@,
            Error::BadLoops(fault) => fault.words(),
            Error::ZeroLoops => "\"loops\" can't be 0"@,
            Error::BadLoad(why) => why@,
            Error::UnknownMemHogProperty(_) => "unknown mem-hog property "@ + key,
            Error::BadPassive => "provided string was not `true` or `false`"@,
            Error::BadBalloon(why) => why@,
            Error::UnknownProperty(_) => "unknown property key "@ + key,
            Error::NoMemHogSysload => "agent report doesn't contain \"mem-hog\" sysload"@,
            Error::SwapStayedZero => "swap usage stayed zero"@,
        }
    }

    /// The property name that the error holds; nothing if it holds none.
    pub open spec fn key(self) -> Seq<char> {
        match self {
            Error::UnknownMemHogProperty(k) => k@,
            Error::UnknownProperty(k) => k@,
            _ => Seq::empty(),
        }
    }

    /// The error in words, where `key` is how the property name is shown that
    /// the error may hold.
    pub fn message_with(&self, key: &str) -> (r: String)
        ensures
            r@ == self.words(key@),
    {
        match self {
            Error::BadSpeed => "\"speed\" should be one of 10%, 25%, 50%, 1x or 2x".to_owned(),
            Error::BadScenario => "\"scenario\" invalid or missing".to_owned(),
            Error::BadLoops(fault) => fault.message().to_owned(),
            Error::ZeroLoops => "\"loops\" can't be 0".to_owned(),
            Error::BadLoad(why) => why.as_str().to_owned(),
            Error::UnknownMemHogProperty(_) => {
                let mut r = "unknown mem-hog property ".to_owned();
                r.append(key);
                r
            },
            Error::BadPassive => "provided string was not `true` or `false`".to_owned(),
            Error::BadBalloon(why) => why.as_str().to_owned(),
            Error::UnknownProperty(_) => {
                let mut r = "unknown property key ".to_owned();
                r.append(key);
                r
            },
            Error::NoMemHogSysload => "agent report doesn't contain \"mem-hog\" sysload".to_owned(),
            Error::SwapStayedZero => "swap usage stayed zero".to_owned(),
        }
    }

    /// The error in words. A property name is shown in quotes.
    pub fn message(&self) -> (r: String)
        ensures
            r@ == self.words(debug_text(self.key())),
    {
        match self {
            Error::UnknownMemHogProperty(k) => self.message_with(quoted(k.as_str()).as_str()),
            Error::UnknownProperty(k) => self.message_with(quoted(k.as_str()).as_str()),
            _ => self.message_with(""),
        }
    }
}

/// What errors say. Of a load and of a balloon, it is what the parser said, and
/// of an unknown property, how the property's name is shown is at the end. The
/// other errors say one thing each, whatever is shown.
pub proof fn lemma_words(e: Error, key: Seq<char>, other: Seq<char>)
    ensures
        match e {
            Error::BadLoad(why) | Error::BadBalloon(why) => e.words(key) == why@,
            Error::UnknownMemHogProperty(k) | Error::UnknownProperty(k) => {
                &&& e.key() == k@
                &&& e.words(key).len() - key.len() == e.words(other).len() - other.len()
                &&& e.words(key).skip(e.words(key).len() - key.len()) == key
                &&& e.words(key).take(e.words(key).len() - key.len()) == e.words(other).take(
                    e.words(other).len() - other.len(),
                )
            },
            Error::BadLoops(fault) => e.words(key) == fault.words(),
            _ => e.words(key) == e.words(other) && e.key().len() == 0,
        },
{
    if e is UnknownMemHogProperty || e is UnknownProperty {
        assert(e.words(key).skip(e.words(key).len() - key.len()) =~= key);
        assert(e.words(key).take(e.words(key).len() - key.len()) =~= e.words(other).take(
            e.words(other).len() - other.len(),
        ));
    }
}

} // verus!

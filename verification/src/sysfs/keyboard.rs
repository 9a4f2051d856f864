//! The keyboard backlight files of the `tuxedo_keyboard` driver: the
//! animation state and the mode switch.
use vstd::prelude::*;
use vstd::string::*;

use crate::text::str_eq;

verus! {

/// The animation state of the keyboard backlight.
#[derive(Debug, PartialEq, Eq, Clone, Copy, Structural)]
pub enum KeyboardState {
    Custom,
    Breathe,
    Cycle,
    Dance,
    Flash,
    RandomColor,
    Tempo,
    Wave,
}

/// The number that the `state` file holds for a state.
pub open spec fn state_number(state: KeyboardState) -> int {
    match state {
        KeyboardState::Custom => 0,
        KeyboardState::Breathe => 1,
        KeyboardState::Cycle => 2,
        KeyboardState::Dance => 3,
        KeyboardState::Flash => 4,
        KeyboardState::RandomColor => 5,
        KeyboardState::Tempo => 6,
        KeyboardState::Wave => 7,
    }
}

/// The state that the `state` file value `s` stands for: the digits `0` to
/// `7`, nothing else.
pub open spec fn state_of(s: Seq<char>) -> Option<KeyboardState> {
    if s == "0"@ {
        Some(KeyboardState::Custom)
    } else if s == "1"@ {
        Some(KeyboardState::Breathe)
    } else if s == "2"@ {
        Some(KeyboardState::Cycle)
    } else if s == "3"@ {
        Some(KeyboardState::Dance)
    } else if s == "4"@ {
        Some(KeyboardState::Flash)
    } else if s == "5"@ {
        Some(KeyboardState::RandomColor)
    } else if s == "6"@ {
        Some(KeyboardState::Tempo)
    } else if s == "7"@ {
        Some(KeyboardState::Wave)
    } else {
        None
    }
}

/// The character of a decimal digit from 0 to 7.
pub open spec fn digit_char(n: int) -> char {
    if n == 0 {
        '0'
    } else if n == 1 {
        '1'
    } else if n == 2 {
        '2'
    } else if n == 3 {
        '3'
    } else if n == 4 {
        '4'
    } else if n == 5 {
        '5'
    } else if n == 6 {
        '6'
    } else {
        '7'
    }
}

/// The text of a single decimal digit from 0 to 7.
pub open spec fn digit_text(n: int) -> Seq<char> {
    seq![digit_char(n)]
}

proof fn lemma_digit_literals()
    ensures
        "0"@ == digit_text(0),
        "1"@ == digit_text(1),
        "2"@ == digit_text(2),
        "3"@ == digit_text(3),
        "4"@ == digit_text(4),
        "5"@ == digit_text(5),
        "6"@ == digit_text(6),
        "7"@ == digit_text(7),
{
    reveal_strlit("0");
    reveal_strlit("1");
    reveal_strlit("2");
    reveal_strlit("3");
    reveal_strlit("4");
    reveal_strlit("5");
    reveal_strlit("6");
    reveal_strlit("7");
    assert("0"@ =~= digit_text(0));
    assert("1"@ =~= digit_text(1));
    assert("2"@ =~= digit_text(2));
    assert("3"@ =~= digit_text(3));
    assert("4"@ =~= digit_text(4));
    assert("5"@ =~= digit_text(5));
    assert("6"@ =~= digit_text(6));
    assert("7"@ =~= digit_text(7));
}

impl KeyboardState {
    /// The value written to the `state` file: the state's number.
    pub fn to_sysfs_string(&self) -> (s: String)
        ensures
            s@ == digit_text(state_number(*self)),
    {
        proof {
            lemma_digit_literals();
        }
        match self {
            Self::Custom => String::from_str("0"),
            Self::Breathe => String::from_str("1"),
            Self::Cycle => String::from_str("2"),
            Self::Dance => String::from_str("3"),
            Self::Flash => String::from_str("4"),
            Self::RandomColor => String::from_str("5"),
            Self::Tempo => String::from_str("6"),
            Self::Wave => String::from_str("7"),
        }
    }

    /// The state a `state` file value stands for; any value other than the
    /// digits `0` to `7` is refused with a message that names it.
    pub fn from_sysfs_value(s: &str) -> (res: Result<Self, String>)
        ensures
            state_of(s@) is Some <==> res is Ok,
            res matches Ok(state) ==> state_of(s@) == Some(state),
            res matches Err(msg) ==> msg@ == "Expected value in the range 0-7, found "@ + s@,
    {
        if str_eq(s, "0") {
            Ok(Self::Custom)
        } else if str_eq(s, "1") {
            Ok(Self::Breathe)
        } else if str_eq(s, "2") {
            Ok(Self::Cycle)
        } else if str_eq(s, "3") {
            Ok(Self::Dance)
        } else if str_eq(s, "4") {
            Ok(Self::Flash)
        } else if str_eq(s, "5") {
            Ok(Self::RandomColor)
        } else if str_eq(s, "6") {
            Ok(Self::Tempo)
        } else if str_eq(s, "7") {
            Ok(Self::Wave)
        } else {
            Err(String::from_str("Expected value in the range 0-7, found ").concat(s))
        }
    }
}

impl std::str::FromStr for KeyboardState {
    type Err = String;

    fn from_str(s: &str) -> (res: Result<Self, Self::Err>)
        ensures
            state_of(s@) is Some <==> res is Ok,
            res matches Ok(state) ==> state_of(s@) == Some(state),
            res matches Err(msg) ==> msg@ == "Expected value in the range 0-7, found "@ + s@,
    {
        Self::from_sysfs_value(s)
    }
}

/// Writing a state to the `state` file and reading it back gives the same
/// state.
pub proof fn lemma_state_round_trip(state: KeyboardState)
    ensures
        state_of(digit_text(state_number(state))) == Some(state),
{
    lemma_digit_literals();
    let t = digit_text(state_number(state));
    assert(forall|a: int, b: int|
        0 <= a <= 7 && 0 <= b <= 7 && a != b ==> #[trigger] digit_text(a) != #[trigger] digit_text(
            b,
        )) by {
        assert forall|a: int, b: int|
            0 <= a <= 7 && 0 <= b <= 7 && a != b implies #[trigger] digit_text(a)
            != #[trigger] digit_text(b) by {
            assert(digit_text(a)[0] != digit_text(b)[0]);
        }
    }
}

/// A boolean that the driver reads and writes as `0` or `1`.
#[derive(Debug, PartialEq, Eq, Clone, Copy, Structural)]
pub struct NumBool(pub bool);

impl NumBool {
    /// The value written to the file: `1` for true, `0` for false.
    pub fn to_sysfs_string(&self) -> (s: String)
        ensures
            s@ == digit_text(if self.0 { 1 } else { 0 }),
    {
        proof {
            lemma_digit_literals();
        }
        if self.0 {
            String::from_str("1")
        } else {
            String::from_str("0")
        }
    }

    /// The boolean a file value stands for; anything but `0` or `1` is
    /// refused with a message that names it.
    pub fn from_sysfs_value(s: &str) -> (res: Result<Self, String>)
        ensures
            s@ == "0"@ ==> res == Ok::<NumBool, String>(NumBool(false)),
            s@ == "1"@ ==> res == Ok::<NumBool, String>(NumBool(true)),
            s@ != "0"@ && s@ != "1"@ ==> (res matches Err(msg) && msg@
                == "Expected value in the range 0-1, found "@ + s@),
    {
        proof {
            lemma_digit_literals();
            assert(digit_text(0)[0] != digit_text(1)[0]);
        }
        if str_eq(s, "0") {
            Ok(NumBool(false))
        } else if str_eq(s, "1") {
            Ok(NumBool(true))
        } else {
            Err(String::from_str("Expected value in the range 0-1, found ").concat(s))
        }
    }
}

} // verus!

//! Peer identities and the token record.
use vstd::prelude::*;
use vstd::string::StringExecFns;

verus! {

/// The identity of one connected participant.
#[derive(Clone, Copy, Debug, PartialEq, Eq, Hash, Structural)]
pub struct Player(pub usize);

/// Who holds the token, if anyone does.
#[derive(Clone, Debug, PartialEq, Eq)]
pub struct GameInfo {
    pub player_with_ball: Option<Player>,
}

/// The character of one decimal digit.
pub open spec fn digit_char(d: nat) -> char {
    if d == 0 {
        '0'
    } else if d == 1 {
        '1'
    } else if d == 2 {
        '2'
    } else if d == 3 {
        '3'
    } else if d == 4 {
        '4'
    } else if d == 5 {
        '5'
    } else if d == 6 {
        '6'
    } else if d == 7 {
        '7'
    } else if d == 8 {
        '8'
    } else {
        '9'
    }
}

/// The decimal numeral of `n`, without leading zeros.
pub open spec fn decimal(n: nat) -> Seq<char>
    decreases n,
{
    if n < 10 {
        seq![digit_char(n)]
    } else {
        decimal(n / 10).push(digit_char(n % 10))
    }
}

/// The text that names a player: `player #` and the identity in decimal.
pub open spec fn player_text(id: usize) -> Seq<char> {
    "player #"@ + decimal(id as nat)
}

/// `format!` on a `usize`, that is the `Display` impl of `usize` in std: the
/// number in decimal, without sign, padding or leading zeros.
#[verifier::external_body]
fn decimal_text(n: usize) -> (text: String)
    ensures
        text@ == decimal(n as nat),
{
    format!("{}", n)
}

impl Default for GameInfo {
    fn default() -> (info: Self)
        ensures
            info.player_with_ball is None,
    {
        GameInfo { player_with_ball: None }
    }
}

impl Player {
    /// The player's display name.
    pub fn to_string(&self) -> (text: String)
        ensures
            text@ == player_text(self.0),
    {
        let digits = decimal_text(self.0);
        "player #".to_owned().concat(digits.as_str())
    }

    /// How `self` speaks of `other`: as "themselves" when both are the same
    /// player, by the other's display name otherwise.
    pub fn as_ref_str(&self, other: &Player) -> (text: String)
        ensures
            self.0 == other.0 ==> text@ == "themselves"@,
            self.0 != other.0 ==> text@ == player_text(other.0),
    {
        if self.0 == other.0 {
            "themselves".to_owned()
        } else {
            other.to_string()
        }
    }
}

} // verus!

//! Positions in a group's backend topic.

use core::cmp::Ordering;
use vstd::prelude::*;
use vstd::std_specs::cmp::PartialOrdSpec;
use vstd::std_specs::convert::FromSpec;

verus! {

/// The decimal digit `d`.
pub open spec fn decimal_digit(d: nat) -> char {
    seq!['0', '1', '2', '3', '4', '5', '6', '7', '8', '9'][d as int]
}

/// `n` written in decimal, without leading zeros.
pub open spec fn decimal(n: nat) -> Seq<char>
    decreases n,
{
    if n < 10 {
        seq![decimal_digit(n)]
    } else {
        decimal(n / 10).push(decimal_digit(n % 10))
    }
}

/// The position of a message in the backend topic,
/// based only upon messages from the stream.
#[derive(Debug, Copy, Clone, PartialEq, Eq, Ord, Hash, Structural)]
pub struct MessagePosition {
    /// current message
    cursor: Option<u64>,
}

impl View for MessagePosition {
    type V = Option<u64>;

    closed spec fn view(&self) -> Option<u64> {
        self.cursor
    }
}

/// The place of a position in the order of positions: one without a cursor comes
/// before every position that has one, and those go by their cursors.
pub open spec fn rank(position: Option<u64>) -> int {
    match position {
        None => -1,
        Some(cursor) => cursor as int,
    }
}

impl MessagePosition {
    /// Moves the position to `cursor`.
    pub fn set(&mut self, cursor: u64)
        ensures
            final(self)@ == Some(cursor),
    {
        self.cursor = Some(cursor);
    }

    /// The cursor of the position, zero where there is none.
    pub fn pos(&self) -> (cursor: u64)
        ensures
            cursor == pos_of(self@),
    {
        self.cursor.unwrap_or(0)
    }

    /// The position as text: its cursor in decimal.
    pub fn display(&self) -> (text: String)
        ensures
            text@ == decimal(pos_of(self@) as nat),
    {
        to_decimal(self.pos())
    }
}

/// The cursor that a position stands for.
pub open spec fn pos_of(position: Option<u64>) -> u64 {
    match position {
        None => 0,
        Some(cursor) => cursor,
    }
}

impl From<u64> for MessagePosition {
    fn from(v: u64) -> (position: MessagePosition)
        ensures
            position@ == Some(v),
    {
        MessagePosition { cursor: Some(v) }
    }
}

impl vstd::std_specs::convert::FromSpecImpl<u64> for MessagePosition {
    open spec fn obeys_from_spec() -> bool {
        true
    }

    closed spec fn from_spec(v: u64) -> MessagePosition {
        MessagePosition { cursor: Some(v) }
    }
}

impl PartialOrd for MessagePosition {
    fn partial_cmp(&self, other: &MessagePosition) -> (order: Option<Ordering>) {
        match (self.cursor, other.cursor) {
            (None, None) => Some(Ordering::Equal),
            (None, Some(_)) => Some(Ordering::Less),
            (Some(_), None) => Some(Ordering::Greater),
            (Some(a), Some(b)) => if a < b {
                Some(Ordering::Less)
            } else if a == b {
                Some(Ordering::Equal)
            } else {
                Some(Ordering::Greater)
            },
        }
    }
}

impl vstd::std_specs::cmp::PartialOrdSpecImpl for MessagePosition {
    open spec fn obeys_partial_cmp_spec() -> bool {
        true
    }

    open spec fn partial_cmp_spec(&self, other: &MessagePosition) -> Option<Ordering> {
        if rank(self@) < rank(other@) {
            Some(Ordering::Less)
        } else if rank(self@) == rank(other@) {
            Some(Ordering::Equal)
        } else {
            Some(Ordering::Greater)
        }
    }
}

/// A position made from a cursor stands at that cursor, such positions go by their cursors, and
/// one without a cursor comes before all of them, before cursor zero too.
pub proof fn positions_go_by_cursors(a: u64, b: u64, unset: MessagePosition)
    requires
        unset@ is None,
    ensures
        MessagePosition::from_spec(a)@ == Some(a),
        pos_of(MessagePosition::from_spec(a)@) == a,
        MessagePosition::from_spec(a).partial_cmp_spec(&MessagePosition::from_spec(b)) == Some(
            Ordering::Less,
        ) <==> a < b,
        MessagePosition::from_spec(a).partial_cmp_spec(&MessagePosition::from_spec(b)) == Some(
            Ordering::Greater,
        ) <==> a > b,
        MessagePosition::from_spec(a) == MessagePosition::from_spec(b) <==> a == b,
        unset.partial_cmp_spec(&MessagePosition::from_spec(a)) == Some(Ordering::Less),
        MessagePosition::from_spec(a).partial_cmp_spec(&unset) == Some(Ordering::Greater),
        pos_of(unset@) == 0,
{
}

/// The digit `d` as a string.
fn digit_str(d: u64) -> (text: &'static str)
    requires
        d < 10,
    ensures
        text@ == seq![decimal_digit(d as nat)],
{
    proof {
        reveal_strlit("0");
        reveal_strlit("1");
        reveal_strlit("2");
        reveal_strlit("3");
        reveal_strlit("4");
        reveal_strlit("5");
        reveal_strlit("6");
        reveal_strlit("7");
        reveal_strlit("8");
        reveal_strlit("9");
    }
    match d {
        0 => "0",
        1 => "1",
        2 => "2",
        3 => "3",
        4 => "4",
        5 => "5",
        6 => "6",
        7 => "7",
        8 => "8",
        _ => "9",
    }
}

/// `n` in decimal.
fn to_decimal(n: u64) -> (text: String)
    ensures
        text@ == decimal(n as nat),
    decreases n,
{
    if n < 10 {
        String::from_str(digit_str(n))
    } else {
        to_decimal(n / 10).concat(digit_str(n % 10))
    }
}

} // verus!

//! Next-arrival requests: recognising them, extracting station and
//! direction, and rendering the schedule's answer.

use vstd::prelude::*;
use crate::text::{is_space, lit_at, lower_of, lowercase, space_char, trim, trimmed};

verus! {

/// The text starts with `east` or `East`.
pub open spec fn starts_east(s: Seq<char>) -> bool {
    lit_at(s, 0, seq!['e', 'a', 's', 't']) || lit_at(s, 0, seq!['E', 'a', 's', 't'])
}

/// The text starts with `west` or `West`.
pub open spec fn starts_west(s: Seq<char>) -> bool {
    lit_at(s, 0, seq!['w', 'e', 's', 't']) || lit_at(s, 0, seq!['W', 'e', 's', 't'])
}

/// The text starts with a direction, one whitespace character and a
/// character that is not whitespace: `^(east|west|East|West)\s\S`.
pub open spec fn arrival_shape(s: Seq<char>) -> bool {
    &&& starts_east(s) || starts_west(s)
    &&& s.len() >= 6
    &&& is_space(s[4])
    &&& !is_space(s[5])
}

/// The direction of a next-arrival request, lower-cased.
pub open spec fn arrival_direction(s: Seq<char>) -> Seq<char> {
    if starts_east(s) {
        seq!['e', 'a', 's', 't']
    } else {
        seq!['w', 'e', 's', 't']
    }
}

/// The station of a next-arrival request: the text after the direction and
/// its separator, trimmed and lower-cased.
pub open spec fn arrival_station(s: Seq<char>) -> Seq<char> {
    lower_of(trim(s.subrange(5, s.len() as int)))
}

/// A request to the schedule service.
#[derive(Clone, Debug, PartialEq, Eq)]
pub struct NextArrivalRequest {
    pub station: String,
    pub direction: String,
}

/// The schedule service's answer.
#[derive(Clone, Debug, PartialEq, Eq)]
pub struct NextArrivalResponse {
    pub station: String,
    pub direction: String,
    pub line: String,
    pub time: String,
}

pub open spec fn arrival_text(r: NextArrivalResponse) -> Seq<char> {
    "station: "@ + r.station@ + "\ndirection: "@ + r.direction@ + "\nline: "@ + r.line@
        + "\ntime: "@ + r.time@
}

impl NextArrivalResponse {
    /// The reply: station, direction, line and time, one per line.
    pub fn render(&self) -> (r: String)
        ensures
            r@ == arrival_text(*self),
    {
        let mut out = String::from_str("station: ");
        out.append(self.station.as_str());
        out.append("\ndirection: ");
        out.append(self.direction.as_str());
        out.append("\nline: ");
        out.append(self.line.as_str());
        out.append("\ntime: ");
        out.append(self.time.as_str());
        out
    }
}

fn starts_with_chars(s: &str, a: char, b: char, c: char, d: char) -> (r: bool)
    ensures
        r == lit_at(s@, 0, seq![a, b, c, d]),
{
    let n = s.unicode_len();
    let r = n >= 4 && s.get_char(0) == a && s.get_char(1) == b && s.get_char(2) == c
        && s.get_char(3) == d;
    proof {
        if n >= 4 {
            assert(r == (s@.subrange(0, 4) =~= seq![a, b, c, d]));
        }
    }
    r
}

fn east_first(s: &str) -> (r: bool)
    ensures
        r == starts_east(s@),
{
    starts_with_chars(s, 'e', 'a', 's', 't')
        || starts_with_chars(s, 'E', 'a', 's', 't')
}

fn west_first(s: &str) -> (r: bool)
    ensures
        r == starts_west(s@),
{
    starts_with_chars(s, 'w', 'e', 's', 't')
        || starts_with_chars(s, 'W', 'e', 's', 't')
}

/// Whether the message asks for the next arrival at a station.
pub fn is_next_arrival_request(text: &str) -> (r: bool)
    ensures
        r == arrival_shape(text@),
{
    (east_first(text) || west_first(text)) && text.unicode_len() >= 6 && space_char(
        text.get_char(4),
    ) && !space_char(text.get_char(5))
}

/// The request that a next-arrival message makes of the schedule service.
pub fn next_arrival_query(text: &str) -> (r: NextArrivalRequest)
    requires
        arrival_shape(text@),
    ensures
        r.station@ == arrival_station(text@),
        r.direction@ == arrival_direction(text@),
        trim(text@.subrange(5, text@.len() as int)).len() > 0,
{
    let rest = text.substring_char(5, text.unicode_len());
    let station = trimmed(rest);
    proof {
        lemma_trim_keeps_first(rest@);
    }
    let direction = if east_first(text) {
        let d = String::from_str("east");
        proof {
            reveal_strlit("east");
            assert(d@ =~= seq!['e', 'a', 's', 't']);
        }
        d
    } else {
        let d = String::from_str("west");
        proof {
            reveal_strlit("west");
            assert(d@ =~= seq!['w', 'e', 's', 't']);
        }
        d
    };
    NextArrivalRequest { station: lowercase(station), direction }
}

/// Trimming text that starts with a character other than whitespace leaves
/// that character in place.
pub(crate) proof fn lemma_trim_keeps_first(s: Seq<char>)
    requires
        s.len() > 0,
        !is_space(s[0]),
    ensures
        trim(s).len() > 0,
        trim(s)[0] == s[0],
{
    lemma_trim_end_keeps_first(s);
}

proof fn lemma_trim_end_keeps_first(s: Seq<char>)
    requires
        s.len() > 0,
        !is_space(s[0]),
    ensures
        crate::text::trim_end(s).len() > 0,
        crate::text::trim_end(s)[0] == s[0],
    decreases s.len(),
{
    if is_space(s.last()) {
        assert(s.len() > 1);
        lemma_trim_end_keeps_first(s.drop_last());
    }
}

pub const HELP_SCHEDULE: &'static str = "Next Arrival:\nGet the next arriving train on the STL Metro\nType East or West followed by a station name e.g. \"West fvh\"\nstation names:\n
    lambert\n
    lambert2\n
    hanley\n
    umsl north (umsl)\n
    umsl south\n
    rock road\n
    wellston\n
    delmar\n
    shrewsbury\n
    sunnen\n
    maplewood\n
    brentwood\n
    richmond\n
    clayton\n
    forsyth\n
    u city\n
    skinker\n
    forest park\n
    cwe (central west end)\n
    cortex\n
    grand\n
    union\n
    civic (civic center)\n
    stadium\n
    8th pine (8th and pine)\n
    convention (convention center\n
    lacledes (lacledes landing)\n
    riverfront (east riverfront)\n
    5th missouri (fifth missouri)\n
    emerson\n
    jjk (jackie joiner)\n
    washington\n
    fvh (fairview heights)\n
    memorial hospital\n
    swansea\n
    belleville\n
    college\n
    shiloh (shiloh scott)";

/// How to ask for the next arrival, with the station names.
pub fn help_schedule() -> (r: &'static str)
    ensures
        r == HELP_SCHEDULE,
{
    HELP_SCHEDULE
}

} // verus!

//! Room names: `server:<id>` for community rooms, `channel:<id>` for
//! channel rooms.  The decimal rendering is verified against a spec-level
//! digit sequence so the names interoperate exactly with the REST-layer
//! broadcaster.

use vstd::prelude::*;

verus! {

/// The decimal digit character for a value below ten.
pub open spec fn digit_char(d: nat) -> char {
    if d == 0 {
        '0'
    } else if d == 1 {
        '1'
    } else if d == 2 {
        '2'
    } else if d == 3 {
        '3'
    } else if d == 4 {
        '4'
    } else if d == 5 {
        '5'
    } else if d == 6 {
        '6'
    } else if d == 7 {
        '7'
    } else if d == 8 {
        '8'
    } else {
        '9'
    }
}

/// Decimal digit sequence of a natural number, most significant first.
pub open spec fn dec_digits(n: nat) -> Seq<char>
    decreases n,
{
    if n < 10 {
        seq![digit_char(n)]
    } else {
        dec_digits(n / 10).push(digit_char(n % 10))
    }
}

/// Decimal rendering of an integer: a leading minus sign when negative.
pub open spec fn int_digits(n: int) -> Seq<char> {
    if n < 0 {
        seq!['-'] + dec_digits((-n) as nat)
    } else {
        dec_digits(n as nat)
    }
}

/// Name of the room carrying community-wide presence events.
pub open spec fn spec_server_room(id: int) -> Seq<char> {
    "server:"@ + int_digits(id)
}

/// Name of the room carrying channel-scoped message and typing events.
pub open spec fn spec_channel_room(id: int) -> Seq<char> {
    "channel:"@ + int_digits(id)
}

/// One decimal digit as a string slice.
fn digit_str(d: u64) -> (r: &'static str)
    requires
        d < 10,
    ensures
        r@ =~= seq![digit_char(d as nat)],
{
    proof {
        reveal_strlit("0");
        reveal_strlit("1");
        reveal_strlit("2");
        reveal_strlit("3");
        reveal_strlit("4");
        reveal_strlit("5");
        reveal_strlit("6");
        reveal_strlit("7");
        reveal_strlit("8");
        reveal_strlit("9");
    }
    if d == 0 {
        "0"
    } else if d == 1 {
        "1"
    } else if d == 2 {
        "2"
    } else if d == 3 {
        "3"
    } else if d == 4 {
        "4"
    } else if d == 5 {
        "5"
    } else if d == 6 {
        "6"
    } else if d == 7 {
        "7"
    } else if d == 8 {
        "8"
    } else {
        "9"
    }
}

/// Decimal rendering of an unsigned value.
fn u64_dec(n: u64) -> (r: String)
    ensures
        r@ == dec_digits(n as nat),
    decreases n,
{
    if n < 10 {
        String::from_str(digit_str(n))
    } else {
        assert(n / 10 < n);
        let mut s = u64_dec(n / 10);
        s.append(digit_str(n % 10));
        assert(s@ =~= dec_digits((n / 10) as nat).push(digit_char((n % 10) as nat)));
        s
    }
}

/// Decimal rendering of a signed value.
fn i32_dec(n: i32) -> (r: String)
    ensures
        r@ == int_digits(n as int),
{
    if n >= 0 {
        u64_dec(n as u64)
    } else {
        let wide: i64 = n as i64;
        let mag: u64 = (-wide) as u64;
        assert(mag as nat == (-(n as int)) as nat);
        let mut s = String::from_str("-");
        s.append(u64_dec(mag).as_str());
        proof {
            reveal_strlit("-");
            assert(s@ =~= seq!['-'] + dec_digits((-(n as int)) as nat));
        }
        s
    }
}

/// Room name for a community: `server:` followed by the community id.
pub fn server_room(server_id: i32) -> (r: String)
    ensures
        r@ == spec_server_room(server_id as int),
{
    let mut s = String::from_str("server:");
    s.append(i32_dec(server_id).as_str());
    s
}

/// Room name for a channel: `channel:` followed by the channel id.
pub fn channel_room(channel_id: i32) -> (r: String)
    ensures
        r@ == spec_channel_room(channel_id as int),
{
    let mut s = String::from_str("channel:");
    s.append(i32_dec(channel_id).as_str());
    s
}

} // verus!

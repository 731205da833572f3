//! What the display over the game shows.

use vstd::prelude::*;
use crate::objects::Score;
use crate::text::{decimal_text, digit_char, push_decimal};

verus! {

/// The text of the score label: the collected coins in decimal digits. It is
/// written anew only when the score has changed since the last frame.
pub fn update_score_label(changed: bool, score: &Score) -> (label: Option<String>)
    ensures
        label is Some <==> changed,
        label matches Some(text) ==> text@ == decimal_text(score.current as nat),
{
    if !changed {
        return None;
    }
    let mut text = String::new();
    push_decimal(&mut text, score.current as u64);
    assert(text@ =~= decimal_text(score.current as nat));
    Some(text)
}

/// A time in whole hundredths of a second, rounded down.
pub open spec fn hundredths(time: i64) -> int {
    time as int / 10
}

/// How a time reads on the display: in seconds, cut to hundredths, with a
/// decimal point only where digits follow it and without a zero at the end
/// of those.
pub open spec fn time_text(time: i64) -> Seq<char> {
    let size = if hundredths(time) < 0 {
        -hundredths(time)
    } else {
        hundredths(time)
    };
    let sign = if hundredths(time) < 0 {
        seq!['-']
    } else {
        seq![]
    };
    let whole = decimal_text((size / 100) as nat);
    let tenth = digit_char((size % 100 / 10) as nat);
    let hundredth = digit_char((size % 10) as nat);
    if size % 100 == 0 {
        sign + whole
    } else if size % 10 == 0 {
        sign + whole + seq!['.', tenth]
    } else {
        sign + whole + seq!['.', tenth, hundredth]
    }
}

/// Writes a time, given in thousandths of a second, for the display.
pub fn time_label(time: i64) -> (label: String)
    ensures
        label@ == time_text(time),
{
    let cut: i128 = if time >= 0 {
        (time as i128) / 10
    } else {
        (time as i128 - 9) / 10
    };
    assert(cut == hundredths(time));
    let mut label = String::new();
    let size: u64 = if cut < 0 {
        proof {
            reveal_strlit("-");
        }
        label.append("-");
        (-cut) as u64
    } else {
        cut as u64
    };
    let ghost sign = label@;
    push_decimal(&mut label, size / 100);
    if size % 100 != 0 {
        proof {
            reveal_strlit(".");
        }
        label.append(".");
        let ghost dotted = label@;
        push_decimal(&mut label, size % 100 / 10);
        assert(label@ =~= dotted + seq![digit_char((size % 100 / 10) as nat)]);
        if size % 10 != 0 {
            let ghost tenths = label@;
            push_decimal(&mut label, size % 10);
            assert(label@ =~= tenths + seq![digit_char((size % 10) as nat)]);
        }
    }
    assert(label@ =~= time_text(time));
    label
}

} // verus!

//! Notification messages and the channel they are meant for.

use crate::clock::{calendar_text, time_pattern, utc_text};
use crate::metrics::Timestamp;
use vstd::prelude::*;

verus! {

/// Where notifications go.
#[derive(Debug)]
pub enum Notifier {
    /// No channel is configured: nothing is delivered.
    NoOp,
    /// Messages are posted to a webhook.
    Webhook { url: String },
}

/// One message to post: the JSON object `{"text": text}` goes to `url`.
#[derive(Debug)]
pub struct Delivery {
    pub url: String,
    pub text: String,
}

/// The decimal digit for a value below ten.
pub open spec fn digit(d: nat) -> char {
    if d == 0 {
        '0'
    } else if d == 1 {
        '1'
    } else if d == 2 {
        '2'
    } else if d == 3 {
        '3'
    } else if d == 4 {
        '4'
    } else if d == 5 {
        '5'
    } else if d == 6 {
        '6'
    } else if d == 7 {
        '7'
    } else if d == 8 {
        '8'
    } else {
        '9'
    }
}

/// A number in decimal, without leading zeros.
pub open spec fn decimal(n: nat) -> Seq<char>
    decreases n,
{
    if n < 10 {
        seq![digit(n)]
    } else {
        decimal(n / 10).push(digit(n % 10))
    }
}

/// A time in microseconds as hundredths of a second, rounded to the nearest
/// and, halfway between two, to the even one.
pub open spec fn hundredths(micros: nat) -> nat {
    let q = micros / 10000;
    let r = micros % 10000;
    if r > 5000 || (r == 5000 && q % 2 == 1) {
        q + 1
    } else {
        q
    }
}

/// A number of hundredths as a decimal fraction with two decimals.
pub open spec fn hundredths_text(h: nat) -> Seq<char> {
    decimal(h / 100) + seq!['.', digit(h % 100 / 10), digit(h % 10)]
}

/// A time in microseconds as seconds with two decimals.
pub open spec fn seconds_text(micros: nat) -> Seq<char> {
    hundredths_text(hundredths(micros))
}

/// The calendar form of an instant, or the word `unknown` where the calendar
/// has none.
pub open spec fn time_label(secs: i64) -> Seq<char> {
    match utc_text(secs, time_pattern()) {
        Some(t) => t,
        None => "unknown"@,
    }
}

/// The message about an endpoint that went down or came back up, with the
/// time already in words.
pub open spec fn notice_text(endpoint: Seq<char>, is_down: bool, time: Seq<char>, elapsed_micros: u64) -> Seq<char> {
    if is_down {
        endpoint + " is DOWN! (Time: "@ + time + ")"@
    } else {
        endpoint + " is back UP! (Time: "@ + time + ", Response Time: "@ + seconds_text(
            elapsed_micros as nat,
        ) + "s)"@
    }
}

fn digit_str(d: u64) -> (r: &'static str)
    requires
        d < 10,
    ensures
        r@ == seq![digit(d as nat)],
{
    proof {
        reveal_strlit("0");
        reveal_strlit("1");
        reveal_strlit("2");
        reveal_strlit("3");
        reveal_strlit("4");
        reveal_strlit("5");
        reveal_strlit("6");
        reveal_strlit("7");
        reveal_strlit("8");
        reveal_strlit("9");
    }
    let r = if d == 0 {
        "0"
    } else if d == 1 {
        "1"
    } else if d == 2 {
        "2"
    } else if d == 3 {
        "3"
    } else if d == 4 {
        "4"
    } else if d == 5 {
        "5"
    } else if d == 6 {
        "6"
    } else if d == 7 {
        "7"
    } else if d == 8 {
        "8"
    } else {
        "9"
    };
    assert(r@ =~= seq![digit(d as nat)]);
    r
}

/// Writes a number in decimal.
pub fn decimal_string(n: u64) -> (r: String)
    ensures
        r@ == decimal(n as nat),
    decreases n,
{
    if n < 10 {
        String::from_str(digit_str(n))
    } else {
        let mut s = decimal_string(n / 10);
        s.append(digit_str(n % 10));
        assert(s@ =~= decimal(n as nat));
        s
    }
}

/// Writes a number of hundredths with two decimals: a share in hundredths
/// of a percent as a percentage, a time in hundredths of a second as seconds.
pub fn hundredths_string(h: u64) -> (r: String)
    ensures
        r@ == hundredths_text(h as nat),
{
    let mut s = decimal_string(h / 100);
    proof {
        reveal_strlit(".");
    }
    s.append(".");
    s.append(digit_str(h % 100 / 10));
    s.append(digit_str(h % 10));
    assert(s@ =~= hundredths_text(h as nat));
    s
}

/// Writes a time in microseconds as seconds with two decimals.
pub fn seconds_string(micros: u64) -> (r: String)
    ensures
        r@ == seconds_text(micros as nat),
{
    let q: u64 = micros / 10000;
    let rest: u64 = micros % 10000;
    let h: u64 = if rest > 5000 || (rest == 5000 && q % 2 == 1) {
        q + 1
    } else {
        q
    };
    hundredths_string(h)
}

/// Composes the message about an endpoint, given the time in words.
pub fn notice(endpoint: &str, is_down: bool, time: &str, elapsed_micros: u64) -> (r: String)
    ensures
        r@ == notice_text(endpoint@, is_down, time@, elapsed_micros),
{
    let mut s = String::from_str(endpoint);
    if is_down {
        s.append(" is DOWN! (Time: ");
        s.append(time);
        s.append(")");
    } else {
        let secs = seconds_string(elapsed_micros);
        s.append(" is back UP! (Time: ");
        s.append(time);
        s.append(", Response Time: ");
        s.append(secs.as_str());
        s.append("s)");
    }
    s
}

/// Puts an instant into words for a message.
pub fn time_string(at: Timestamp) -> (r: String)
    ensures
        r@ == time_label(at.secs),
{
    match calendar_text(at.secs, "%Y-%m-%d %H:%M:%S UTC") {
        Some(t) => t,
        None => String::from_str("unknown"),
    }
}

impl Notifier {
    /// The channel's address, if there is a channel.
    pub open spec fn target(&self) -> Option<Seq<char>> {
        match self {
            Notifier::NoOp => None,
            Notifier::Webhook { url } => Some(url@),
        }
    }

    /// A notifier for an optional webhook address.
    pub fn from_target(target: Option<String>) -> (n: Notifier)
        ensures
            n.target() == crate::clock::text_view(target),
    {
        match target {
            Some(url) => Notifier::Webhook { url },
            None => Notifier::NoOp,
        }
    }

    pub fn is_configured(&self) -> (r: bool)
        ensures
            r == self.target().is_some(),
    {
        match self {
            Notifier::NoOp => false,
            Notifier::Webhook { .. } => true,
        }
    }

    /// What to deliver for an endpoint that was seen down or up at `at`:
    /// nothing without a channel, else the message for the channel.
    pub fn prepare(&self, endpoint: &str, is_down: bool, at: Timestamp, elapsed_micros: u64) -> (r:
        Option<Delivery>)
        ensures
            r.is_some() == self.target().is_some(),
            r matches Some(d) ==> Some(d.url@) == self.target() && d.text@ == notice_text(
                endpoint@,
                is_down,
                time_label(at.secs),
                elapsed_micros,
            ),
    {
        match self {
            Notifier::NoOp => None,
            Notifier::Webhook { url } => {
                let time = time_string(at);
                let text = notice(endpoint, is_down, time.as_str(), elapsed_micros);
                Some(Delivery { url: url.clone(), text })
            },
        }
    }
}

} // verus!

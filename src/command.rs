//! The rules behind the bot's commands: reading a day argument, anchoring a week on its period
//! label, and naming the buttons that open a course's details.
use crate::text::{split_on, split_text, text_eq, views};
use vstd::prelude::*;
use vstd::string::StringExecFns;

verus! {

pub open spec fn is_digit(c: char) -> bool {
    '0' <= c <= '9'
}

/// The value of a string of decimal digits.
pub open spec fn digits_value(s: Seq<char>) -> nat
    decreases s.len(),
{
    if s.len() == 0 {
        0
    } else {
        digits_value(s.drop_last()) * 10 + (s.last() as nat - '0' as nat) as nat
    }
}

/// The text with one leading `+` left out.
pub open spec fn unsigned_part(s: Seq<char>) -> Seq<char> {
    if s.len() > 0 && s[0] == '+' {
        s.drop_first()
    } else {
        s
    }
}

/// An unsigned decimal number no larger than `max`, as `str::parse` reads one: an optional
/// `+`, then one or more digits.
pub open spec fn decimal_of(s: Seq<char>, max: nat) -> Option<nat> {
    let d = unsigned_part(s);
    if d.len() > 0 && (forall|i: int| 0 <= i < d.len() ==> is_digit(#[trigger] d[i])) && digits_value(
        d,
    ) <= max {
        Some(digits_value(d))
    } else {
        None
    }
}

proof fn lemma_digits_value_grows(s: Seq<char>)
    requires
        forall|i: int| 0 <= i < s.len() ==> is_digit(#[trigger] s[i]),
    ensures
        forall|k: int| 0 <= k <= s.len() ==> digits_value(#[trigger] s.subrange(0, k)) <= digits_value(s),
    decreases s.len(),
{
    if s.len() > 0 {
        let p = s.drop_last();
        assert forall|i: int| 0 <= i < p.len() implies is_digit(#[trigger] p[i]) by {
            assert(p[i] == s[i]);
        }
        lemma_digits_value_grows(p);
        assert forall|k: int| 0 <= k <= s.len() implies digits_value(#[trigger] s.subrange(0, k))
            <= digits_value(s) by {
            if k < s.len() {
                assert(s.subrange(0, k) =~= p.subrange(0, k));
            } else {
                assert(s.subrange(0, k) =~= s);
            }
        }
    }
}

/// Reads an unsigned decimal number no larger than `max`.
pub fn parse_decimal(s: &str, max: u64) -> (r: Option<u64>)
    ensures
        match r {
            Some(v) => decimal_of(s@, max as nat) == Some(v as nat),
            None => decimal_of(s@, max as nat) is None,
        },
{
    let n = s.unicode_len();
    let mut start: usize = 0;
    if n > 0 && s.get_char(0) == '+' {
        start = 1;
    }
    let ghost d = s@.subrange(start as int, n as int);
    proof {
        if start == 1 {
            assert(d =~= s@.drop_first());
        } else {
            assert(d =~= s@);
        }
    }
    if start == n {
        assert(d.len() == 0);
        return None;
    }
    let mut value: u64 = 0;
    let mut i: usize = start;
    while i < n
        invariant
            n == s@.len(),
            start <= i <= n,
            d == s@.subrange(start as int, n as int),
            d == unsigned_part(s@),
            forall|k: int| start <= k < i ==> is_digit(#[trigger] s@[k]),
            value as nat == digits_value(s@.subrange(start as int, i as int)),
            value <= max,
        decreases n - i,
    {
        let c = s.get_char(i);
        let ghost prefix = s@.subrange(start as int, i + 1);
        assert(prefix.drop_last() =~= s@.subrange(start as int, i as int));
        if !('0' <= c && c <= '9') {
            proof {
                assert(d[i - start] == s@[i as int]);
                assert(!is_digit(d[i - start]));
            }
            return None;
        }
        let digit = (c as u32 - '0' as u32) as u64;
        assert(digits_value(prefix) == value * 10 + digit);
        if digit > max || value > (max - digit) / 10 {
            proof {
                assert(value * 10 + digit > max) by (nonlinear_arith)
                    requires
                        digit > max || value > (max - digit) / 10,
                ;
                if forall|j: int| 0 <= j < d.len() ==> is_digit(#[trigger] d[j]) {
                    lemma_digits_value_grows(d);
                    assert(d.subrange(0, i + 1 - start) =~= prefix);
                    assert(digits_value(d.subrange(0, i + 1 - start)) <= digits_value(d));
                }
            }
            return None;
        }
        proof {
            assert(value * 10 + digit <= max) by (nonlinear_arith)
                requires
                    value <= (max - digit) / 10,
                    digit <= max,
            ;
        }
        value = value * 10 + digit;
        i += 1;
    }
    assert(s@.subrange(start as int, n as int) == d);
    assert forall|k: int| 0 <= k < d.len() implies is_digit(#[trigger] d[k]) by {
        assert(d[k] == s@[start + k]);
    }
    Some(value)
}

/// What a day argument of the menu command asks for.
#[derive(Debug, PartialEq, Eq)]
pub enum DayArgument {
    /// No argument: today.
    Today,
    /// `+n`: the day `n` days from today.
    Offset(u64),
    /// Anything else: a date, `YYYY-MM-DD`, handed to the feed as it is.
    Date(String),
}

/// Reads the day argument of the menu command; `None` where a `+` is not followed by a
/// number of days.
pub fn parse_day_argument(arg: Option<&str>) -> (r: Option<DayArgument>)
    ensures
        arg is None ==> r == Some(DayArgument::Today),
        arg is Some && arg->0@.len() > 0 && arg->0@[0] == '+' ==> match decimal_of(
            arg->0@.drop_first(),
            u64::MAX as nat,
        ) {
            Some(n) => r == Some(DayArgument::Offset(n as u64)),
            None => r is None,
        },
        arg is Some && !(arg->0@.len() > 0 && arg->0@[0] == '+') ==> r is Some && r->0 is Date
            && r->0->Date_0@ == arg->0@,
{
    match arg {
        None => Some(DayArgument::Today),
        Some(a) => {
            let n = a.unicode_len();
            if n > 0 && a.get_char(0) == '+' {
                let rest = a.substring_char(1, n);
                assert(rest@ =~= a@.drop_first());
                match parse_decimal(rest, u64::MAX) {
                    Some(v) => Some(DayArgument::Offset(v)),
                    None => None,
                }
            } else {
                Some(DayArgument::Date(a.to_owned()))
            }
        },
    }
}

/// The day of the month on which a week's period label starts: the number before its first
/// `.`, as in `26.-30.8.`.
pub open spec fn period_start_of(timeperiod: Seq<char>) -> Option<nat> {
    decimal_of(split_on(timeperiod, '.')[0], u32::MAX as nat)
}

/// A month number, 1 to 12.
pub open spec fn month_of(t: Seq<char>) -> Option<nat> {
    match decimal_of(t, 12) {
        Some(m) => if m >= 1 {
            Some(m)
        } else {
            None
        },
        None => None,
    }
}

/// The month in which a week's period label starts: the number after its first `.` where that
/// is a month (as in `29.9.-3.10.`), else the month that ends the label (as in `26.-30.8.`).
/// `None` where the label names no month.
pub open spec fn period_start_month_of(timeperiod: Seq<char>) -> Option<nat> {
    let p = split_on(timeperiod, '.');
    if p.len() >= 2 && month_of(p[1]) is Some {
        month_of(p[1])
    } else if p.len() >= 3 {
        month_of(p[p.len() - 2])
    } else {
        None
    }
}

fn parse_month(t: &str) -> (r: Option<u32>)
    ensures
        match r {
            Some(m) => month_of(t@) == Some(m as nat),
            None => month_of(t@) is None,
        },
{
    match parse_decimal(t, 12) {
        Some(m) => {
            if m >= 1 {
                Some(m as u32)
            } else {
                None
            }
        },
        None => None,
    }
}

/// Reads the month in which a week's period label starts, where the label names one.
pub fn period_start_month(timeperiod: &str) -> (r: Option<u32>)
    ensures
        match r {
            Some(m) => period_start_month_of(timeperiod@) == Some(m as nat),
            None => period_start_month_of(timeperiod@) is None,
        },
{
    let pieces = split_text(timeperiod, '.');
    let k = pieces.len();
    if k < 2 {
        return None;
    }
    assert(views(pieces@)[1] == pieces@[1]@);
    assert(views(pieces@)[k - 2] == pieces@[k - 2]@);
    match parse_month(pieces[1].as_str()) {
        Some(m) => Some(m),
        None => if k >= 3 {
            parse_month(pieces[k - 2].as_str())
        } else {
            None
        },
    }
}

/// Reads the day of the month on which a week's period label starts.
pub fn period_start_day(timeperiod: &str) -> (r: Option<u32>)
    ensures
        match r {
            Some(d) => period_start_of(timeperiod@) == Some(d as nat),
            None => period_start_of(timeperiod@) is None,
        },
{
    let pieces = split_text(timeperiod, '.');
    proof {
        crate::text::lemma_split_on_nonempty(timeperiod@, '.');
        assert(views(pieces@)[0] == pieces@[0]@);
    }
    match parse_decimal(pieces[0].as_str(), u32::MAX as u64) {
        Some(v) => Some(v as u32),
        None => None,
    }
}

/// The longest button label the chat service takes.
pub const LABEL_LIMIT: usize = 80;

/// The label of a course's button: the name, or where it has 80 characters or more, its
/// first 77 followed by `...`.
pub open spec fn button_label_of(name: Seq<char>) -> Seq<char> {
    if name.len() >= LABEL_LIMIT {
        name.subrange(0, LABEL_LIMIT - 3) + "..."@
    } else {
        name
    }
}

/// The label of a course's button.
pub fn button_label(name: &str) -> (r: String)
    ensures
        r@ == button_label_of(name@),
{
    let n = name.unicode_len();
    if n >= LABEL_LIMIT {
        let head = name.substring_char(0, LABEL_LIMIT - 3);
        let mut label = head.to_owned();
        label.append("...");
        label
    } else {
        name.to_owned()
    }
}

/// The prefix of the identifier of a course's button.
pub const INFO_PREFIX: &'static str = "infoday";

/// The identifier of the button that opens the course under `key` on `day`.
pub open spec fn info_button_id_of(day: Seq<char>, key: Seq<char>) -> Seq<char> {
    INFO_PREFIX@ + "_"@ + day + "_"@ + key
}

/// The identifier of the button that opens the course under `key` on `day`.
pub fn info_button_id(day: &str, key: &str) -> (r: String)
    ensures
        r@ == info_button_id_of(day@, key@),
{
    let mut id = INFO_PREFIX.to_owned();
    id.append("_");
    id.append(day);
    id.append("_");
    id.append(key);
    id
}

/// The day and course key that a button identifier names: it starts with `infoday`, and its
/// last two `_`-separated pieces are the day and the key.
pub open spec fn info_button_target(id: Seq<char>) -> Option<(Seq<char>, Seq<char>)> {
    let pieces = split_on(id, '_');
    if id.len() >= INFO_PREFIX@.len() && id.subrange(0, INFO_PREFIX@.len() as int) == INFO_PREFIX@
        && pieces.len() >= 2 {
        Some((pieces[pieces.len() - 2], pieces[pieces.len() - 1]))
    } else {
        None
    }
}

/// Reads the day and course key from a button identifier.
pub fn parse_info_button_id(id: &str) -> (r: Option<(String, String)>)
    ensures
        match r {
            Some(t) => info_button_target(id@) == Some((t.0@, t.1@)),
            None => info_button_target(id@) is None,
        },
{
    let n = id.unicode_len();
    let p = INFO_PREFIX.unicode_len();
    if n < p || !text_eq(id.substring_char(0, p), INFO_PREFIX) {
        return None;
    }
    let mut pieces = split_text(id, '_');
    let k = pieces.len();
    if k < 2 {
        return None;
    }
    let ghost all = pieces@;
    let key = pieces.pop().unwrap();
    let day = pieces.pop().unwrap();
    assert(views(all)[k - 2] == all[k - 2]@);
    assert(views(all)[k - 1] == all[k - 1]@);
    Some((day, key))
}

/// Reading back the identifier of a course's button gives its day and key, as long as
/// neither holds a `_`.
pub proof fn lemma_info_button_round_trip(day: Seq<char>, key: Seq<char>)
    requires
        forall|i: int| 0 <= i < day.len() ==> day[i] != '_',
        forall|i: int| 0 <= i < key.len() ==> key[i] != '_',
    ensures
        info_button_target(info_button_id_of(day, key)) == Some((day, key)),
{
    reveal_strlit("infoday");
    reveal_strlit("_");
    let prefix = INFO_PREFIX@;
    assert(prefix.len() == 7);
    assert forall|i: int| 0 <= i < prefix.len() implies prefix[i] != '_' by {}
    let head = prefix.push('_') + day;
    let id = head.push('_') + key;
    assert(info_button_id_of(day, key) =~= id);
    crate::text::lemma_split_on_single(prefix, '_');
    crate::text::lemma_split_on_single(day, '_');
    crate::text::lemma_split_on_single(key, '_');
    crate::text::lemma_split_on_concat(prefix, day, '_');
    crate::text::lemma_split_on_concat(head, key, '_');
    let pieces = split_on(id, '_');
    assert(pieces =~= seq![prefix, day, key]);
    assert(id.subrange(0, 7) =~= prefix);
}

} // verus!

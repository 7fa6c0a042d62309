use crate::text::{chars_of, trigger_tag};
use vstd::prelude::*;

verus! {

/// Delay used when a trigger gives no usable duration: fifteen minutes.
pub const DEFAULT_DELAY_SECS: u64 = 900;

/// Longest delay a trigger can ask for: the largest amount, in days.
pub const MAX_DELAY_SECS: u64 = 371085174374400;

/// Where a trigger's delay came from.
#[derive(Clone, Copy, Debug, PartialEq, Eq, Structural)]
pub enum DelaySource {
    /// The text gives an amount (and maybe a unit) after the tag.
    Given,
    /// The text gives no amount: the default applies.
    Default,
    /// The text gives an amount that cannot be used (an unknown unit, or an
    /// amount too large): the default applies, and the caller should say so.
    Fallback,
}

/// Delay before a triggered deletion may run.
#[derive(Clone, Copy, Debug, PartialEq, Eq, Structural)]
pub struct TriggerDelay {
    pub seconds: u64,
    pub source: DelaySource,
}

pub open spec fn is_space(c: char) -> bool {
    c == ' ' || c == '\t' || c == '\n' || c == '\r' || c == '\x0B' || c == '\x0C'
}

pub open spec fn is_digit(c: char) -> bool {
    '0' <= c <= '9'
}

/// Letters and the underscore, which cannot directly follow an amount
/// without being read as a (bad) unit.
pub open spec fn is_word_letter(c: char) -> bool {
    ('a' <= c <= 'z') || ('A' <= c <= 'Z') || c == '_'
}

/// Seconds per unit: `s`, `m`, `h` and `d`.
pub open spec fn unit_seconds(c: char) -> Option<u64> {
    if c == 's' {
        Some(1)
    } else if c == 'm' {
        Some(60)
    } else if c == 'h' {
        Some(3600)
    } else if c == 'd' {
        Some(86400)
    } else {
        None
    }
}

pub open spec fn tag_at(t: Seq<char>, p: int) -> bool {
    0 <= p && p + 8 <= t.len() && t.subrange(p, p + 8) == trigger_tag()
}

/// First position at or after `i` where the trigger tag's text starts.
pub open spec fn tag_from(t: Seq<char>, i: int) -> Option<int>
    decreases t.len() - i,
{
    if i < 0 || i + 8 > t.len() {
        None
    } else if tag_at(t, i) {
        Some(i)
    } else {
        tag_from(t, i + 1)
    }
}

/// End of the run of spaces that starts at `i`.
pub open spec fn spaces_end(t: Seq<char>, i: int) -> int
    decreases t.len() - i,
{
    if 0 <= i < t.len() && is_space(t[i]) {
        spaces_end(t, i + 1)
    } else {
        i
    }
}

/// End of the run of digits that starts at `i`.
pub open spec fn digits_end(t: Seq<char>, i: int) -> int
    decreases t.len() - i,
{
    if 0 <= i < t.len() && is_digit(t[i]) {
        digits_end(t, i + 1)
    } else {
        i
    }
}

/// The number that decimal digits `d` write.
pub open spec fn digits_value(d: Seq<char>) -> nat
    decreases d.len(),
{
    if d.len() == 0 {
        0
    } else {
        digits_value(d.drop_last()) * 10 + ((d.last() as u32) as int - ('0' as u32) as int) as nat
    }
}

/// The delay that text `t` asks for. After the first occurrence of the
/// trigger tag may come spaces, an amount and a unit (`s`, `m`, `h`, `d`;
/// minutes when left out). No amount gives the default; an amount followed
/// by another letter, or too large for 32 bits, falls back to the default.
pub open spec fn trigger_delay(t: Seq<char>) -> (nat, DelaySource) {
    match tag_from(t, 0) {
        None => (DEFAULT_DELAY_SECS as nat, DelaySource::Default),
        Some(p) => {
            let a = p + 8;
            let b = spaces_end(t, a);
            let c = digits_end(t, b);
            if b == a || c == b {
                (DEFAULT_DELAY_SECS as nat, DelaySource::Default)
            } else if digits_value(t.subrange(b, c)) > u32::MAX {
                (DEFAULT_DELAY_SECS as nat, DelaySource::Fallback)
            } else if c < t.len() && unit_seconds(t[c]) is Some {
                ((digits_value(t.subrange(b, c)) * unit_seconds(t[c])->0) as nat, DelaySource::Given)
            } else if c < t.len() && is_word_letter(t[c]) {
                (DEFAULT_DELAY_SECS as nat, DelaySource::Fallback)
            } else {
                ((digits_value(t.subrange(b, c)) * 60) as nat, DelaySource::Given)
            }
        },
    }
}

fn tag_starts_at(t: &Vec<char>, p: usize) -> (r: bool)
    requires
        p + 8 <= t@.len(),
    ensures
        r == tag_at(t@, p as int),
{
    let n = t.len();
    assert(p + 8 <= n);
    let r = t[p] == '#' && t[p + 1] == 'c' && t[p + 2] == 'l' && t[p + 3] == 'e' && t[p + 4] == 'a'
        && t[p + 5] == 'n' && t[p + 6] == 'u' && t[p + 7] == 'p';
    if r {
        assert(t@.subrange(p as int, p + 8) =~= trigger_tag());
    } else {
        assert(t@.subrange(p as int, p + 8) != trigger_tag() || !r) by {
            if t@.subrange(p as int, p + 8) == trigger_tag() {
                assert(t@.subrange(p as int, p + 8)[0] == t@[p as int]);
                assert(t@.subrange(p as int, p + 8)[1] == t@[p + 1]);
                assert(t@.subrange(p as int, p + 8)[2] == t@[p + 2]);
                assert(t@.subrange(p as int, p + 8)[3] == t@[p + 3]);
                assert(t@.subrange(p as int, p + 8)[4] == t@[p + 4]);
                assert(t@.subrange(p as int, p + 8)[5] == t@[p + 5]);
                assert(t@.subrange(p as int, p + 8)[6] == t@[p + 6]);
                assert(t@.subrange(p as int, p + 8)[7] == t@[p + 7]);
            }
        }
    }
    r
}

fn find_tag(t: &Vec<char>) -> (r: Option<usize>)
    ensures
        match r {
            Some(p) => tag_from(t@, 0) == Some(p as int) && p + 8 <= t@.len(),
            None => tag_from(t@, 0) is None,
        },
{
    let mut i: usize = 0;
    while i < t.len() && t.len() - i >= 8
        invariant
            i <= t@.len(),
            tag_from(t@, 0) == tag_from(t@, i as int),
        decreases t.len() - i,
    {
        if tag_starts_at(t, i) {
            return Some(i);
        }
        i = i + 1;
    }
    None
}

fn skip_spaces(t: &Vec<char>, i: usize) -> (r: usize)
    requires
        i <= t@.len(),
    ensures
        r as int == spaces_end(t@, i as int),
        i <= r <= t@.len(),
{
    let mut j = i;
    while j < t.len() && (t[j] == ' ' || t[j] == '\t' || t[j] == '\n' || t[j] == '\r' || t[j] == '\x0B'
        || t[j] == '\x0C')
        invariant
            i <= j <= t@.len(),
            spaces_end(t@, i as int) == spaces_end(t@, j as int),
        decreases t.len() - j,
    {
        j = j + 1;
    }
    j
}

/// The delay that `text` asks for, in seconds.
pub fn parse_delay(text: &str) -> (r: TriggerDelay)
    ensures
        r.seconds as nat == trigger_delay(text@).0,
        r.source == trigger_delay(text@).1,
        r.seconds <= MAX_DELAY_SECS,
{
    let t = chars_of(text);
    let default = TriggerDelay { seconds: DEFAULT_DELAY_SECS, source: DelaySource::Default };
    let p = match find_tag(&t) {
        None => {
            return default;
        },
        Some(p) => p,
    };
    let n = t.len();
    assert(p + 8 <= n);
    let a = p + 8;
    let b = skip_spaces(&t, a);
    let mut c = b;
    let mut value: u64 = 0;
    let mut too_large = false;
    while c < t.len() && '0' <= t[c] && t[c] <= '9'
        invariant
            b <= c <= t@.len(),
            digits_end(t@, b as int) == digits_end(t@, c as int),
            forall|k: int| b <= k < c ==> is_digit(#[trigger] t@[k]),
            too_large ==> digits_value(t@.subrange(b as int, c as int)) > u32::MAX,
            !too_large ==> value == digits_value(t@.subrange(b as int, c as int)) && value <= u32::MAX,
        decreases t.len() - c,
    {
        let d = (t[c] as u32 - '0' as u32) as u64;
        assert(t@.subrange(b as int, c + 1).drop_last() =~= t@.subrange(b as int, c as int));
        if !too_large {
            let next = value * 10 + d;
            if next > u32::MAX as u64 {
                too_large = true;
            } else {
                value = next;
            }
        }
        c = c + 1;
    }
    if b == a || c == b {
        return default;
    }
    if too_large {
        return TriggerDelay { seconds: DEFAULT_DELAY_SECS, source: DelaySource::Fallback };
    }
    if c < t.len() {
        let u = t[c];
        let per: u64 = if u == 's' {
            1
        } else if u == 'm' {
            60
        } else if u == 'h' {
            3600
        } else if u == 'd' {
            86400
        } else {
            0
        };
        if per > 0 {
            return TriggerDelay { seconds: value * per, source: DelaySource::Given };
        }
        if ('a' <= u && u <= 'z') || ('A' <= u && u <= 'Z') || u == '_' {
            return TriggerDelay { seconds: DEFAULT_DELAY_SECS, source: DelaySource::Fallback };
        }
    }
    TriggerDelay { seconds: value * 60, source: DelaySource::Given }
}

} // verus!

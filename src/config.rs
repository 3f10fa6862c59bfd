use vstd::prelude::*;

use crate::text::{digits_value, is_digit, split_on, texts};

verus! {

/// The digits of an unsigned decimal: `s` without one optional leading `+`.
pub open spec fn unsigned_digits(s: Seq<char>) -> Seq<char> {
    if s.len() > 0 && s[0] == '+' {
        s.drop_first()
    } else {
        s
    }
}

/// The value written by `s` as an unsigned decimal: an optional `+`, then
/// one or more digits; `None` for any other text.
pub open spec fn unsigned_value(s: Seq<char>) -> Option<nat> {
    let d = unsigned_digits(s);
    if d.len() > 0 && (forall|i: int| 0 <= i < d.len() ==> is_digit(#[trigger] d[i])) {
        Some(digits_value(d))
    } else {
        None
    }
}

/// The value of `s` as an unsigned decimal, where it is one and at most `max`.
pub open spec fn bounded_value(s: Seq<char>, max: nat) -> Option<nat> {
    match unsigned_value(s) {
        Some(n) => if n <= max {
            Some(n)
        } else {
            None
        },
        None => None,
    }
}

/// Cuts a comma-separated list into its pieces, in order; the commas are dropped.
pub fn split_list(s: &str) -> (r: Vec<String>)
    ensures
        texts(r@) == split_on(s@, ','),
{
    let n = s.unicode_len();
    let mut out: Vec<String> = Vec::new();
    let mut start: usize = 0;
    let mut i: usize = 0;
    proof {
        assert(s@.take(0) =~= Seq::<char>::empty());
        assert(texts(out@).push(s@.subrange(0, 0)) =~= split_on(s@.take(0), ','));
    }
    while i < n
        invariant
            n == s@.len(),
            start <= i <= n,
            texts(out@).push(s@.subrange(start as int, i as int)) == split_on(s@.take(i as int), ','),
        decreases n - i,
    {
        let c = s.get_char(i);
        let ghost prev = split_on(s@.take(i as int), ',');
        proof {
            assert(s@.take(i + 1).drop_last() =~= s@.take(i as int));
            assert(s@.take(i + 1).last() == c);
        }
        if c == ',' {
            let piece = String::from_str(s.substring_char(start, i));
            let ghost old_texts = texts(out@);
            out.push(piece);
            assert(texts(out@) =~= old_texts.push(piece@));
            start = i + 1;
            proof {
                assert(texts(out@) =~= prev);
                assert(s@.subrange(start as int, i + 1) =~= Seq::<char>::empty());
                assert(texts(out@).push(s@.subrange(start as int, i + 1)) =~= prev.push(
                    Seq::empty(),
                ));
            }
        } else {
            proof {
                assert(s@.subrange(start as int, i + 1) =~= s@.subrange(start as int, i as int).push(c));
                assert(texts(out@).push(s@.subrange(start as int, i + 1)) =~= prev.update(
                    prev.len() - 1,
                    prev.last().push(c),
                ));
            }
        }
        i += 1;
    }
    let last = String::from_str(s.substring_char(start, n));
    let ghost before = texts(out@);
    out.push(last);
    proof {
        assert(s@.take(n as int) =~= s@);
        assert(texts(out@) =~= before.push(last@));
    }
    out
}

/// Reads `s` as an unsigned decimal no greater than `max`: an optional `+`
/// followed by one or more digits, nothing else.
pub fn parse_bounded(s: &str, max: u64) -> (r: Option<u64>)
    ensures
        r matches Some(v) ==> bounded_value(s@, max as nat) == Some(v as nat),
        r is None ==> bounded_value(s@, max as nat) is None,
{
    let n = s.unicode_len();
    let mut i: usize = 0;
    if n > 0 && s.get_char(0) == '+' {
        i = 1;
    }
    let ghost d = unsigned_digits(s@);
    proof {
        assert(d =~= s@.subrange(i as int, n as int));
    }
    if i == n {
        return None;
    }
    let mut value: u64 = 0;
    let mut too_big = false;
    let ghost first = i;
    proof {
        assert(d.take(0) =~= Seq::<char>::empty());
    }
    while i < n
        invariant
            n == s@.len(),
            first <= i <= n,
            d == s@.subrange(first as int, n as int),
            d == unsigned_digits(s@),
            forall|k: int| 0 <= k < i - first ==> is_digit(#[trigger] d[k]),
            too_big ==> digits_value(d.take(i - first)) > max,
            !too_big ==> value == digits_value(d.take(i - first)),
            value <= max,
        decreases n - i,
    {
        let c = s.get_char(i);
        if c < '0' || c > '9' {
            assert(d[i - first] == c);
            assert(!is_digit(d[i - first]));
            assert(unsigned_value(s@) is None);
            return None;
        }
        let digit = (c as u32 - '0' as u32) as u64;
        proof {
            let t = d.take(i + 1 - first);
            assert(t.drop_last() =~= d.take(i - first));
            assert(t.last() == c);
            assert(digits_value(t) == digits_value(d.take(i - first)) * 10 + digit);
        }
        if !too_big {
            if digit > max || value > (max - digit) / 10 {
                too_big = true;
                assert(value * 10 + digit > max) by (nonlinear_arith)
                    requires
                        digit > max || value > (max - digit) / 10,
                ;
            } else {
                assert(value * 10 + digit <= max) by (nonlinear_arith)
                    requires
                        value <= (max - digit) / 10,
                        digit <= max,
                ;
                value = value * 10 + digit;
            }
        } else {
            assert(digits_value(d.take(i - first)) * 10 + digit >= digits_value(
                d.take(i - first),
            )) by (nonlinear_arith);
        }
        i += 1;
    }
    proof {
        assert(d.take(i - first) =~= d);
    }
    if too_big {
        None
    } else {
        Some(value)
    }
}

/// Reads a TCP port number: an unsigned decimal up to 65535.
pub fn parse_port(s: &str) -> (r: Option<u16>)
    ensures
        r matches Some(v) ==> bounded_value(s@, 65535) == Some(v as nat),
        r is None ==> bounded_value(s@, 65535) is None,
{
    match parse_bounded(s, 65535) {
        Some(v) => Some(v as u16),
        None => None,
    }
}

/// Reads a search radius: an unsigned decimal up to 4294967295.
pub fn parse_radius(s: &str) -> (r: Option<u32>)
    ensures
        r matches Some(v) ==> bounded_value(s@, 4294967295) == Some(v as nat),
        r is None ==> bounded_value(s@, 4294967295) is None,
{
    match parse_bounded(s, 4294967295) {
        Some(v) => Some(v as u32),
        None => None,
    }
}

} // verus!

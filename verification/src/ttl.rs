//! Principal time-to-live values: `30d`, `12h`, `60m`, `3600s` or bare seconds.

use vstd::prelude::*;
use crate::number::{decimal_text, is_digit, lemma_decimal_roundtrip, lemma_u64_text_roundtrip, parse_u64, parse_u64_spec};
use crate::text::{chars_of, concat3, is_ws, sub_chars, trim_both, trim_chars, Strip};

verus! {

/// Seconds per unit of a ttl suffix.
pub open spec fn ttl_unit(c: char) -> Option<u64> {
    if c == 's' {
        Some(1)
    } else if c == 'm' {
        Some(60)
    } else if c == 'h' {
        Some(3600)
    } else if c == 'd' {
        Some(86400)
    } else {
        None
    }
}

/// What a ttl text means: the whitespace-trimmed text is a `u64` (as `str::parse` reads it)
/// followed by an optional unit; the result is that number of units in seconds, which must
/// be positive and fit in 64 bits. Each refusal carries its message.
pub open spec fn parse_ttl_spec(raw: Seq<char>) -> Result<u64, Seq<char>> {
    let s = trim_both(raw, Strip::Whitespace);
    if s.len() == 0 {
        Err("ttl must not be empty"@)
    } else if ttl_unit(s.last()) is None && !is_digit(s.last()) {
        Err("invalid ttl '"@ + raw + "': use a suffix like 30d, 12h, 60m, or 3600s"@)
    } else {
        let num = if ttl_unit(s.last()) is Some {
            s.drop_last()
        } else {
            s
        };
        let mult: u64 = match ttl_unit(s.last()) {
            Some(m) => m,
            None => 1,
        };
        match parse_u64_spec(num) {
            None => Err("invalid ttl number in '"@ + raw + "'"@),
            Some(n) => {
                if n == 0 {
                    Err("ttl must be greater than 0"@)
                } else if n * mult > u64::MAX {
                    Err("ttl '"@ + raw + "' overflows u64 seconds"@)
                } else {
                    Ok((n * mult) as u64)
                }
            },
        }
    }
}

/// The view of a result whose error is a `String`.
pub open spec fn result_view<T>(r: Result<T, String>) -> Result<T, Seq<char>> {
    match r {
        Ok(v) => Ok(v),
        Err(e) => Err(e@),
    }
}

/// Reads a principal ttl into seconds.
pub fn parse_ttl(raw: &str) -> (res: Result<u64, String>)
    ensures
        result_view(res) == parse_ttl_spec(raw@),
{
    let rv = chars_of(raw);
    let s = trim_chars(&rv, &Strip::Whitespace);
    if s.len() == 0 {
        return Err("ttl must not be empty".to_owned());
    }
    let last = s[s.len() - 1];
    let mult: u64 = if last == 's' {
        1
    } else if last == 'm' {
        60
    } else if last == 'h' {
        3600
    } else if last == 'd' {
        86400
    } else if '0' <= last && last <= '9' {
        1
    } else {
        return Err(concat3("invalid ttl '", raw, "': use a suffix like 30d, 12h, 60m, or 3600s"));
    };
    let num = if '0' <= last && last <= '9' {
        sub_chars(&s, 0, s.len())
    } else {
        sub_chars(&s, 0, s.len() - 1)
    };
    assert(s@.subrange(0, s@.len() as int) =~= s@);
    assert(s@.subrange(0, s@.len() - 1) =~= s@.drop_last());
    let n = match parse_u64(&num) {
        Some(n) => n,
        None => {
            return Err(concat3("invalid ttl number in '", raw, "'"));
        },
    };
    if n == 0 {
        return Err("ttl must be greater than 0".to_owned());
    }
    match n.checked_mul(mult) {
        Some(v) => Ok(v),
        None => Err(concat3("ttl '", raw, "' overflows u64 seconds")),
    }
}

/// An expiry timestamp for display: a number of seconds gets an `@` in front, anything
/// else is shown as it is.
pub open spec fn format_unix_secs_spec(s: Seq<char>) -> Seq<char> {
    if parse_u64_spec(s) is Some {
        seq!['@'] + s
    } else {
        s
    }
}

/// Shows an expiry timestamp (see `format_unix_secs_spec`).
pub fn format_unix_secs(s: &str) -> (r: String)
    ensures
        r@ == format_unix_secs_spec(s@),
{
    let v = chars_of(s);
    if parse_u64(&v).is_some() {
        let mut r = String::new();
        r.push('@');
        r.append(s);
        assert(r@ =~= seq!['@'] + s@);
        r
    } else {
        s.to_owned()
    }
}

/// Whitespace-free text that starts and ends with non-whitespace is its own trim.
proof fn lemma_trim_plain(s: Seq<char>)
    requires
        s.len() > 0,
        !is_ws(s[0]),
        !is_ws(s.last()),
    ensures
        trim_both(s, Strip::Whitespace) == s,
{
}

/// A positive number of units, written as digits and a unit letter (or digits alone for
/// seconds), is read as that many seconds when it fits in 64 bits.
pub proof fn lemma_ttl_of_units(n: u64, unit: Option<char>)
    requires
        n > 0,
        unit is Some ==> ttl_unit(unit->0) is Some,
        n * (match unit {
            Some(c) => ttl_unit(c)->0,
            None => 1u64,
        }) <= u64::MAX,
    ensures
        parse_ttl_spec(
            match unit {
                Some(c) => decimal_text(n as nat).push(c),
                None => decimal_text(n as nat),
            },
        ) == Ok::<u64, Seq<char>>(
            (n * (match unit {
                Some(c) => ttl_unit(c)->0,
                None => 1u64,
            })) as u64,
        ),
{
    lemma_u64_text_roundtrip(n);
    lemma_decimal_roundtrip(n as nat);
    let d = decimal_text(n as nat);
    assert(is_digit(d[0]));
    assert(is_digit(d.last())) by {
        assert(d[d.len() - 1] == d.last());
    }
    match unit {
        Some(c) => {
            let t = d.push(c);
            assert(t[0] == d[0]);
            lemma_trim_plain(t);
            assert(t.drop_last() =~= d);
        },
        None => {
            lemma_trim_plain(d);
            assert(ttl_unit(d.last()) is None);
        },
    }
}

} // verus!

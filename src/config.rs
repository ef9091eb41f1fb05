//! Configuration values, read from the environment by the caller and turned
//! into the settings that the components take.
use vstd::prelude::*;
use vstd::string::StringExecFns;

verus! {

/// The router that the bus session connects to when none is configured.
pub const DEFAULT_ZENOH_ROUTER: &'static str = "tcp/127.0.0.1:7447";

/// Whether `c` has the Unicode White_Space property, which is what
/// `char::is_whitespace` tests.
pub open spec fn white_space(c: char) -> bool {
    let u = c as u32;
    (0x9 <= u && u <= 0xd) || u == 0x20 || u == 0x85 || u == 0xa0 || u == 0x1680 || (0x2000 <= u
        && u <= 0x200a) || u == 0x2028 || u == 0x2029 || u == 0x202f || u == 0x205f || u == 0x3000
}

/// Whether `c` is whitespace, as `char::is_whitespace` says.
pub fn is_whitespace(c: char) -> (r: bool)
    ensures
        r == white_space(c),
{
    let u = c as u32;
    (0x9 <= u && u <= 0xd) || u == 0x20 || u == 0x85 || u == 0xa0 || u == 0x1680 || (0x2000 <= u
        && u <= 0x200a) || u == 0x2028 || u == 0x2029 || u == 0x202f || u == 0x205f || u == 0x3000
}

pub open spec fn trim_start(s: Seq<char>) -> Seq<char>
    decreases s.len(),
{
    if s.len() > 0 && white_space(s[0]) {
        trim_start(s.drop_first())
    } else {
        s
    }
}

pub open spec fn trim_end(s: Seq<char>) -> Seq<char>
    decreases s.len(),
{
    if s.len() > 0 && white_space(s.last()) {
        trim_end(s.drop_last())
    } else {
        s
    }
}

/// `s` without leading and trailing whitespace.
pub open spec fn trimmed(s: Seq<char>) -> Seq<char> {
    trim_end(trim_start(s))
}

/// The pieces of `s` between commas, in order; there is always at least one.
pub open spec fn comma_pieces(s: Seq<char>) -> Seq<Seq<char>>
    decreases s.len(),
{
    if s.len() == 0 {
        seq![Seq::empty()]
    } else {
        let rest = comma_pieces(s.drop_last());
        if s.last() == ',' {
            rest.push(Seq::empty())
        } else {
            rest.update(rest.len() - 1, rest.last().push(s.last()))
        }
    }
}

/// The pieces, trimmed, without those that are then empty.
pub open spec fn kept_pieces(ps: Seq<Seq<char>>) -> Seq<Seq<char>>
    decreases ps.len(),
{
    if ps.len() == 0 {
        Seq::empty()
    } else {
        let k = kept_pieces(ps.drop_last());
        let t = trimmed(ps.last());
        if t.len() > 0 {
            k.push(t)
        } else {
            k
        }
    }
}

/// The downstream targets listed in a comma-separated configuration value.
pub open spec fn targets_of(raw: Seq<char>) -> Seq<Seq<char>> {
    kept_pieces(comma_pieces(raw))
}

/// The trimmed text of `raw[start..end]`.
fn trimmed_piece(raw: &str, start: usize, end: usize) -> (r: String)
    requires
        start <= end <= raw@.len(),
    ensures
        r@ == trimmed(raw@.subrange(start as int, end as int)),
{
    let mut lo: usize = start;
    while lo < end && is_whitespace(raw.get_char(lo))
        invariant
            start <= lo <= end <= raw@.len(),
            trim_start(raw@.subrange(start as int, end as int)) == trim_start(
                raw@.subrange(lo as int, end as int),
            ),
        decreases end - lo,
    {
        assert(raw@.subrange(lo as int, end as int).drop_first() =~= raw@.subrange(
            lo + 1,
            end as int,
        ));
        lo = lo + 1;
    }
    let mut hi: usize = end;
    while hi > lo && is_whitespace(raw.get_char(hi - 1))
        invariant
            start <= lo <= hi <= end <= raw@.len(),
            trim_end(raw@.subrange(lo as int, end as int)) == trim_end(
                raw@.subrange(lo as int, hi as int),
            ),
            lo < end ==> !white_space(raw@[lo as int]),
        decreases hi - lo,
    {
        assert(raw@.subrange(lo as int, hi as int).drop_last() =~= raw@.subrange(
            lo as int,
            hi - 1,
        ));
        hi = hi - 1;
    }
    proof {
        let whole = raw@.subrange(lo as int, end as int);
        let part = raw@.subrange(lo as int, hi as int);
        assert(trim_start(whole) == whole);
        if part.len() > 0 {
            assert(part.last() == raw@[hi - 1]);
        }
        assert(trim_end(part) == part);
    }
    String::from_str(raw.substring_char(lo, hi))
}

/// Reads the downstream targets from a comma-separated list: each entry is
/// trimmed, and entries that are then empty are discarded.
pub fn downstream_services(raw: &str) -> (r: Vec<String>)
    ensures
        r@.len() == targets_of(raw@).len(),
        forall|j: int| 0 <= j < r@.len() ==> (#[trigger] r@[j])@ == targets_of(raw@)[j],
{
    let n = raw.unicode_len();
    let mut targets: Vec<String> = Vec::new();
    let mut start: usize = 0;
    let mut i: usize = 0;
    proof {
        assert(raw@.take(0) =~= Seq::<char>::empty());
    }
    while i < n
        invariant
            n == raw@.len(),
            0 <= start <= i <= n,
            comma_pieces(raw@.take(i as int)).last() == raw@.subrange(start as int, i as int),
            comma_pieces(raw@.take(i as int)).len() >= 1,
            targets@.len() == kept_pieces(comma_pieces(raw@.take(i as int)).drop_last()).len(),
            forall|j: int|
                0 <= j < targets@.len() ==> (#[trigger] targets@[j])@ == kept_pieces(
                    comma_pieces(raw@.take(i as int)).drop_last(),
                )[j],
        decreases n - i,
    {
        let c = raw.get_char(i);
        let ghost before = comma_pieces(raw@.take(i as int));
        assert(raw@.take(i + 1).drop_last() =~= raw@.take(i as int));
        assert(raw@.take(i + 1).last() == c);
        if c == ',' {
            let piece = trimmed_piece(raw, start, i);
            proof {
                let after = comma_pieces(raw@.take(i + 1));
                assert(after == before.push(Seq::empty()));
                assert(after.drop_last() =~= before);
                assert(before =~= before.drop_last().push(before.last()));
            }
            if piece.unicode_len() > 0 {
                targets.push(piece);
            }
            start = i + 1;
            proof {
                assert(raw@.subrange(start as int, i + 1) =~= Seq::<char>::empty());
            }
        } else {
            proof {
                let after = comma_pieces(raw@.take(i + 1));
                assert(after == before.update(before.len() - 1, before.last().push(c)));
                assert(after.drop_last() =~= before.drop_last());
                assert(after.last() =~= raw@.subrange(start as int, i + 1));
            }
        }
        i = i + 1;
    }
    let last = trimmed_piece(raw, start, n);
    proof {
        let ps = comma_pieces(raw@.take(n as int));
        assert(raw@.take(n as int) =~= raw@);
        assert(ps =~= ps.drop_last().push(ps.last()));
    }
    if last.unicode_len() > 0 {
        targets.push(last);
    }
    targets
}

/// The router address: the configured one, or the default.
pub fn zenoh_address(configured: Option<String>) -> (r: String)
    ensures
        r@ == match configured {
            Some(a) => a@,
            None => DEFAULT_ZENOH_ROUTER@,
        },
{
    match configured {
        Some(a) => a,
        None => String::from_str(DEFAULT_ZENOH_ROUTER),
    }
}

/// The JSON5 list of connect endpoints that holds the single router address.
pub fn connect_endpoints(address: &str) -> (r: String)
    ensures
        r@ == "[\""@ + address@ + "\"]"@,
{
    let mut s = String::from_str("[\"");
    s.append(address);
    s.append("\"]");
    s
}

/// The session start delay, in seconds, when none is configured.
pub const ZENOH_SESSION_START_DELAY_DEFAULT: u64 = 10;

pub open spec fn is_digit(c: char) -> bool {
    '0' <= c && c <= '9'
}

/// The value of a string of decimal digits.
pub open spec fn digits_value(s: Seq<char>) -> nat
    decreases s.len(),
{
    if s.len() == 0 {
        0
    } else {
        digits_value(s.drop_last()) * 10 + ((s.last() as int) - ('0' as int)) as nat
    }
}

/// What `str::parse::<u64>` reads from `s`: an optional `+`, then one or
/// more decimal digits whose value fits in 64 bits.
pub open spec fn u64_text_value(s: Seq<char>) -> Option<u64> {
    let d = unsigned_digits(s);
    if d.len() > 0 && (forall|i: int| 0 <= i < d.len() ==> is_digit(#[trigger] d[i]))
        && digits_value(d) <= u64::MAX {
        Some(digits_value(d) as u64)
    } else {
        None
    }
}

/// `s` without its leading `+`, if it has one.
pub open spec fn unsigned_digits(s: Seq<char>) -> Seq<char> {
    if s.len() > 0 && s[0] == '+' {
        s.drop_first()
    } else {
        s
    }
}

proof fn lemma_digits_value_grows(d: Seq<char>, k: int)
    requires
        0 <= k <= d.len(),
        forall|i: int| 0 <= i < d.len() ==> is_digit(#[trigger] d[i]),
    ensures
        digits_value(d.take(k)) <= digits_value(d),
    decreases d.len(),
{
    if k < d.len() {
        assert(d.drop_last().take(k) =~= d.take(k));
        lemma_digits_value_grows(d.drop_last(), k);
    } else {
        assert(d.take(k) =~= d);
    }
}

/// Reads an unsigned decimal integer as `str::parse::<u64>` does.
pub fn parse_u64(s: &str) -> (r: Option<u64>)
    ensures
        r == u64_text_value(s@),
{
    let n = s.unicode_len();
    let mut i: usize = 0;
    if n > 0 && s.get_char(0) == '+' {
        i = 1;
    }
    let start = i;
    let ghost d = unsigned_digits(s@);
    assert(d =~= s@.subrange(start as int, n as int));
    if i == n {
        return None;
    }
    let mut v: u64 = 0;
    assert(s@.subrange(start as int, start as int) =~= Seq::<char>::empty());
    while i < n
        invariant
            start <= i <= n,
            n == s@.len(),
            d == s@.subrange(start as int, n as int),
            d == unsigned_digits(s@),
            v as nat == digits_value(s@.subrange(start as int, i as int)),
            forall|j: int| start <= j < i ==> is_digit(#[trigger] s@[j]),
        decreases n - i,
    {
        let c = s.get_char(i);
        assert(s@.subrange(start as int, i + 1).drop_last() =~= s@.subrange(start as int, i as int));
        assert(d[i - start] == c);
        if !('0' <= c && c <= '9') {
            assert(!is_digit(d[i - start]));
            assert(u64_text_value(s@) is None);
            return None;
        }
        let digit: u64 = (c as u32 - '0' as u32) as u64;
        if v > (u64::MAX - digit) / 10 {
            proof {
                let vn = v as nat;
                let dn = digit as nat;
                assert(vn * 10 + dn > u64::MAX) by (nonlinear_arith)
                    requires
                        vn > (u64::MAX - dn) / 10,
                        dn <= 9,
                ;
                assert(digits_value(s@.subrange(start as int, i + 1)) == vn * 10 + dn);
                if forall|j: int| 0 <= j < d.len() ==> is_digit(#[trigger] d[j]) {
                    assert(d.take(i + 1 - start) =~= s@.subrange(start as int, i + 1));
                    lemma_digits_value_grows(d, i + 1 - start);
                }
                assert(u64_text_value(s@) is None);
            }
            return None;
        }
        v = v * 10 + digit;
        i = i + 1;
    }
    assert(forall|j: int| 0 <= j < d.len() ==> d[j] == s@[start + j]);
    assert(s@.subrange(start as int, i as int) =~= d);
    Some(v)
}

/// Why a configured start delay was refused.
#[derive(Clone, Copy, Debug, PartialEq, Eq, Structural)]
pub struct InvalidDelay;

/// The delay to wait before the catch-up query: the configured number of
/// seconds, or the default when none is configured.
pub fn session_start_delay(configured: Option<&str>) -> (r: Result<u64, InvalidDelay>)
    ensures
        match configured {
            None => r == Ok::<u64, InvalidDelay>(ZENOH_SESSION_START_DELAY_DEFAULT),
            Some(s) => match u64_text_value(s@) {
                Some(v) => r == Ok::<u64, InvalidDelay>(v),
                None => r == Err::<u64, InvalidDelay>(InvalidDelay),
            },
        },
{
    match configured {
        None => Ok(ZENOH_SESSION_START_DELAY_DEFAULT),
        Some(s) => match parse_u64(s) {
            Some(v) => Ok(v),
            None => Err(InvalidDelay),
        },
    }
}

} // verus!

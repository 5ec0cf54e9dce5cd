//! Validation of user-supplied values before they reach storage.

use vstd::prelude::*;

use vstd::utf8::encode_utf8;

use crate::calendar::{chrono_parse_ymd, opt_date, parse_ymd, Date};
use crate::text::{
    all_white_space, chars_of, decimal, has_prefix, is_blank, lowercase_chars,
    owned, push_decimal, starts_with, str_eq, to_lowercase,
};

verus! {

pub open spec fn bad_date_message(field: Seq<char>, value: Seq<char>) -> Seq<char> {
    field + " must be a valid date in YYYY-MM-DD format, got: "@ + value
}

pub open spec fn range_order_message(start: Seq<char>, end: Seq<char>) -> Seq<char> {
    "Start date ("@ + start + ") must be before or equal to end date ("@ + end + ")"@
}

pub open spec fn too_long_message(field: Seq<char>, len: nat, max: nat) -> Seq<char> {
    field + " is too long ("@ + decimal(len) + " chars, max "@ + decimal(max) + ")"@
}

pub open spec fn empty_message(field: Seq<char>) -> Seq<char> {
    field + " cannot be empty"@
}

pub open spec fn protocol_message(field: Seq<char>) -> Seq<char> {
    field + " must use http, https, rtsp, rtsps, or mock protocol"@
}

pub open spec fn internal_address_message(field: Seq<char>) -> Seq<char> {
    field + " cannot reference internal network addresses"@
}

pub open spec fn bad_action_message(action: Seq<char>) -> Seq<char> {
    "Invalid sentinel action: "@ + action
        + ". Must be one of: acknowledged, dismissed, false_positive, escalated, resolved"@
}

/// The protocols a URL may use.
pub open spec fn allowed_protocols() -> Seq<Seq<char>> {
    seq!["http://"@, "https://"@, "rtsp://"@, "rtsps://"@, "mock://"@]
}

/// `i` is the first position of `s` that holds one of `stops`, or the
/// length of `s` when none does.
pub open spec fn is_first_stop(s: Seq<char>, stops: Seq<char>, i: int) -> bool {
    &&& 0 <= i <= s.len()
    &&& forall|k: int| 0 <= k < i ==> !stops.contains(#[trigger] s[k])
    &&& i < s.len() ==> stops.contains(s[i])
}

/// The first position of `s` that holds one of `stops`, or its length.
pub open spec fn first_stop(s: Seq<char>, stops: Seq<char>) -> int {
    choose|i: int| is_first_stop(s, stops, i)
}

/// `i` is the position just after the last `@` of `s`, or 0 when `s` has none.
pub open spec fn is_after_user(s: Seq<char>, i: int) -> bool {
    &&& 0 <= i <= s.len()
    &&& i > 0 ==> s[i - 1] == '@'
    &&& forall|k: int| i <= k < s.len() ==> #[trigger] s[k] != '@'
}

/// Where the host part of an authority starts: after any `user@`.
pub open spec fn after_user(s: Seq<char>) -> int {
    choose|i: int| is_after_user(s, i)
}

/// The URL after its protocol's `://` (for a URL with an allowed protocol).
pub open spec fn url_rest(lower: Seq<char>) -> Seq<char> {
    if has_prefix(lower, "https://"@) || has_prefix(lower, "rtsps://"@) {
        lower.skip(8)
    } else {
        lower.skip(7)
    }
}

/// The authority: the text up to the first `/`, `?` or `#`.
pub open spec fn url_authority(rest: Seq<char>) -> Seq<char> {
    rest.take(first_stop(rest, seq!['/', '?', '#']))
}

/// The host of `host:port`: a bracketed IPv6 literal up to its `]`, else
/// the text before the first `:`.
pub open spec fn host_of(hp: Seq<char>) -> Seq<char> {
    if hp.len() > 0 && hp[0] == '[' {
        let j = first_stop(hp, seq![']']);
        if j < hp.len() {
            hp.take(j + 1)
        } else {
            hp
        }
    } else {
        hp.take(first_stop(hp, seq![':']))
    }
}

/// The host a (lower-cased) URL names: after `://` and any `user@`, before
/// the port, path, query or fragment.
pub open spec fn url_host(lower: Seq<char>) -> Seq<char> {
    let auth = url_authority(url_rest(lower));
    host_of(auth.skip(after_user(auth)))
}

pub open spec fn is_digit(c: char) -> bool {
    48 <= (c as u32) <= 57
}

/// The decimal value of a string of digits.
pub open spec fn digits_value(p: Seq<char>) -> int
    decreases p.len(),
{
    if p.len() == 0 {
        0
    } else {
        digits_value(p.drop_last()) * 10 + ((p.last() as u32) - 48)
    }
}

/// One to ten digits whose value is at most `max`.
pub open spec fn number(p: Seq<char>, max: int) -> Option<int> {
    if 1 <= p.len() <= 10 && (forall|i: int| 0 <= i < p.len() ==> is_digit(#[trigger] p[i]))
        && digits_value(p) <= max {
        Some(digits_value(p))
    } else {
        None
    }
}

/// The four octets of an IPv4 address written in decimal as `a.b.c.d` or in
/// one of the shorter forms `a.b.c` (the last part spans two octets), `a.b`
/// (three octets) and `a` (the whole address).
pub open spec fn ipv4(h: Seq<char>) -> Option<(int, int, int, int)> {
    let dot = seq!['.'];
    let p1 = first_stop(h, dot);
    if p1 >= h.len() {
        match number(h, 4294967295) {
            Some(v) => Some((v / 16777216, (v / 65536) % 256, (v / 256) % 256, v % 256)),
            None => None,
        }
    } else {
        let r1 = h.skip(p1 + 1);
        let p2 = first_stop(r1, dot);
        if p2 >= r1.len() {
            match (number(h.take(p1), 255), number(r1, 16777215)) {
                (Some(a), Some(v)) => Some((a, v / 65536, (v / 256) % 256, v % 256)),
                _ => None,
            }
        } else {
            let r2 = r1.skip(p2 + 1);
            let p3 = first_stop(r2, dot);
            if p3 >= r2.len() {
                match (number(h.take(p1), 255), number(r1.take(p2), 255), number(r2, 65535)) {
                    (Some(a), Some(b), Some(v)) => Some((a, b, v / 256, v % 256)),
                    _ => None,
                }
            } else {
                match (
                    number(h.take(p1), 255),
                    number(r1.take(p2), 255),
                    number(r2.take(p3), 255),
                    number(r2.skip(p3 + 1), 255),
                ) {
                    (Some(a), Some(b), Some(c), Some(d)) => Some((a, b, c, d)),
                    _ => None,
                }
            }
        }
    }
}

/// A host name without its one optional trailing dot (`localhost.` names
/// `localhost`).
pub open spec fn without_final_dot(h: Seq<char>) -> Seq<char> {
    if h.len() > 0 && h.last() == '.' {
        h.drop_last()
    } else {
        h
    }
}

/// Hosts in internal networks: localhost, the IPv6 loopback, 0.0.0.0, and
/// the IPv4 ranges 127/8, 10/8, 172.16/12, 192.168/16 and 169.254/16, in
/// any of the IPv4 spellings `ipv4` reads and with or without a trailing
/// dot.
pub open spec fn internal_host(h: Seq<char>) -> bool {
    let g = without_final_dot(h);
    ||| g == "localhost"@
    ||| g == "[::1]"@
    ||| match ipv4(g) {
        Some((a, b, c, d)) => {
            ||| a == 127
            ||| a == 10
            ||| a == 172 && 16 <= b <= 31
            ||| a == 192 && b == 168
            ||| a == 169 && b == 254
            ||| a == 0 && b == 0 && c == 0 && d == 0
        },
        None => false,
    }
}

/// The actions a supervisor may take on a Sentinel alert.
pub open spec fn sentinel_actions() -> Seq<Seq<char>> {
    seq!["acknowledged"@, "dismissed"@, "false_positive"@, "escalated"@, "resolved"@]
}

/// The length check: at most `max` bytes of UTF-8 and not only white space.
pub open spec fn length_verdict(value: Seq<char>, field: Seq<char>, max: nat) -> Result<(), Seq<char>> {
    if encode_utf8(value).len() > max {
        Err(too_long_message(field, encode_utf8(value).len(), max))
    } else if all_white_space(value) {
        Err(empty_message(field))
    } else {
        Ok(())
    }
}

/// The URL check: the length check with at most 2048 bytes, then an allowed
/// protocol and a host outside the internal networks, both judged on the
/// lower-cased text.
pub open spec fn url_verdict(value: Seq<char>, field: Seq<char>) -> Result<(), Seq<char>> {
    let lower = lowercase_chars(value);
    if length_verdict(value, field, 2048) is Err {
        length_verdict(value, field, 2048)
    } else if !(exists|i: int| 0 <= i < allowed_protocols().len() && has_prefix(lower, #[trigger] allowed_protocols()[i])) {
        Err(protocol_message(field))
    } else if internal_host(url_host(lower)) {
        Err(internal_address_message(field))
    } else {
        Ok(())
    }
}

pub open spec fn unit_verdict(r: Result<(), String>) -> Result<(), Seq<char>> {
    match r {
        Ok(_) => Ok(()),
        Err(e) => Err(e@),
    }
}

/// Parses a `YYYY-MM-DD` date, naming `field` in the error.
pub fn validate_date(value: &str, field: &str) -> (r: Result<Date, String>)
    ensures
        match r {
            Ok(d) => opt_date(chrono_parse_ymd(value@)) == Some(d) && d.valid(),
            Err(e) => chrono_parse_ymd(value@) is None && e@ == bad_date_message(field@, value@),
        },
{
    match parse_ymd(value) {
        Some(d) => Ok(d),
        None => {
            let mut msg = owned(field);
            msg.append(" must be a valid date in YYYY-MM-DD format, got: ");
            msg.append(value);
            Err(msg)
        },
    }
}

/// Checks that both dates parse and the start is not after the end.
pub fn validate_date_range(start: &str, end: &str) -> (r: Result<(), String>)
    ensures
        unit_verdict(r) == match opt_date(chrono_parse_ymd(start@)) {
            None => Err(bad_date_message("start date"@, start@)),
            Some(s) => match opt_date(chrono_parse_ymd(end@)) {
                None => Err(bad_date_message("end date"@, end@)),
                Some(e) => if s.spec_le(e) {
                    Ok(())
                } else {
                    Err(range_order_message(start@, end@))
                },
            },
        },
{
    let s = match validate_date(start, "start date") {
        Ok(d) => d,
        Err(e) => return Err(e),
    };
    let e = match validate_date(end, "end date") {
        Ok(d) => d,
        Err(err) => return Err(err),
    };
    if !s.le(&e) {
        let mut msg = owned("Start date (");
        msg.append(start);
        msg.append(") must be before or equal to end date (");
        msg.append(end);
        msg.append(")");
        return Err(msg);
    }
    Ok(())
}

/// Checks that `value` has at most `max` bytes and is not blank.
pub fn validate_length(value: &str, field: &str, max: usize) -> (r: Result<(), String>)
    requires
        encode_utf8(value@).len() <= usize::MAX,
    ensures
        unit_verdict(r) == length_verdict(value@, field@, max as nat),
{
    let len = value.len();
    if len > max {
        let mut msg = owned(field);
        msg.append(" is too long (");
        push_decimal(&mut msg, len as u64);
        msg.append(" chars, max ");
        push_decimal(&mut msg, max as u64);
        msg.append(")");
        assert(msg@ =~= too_long_message(field@, encode_utf8(value@).len(), max as nat));
        return Err(msg);
    }
    if is_blank(value) {
        let mut msg = owned(field);
        msg.append(" cannot be empty");
        assert(msg@ =~= empty_message(field@));
        return Err(msg);
    }
    Ok(())
}

fn any_prefix(s: &Vec<char>, options: &Vec<Vec<char>>) -> (r: bool)
    ensures
        r == exists|i: int| 0 <= i < options@.len() && has_prefix(s@, (#[trigger] options@[i])@),
{
    let mut i: usize = 0;
    while i < options.len()
        invariant
            i <= options@.len(),
            forall|k: int| 0 <= k < i ==> !has_prefix(s@, (#[trigger] options@[k])@),
        decreases options@.len() - i,
    {
        if starts_with(s, &options[i]) {
            return true;
        }
        i = i + 1;
    }
    false
}

fn char_lists(items: &Vec<&str>) -> (r: Vec<Vec<char>>)
    ensures
        r@.len() == items@.len(),
        forall|i: int| 0 <= i < items@.len() ==> (#[trigger] r@[i])@ == items@[i]@,
{
    let mut r: Vec<Vec<char>> = Vec::new();
    let mut i: usize = 0;
    while i < items.len()
        invariant
            i <= items@.len(),
            r@.len() == i,
            forall|k: int| 0 <= k < i ==> (#[trigger] r@[k])@ == items@[k]@,
        decreases items@.len() - i,
    {
        r.push(chars_of(items[i]));
        i = i + 1;
    }
    r
}

proof fn lemma_first_stop(s: Seq<char>, stops: Seq<char>, i: int)
    requires
        is_first_stop(s, stops, i),
    ensures
        first_stop(s, stops) == i,
{
    let j = first_stop(s, stops);
    assert(is_first_stop(s, stops, j));
    if j < i {
        assert(!stops.contains(s[j]));
    }
    if i < j {
        assert(!stops.contains(s[i]));
    }
}

proof fn lemma_after_user(s: Seq<char>, i: int)
    requires
        is_after_user(s, i),
    ensures
        after_user(s) == i,
{
    let j = after_user(s);
    assert(is_after_user(s, j));
    if j < i {
        assert(s[i - 1] != '@');
    }
    if i < j {
        assert(s[j - 1] != '@');
    }
}

fn has_char(stops: &Vec<char>, c: char) -> (r: bool)
    ensures
        r == stops@.contains(c),
{
    let mut i: usize = 0;
    while i < stops.len()
        invariant
            i <= stops@.len(),
            forall|k: int| 0 <= k < i ==> stops@[k] != c,
        decreases stops@.len() - i,
    {
        if stops[i] == c {
            assert(stops@[i as int] == c);
            return true;
        }
        i = i + 1;
    }
    false
}

/// The first position of `s` holding one of `stops`, or the length of `s`.
fn first_stop_index(s: &Vec<char>, stops: &Vec<char>) -> (r: usize)
    ensures
        r == first_stop(s@, stops@),
        r <= s@.len(),
{
    let mut i: usize = 0;
    while i < s.len()
        invariant
            i <= s@.len(),
            forall|k: int| 0 <= k < i ==> !stops@.contains(#[trigger] s@[k]),
        decreases s@.len() - i,
    {
        if has_char(stops, s[i]) {
            proof { lemma_first_stop(s@, stops@, i as int); }
            return i;
        }
        i = i + 1;
    }
    proof { lemma_first_stop(s@, stops@, i as int); }
    i
}

/// The position just after the last `@` of `s`, or 0.
fn after_user_index(s: &Vec<char>) -> (r: usize)
    ensures
        r == after_user(s@),
        r <= s@.len(),
{
    let mut r: usize = 0;
    let mut i: usize = 0;
    while i < s.len()
        invariant
            r <= i <= s@.len(),
            r > 0 ==> s@[r - 1] == '@',
            forall|k: int| r <= k < i ==> #[trigger] s@[k] != '@',
        decreases s@.len() - i,
    {
        if s[i] == '@' {
            r = i + 1;
        }
        i = i + 1;
    }
    proof { lemma_after_user(s@, r as int); }
    r
}

/// The characters of `s` from `from` up to `to`.
fn slice(s: &Vec<char>, from: usize, to: usize) -> (r: Vec<char>)
    requires
        from <= to <= s@.len(),
    ensures
        r@ == s@.subrange(from as int, to as int),
{
    let mut r: Vec<char> = Vec::new();
    let mut i: usize = from;
    while i < to
        invariant
            from <= i <= to <= s@.len(),
            r@ == s@.subrange(from as int, i as int),
        decreases to - i,
    {
        r.push(s[i]);
        i = i + 1;
        assert(r@ =~= s@.subrange(from as int, i as int));
    }
    r
}

fn same_chars(a: &Vec<char>, b: &Vec<char>) -> (r: bool)
    ensures
        r == (a@ == b@),
{
    if a.len() != b.len() {
        return false;
    }
    let r = starts_with(a, b);
    proof {
        if r {
            assert(a@.subrange(0, b@.len() as int) == b@);
            assert(a@ =~= b@);
        } else if a@ == b@ {
            assert(a@.subrange(0, b@.len() as int) =~= b@);
        }
    }
    r
}

/// The host named by a lower-cased URL with an allowed protocol.
fn url_host_exec(lower: &Vec<char>) -> (r: Vec<char>)
    requires
        exists|i: int| 0 <= i < allowed_protocols().len() && has_prefix(lower@, #[trigger] allowed_protocols()[i]),
    ensures
        r@ == url_host(lower@),
{
    proof {
        reveal_strlit("http://");
        reveal_strlit("https://");
        reveal_strlit("rtsp://");
        reveal_strlit("rtsps://");
        reveal_strlit("mock://");
        let k = choose|k: int| 0 <= k < allowed_protocols().len() && has_prefix(lower@, #[trigger] allowed_protocols()[k]);
        assert(allowed_protocols()[k].len() >= 7);
    }
    let https = chars_of("https://");
    let rtsps = chars_of("rtsps://");
    let start: usize = if starts_with(lower, &https) || starts_with(lower, &rtsps) {
        8
    } else {
        7
    };
    let rest = slice(lower, start, lower.len());
    assert(rest@ =~= url_rest(lower@));

    let path_stops = vec!['/', '?', '#'];
    assert(path_stops@ =~= seq!['/', '?', '#']);
    let a = first_stop_index(&rest, &path_stops);
    let auth = slice(&rest, 0, a);
    assert(auth@ =~= url_authority(rest@));

    let u = after_user_index(&auth);
    let hp = slice(&auth, u, auth.len());
    assert(hp@ =~= auth@.skip(u as int));

    if hp.len() > 0 && hp[0] == '[' {
        let close = vec![']'];
        assert(close@ =~= seq![']']);
        let j = first_stop_index(&hp, &close);
        if j < hp.len() {
            let h = slice(&hp, 0, j + 1);
            assert(h@ =~= hp@.take(j + 1));
            h
        } else {
            let h = slice(&hp, 0, hp.len());
            assert(h@ =~= hp@);
            h
        }
    } else {
        let colon = vec![':'];
        assert(colon@ =~= seq![':']);
        let j = first_stop_index(&hp, &colon);
        let h = slice(&hp, 0, j);
        assert(h@ =~= hp@.take(j as int));
        h
    }
}

proof fn lemma_digits_nonneg(p: Seq<char>, i: int)
    requires
        0 <= i <= p.len(),
        forall|k: int| 0 <= k < i ==> is_digit(#[trigger] p[k]),
    ensures
        digits_value(p.take(i)) >= 0,
    decreases i,
{
    if i > 0 {
        lemma_digits_nonneg(p, i - 1);
        assert(p.take(i).drop_last() =~= p.take(i - 1));
    }
}

proof fn lemma_digits_grow(p: Seq<char>, i: int, j: int)
    requires
        0 <= i <= j <= p.len(),
        forall|k: int| 0 <= k < j ==> is_digit(#[trigger] p[k]),
    ensures
        digits_value(p.take(j)) >= digits_value(p.take(i)),
    decreases j - i,
{
    if j > i {
        lemma_digits_grow(p, i, j - 1);
        lemma_digits_nonneg(p, j - 1);
        assert(p.take(j).drop_last() =~= p.take(j - 1));
    }
}

fn number_exec(p: &Vec<char>, max: u64) -> (r: Option<u64>)
    requires
        max <= 4294967295,
    ensures
        match r {
            Some(v) => number(p@, max as int) == Some(v as int),
            None => number(p@, max as int) is None,
        },
{
    if p.len() < 1 || p.len() > 10 {
        return None;
    }
    let mut v: u64 = 0;
    let mut i: usize = 0;
    while i < p.len()
        invariant
            1 <= p@.len() <= 10,
            max <= 4294967295,
            i <= p@.len(),
            v == digits_value(p@.take(i as int)),
            v <= max,
            forall|k: int| 0 <= k < i ==> is_digit(#[trigger] p@[k]),
        decreases p@.len() - i,
    {
        let c = p[i] as u32;
        if c < 48 || c > 57 {
            assert(!is_digit(p@[i as int]));
            return None;
        }
        assert(p@.take(i + 1).drop_last() =~= p@.take(i as int));
        assert(p@.take(i + 1).last() == p@[i as int]);
        let next = v * 10 + ((c - 48) as u64);
        assert(next == digits_value(p@.take(i + 1)));
        if next > max {
            proof {
                if forall|k: int| 0 <= k < p@.len() ==> is_digit(#[trigger] p@[k]) {
                    lemma_digits_grow(p@, i + 1, p@.len() as int);
                    assert(p@.take(p@.len() as int) =~= p@);
                }
            }
            return None;
        }
        v = next;
        i = i + 1;
    }
    assert(p@.take(p@.len() as int) =~= p@);
    Some(v)
}

fn ipv4_exec(h: &Vec<char>) -> (r: Option<(u64, u64, u64, u64)>)
    ensures
        match r {
            Some((a, b, c, d)) => ipv4(h@) == Some((a as int, b as int, c as int, d as int)),
            None => ipv4(h@) is None,
        },
{
    let dot = vec!['.'];
    assert(dot@ =~= seq!['.']);
    let p1 = first_stop_index(h, &dot);
    if p1 >= h.len() {
        return match number_exec(h, 4294967295) {
            Some(v) => Some((v / 16777216, (v / 65536) % 256, (v / 256) % 256, v % 256)),
            None => None,
        };
    }
    let part1 = slice(h, 0, p1);
    let r1 = slice(h, p1 + 1, h.len());
    assert(part1@ =~= h@.take(p1 as int));
    assert(r1@ =~= h@.skip(p1 + 1));
    let p2 = first_stop_index(&r1, &dot);
    if p2 >= r1.len() {
        return match (number_exec(&part1, 255), number_exec(&r1, 16777215)) {
            (Some(a), Some(v)) => Some((a, v / 65536, (v / 256) % 256, v % 256)),
            _ => None,
        };
    }
    let part2 = slice(&r1, 0, p2);
    let r2 = slice(&r1, p2 + 1, r1.len());
    assert(part2@ =~= r1@.take(p2 as int));
    assert(r2@ =~= r1@.skip(p2 + 1));
    let p3 = first_stop_index(&r2, &dot);
    if p3 >= r2.len() {
        return match (number_exec(&part1, 255), number_exec(&part2, 255), number_exec(&r2, 65535)) {
            (Some(a), Some(b), Some(v)) => Some((a, b, v / 256, v % 256)),
            _ => None,
        };
    }
    let part3 = slice(&r2, 0, p3);
    let r3 = slice(&r2, p3 + 1, r2.len());
    assert(part3@ =~= r2@.take(p3 as int));
    assert(r3@ =~= r2@.skip(p3 + 1));
    match (number_exec(&part1, 255), number_exec(&part2, 255), number_exec(&part3, 255), number_exec(&r3, 255)) {
        (Some(a), Some(b), Some(c), Some(d)) => Some((a, b, c, d)),
        _ => None,
    }
}

/// Whether a host lies in an internal network.
fn internal_host_exec(h: &Vec<char>) -> (r: bool)
    ensures
        r == internal_host(h@),
{
    let n = h.len();
    let g = if n > 0 && h[n - 1] == '.' {
        slice(h, 0, n - 1)
    } else {
        slice(h, 0, n)
    };
    assert(g@ =~= without_final_dot(h@));
    if same_chars(&g, &chars_of("localhost")) || same_chars(&g, &chars_of("[::1]")) {
        return true;
    }
    match ipv4_exec(&g) {
        Some((a, b, c, d)) => a == 127 || a == 10 || (a == 172 && 16 <= b && b <= 31) || (a == 192 && b == 168)
            || (a == 169 && b == 254) || (a == 0 && b == 0 && c == 0 && d == 0),
        None => false,
    }
}

/// Checks that a camera or service URL is reasonably sized, uses an allowed
/// protocol and does not point into an internal network.
pub fn validate_url(value: &str, field: &str) -> (r: Result<(), String>)
    requires
        encode_utf8(value@).len() <= usize::MAX,
    ensures
        unit_verdict(r) == url_verdict(value@, field@),
{
    match validate_length(value, field, 2048) {
        Ok(()) => {},
        Err(e) => return Err(e),
    }
    let lower = to_lowercase(value);
    let lower_chars = chars_of(lower.as_str());
    let protocols = char_lists(&vec!["http://", "https://", "rtsp://", "rtsps://", "mock://"]);
    assert(protocols@.len() == allowed_protocols().len());
    assert forall|i: int| 0 <= i < protocols@.len() implies (#[trigger] protocols@[i])@ == allowed_protocols()[i] by {}
    if !any_prefix(&lower_chars, &protocols) {
        proof {
            assert forall|i: int| 0 <= i < allowed_protocols().len() implies !has_prefix(lower_chars@, #[trigger] allowed_protocols()[i]) by {
                assert(protocols@[i]@ == allowed_protocols()[i]);
            }
        }
        let mut msg = owned(field);
        msg.append(" must use http, https, rtsp, rtsps, or mock protocol");
        return Err(msg);
    }
    proof {
        let k = choose|k: int| 0 <= k < protocols@.len() && has_prefix(lower_chars@, (#[trigger] protocols@[k])@);
        assert(has_prefix(lower_chars@, allowed_protocols()[k]));
    }
    let host = url_host_exec(&lower_chars);
    if internal_host_exec(&host) {
        let mut msg = owned(field);
        msg.append(" cannot reference internal network addresses");
        return Err(msg);
    }
    Ok(())
}

/// Accepts exactly the five Sentinel actions.
pub fn validate_sentinel_action(action: &str) -> (r: Result<(), String>)
    ensures
        unit_verdict(r) == if exists|i: int| 0 <= i < sentinel_actions().len() && action@ == #[trigger] sentinel_actions()[i] {
            Ok(())
        } else {
            Err(bad_action_message(action@))
        },
{
    if str_eq(action, "acknowledged") || str_eq(action, "dismissed") || str_eq(action, "false_positive")
        || str_eq(action, "escalated") || str_eq(action, "resolved") {
        proof {
            if action@ == "acknowledged"@ { assert(action@ == sentinel_actions()[0]); }
            if action@ == "dismissed"@ { assert(action@ == sentinel_actions()[1]); }
            if action@ == "false_positive"@ { assert(action@ == sentinel_actions()[2]); }
            if action@ == "escalated"@ { assert(action@ == sentinel_actions()[3]); }
            if action@ == "resolved"@ { assert(action@ == sentinel_actions()[4]); }
        }
        Ok(())
    } else {
        let mut msg = owned("Invalid sentinel action: ");
        msg.append(action);
        msg.append(". Must be one of: acknowledged, dismissed, false_positive, escalated, resolved");
        Err(msg)
    }
}

} // verus!

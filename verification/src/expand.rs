//! Expansion of the type identifiers written `TypeId(n)` in a text into the
//! texts of the types they name, as type checkers show types to users.
use vstd::prelude::*;

use crate::env::TypeEnvironment;
use crate::text::{append_lit, decimal, digit_char, type_string, type_text};
use crate::types::TypeId;

verus! {

/// Position of the first occurrence of `pat` in `s` at or after `i`.
pub open spec fn find_from(s: Seq<char>, pat: Seq<char>, i: nat) -> Option<nat>
    decreases s.len() - i,
{
    if i >= s.len() || i + pat.len() > s.len() {
        None
    } else if s.subrange(i as int, (i + pat.len()) as int) == pat {
        Some(i)
    } else {
        find_from(s, pat, i + 1)
    }
}

/// `c` is a decimal digit.
pub open spec fn is_digit(c: char) -> bool {
    '0' <= c && c <= '9'
}

/// Value of a sequence of decimal digits.
pub open spec fn digits_value(ds: Seq<char>) -> nat
    decreases ds.len(),
{
    if ds.len() == 0 {
        0
    } else {
        10 * digits_value(ds.drop_last()) + (ds.last() as nat - '0' as nat) as nat
    }
}

/// `s` without its leading `+`, if any.
pub open spec fn unsigned_part(s: Seq<char>) -> Seq<char> {
    if s.len() > 0 && s[0] == '+' {
        s.drop_first()
    } else {
        s
    }
}

/// Value of `s` read as a `usize` the way `str::parse` reads it: an optional
/// `+` then at least one decimal digit, the value not above `usize::MAX`.
pub open spec fn parse_usize(s: Seq<char>) -> Option<nat> {
    let ds = unsigned_part(s);
    if ds.len() == 0 || !(forall|i: int| 0 <= i < ds.len() ==> is_digit(#[trigger] ds[i])) {
        None
    } else if digits_value(ds) > usize::MAX {
        None
    } else {
        Some(digits_value(ds))
    }
}

/// `s` with every `TypeId(n)` that names a type of `env` replaced by the
/// expansion of the type's text, and every `TypeId(n)` that names none
/// removed; with `hash`, a `#` right after such a `TypeId(n)` of a type is
/// removed too. `None` when a `TypeId(` is closed after text that is not a
/// `usize`, or when expanding nests deeper than `depth`.
pub open spec fn expand(env: TypeEnvironment, s: Seq<char>, depth: nat, hash: bool) -> Option<
    Seq<char>,
>
    decreases depth, s.len(),
{
    if depth == 0 {
        None
    } else {
        match find_from(s, "TypeId("@, 0) {
            None => Some(s),
            Some(i) => {
                let prefix = s.subrange(0, i as int);
                let rest = s.subrange((i + 7) as int, s.len() as int);
                if i + 7 > s.len() {
                    None
                } else {
                    match find_from(rest, ")"@, 0) {
                        None => match expand(env, rest, depth, hash) {
                            Some(tail) => Some(prefix + tail),
                            None => None,
                        },
                        Some(j) => match parse_usize(rest.subrange(0, j as int)) {
                            None => None,
                            Some(n) => {
                                let (inner, skip) = match env.spec_lookup(TypeId(n as usize)) {
                                    Some(t) => (
                                        expand(env, type_text(t), (depth - 1) as nat, hash),
                                        hash && j + 1 < rest.len() && rest[(j + 1) as int] == '#',
                                    ),
                                    None => (Some(Seq::<char>::empty()), false),
                                };
                                let k: nat = if skip {
                                    j + 2
                                } else {
                                    j + 1
                                };
                                if j + 1 > rest.len() {
                                    None
                                } else {
                                    match inner {
                                        None => None,
                                        Some(x) => match expand(
                                            env,
                                            rest.subrange(k as int, rest.len() as int),
                                            depth,
                                            hash,
                                        ) {
                                            Some(tail) => Some(prefix + x + tail),
                                            None => None,
                                        },
                                    }
                                }
                            },
                        },
                    }
                }
            },
        }
    }
}

/// Expansion of `s` in `env` with enough depth, when there is one.
pub open spec fn expanded(env: TypeEnvironment, s: Seq<char>, hash: bool) -> Seq<char> {
    expand(env, s, choose|d: nat| expand(env, s, d, hash) is Some, hash).unwrap()
}

/// Expanding `s` in `env` ends without an unreadable identifier.
pub open spec fn expandable(env: TypeEnvironment, s: Seq<char>, hash: bool) -> bool {
    exists|d: nat| expand(env, s, d, hash) is Some
}

/// Whether `pat` occurs in `s` at position `i`.
fn occurs_at(s: &str, pat: &str, i: usize, n: usize, m: usize) -> (r: bool)
    requires
        n == s@.len(),
        m == pat@.len(),
        i + m <= n,
    ensures
        r == (s@.subrange(i as int, (i + m) as int) == pat@),
{
    let mut k: usize = 0;
    while k < m
        invariant
            n == s@.len(),
            m == pat@.len(),
            i + m <= n,
            k <= m,
            forall|q: int| 0 <= q < k ==> s@[i + q] == pat@[q],
        decreases m - k,
    {
        if s.get_char(i + k) != pat.get_char(k) {
            assert(s@.subrange(i as int, (i + m) as int)[k as int] != pat@[k as int]);
            return false;
        }
        k += 1;
    }
    assert(s@.subrange(i as int, (i + m) as int) =~= pat@);
    true
}

/// Position of the first occurrence of `pat` in `s` ([find_from] from 0).
fn find_str(s: &str, pat: &str) -> (r: Option<usize>)
    requires
        pat@.len() > 0,
    ensures
        match find_from(s@, pat@, 0) {
            Some(i) => r == Some(i as usize),
            None => r is None,
        },
{
    let n = s.unicode_len();
    let m = pat.unicode_len();
    let mut i: usize = 0;
    while i < n
        invariant
            n == s@.len(),
            m == pat@.len(),
            m > 0,
            i <= n,
            find_from(s@, pat@, 0) == find_from(s@, pat@, i as nat),
        decreases n - i,
    {
        if m > n - i {
            return None;
        }
        if occurs_at(s, pat, i, n, m) {
            return Some(i);
        }
        i += 1;
    }
    None
}

/// Reads `s` as a `usize` ([parse_usize]).
#[verifier::loop_isolation(false)]
fn read_usize(s: &str) -> (r: Option<usize>)
    ensures
        match parse_usize(s@) {
            Some(v) => r == Some(v as usize),
            None => r is None,
        },
{
    let n = s.unicode_len();
    let mut start: usize = 0;
    if n > 0 && s.get_char(0) == '+' {
        start = 1;
    }
    let ghost ds = unsigned_part(s@);
    assert(ds =~= s@.subrange(start as int, n as int));
    if start >= n {
        return None;
    }
    let mut value: usize = 0;
    let mut i: usize = start;
    while i < n
        invariant
            n == s@.len(),
            start <= i <= n,
            start < n,
            ds == s@.subrange(start as int, n as int),
            forall|q: int| start <= q < i ==> is_digit(#[trigger] s@[q]),
            value == digits_value(s@.subrange(start as int, i as int)),
        decreases n - i,
    {
        let c = s.get_char(i);
        if !('0' <= c && c <= '9') {
            assert(!is_digit(ds[i - start]));
            assert(!(forall|q: int| 0 <= q < ds.len() ==> is_digit(#[trigger] ds[q])));
            assert(parse_usize(s@) is None);
            return None;
        }
        let digit = (c as u32 - '0' as u32) as usize;
        let ghost pre = s@.subrange(start as int, i + 1);
        assert(pre.drop_last() =~= s@.subrange(start as int, i as int));
        assert(pre.last() == c);
        assert(pre =~= ds.subrange(0, i + 1 - start));
        match value.checked_mul(10) {
            Some(v10) => match v10.checked_add(digit) {
                Some(v) => {
                    value = v;
                },
                None => {
                    proof {
                        if forall|q: int| 0 <= q < ds.len() ==> is_digit(#[trigger] ds[q]) {
                            lemma_digits_value_grows(ds, (i + 1 - start) as nat);
                        }
                    }
                    return None;
                },
            },
            None => {
                proof {
                    if forall|q: int| 0 <= q < ds.len() ==> is_digit(#[trigger] ds[q]) {
                        lemma_digits_value_grows(ds, (i + 1 - start) as nat);
                    }
                }
                return None;
            },
        }
        i += 1;
    }
    assert forall|q: int| 0 <= q < ds.len() implies is_digit(#[trigger] ds[q]) by {
        assert(ds[q] == s@[start + q]);
    }
    assert(s@.subrange(start as int, n as int) =~= ds);
    Some(value)
}

/// The value of digits is at least the value of any of their prefixes.
proof fn lemma_digits_value_grows(ds: Seq<char>, k: nat)
    requires
        k <= ds.len(),
        forall|i: int| 0 <= i < ds.len() ==> is_digit(#[trigger] ds[i]),
    ensures
        digits_value(ds.subrange(0, k as int)) <= digits_value(ds),
    decreases ds.len(),
{
    if k < ds.len() {
        let init = ds.drop_last();
        assert(init.subrange(0, k as int) =~= ds.subrange(0, k as int));
        assert forall|i: int| 0 <= i < init.len() implies is_digit(#[trigger] init[i]) by {
            assert(init[i] == ds[i]);
        }
        lemma_digits_value_grows(init, k);
    } else {
        assert(ds.subrange(0, k as int) =~= ds);
    }
}

/// Expands the type identifiers of `s` in `env` ([expand] with `depth`).
pub(crate) fn expand_in(env: &TypeEnvironment, s: &str, Ghost(depth): Ghost<nat>, hash: bool) -> (r:
    String)
    requires
        env.wf(),
        expand(*env, s@, depth, hash) is Some,
    ensures
        r@ == expand(*env, s@, depth, hash).unwrap(),
    decreases depth, s@.len(),
{
    proof {
        reveal_strlit("TypeId(");
        reveal_strlit(")");
    }
    let n = s.unicode_len();
    match find_str(s, "TypeId(") {
        None => s.to_owned(),
        Some(i) => {
            let prefix = s.substring_char(0, i);
            let rest = s.substring_char(i + 7, n);
            let rn = rest.unicode_len();
            let mut out = prefix.to_owned();
            match find_str(rest, ")") {
                None => {
                    let tail = expand_in(env, rest, Ghost(depth), hash);
                    append_lit(&mut out, tail.as_str());
                    out
                },
                Some(j) => {
                    let v = read_usize(rest.substring_char(0, j)).unwrap();
                    let mut k = j + 1;
                    match env.lookup(TypeId(v)) {
                        Some(t) => {
                            let text = type_string(t);
                            let inner = expand_in(env, text.as_str(), Ghost((depth - 1) as nat), hash);
                            append_lit(&mut out, inner.as_str());
                            if hash && j + 1 < rn && rest.get_char(j + 1) == '#' {
                                k = j + 2;
                            }
                        },
                        None => {},
                    }
                    let tail = expand_in(env, rest.substring_char(k, rn), Ghost(depth), hash);
                    append_lit(&mut out, tail.as_str());
                    out
                },
            }
        },
    }
}

/// Expands the type identifiers of `s` in `env` ([expanded]).
pub(crate) fn expand_text(env: &TypeEnvironment, s: &str, hash: bool) -> (r: String)
    requires
        env.wf(),
        expandable(*env, s@, hash),
    ensures
        r@ == expanded(*env, s@, hash),
{
    let ghost d = choose|d: nat| expand(*env, s@, d, hash) is Some;
    expand_in(env, s, Ghost(d), hash)
}

/// A text without any `TypeId(` is expandable and shown as it is.
pub proof fn law_expand_without_ids(env: TypeEnvironment, s: Seq<char>, hash: bool)
    requires
        find_from(s, "TypeId("@, 0) is None,
    ensures
        expandable(env, s, hash),
        expanded(env, s, hash) == s,
{
    assert(expand(env, s, 1, hash) == Some(s));
    let d = choose|d: nat| expand(env, s, d, hash) is Some;
    assert(expand(env, s, d, hash) is Some);
    assert(d > 0);
}

/// The decimal text of `n` is made of digits and reads back as `n`.
pub(crate) proof fn lemma_decimal_digits(n: nat)
    ensures
        decimal(n).len() >= 1,
        forall|i: int| 0 <= i < decimal(n).len() ==> is_digit(#[trigger] decimal(n)[i]),
        digits_value(decimal(n)) == n,
    decreases n,
{
    if n < 10 {
        let d = decimal(n);
        assert(d.drop_last() =~= Seq::<char>::empty());
        assert(is_digit(digit_char(n)) && digit_char(n) as nat - '0' as nat == n);
        assert(d.last() == digit_char(n));
        assert(digits_value(d.drop_last()) == 0);
        assert(digits_value(d) == 10 * digits_value(d.drop_last()) + (d.last() as nat - '0' as nat) as nat);
    } else {
        lemma_decimal_digits(n / 10);
        let d = decimal(n);
        let q = decimal(n / 10);
        assert(d.drop_last() =~= q);
        assert(is_digit(digit_char(n % 10)) && digit_char(n % 10) as nat - '0' as nat == n % 10);
        assert forall|i: int| 0 <= i < d.len() implies is_digit(#[trigger] d[i]) by {
            if i < q.len() {
                assert(d[i] == q[i]);
            }
        }
        assert(d.last() == digit_char(n % 10));
        assert(digits_value(d) == 10 * digits_value(d.drop_last()) + (d.last() as nat - '0' as nat) as nat);
        assert(digits_value(d.drop_last()) == n / 10);
        assert(10 * (n / 10) + n % 10 == n);
    }
}

/// The first occurrence of character `c` in `s` at or after `i` is at `p`.
proof fn lemma_find_char(s: Seq<char>, c: char, i: nat, p: nat)
    requires
        i <= p < s.len(),
        s[p as int] == c,
        forall|k: int| i <= k < p ==> s[k] != c,
    ensures
        find_from(s, seq![c], i) == Some(p),
    decreases p - i,
{
    if i < p {
        assert(s.subrange(i as int, (i + 1) as int) != seq![c]) by {
            assert(s.subrange(i as int, (i + 1) as int)[0] == s[i as int]);
        }
        lemma_find_char(s, c, i + 1, p);
    } else {
        assert(s.subrange(i as int, (i + 1) as int) =~= seq![c]);
    }
}

/// An identifier written `TypeId(n)` between other text is replaced by the
/// text of its type, when that text holds no identifier itself.
pub proof fn law_expand_one_id(env: TypeEnvironment, id: TypeId, hash: bool)
    requires
        env.spec_lookup(id) is Some,
        find_from(type_text(env.spec_lookup(id).unwrap()), "TypeId("@, 0) is None,
    ensures
        ({
            let s = "<TypeId("@ + decimal(id.0 as nat) + ")>"@;
            &&& expandable(env, s, hash)
            &&& expanded(env, s, hash) == "<"@ + type_text(env.spec_lookup(id).unwrap()) + ">"@
        }),
{
    reveal_strlit("<TypeId(");
    reveal_strlit(")>");
    reveal_strlit("TypeId(");
    reveal_strlit(")");
    reveal_strlit("<");
    reveal_strlit(">");
    let dec = decimal(id.0 as nat);
    lemma_decimal_digits(id.0 as nat);
    let s = "<TypeId("@ + dec + ")>"@;
    let pat = "TypeId("@;
    let text = type_text(env.spec_lookup(id).unwrap());
    assert(s.subrange(0, 7)[0] == '<');
    assert(s.subrange(0, 7) != pat);
    assert(s.subrange(1, 8) =~= pat);
    assert(find_from(s, pat, 1) == Some(1nat));
    assert(find_from(s, pat, 0) == Some(1nat));
    let prefix = s.subrange(0, 1);
    assert(prefix =~= "<"@);
    let rest = s.subrange(8, s.len() as int);
    assert(rest =~= dec + ")>"@);
    let j = dec.len();
    assert forall|k: int| 0 <= k < j implies rest[k] != ')' by {
        assert(rest[k] == dec[k]);
        assert(is_digit(dec[k]));
    }
    lemma_find_char(rest, ')', 0, j);
    assert(")"@ =~= seq![')']);
    assert(rest.subrange(0, j as int) =~= dec);
    assert(unsigned_part(dec) == dec) by {
        assert(is_digit(dec[0]));
    }
    assert(parse_usize(dec) == Some(id.0 as nat));
    assert(TypeId((id.0 as nat) as usize) == id);
    assert(rest[(j + 1) as int] == '>');
    let tail = rest.subrange((j + 1) as int, rest.len() as int);
    assert(tail =~= ">"@);
    assert(find_from(tail, pat, 0) is None);
    assert forall|d: nat| expand(env, s, d, hash) is Some implies expand(env, s, d, hash) == Some(
        "<"@ + text + ">"@,
    ) by {
        assert(d > 1) by {
            if d == 1 {
                assert(expand(env, text, 0, hash) is None);
            }
        }
        assert(expand(env, text, (d - 1) as nat, hash) == Some(text));
        assert(expand(env, tail, d, hash) == Some(tail));
        assert(prefix + text + tail =~= "<"@ + text + ">"@);
    }
    assert(expand(env, text, 1, hash) == Some(text));
    assert(expand(env, tail, 2, hash) == Some(tail));
    assert(expand(env, s, 2, hash) is Some);
}

} // verus!

use vstd::prelude::*;
use vstd::string::*;

verus! {

/// Whether `c` is an ASCII decimal digit.
pub open spec fn is_digit(c: char) -> bool {
    '0' <= c && c <= '9'
}

/// Whether every character of `s` is an ASCII decimal digit.
pub open spec fn all_digits(s: Seq<char>) -> bool {
    forall|k: int| 0 <= k < s.len() ==> is_digit(#[trigger] s[k])
}

/// The value of a digit character.
pub open spec fn digit_value(c: char) -> nat {
    ((c as int) - ('0' as int)) as nat
}

/// The value of a string of decimal digits, most significant first.
pub open spec fn digits_value(s: Seq<char>) -> nat
    decreases s.len(),
{
    if s.len() == 0 {
        0
    } else {
        digits_value(s.drop_last()) * 10 + digit_value(s.last())
    }
}

/// What follows an optional leading `+`.
pub open spec fn strip_plus(s: Seq<char>) -> Seq<char> {
    if s.len() > 0 && s[0] == '+' {
        s.drop_first()
    } else {
        s
    }
}

/// How std reads an unsigned integer of at most `max` from `s`: an optional
/// `+`, then one or more decimal digits whose value does not exceed `max`.
pub open spec fn unsigned_value(s: Seq<char>, max: nat) -> Option<nat> {
    let d = strip_plus(s);
    if d.len() > 0 && all_digits(d) && digits_value(d) <= max {
        Some(digits_value(d))
    } else {
        None
    }
}

/// A string of digits is worth at least as much as any of its prefixes.
pub proof fn lemma_prefix_value_le(s: Seq<char>, k: int)
    requires
        all_digits(s),
        0 <= k <= s.len(),
    ensures
        digits_value(s.take(k)) <= digits_value(s),
    decreases s.len(),
{
    if k < s.len() {
        let t = s.drop_last();
        assert(s.take(k) =~= t.take(k));
        lemma_prefix_value_le(t, k);
    } else {
        assert(s.take(k) =~= s);
    }
}

/// Character-by-character equality of two strings.
pub fn str_eq(a: &str, b: &str) -> (r: bool)
    ensures
        r == (a@ == b@),
{
    let n = a.unicode_len();
    if n != b.unicode_len() {
        return false;
    }
    let mut i: usize = 0;
    while i < n
        invariant
            n == a@.len(),
            n == b@.len(),
            0 <= i <= n,
            forall|j: int| 0 <= j < i ==> a@[j] == b@[j],
        decreases n - i,
    {
        if a.get_char(i) != b.get_char(i) {
            return false;
        }
        i += 1;
    }
    assert(a@ =~= b@);
    true
}

/// Reads an unsigned integer of at most `max` from `raw`, with the grammar
/// that std's `FromStr` for unsigned integers accepts.
pub fn parse_unsigned(raw: &str, max: u64) -> (r: Option<u64>)
    ensures
        match unsigned_value(raw@, max as nat) {
            Some(v) => r == Some(v as u64),
            None => r is None,
        },
{
    let len = raw.unicode_len();
    let mut i: usize = 0;
    if len > 0 && raw.get_char(0) == '+' {
        i = 1;
    }
    let start = i;
    let ghost d = strip_plus(raw@);
    assert(d =~= raw@.skip(start as int));
    if start == len {
        return None;
    }
    let mut acc: u64 = 0;
    while i < len
        invariant
            len == raw@.len(),
            start <= i <= len,
            start < len,
            d =~= raw@.skip(start as int),
            d == strip_plus(raw@),
            all_digits(d.take(i - start)),
            acc as nat == digits_value(d.take(i - start)),
            acc <= max,
        decreases len - i,
    {
        let c = raw.get_char(i);
        assert(c == d[i - start]);
        if c < '0' || c > '9' {
            assert(!all_digits(d));
            return None;
        }
        let dv: u64 = (c as u64) - 48;
        let ghost k = i - start;
        assert(d.take(k + 1).drop_last() =~= d.take(k));
        assert(digits_value(d.take(k + 1)) == acc * 10 + dv);
        let next = match acc.checked_mul(10) {
            Some(m) => m.checked_add(dv),
            None => None,
        };
        match next {
            Some(v) if v <= max => {
                acc = v;
                i += 1;
                assert forall|j: int| 0 <= j < k + 1 implies is_digit(#[trigger] d.take(k + 1)[j]) by {
                    if j < k {
                        assert(d.take(k + 1)[j] == d.take(k)[j]);
                    }
                }
            },
            _ => {
                proof {
                    if all_digits(d) {
                        lemma_prefix_value_le(d, k + 1);
                    }
                }
                return None;
            },
        }
    }
    assert(d.take(len - start) =~= d);
    Some(acc)
}


/// The character of a decimal digit `d < 10`.
pub open spec fn digit_char(d: nat) -> char {
    (('0' as int) + d) as char
}

/// The shortest decimal rendering of `n`, as `to_string` writes it.
pub open spec fn decimal(n: nat) -> Seq<char>
    decreases n,
{
    if n < 10 {
        seq![digit_char(n)]
    } else {
        decimal(n / 10).push(digit_char(n % 10))
    }
}

/// The decimal rendering of `n` is a non-empty string of digits worth `n`.
pub proof fn lemma_decimal(n: nat)
    ensures
        decimal(n).len() > 0,
        all_digits(decimal(n)),
        digits_value(decimal(n)) == n,
        strip_plus(decimal(n)) == decimal(n),
    decreases n,
{
    if n < 10 {
        assert(digit_value(digit_char(n)) == n);
        assert(decimal(n).drop_last() =~= Seq::<char>::empty());
        assert(digits_value(Seq::<char>::empty()) == 0);
        assert(digits_value(decimal(n)) == n);
    } else {
        lemma_decimal(n / 10);
        let s = decimal(n);
        assert(s.drop_last() =~= decimal(n / 10));
        assert(digit_value(digit_char(n % 10)) == n % 10);
        assert forall|k: int| 0 <= k < s.len() implies is_digit(#[trigger] s[k]) by {
            if k < s.len() - 1 {
                assert(s[k] == decimal(n / 10)[k]);
            }
        }
        assert(s[0] == decimal(n / 10)[0]);
        assert(s.last() == digit_char(n % 10));
        assert(digits_value(s) == digits_value(decimal(n / 10)) * 10 + n % 10);
    }
}

/// Reading back the decimal rendering of a number no greater than `max`
/// gives the number.
pub proof fn lemma_unsigned_value_of_decimal(n: nat, max: nat)
    requires
        n <= max,
    ensures
        unsigned_value(decimal(n), max) == Some(n),
{
    lemma_decimal(n);
}


/// The parts joined with `sep` between each two neighbours.
pub open spec fn joined(parts: Seq<Seq<char>>, sep: Seq<char>) -> Seq<char>
    decreases parts.len(),
{
    if parts.len() == 0 {
        Seq::empty()
    } else if parts.len() == 1 {
        parts[0]
    } else {
        joined(parts.drop_last(), sep) + sep + parts.last()
    }
}

/// The characters of each string of `parts`.
pub open spec fn str_views(parts: Seq<&str>) -> Seq<Seq<char>> {
    parts.map_values(|p: &str| p@)
}

/// Joins `parts` with `sep` between each two neighbours.
pub fn join(parts: &[&str], sep: &str) -> (r: String)
    ensures
        r@ == joined(str_views(parts@), sep@),
{
    let ghost views = str_views(parts@);
    let mut out = String::new();
    let mut i: usize = 0;
    while i < parts.len()
        invariant
            views == str_views(parts@),
            views.len() == parts@.len(),
            0 <= i <= parts.len(),
            out@ == joined(views.take(i as int), sep@),
        decreases parts.len() - i,
    {
        let part: &str = parts[i];
        assert(views.take(i + 1).drop_last() =~= views.take(i as int));
        assert(views.take(i + 1).last() == part@);
        if i > 0 {
            out.append(sep);
        } else {
            assert(views.take(1) =~= seq![part@]);
        }
        out.append(part);
        i += 1;
    }
    assert(views.take(parts.len() as int) =~= views);
    out
}


/// What the number grammar accepts: a string it reads is an optional `+`
/// followed by one or more decimal digits, and it reads them as a decimal
/// number, most significant digit first; leading zeros change nothing.
pub proof fn lemma_unsigned_value_shape(s: Seq<char>, max: nat)
    ensures
        unsigned_value(s, max) matches Some(v) ==> {
            &&& v <= max
            &&& forall|k: int| 0 <= k < s.len() ==> is_digit(#[trigger] s[k]) || (k == 0 && s[k] == '+')
            &&& exists|k: int| 0 <= k < s.len() && is_digit(#[trigger] s[k])
        },
        s.len() > 0 && !is_digit(s[0]) && s[0] != '+' ==> unsigned_value(s, max) is None,
        unsigned_value(seq!['+'] + s, max) == (if s.len() > 0 && s[0] == '+' { None } else { unsigned_value(s, max) }),
        all_digits(s) && s.len() > 0 ==> unsigned_value(seq!['0'] + s, max) == unsigned_value(s, max),
{
    let d = strip_plus(s);
    if unsigned_value(s, max) is Some {
        if s.len() > 0 && s[0] == '+' {
            assert forall|k: int| 0 <= k < s.len() implies is_digit(#[trigger] s[k]) || (k == 0 && s[k] == '+') by {
                if k > 0 {
                    assert(s[k] == d[k - 1]);
                }
            }
            assert(is_digit(s[1]) && s[1] == d[0]);
        } else {
            assert(is_digit(s[0]) && s[0] == d[0]);
        }
    }
    let ps = seq!['+'] + s;
    assert(ps.drop_first() =~= s);
    if s.len() > 0 && s[0] == '+' {
        assert(!is_digit(s[0]));
    }
    if all_digits(s) && s.len() > 0 {
        let zs = seq!['0'] + s;
        assert(strip_plus(zs) == zs);
        assert(strip_plus(s) == s);
        assert(all_digits(zs)) by {
            assert forall|k: int| 0 <= k < zs.len() implies is_digit(#[trigger] zs[k]) by {
                if k > 0 {
                    assert(zs[k] == s[k - 1]);
                }
            }
        }
        lemma_leading_zero(s);
    }
}

/// A leading zero does not change the value of a string of digits.
proof fn lemma_leading_zero(s: Seq<char>)
    ensures
        digits_value(seq!['0'] + s) == digits_value(s),
    decreases s.len(),
{
    let zs = seq!['0'] + s;
    if s.len() == 0 {
        assert(zs.drop_last() =~= Seq::<char>::empty());
        assert(digits_value(Seq::<char>::empty()) == 0);
        assert(digit_value('0') == 0);
    } else {
        assert(zs.drop_last() =~= seq!['0'] + s.drop_last());
        assert(zs.last() == s.last());
        lemma_leading_zero(s.drop_last());
    }
}

} // verus!

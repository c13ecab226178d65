//! Character-sequence searches used by the URL handshake.

use vstd::prelude::*;

verus! {

/// `i` is the first position of `s` holding a character of `cs`.
pub open spec fn is_first_of_any(s: Seq<char>, cs: Seq<char>, i: int) -> bool {
    &&& 0 <= i < s.len()
    &&& cs.contains(s[i])
    &&& forall|j: int| 0 <= j < i ==> !cs.contains(#[trigger] s[j])
}

/// The first position of `s` holding a character of `cs`, if any.
pub open spec fn first_of_any(s: Seq<char>, cs: Seq<char>) -> Option<int> {
    if exists|i: int| #[trigger] is_first_of_any(s, cs, i) {
        Some(choose|i: int| #[trigger] is_first_of_any(s, cs, i))
    } else {
        None
    }
}

/// The first position of `c` in `s`, if any.
pub open spec fn first_index(s: Seq<char>, c: char) -> Option<int> {
    first_of_any(s, seq![c])
}

/// `i` is the last position of `c` in `s`.
pub open spec fn is_last_index(s: Seq<char>, c: char, i: int) -> bool {
    &&& 0 <= i < s.len()
    &&& s[i] == c
    &&& forall|j: int| i < j < s.len() ==> #[trigger] s[j] != c
}

/// The last position of `c` in `s`, if any.
pub open spec fn last_index(s: Seq<char>, c: char) -> Option<int> {
    if exists|i: int| #[trigger] is_last_index(s, c, i) {
        Some(choose|i: int| #[trigger] is_last_index(s, c, i))
    } else {
        None
    }
}

/// `s` holds no character of `cs`.
pub open spec fn holds_none_of(s: Seq<char>, cs: Seq<char>) -> bool {
    forall|j: int| 0 <= j < s.len() ==> !cs.contains(#[trigger] s[j])
}

/// The first position holding a character of `cs` is the one that
/// `is_first_of_any` describes.
pub proof fn lemma_first_of_any_at(s: Seq<char>, cs: Seq<char>, i: int)
    requires
        is_first_of_any(s, cs, i),
    ensures
        first_of_any(s, cs) == Some(i),
{
    let j = choose|j: int| #[trigger] is_first_of_any(s, cs, j);
    assert(is_first_of_any(s, cs, j));
    if j < i {
        assert(!cs.contains(s[j]));
    } else if i < j {
        assert(!cs.contains(s[i]));
    }
}

/// A text holding no character of `cs` has no first position of one.
pub proof fn lemma_first_of_any_none(s: Seq<char>, cs: Seq<char>)
    requires
        holds_none_of(s, cs),
    ensures
        first_of_any(s, cs) is None,
{
    if exists|i: int| #[trigger] is_first_of_any(s, cs, i) {
        let i = choose|i: int| #[trigger] is_first_of_any(s, cs, i);
        assert(!cs.contains(s[i]));
    }
}

/// The position of the first character of `cs` in `s[..]`, searching from the front.
pub fn find_first_of(s: &[char], cs: &[char]) -> (r: Option<usize>)
    ensures
        match r {
            Some(i) => first_of_any(s@, cs@) == Some(i as int) && is_first_of_any(s@, cs@, i as int),
            None => first_of_any(s@, cs@) is None && holds_none_of(s@, cs@),
        },
{
    let mut i: usize = 0;
    while i < s.len()
        invariant
            i <= s@.len(),
            forall|j: int| 0 <= j < i ==> !cs@.contains(#[trigger] s@[j]),
        decreases s@.len() - i,
    {
        let c = s[i];
        let mut k: usize = 0;
        while k < cs.len()
            invariant
                k <= cs@.len(),
                i < s@.len(),
                c == s@[i as int],
                forall|j: int| 0 <= j < i ==> !cs@.contains(#[trigger] s@[j]),
                forall|m: int| 0 <= m < k ==> cs@[m] != c,
            decreases cs@.len() - k,
        {
            if cs[k] == c {
                assert(cs@[k as int] == c);
                assert(is_first_of_any(s@, cs@, i as int));
                return Some(i);
            }
            k = k + 1;
        }
        assert(!cs@.contains(c));
        i = i + 1;
    }
    assert forall|i: int| !is_first_of_any(s@, cs@, i) by {}
    None
}

/// The position of the last `c` in `s`.
pub fn find_last(s: &[char], c: char) -> (r: Option<usize>)
    ensures
        match r {
            Some(i) => last_index(s@, c) == Some(i as int) && is_last_index(s@, c, i as int),
            None => last_index(s@, c) is None && forall|j: int| 0 <= j < s@.len() ==> s@[j] != c,
        },
{
    let mut i: usize = s.len();
    while i > 0
        invariant
            i <= s@.len(),
            forall|j: int| i <= j < s@.len() ==> #[trigger] s@[j] != c,
        decreases i,
    {
        i = i - 1;
        if s[i] == c {
            assert(is_last_index(s@, c, i as int));
            return Some(i);
        }
    }
    assert forall|i: int| !is_last_index(s@, c, i) by {}
    None
}

/// `prefix` is a prefix of `s`.
pub fn starts_with(s: &[char], prefix: &[char]) -> (r: bool)
    ensures
        r == prefix@.is_prefix_of(s@),
{
    if prefix.len() > s.len() {
        return false;
    }
    let mut i: usize = 0;
    while i < prefix.len()
        invariant
            i <= prefix@.len() <= s@.len(),
            forall|j: int| 0 <= j < i ==> prefix@[j] == s@[j],
        decreases prefix@.len() - i,
    {
        if prefix[i] != s[i] {
            return false;
        }
        i = i + 1;
    }
    true
}

/// A copy of `s[start..end]`.
pub fn sub_chars(s: &[char], start: usize, end: usize) -> (r: Vec<char>)
    requires
        start <= end <= s@.len(),
    ensures
        r@ == s@.subrange(start as int, end as int),
{
    let mut r: Vec<char> = Vec::new();
    let mut i: usize = start;
    while i < end
        invariant
            start <= i <= end <= s@.len(),
            r@ == s@.subrange(start as int, i as int),
        decreases end - i,
    {
        r.push(s[i]);
        i = i + 1;
        assert(r@ =~= s@.subrange(start as int, i as int));
    }
    r
}

/// `c` is an ASCII decimal digit.
pub open spec fn is_digit(c: char) -> bool {
    '0' <= c <= '9'
}

/// The number the decimal digits `d` spell.
pub open spec fn digits_value(d: Seq<char>) -> nat
    decreases d.len(),
{
    if d.len() == 0 {
        0
    } else {
        digits_value(d.drop_last()) * 10 + ((d.last() as u32) - ('0' as u32)) as nat
    }
}

/// The digits of a `u16` text: the text without a leading `+`.
pub open spec fn u16_digits(s: Seq<char>) -> Seq<char> {
    if s.len() > 0 && s[0] == '+' {
        s.drop_first()
    } else {
        s
    }
}

/// `s` is text that `str::parse::<u16>` accepts: an optional `+`, then one or
/// more ASCII digits whose value is at most 65535.
pub open spec fn parses_as_u16(s: Seq<char>) -> bool {
    let d = u16_digits(s);
    &&& d.len() > 0
    &&& forall|i: int| 0 <= i < d.len() ==> is_digit(#[trigger] d[i])
    &&& digits_value(d) <= 65535
}

/// Whether `s` is a decimal `u16` as `str::parse::<u16>` reads one.
pub fn is_u16_text(s: &[char]) -> (r: bool)
    ensures
        r == parses_as_u16(s@),
{
    let start: usize = if s.len() > 0 && s[0] == '+' {
        1
    } else {
        0
    };
    let ghost d = u16_digits(s@);
    assert(d =~= s@.subrange(start as int, s@.len() as int));
    if start == s.len() {
        return false;
    }
    let mut value: u32 = 0;
    let mut i: usize = start;
    while i < s.len()
        invariant
            start <= i <= s@.len(),
            d == s@.subrange(start as int, s@.len() as int),
            d == u16_digits(s@),
            forall|j: int| start <= j < i ==> is_digit(#[trigger] s@[j]),
            value as nat == if digits_value(d.take(i - start)) < 65536 {
                digits_value(d.take(i - start))
            } else {
                65536
            },
        decreases s@.len() - i,
    {
        let c = s[i];
        if !('0' <= c && c <= '9') {
            assert(d[i - start] == s@[i as int]);
            assert(!is_digit(d[i - start]));
            return false;
        }
        let digit = (c as u32) - ('0' as u32);
        let ghost before = digits_value(d.take(i - start));
        assert(d.take(i - start + 1).drop_last() =~= d.take(i - start));
        assert(digits_value(d.take(i - start + 1)) == before * 10 + digit);
        value = if value >= 65536 {
            65536
        } else {
            let v = value * 10 + digit;
            if v > 65536 {
                65536
            } else {
                v
            }
        };
        proof {
            if before >= 65536 {
                assert(before * 10 + digit >= 65536) by (nonlinear_arith)
                    requires
                        before >= 65536,
                ;
            }
        }
        i = i + 1;
    }
    assert(d.take(s@.len() - start) =~= d);
    value <= 65535
}

/// One part of a dotted-quad IPv4 address: one to three decimal digits
/// worth at most 255, without a leading zero unless the part is `0`.
pub open spec fn is_octet(s: Seq<char>) -> bool {
    &&& 1 <= s.len() <= 3
    &&& forall|i: int| 0 <= i < s.len() ==> is_digit(#[trigger] s[i])
    &&& digits_value(s) <= 255
    &&& (s.len() > 1 ==> s[0] != '0')
}

/// `s` is `n` octets separated by dots.
pub open spec fn dotted_octets(s: Seq<char>, n: nat) -> bool
    decreases n,
{
    if n <= 1 {
        n == 1 && is_octet(s)
    } else {
        match first_index(s, '.') {
            Some(i) => is_octet(s.take(i)) && dotted_octets(s.skip(i + 1), (n - 1) as nat),
            None => false,
        }
    }
}

/// `s` is an IPv4 address in dotted-quad form, such as `192.168.1.100`.
pub open spec fn is_ipv4(s: Seq<char>) -> bool {
    dotted_octets(s, 4)
}

/// Whether `s` is an octet (see `is_octet`).
pub fn is_octet_text(s: &[char]) -> (r: bool)
    ensures
        r == is_octet(s@),
{
    if s.len() < 1 || s.len() > 3 {
        return false;
    }
    if s.len() > 1 && s[0] == '0' {
        return false;
    }
    let mut value: u32 = 0;
    let mut i: usize = 0;
    while i < s.len()
        invariant
            i <= s@.len() <= 3,
            forall|j: int| 0 <= j < i ==> is_digit(#[trigger] s@[j]),
            value as nat == digits_value(s@.take(i as int)),
            value < (if i == 0 { 1u32 } else if i == 1 { 10u32 } else if i == 2 { 100u32 } else { 1000u32 }),
        decreases s@.len() - i,
    {
        let c = s[i];
        if !('0' <= c && c <= '9') {
            return false;
        }
        let digit = (c as u32) - ('0' as u32);
        assert(s@.take(i + 1).drop_last() =~= s@.take(i as int));
        if i == 0 {
            assert(s@.take(0) =~= Seq::<char>::empty());
        }
        value = value * 10 + digit;
        i = i + 1;
    }
    assert(s@.take(s@.len() as int) =~= s@);
    value <= 255
}

/// Whether `s` is `n` octets separated by dots (see `dotted_octets`).
pub fn is_dotted_octets(s: &[char], n: usize) -> (r: bool)
    ensures
        r == dotted_octets(s@, n as nat),
    decreases n,
{
    if n <= 1 {
        return n == 1 && is_octet_text(s);
    }
    let dot = vec!['.'];
    assert(dot@ =~= seq!['.']);
    let dots = dot.as_slice();
    let len = s.len();
    assert(dots@ =~= seq!['.']);
    match find_first_of(s, dots) {
        Some(i) => {
            assert(is_first_of_any(s@, dots@, i as int));
            assert(i < len);
            let head = sub_chars(s, 0, i);
            let tail = sub_chars(s, i + 1, len);
            assert(head@ =~= s@.take(i as int));
            assert(tail@ =~= s@.skip(i + 1));
            is_octet_text(head.as_slice()) && is_dotted_octets(tail.as_slice(), n - 1)
        },
        None => false,
    }
}

} // verus!

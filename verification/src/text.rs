//! Decimal numerals and character sequences: the textual building blocks of
//! neuron names, URLs and file names.

use vstd::prelude::*;

verus! {

/// Whether `c` is one of the ASCII digits `0`..`9`.
pub open spec fn is_digit(c: char) -> bool {
    '0' <= c && c <= '9'
}

/// The value of the ASCII digit `c`.
pub open spec fn digit_value(c: char) -> nat {
    (c as u32 - '0' as u32) as nat
}

/// The character of the decimal digit `d` (`d < 10`).
pub open spec fn digit_char(d: nat) -> char {
    (d + '0' as u32) as char
}

/// Every character of `s` is an ASCII digit.
pub open spec fn all_digits(s: Seq<char>) -> bool {
    forall|i: int| 0 <= i < s.len() ==> #[trigger] is_digit(s[i])
}

/// The value of a (possibly zero-padded) string of decimal digits.
pub open spec fn digits_value(s: Seq<char>) -> nat
    decreases s.len(),
{
    if s.len() == 0 {
        0
    } else {
        digits_value(s.drop_last()) * 10 + digit_value(s.last())
    }
}

/// The shortest decimal numeral of `n`.
pub open spec fn decimal(n: nat) -> Seq<char>
    decreases n,
{
    if n < 10 {
        seq![digit_char(n)]
    } else {
        decimal(n / 10).push(digit_char(n % 10))
    }
}

/// The digits that an unsigned numeral consists of: the text without one
/// leading `+`.
pub open spec fn unsigned_digits(s: Seq<char>) -> Seq<char> {
    if s.len() > 0 && s[0] == '+' {
        s.drop_first()
    } else {
        s
    }
}

/// What parsing `s` as an unsigned decimal number that must not exceed
/// `limit` gives: the text is an optional `+` and then at least one digit.
pub open spec fn parse_unsigned(s: Seq<char>, limit: nat) -> Option<nat> {
    let d = unsigned_digits(s);
    if d.len() > 0 && all_digits(d) && digits_value(d) <= limit {
        Some(digits_value(d))
    } else {
        None
    }
}

/// What `str::parse::<u32>` gives for `s`.
pub open spec fn parse_u32_spec(s: Seq<char>) -> Option<u32> {
    match parse_unsigned(s, u32::MAX as nat) {
        Some(v) => Some(v as u32),
        None => None,
    }
}

/// What `str::parse::<usize>` gives for `s`.
pub open spec fn parse_usize_spec(s: Seq<char>) -> Option<usize> {
    match parse_unsigned(s, usize::MAX as nat) {
        Some(v) => Some(v as usize),
        None => None,
    }
}

/// The value of a digit string does not decrease when digits are appended.
pub proof fn lemma_digits_value_prefix(s: Seq<char>, i: int)
    requires
        0 <= i <= s.len(),
    ensures
        digits_value(s.take(i)) <= digits_value(s),
    decreases s.len() - i,
{
    if i < s.len() {
        lemma_digits_value_prefix(s, i + 1);
        assert(s.take(i + 1).drop_last() =~= s.take(i));
    } else {
        assert(s.take(i) =~= s);
    }
}

/// The digit characters are the ASCII digits, and each has its own value.
pub proof fn lemma_digit_char(d: nat)
    requires
        d < 10,
    ensures
        is_digit(digit_char(d)),
        digit_value(digit_char(d)) == d,
        digit_char(d) != '+',
{
    assert('0' as u32 == 48);
    assert(digit_char(d) as u32 == d + 48);
}

/// A decimal numeral is a non-empty string of digits whose value is the number.
pub proof fn lemma_decimal_digits(n: nat)
    ensures
        decimal(n).len() > 0,
        all_digits(decimal(n)),
        digits_value(decimal(n)) == n,
        decimal(n)[0] != '+',
    decreases n,
{
    if n < 10 {
        lemma_digit_char(n);
        assert(decimal(n).drop_last() =~= Seq::<char>::empty());
        assert(digits_value(Seq::<char>::empty()) == 0);
    } else {
        lemma_digit_char(n % 10);
        lemma_decimal_digits(n / 10);
        assert(decimal(n).drop_last() =~= decimal(n / 10));
        assert(decimal(n).last() == digit_char(n % 10));
        assert(digits_value(decimal(n)) == digits_value(decimal(n / 10)) * 10 + digit_value(
            digit_char(n % 10),
        ));
        assert(decimal(n)[0] == decimal(n / 10)[0]);
    }
}

/// A decimal numeral parses back to its number.
pub proof fn lemma_parse_decimal(n: nat, limit: nat)
    requires
        n <= limit,
    ensures
        parse_unsigned(decimal(n), limit) == Some(n),
{
    lemma_decimal_digits(n);
}

/// The characters of `s`, in order.
pub fn chars_of(s: &str) -> (r: Vec<char>)
    ensures
        r@ == s@,
{
    let mut r: Vec<char> = Vec::new();
    for c in it: s.chars()
        invariant
            r@ == it.seq().take(it.index() as int),
    {
        r.push(c);
    }
    r
}

/// Appends the character of the decimal digit `d` to `out`.
pub fn push_digit(out: &mut String, d: u64)
    requires
        d < 10,
    ensures
        final(out)@ == old(out)@.push(digit_char(d as nat)),
{
    proof {
        lemma_digit_char(d as nat);
    }
    let ghost c = digit_char(d as nat);
    let ghost before = out@;
    match d {
        0 => {
            proof { reveal_strlit("0"); }
            out.append("0");
        },
        1 => {
            proof { reveal_strlit("1"); }
            out.append("1");
        },
        2 => {
            proof { reveal_strlit("2"); }
            out.append("2");
        },
        3 => {
            proof { reveal_strlit("3"); }
            out.append("3");
        },
        4 => {
            proof { reveal_strlit("4"); }
            out.append("4");
        },
        5 => {
            proof { reveal_strlit("5"); }
            out.append("5");
        },
        6 => {
            proof { reveal_strlit("6"); }
            out.append("6");
        },
        7 => {
            proof { reveal_strlit("7"); }
            out.append("7");
        },
        8 => {
            proof { reveal_strlit("8"); }
            out.append("8");
        },
        _ => {
            proof { reveal_strlit("9"); }
            out.append("9");
        },
    }
    assert(out@ =~= before.push(c));
}

/// Appends the decimal numeral of `n` to `out`.
pub fn push_decimal(out: &mut String, n: u64)
    ensures
        final(out)@ == old(out)@ + decimal(n as nat),
    decreases n,
{
    if n < 10 {
        push_digit(out, n);
        assert(decimal(n as nat) =~= seq![digit_char(n as nat)]);
    } else {
        let ghost before = out@;
        push_decimal(out, n / 10);
        push_digit(out, n % 10);
        assert(out@ =~= before + decimal(n as nat));
    }
}

/// The decimal numeral of `n`.
pub fn decimal_string(n: u64) -> (r: String)
    ensures
        r@ == decimal(n as nat),
{
    let mut r = String::new();
    push_decimal(&mut r, n);
    assert(r@ =~= decimal(n as nat));
    r
}

/// Parses `s[start..end]` as an unsigned decimal number no greater than
/// `limit`: an optional `+` and then at least one digit.
pub fn parse_unsigned_range(s: &Vec<char>, start: usize, end: usize, limit: u64) -> (r: Option<u64>)
    requires
        start <= end <= s@.len(),
    ensures
        r matches Some(v) ==> parse_unsigned(s@.subrange(start as int, end as int), limit as nat)
            == Some(v as nat),
        r is None ==> parse_unsigned(s@.subrange(start as int, end as int), limit as nat) is None,
{
    let ghost text = s@.subrange(start as int, end as int);
    let mut first = start;
    if start < end && s[start] == '+' {
        first = start + 1;
    }
    let ghost d = s@.subrange(first as int, end as int);
    assert(d =~= unsigned_digits(text));
    if first == end {
        return None;
    }
    let mut value: u128 = 0;
    let mut i = first;
    while i < end
        invariant
            first <= i <= end <= s@.len(),
            d == s@.subrange(first as int, end as int),
            d == unsigned_digits(s@.subrange(start as int, end as int)),
            d.len() > 0,
            all_digits(d.take(i - first)),
            value as nat == digits_value(d.take(i - first)),
            value <= limit,
        decreases end - i,
    {
        let c = s[i];
        if !('0' <= c && c <= '9') {
            assert(!is_digit(d[i - first]));
            return None;
        }
        let digit = (c as u32 - '0' as u32) as u128;
        assert(d.take(i - first + 1).drop_last() =~= d.take(i - first));
        value = value * 10 + digit;
        assert(all_digits(d.take(i - first + 1))) by {
            assert forall|j: int| 0 <= j < i - first + 1 implies #[trigger] is_digit(
                d.take(i - first + 1)[j],
            ) by {
                if j < i - first {
                    assert(d.take(i - first + 1)[j] == d.take(i - first)[j]);
                }
            }
        }
        if value > limit as u128 {
            proof {
                if all_digits(d) {
                    lemma_digits_value_prefix(d, i - first + 1);
                }
            }
            return None;
        }
        i = i + 1;
    }
    assert(d.take(i - first) =~= d);
    Some(value as u64)
}

/// Parses `s[start..end]` as `str::parse::<u32>` does.
pub fn parse_u32_range(s: &Vec<char>, start: usize, end: usize) -> (r: Option<u32>)
    requires
        start <= end <= s@.len(),
    ensures
        r == parse_u32_spec(s@.subrange(start as int, end as int)),
{
    match parse_unsigned_range(s, start, end, 0xffff_ffffu64) {
        Some(v) => Some(v as u32),
        None => None,
    }
}

/// Parses `s[start..end]` as `str::parse::<usize>` does.
pub fn parse_usize_range(s: &Vec<char>, start: usize, end: usize) -> (r: Option<usize>)
    requires
        start <= end <= s@.len(),
    ensures
        r == parse_usize_spec(s@.subrange(start as int, end as int)),
{
    match parse_unsigned_range(s, start, end, usize::MAX as u64) {
        Some(v) => Some(v as usize),
        None => None,
    }
}

/// Parses `s` as `str::parse::<u32>` does.
pub fn parse_u32(s: &str) -> (r: Option<u32>)
    ensures
        r == parse_u32_spec(s@),
{
    let chars = chars_of(s);
    let r = parse_u32_range(&chars, 0, chars.len());
    assert(chars@.subrange(0, chars@.len() as int) =~= s@);
    r
}

/// `c` occurs exactly once in `s`, at position `p`.
pub open spec fn single_occurrence_at(s: Seq<char>, c: char, p: int) -> bool {
    &&& 0 <= p < s.len()
    &&& s[p] == c
    &&& forall|j: int| 0 <= j < s.len() && j != p ==> s[j] != c
}

/// `c` occurs exactly once in `s`.
pub open spec fn occurs_once(s: Seq<char>, c: char) -> bool {
    exists|p: int| single_occurrence_at(s, c, p)
}

/// The position of `c` in `s`, where it occurs exactly once.
pub open spec fn single_position(s: Seq<char>, c: char) -> int {
    choose|p: int| single_occurrence_at(s, c, p)
}

/// The position of the only `c` in `s`, or `None` where `c` does not occur
/// exactly once.
pub fn find_single(s: &Vec<char>, c: char) -> (r: Option<usize>)
    ensures
        r matches Some(p) ==> single_occurrence_at(s@, c, p as int) && occurs_once(s@, c)
            && single_position(s@, c) == p as int,
        r is None ==> !occurs_once(s@, c),
{
    let mut found: Option<usize> = None;
    let mut i: usize = 0;
    while i < s.len()
        invariant
            i <= s@.len(),
            found matches Some(p) ==> p < i && s@[p as int] == c && forall|j: int|
                0 <= j < i && j != p ==> s@[j] != c,
            found is None ==> forall|j: int| 0 <= j < i ==> s@[j] != c,
        decreases s.len() - i,
    {
        if s[i] == c {
            if let Some(p) = found {
                assert(!occurs_once(s@, c)) by {
                    if occurs_once(s@, c) {
                        let q = choose|q: int| single_occurrence_at(s@, c, q);
                        assert(s@[p as int] == c && s@[i as int] == c);
                    }
                }
                return None;
            }
            found = Some(i);
        }
        i = i + 1;
    }
    match found {
        Some(p) => {
            assert(single_occurrence_at(s@, c, p as int));
            let ghost q = single_position(s@, c);
            assert(single_occurrence_at(s@, c, q));
            Some(p)
        },
        None => {
            assert(!occurs_once(s@, c)) by {
                if occurs_once(s@, c) {
                    let q = choose|q: int| single_occurrence_at(s@, c, q);
                    assert(s@[q] == c);
                }
            }
            None
        },
    }
}

/// Whether the two texts are the same.
pub fn str_equals(a: &str, b: &str) -> (r: bool)
    ensures
        r == (a@ == b@),
{
    let x = chars_of(a);
    let y = chars_of(b);
    if x.len() != y.len() {
        return false;
    }
    let mut i: usize = 0;
    while i < x.len()
        invariant
            x@ == a@,
            y@ == b@,
            x@.len() == y@.len(),
            i <= x@.len(),
            forall|j: int| 0 <= j < i ==> x@[j] == y@[j],
        decreases x.len() - i,
    {
        if x[i] != y[i] {
            assert(x@[i as int] != y@[i as int]);
            return false;
        }
        i = i + 1;
    }
    assert(x@ =~= y@);
    true
}

/// `name` appended to the directory `dir` as `Path::join` appends a relative
/// component: with a `/` between them unless `dir` is empty or ends in one.
pub open spec fn path_join(dir: Seq<char>, name: Seq<char>) -> Seq<char> {
    if dir.len() == 0 || dir.last() == '/' {
        dir + name
    } else {
        dir + seq!['/'] + name
    }
}

/// Appends the relative component `name` to the path `dir`.
pub fn push_path_component(dir: &mut String, name: &str)
    ensures
        final(dir)@ == path_join(old(dir)@, name@),
{
    let chars = chars_of(dir.as_str());
    let n = chars.len();
    if n == 0 || chars[n - 1] == '/' {
        dir.append(name);
    } else {
        proof {
            reveal_strlit("/");
        }
        dir.append("/");
        dir.append(name);
    }
}

/// `pat` occurs in `s` at position `p`.
pub open spec fn occurs_at(s: Seq<char>, pat: Seq<char>, p: int) -> bool {
    0 <= p && p + pat.len() <= s.len() && s.subrange(p, p + pat.len() as int) == pat
}

/// The first position, from `i` on, at which `pat` occurs in `s`.
pub open spec fn first_occurrence_from(s: Seq<char>, pat: Seq<char>, i: int) -> Option<int>
    decreases s.len() + 1 - i,
{
    if i < 0 || i + pat.len() > s.len() {
        None
    } else if occurs_at(s, pat, i) {
        Some(i)
    } else {
        first_occurrence_from(s, pat, i + 1)
    }
}

/// The pieces of `s` between the occurrences of `pat`, as `str::split`
/// gives them.
pub open spec fn split_on(s: Seq<char>, pat: Seq<char>) -> Seq<Seq<char>>
    decreases s.len(),
{
    if pat.len() == 0 {
        seq![s]
    } else {
        match first_occurrence_from(s, pat, 0) {
            None => seq![s],
            Some(p) => if 0 <= p && p + pat.len() <= s.len() {
                seq![s.subrange(0, p)] + split_on(s.subrange(p + pat.len(), s.len() as int), pat)
            } else {
                seq![s]
            },
        }
    }
}

/// Whether `c` is white space, as `char::is_whitespace` says: the Unicode
/// `White_Space` characters.
pub open spec fn is_whitespace(c: char) -> bool {
    let u = c as u32;
    (0x09 <= u && u <= 0x0d) || u == 0x20 || u == 0x85 || u == 0xa0 || u == 0x1680 || (0x2000
        <= u && u <= 0x200a) || u == 0x2028 || u == 0x2029 || u == 0x202f || u == 0x205f || u
        == 0x3000
}

/// Whether `c` is white space.
pub fn char_is_whitespace(c: char) -> (r: bool)
    ensures
        r == is_whitespace(c),
{
    let u = c as u32;
    (0x09 <= u && u <= 0x0d) || u == 0x20 || u == 0x85 || u == 0xa0 || u == 0x1680 || (0x2000
        <= u && u <= 0x200a) || u == 0x2028 || u == 0x2029 || u == 0x202f || u == 0x205f || u
        == 0x3000
}

/// Whether `pat` occurs in `chars` at `p`.
pub fn occurs_at_exec(chars: &Vec<char>, pat: &Vec<char>, p: usize) -> (r: bool)
    ensures
        r == occurs_at(chars@, pat@, p as int),
{
    if p > chars.len() || pat.len() > chars.len() - p {
        return false;
    }
    let m = chars.len();
    let mut i: usize = 0;
    while i < pat.len()
        invariant
            m == chars@.len(),
            p + pat@.len() <= chars@.len(),
            i <= pat@.len(),
            forall|j: int| 0 <= j < i ==> chars@[p + j] == pat@[j],
        decreases pat.len() - i,
    {
        if chars[p + i] != pat[i] {
            assert(chars@.subrange(p as int, p + pat@.len())[i as int] != pat@[i as int]);
            return false;
        }
        i = i + 1;
    }
    assert(chars@.subrange(p as int, p + pat@.len()) =~= pat@);
    true
}

/// The first position, from `i` on, at which `pat` occurs in `chars`.
pub fn first_occurrence_exec(chars: &Vec<char>, pat: &Vec<char>, i: usize) -> (r: Option<usize>)
    ensures
        r matches Some(p) ==> first_occurrence_from(chars@, pat@, i as int) == Some(p as int),
        r is None ==> first_occurrence_from(chars@, pat@, i as int) is None,
{
    let mut q = i;
    loop
        invariant
            i <= q,
            first_occurrence_from(chars@, pat@, i as int) == first_occurrence_from(
                chars@,
                pat@,
                q as int,
            ),
        decreases chars.len() + 1 - q,
    {
        if q > chars.len() || pat.len() > chars.len() - q {
            return None;
        }
        if occurs_at_exec(chars, pat, q) {
            return Some(q);
        }
        assert(pat@.len() > 0) by {
            if pat@.len() == 0 {
                assert(chars@.subrange(q as int, q as int) =~= pat@);
            }
        }
        q = q + 1;
    }
}

/// The pieces of `s` between the occurrences of the non-empty `pat`.
pub fn split_str(s: &str, pat: &str) -> (r: Vec<String>)
    requires
        pat@.len() > 0,
    ensures
        r@.map_values(|t: String| t@) == split_on(s@, pat@),
{
    let chars = chars_of(s);
    let p = chars_of(pat);
    let plen = p.len();
    let n = chars.len();
    let mut pieces: Vec<String> = Vec::new();
    let mut start: usize = 0;
    assert(chars@.subrange(0, n as int) =~= s@);
    assert(pieces@.map_values(|t: String| t@) =~= Seq::<Seq<char>>::empty());
    loop
        invariant
            chars@ == s@,
            p@ == pat@,
            plen == pat@.len(),
            plen > 0,
            n == chars@.len(),
            start <= n,
            pieces@.map_values(|t: String| t@) + split_on(chars@.subrange(start as int, n as int), pat@)
                == split_on(s@, pat@),
        decreases n - start,
    {
        let ghost rest = chars@.subrange(start as int, n as int);
        match first_occurrence_exec(&chars, &p, start) {
            None => {
                proof {
                    lemma_first_occurrence_shift(chars@, pat@, start as int, 0);
                }
                let ghost before = pieces@;
                pieces.push(substring(s, start, n));
                assert(pieces@.map_values(|t: String| t@) =~= before.map_values(|t: String| t@)
                    + split_on(rest, pat@));
                return pieces;
            },
            Some(q) => {
                proof {
                    lemma_first_occurrence_shift(chars@, pat@, start as int, 0);
                    lemma_first_occurrence_found(chars@, pat@, start as int);
                    assert(rest.subrange(0, q - start) =~= chars@.subrange(start as int, q as int));
                    assert(rest.subrange(q - start + plen, rest.len() as int) =~= chars@.subrange(
                        q + plen,
                        n as int,
                    ));
                }
                let ghost before = pieces@;
                pieces.push(substring(s, start, q));
                assert(pieces@.map_values(|t: String| t@) =~= before.map_values(|t: String| t@)
                    + seq![chars@.subrange(start as int, q as int)]);
                start = q + plen;
            },
        }
    }
}

/// Searching the rest of `s` from `start` finds what searching `s` from
/// `start` finds, shifted.
pub proof fn lemma_first_occurrence_shift(s: Seq<char>, pat: Seq<char>, start: int, i: int)
    requires
        0 <= start <= s.len(),
        0 <= i,
    ensures
        first_occurrence_from(s.subrange(start, s.len() as int), pat, i) == match first_occurrence_from(
            s,
            pat,
            start + i,
        ) {
            Some(p) => Some(p - start),
            None => None,
        },
    decreases s.len() + 1 - start - i,
{
    let rest = s.subrange(start, s.len() as int);
    if i + pat.len() <= rest.len() {
        assert(occurs_at(rest, pat, i) == occurs_at(s, pat, start + i)) by {
            assert(rest.subrange(i, i + pat.len() as int) =~= s.subrange(
                start + i,
                start + i + pat.len() as int,
            ));
        }
        lemma_first_occurrence_shift(s, pat, start, i + 1);
    }
}

/// A position that searching finds holds the pattern.
pub proof fn lemma_first_occurrence_found(s: Seq<char>, pat: Seq<char>, i: int)
    ensures
        first_occurrence_from(s, pat, i) matches Some(p) ==> i <= p && occurs_at(s, pat, p),
    decreases s.len() + 1 - i,
{
    if 0 <= i && i + pat.len() <= s.len() && !occurs_at(s, pat, i) {
        lemma_first_occurrence_found(s, pat, i + 1);
    }
}

/// The text `s[start..end]` as a new string.
pub fn substring(s: &str, start: usize, end: usize) -> (r: String)
    requires
        start <= end <= s@.len(),
    ensures
        r@ == s@.subrange(start as int, end as int),
{
    s.substring_char(start, end).to_owned()
}

} // verus!

//! Character-level string operations with specifications over `Seq<char>`.
//!
//! Strings are modelled by their view, the sequence of their characters.
use vstd::prelude::*;

verus! {

// ---------------------------------------------------------------------------
// Specifications
// ---------------------------------------------------------------------------

/// `p` is a prefix of `s`.
pub open spec fn is_prefix(p: Seq<char>, s: Seq<char>) -> bool {
    p.len() <= s.len() && s.subrange(0, p.len() as int) == p
}

/// `p` is a suffix of `s`.
pub open spec fn is_suffix(p: Seq<char>, s: Seq<char>) -> bool {
    p.len() <= s.len() && s.subrange(s.len() - p.len(), s.len() as int) == p
}

/// `p` occurs in `s` at position `i`.
pub open spec fn occurs_at(s: Seq<char>, p: Seq<char>, i: int) -> bool {
    0 <= i && i + p.len() <= s.len() && s.subrange(i, i + p.len()) == p
}

/// `p` occurs somewhere in `s` (the empty pattern occurs in every string).
pub open spec fn occurs_in(s: Seq<char>, p: Seq<char>) -> bool {
    exists|i: int| occurs_at(s, p, i)
}

/// Replacement of every match of `from` in `s` by `to`, where matches are
/// found from left to right without overlapping. An empty pattern matches
/// at every character boundary, the start and the end included.
pub open spec fn replace_all(s: Seq<char>, from: Seq<char>, to: Seq<char>) -> Seq<char>
    decreases s.len(),
{
    if from.len() == 0 {
        if s.len() == 0 {
            to
        } else {
            to + seq![s[0]] + replace_all(s.skip(1), from, to)
        }
    } else if s.len() == 0 {
        seq![]
    } else if is_prefix(from, s) {
        to + replace_all(s.skip(from.len() as int), from, to)
    } else {
        seq![s[0]] + replace_all(s.skip(1), from, to)
    }
}

/// An ASCII decimal digit.
pub open spec fn is_digit(c: char) -> bool {
    '0' <= c && c <= '9'
}

/// The value of an ASCII decimal digit.
pub open spec fn digit_value(c: char) -> int {
    (c as int) - ('0' as int)
}

/// Every character of `s` is a decimal digit.
pub open spec fn all_digits(s: Seq<char>) -> bool {
    forall|i: int| 0 <= i < s.len() ==> is_digit(#[trigger] s[i])
}

/// The value of a string of decimal digits, most significant first.
pub open spec fn digits_value(s: Seq<char>) -> int
    decreases s.len(),
{
    if s.len() == 0 {
        0
    } else {
        digits_value(s.drop_last()) * 10 + digit_value(s.last())
    }
}

/// The integer that the standard library's `FromStr` for integer types reads
/// from `s` before checking it against the type's range: an optional `+`
/// sign (or `-` for signed types) followed by at least one decimal digit.
pub open spec fn decimal_int(s: Seq<char>, signed: bool) -> Option<int> {
    if s.len() > 0 && (s[0] == '+' || (signed && s[0] == '-')) {
        let body = s.skip(1);
        if body.len() > 0 && all_digits(body) {
            if s[0] == '-' {
                Some(-digits_value(body))
            } else {
                Some(digits_value(body))
            }
        } else {
            None
        }
    } else if s.len() > 0 && all_digits(s) {
        Some(digits_value(s))
    } else {
        None
    }
}

/// What `s.parse::<u64>()` accepts, and its value.
pub open spec fn parse_u64_spec(s: Seq<char>) -> Option<u64> {
    if let Some(v) = decimal_int(s, false) {
        if v <= u64::MAX { Some(v as u64) } else { None }
    } else {
        None
    }
}

/// What `s.parse::<u32>()` accepts, and its value.
pub open spec fn parse_u32_spec(s: Seq<char>) -> Option<u32> {
    if let Some(v) = decimal_int(s, false) {
        if v <= u32::MAX { Some(v as u32) } else { None }
    } else {
        None
    }
}

/// What `s.parse::<i64>()` accepts, and its value.
pub open spec fn parse_i64_spec(s: Seq<char>) -> Option<i64> {
    if let Some(v) = decimal_int(s, true) {
        if i64::MIN <= v <= i64::MAX { Some(v as i64) } else { None }
    } else {
        None
    }
}

/// What `s.parse::<i32>()` accepts, and its value.
pub open spec fn parse_i32_spec(s: Seq<char>) -> Option<i32> {
    if let Some(v) = decimal_int(s, true) {
        if i32::MIN <= v <= i32::MAX { Some(v as i32) } else { None }
    } else {
        None
    }
}

/// The ASCII digit for `d` (0 to 9).
pub open spec fn digit_char(d: nat) -> char {
    ((d + ('0' as nat)) as u32) as char
}

/// The shortest decimal representation of `n`.
pub open spec fn decimal_string(n: nat) -> Seq<char>
    decreases n,
{
    if n < 10 {
        seq![digit_char(n)]
    } else {
        decimal_string(n / 10).push(digit_char(n % 10))
    }
}

/// The decimal representation of a signed integer, as `Display` writes it.
pub open spec fn signed_decimal_string(n: int) -> Seq<char> {
    if n < 0 {
        seq!['-'] + decimal_string((-n) as nat)
    } else {
        decimal_string(n as nat)
    }
}

/// The characters of `s` after its last `/` (all of `s` if it has none).
pub open spec fn last_segment(s: Seq<char>) -> Seq<char>
    decreases s.len(),
{
    if s.len() == 0 || s.last() == '/' {
        seq![]
    } else {
        last_segment(s.drop_last()).push(s.last())
    }
}

/// The final component of a path, as `Path::file_name` gives it on Unix:
/// empty components and `.` components are skipped; a final `..` or a path
/// with no such component has no file name.
pub open spec fn path_file_name(s: Seq<char>) -> Option<Seq<char>>
    decreases s.len(),
{
    if s.len() == 0 {
        None
    } else {
        let seg = last_segment(s);
        let rest = s.len() - seg.len();
        if seg.len() == 0 || seg == seq!['.'] {
            if rest <= 0 {
                None
            } else {
                path_file_name(s.take(rest - 1))
            }
        } else if seg == seq!['.', '.'] {
            None
        } else {
            Some(seg)
        }
    }
}

// ---------------------------------------------------------------------------
// Lemmas
// ---------------------------------------------------------------------------

/// The value of a string of digits is not negative.
pub proof fn lemma_digits_value_nonneg(s: Seq<char>)
    requires
        all_digits(s),
    ensures
        digits_value(s) >= 0,
    decreases s.len(),
{
    if s.len() > 0 {
        assert(all_digits(s.drop_last()));
        lemma_digits_value_nonneg(s.drop_last());
        assert(is_digit(s[s.len() - 1]));
    }
}

/// The value of a string of digits is at least that of any of its prefixes.
pub proof fn lemma_digits_value_prefix(s: Seq<char>, k: int)
    requires
        all_digits(s),
        0 <= k <= s.len(),
    ensures
        digits_value(s.take(k)) <= digits_value(s),
    decreases s.len(),
{
    if k < s.len() {
        assert(all_digits(s.drop_last()));
        lemma_digits_value_prefix(s.drop_last(), k);
        assert(s.drop_last().take(k) =~= s.take(k));
        lemma_digits_value_nonneg(s.drop_last());
        assert(is_digit(s[s.len() - 1]));
    } else {
        assert(s.take(k) =~= s);
    }
}

// ---------------------------------------------------------------------------
// Executable operations
// ---------------------------------------------------------------------------

/// Appends one character to a string.
/// Trusted: `String::push`, which the standard library documents as
/// appending the given char to the end of the string.
#[verifier::external_body]
pub(crate) fn push_char(s: &mut String, c: char)
    ensures
        final(s)@ == old(s)@.push(c),
{
    s.push(c);
}

/// Appends a string slice to a string.
pub(crate) fn push_str(s: &mut String, t: &str)
    ensures
        final(s)@ == old(s)@ + t@,
{
    s.append(t);
}

/// The characters of a string slice, in order.
pub fn chars_of(s: &str) -> (v: Vec<char>)
    ensures
        v@ == s@,
{
    let mut v: Vec<char> = Vec::new();
    for c in it: s.chars()
        invariant
            v@ == it.seq().take(it.index() as int),
            it.seq() == s@,
    {
        v.push(c);
    }
    v
}

/// The string made of the characters `v@[from..to]`.
pub fn string_of_range(v: &Vec<char>, from: usize, to: usize) -> (s: String)
    requires
        from <= to <= v.len(),
    ensures
        s@ == v@.subrange(from as int, to as int),
{
    let mut s = String::new();
    let mut i = from;
    while i < to
        invariant
            from <= i <= to <= v.len(),
            s@ == v@.subrange(from as int, i as int),
        decreases to - i,
    {
        push_char(&mut s, v[i]);
        assert(v@.subrange(from as int, i + 1) =~= v@.subrange(from as int, i as int).push(v@[i as int]));
        i = i + 1;
    }
    s
}

/// The string made of the characters of `v`.
pub fn string_of(v: &Vec<char>) -> (s: String)
    ensures
        s@ == v@,
{
    let s = string_of_range(v, 0, v.len());
    assert(v@.subrange(0, v@.len() as int) =~= v@);
    s
}

/// Whether `p` occurs in `s` at position `i`.
pub fn matches_at(s: &Vec<char>, p: &Vec<char>, i: usize) -> (b: bool)
    ensures
        b == occurs_at(s@, p@, i as int),
{
    if i > s.len() || p.len() > s.len() - i {
        return false;
    }
    let mut j: usize = 0;
    while j < p.len()
        invariant
            i + p.len() <= s.len(),
            0 <= j <= p.len(),
            forall|k: int| 0 <= k < j ==> s@[i + k] == p@[k],
        decreases p.len() - j,
    {
        if s[i + j] != p[j] {
            assert(s@.subrange(i as int, i + p.len())[j as int] != p@[j as int]);
            return false;
        }
        j = j + 1;
    }
    assert(s@.subrange(i as int, i + p.len()) =~= p@);
    true
}

/// Whether `p` is a prefix of `s` (`str::starts_with`).
pub fn starts_with(s: &str, p: &str) -> (b: bool)
    ensures
        b == is_prefix(p@, s@),
{
    let sv = chars_of(s);
    let pv = chars_of(p);
    matches_at(&sv, &pv, 0)
}

/// Whether `p` is a suffix of `s` (`str::ends_with`).
pub fn ends_with(s: &str, p: &str) -> (b: bool)
    ensures
        b == is_suffix(p@, s@),
{
    let sv = chars_of(s);
    let pv = chars_of(p);
    if pv.len() > sv.len() {
        return false;
    }
    matches_at(&sv, &pv, sv.len() - pv.len())
}

/// Whether `p` occurs in `s` (`str::contains`).
pub fn contains(s: &str, p: &str) -> (b: bool)
    ensures
        b == occurs_in(s@, p@),
{
    let sv = chars_of(s);
    let pv = chars_of(p);
    if pv.len() == 0 {
        assert(s@.subrange(0, 0) =~= p@);
        assert(occurs_at(s@, p@, 0));
        return true;
    }
    if pv.len() > sv.len() {
        assert forall|i: int| !occurs_at(s@, p@, i) by {}
        return false;
    }
    let mut i: usize = 0;
    while i <= sv.len() - pv.len()
        invariant
            0 < pv.len() <= sv.len(),
            sv@ == s@,
            pv@ == p@,
            forall|k: int| 0 <= k < i ==> !occurs_at(s@, p@, k),
        decreases sv.len() - pv.len() + 1 - i,
    {
        if matches_at(&sv, &pv, i) {
            return true;
        }
        i = i + 1;
    }
    assert forall|k: int| !occurs_at(s@, p@, k) by {
        if occurs_at(s@, p@, k) {
            assert(k < i);
        }
    }
    false
}

/// Replaces every match of `from` in `s` by `to` (`str::replace`).
pub fn replace(s: &str, from: &str, to: &str) -> (r: String)
    ensures
        r@ == replace_all(s@, from@, to@),
{
    let sv = chars_of(s);
    let fv = chars_of(from);
    let mut out = String::new();
    let mut i: usize = 0;
    assert(s@.skip(0) =~= s@);
    assert(out@ + replace_all(s@, from@, to@) =~= replace_all(s@, from@, to@));
    if fv.len() == 0 {
        while i < sv.len()
            invariant
                i <= sv.len(),
                sv@ == s@,
                fv@ == from@,
                from@.len() == 0,
                replace_all(s@, from@, to@) == out@ + replace_all(s@.skip(i as int), from@, to@),
            decreases sv.len() - i,
        {
            let ghost rest = s@.skip(i as int);
            assert(rest.skip(1) =~= s@.skip(i + 1));
            assert(rest[0] == sv@[i as int]);
            push_str(&mut out, to);
            push_char(&mut out, sv[i]);
            i = i + 1;
            assert(out@ + replace_all(s@.skip(i as int), from@, to@) =~= (out@.drop_last().subrange(0, out@.len() - 1 - to@.len()) + to@ + seq![rest[0]]) + replace_all(rest.skip(1), from@, to@));
        }
        let ghost before = out@;
        assert(s@.skip(i as int) =~= Seq::<char>::empty());
        assert(replace_all(s@.skip(i as int), from@, to@) == to@);
        push_str(&mut out, to);
        assert(out@ == before + to@);
    } else {
        while i < sv.len()
            invariant
                i <= sv.len(),
                sv@ == s@,
                fv@ == from@,
                from@.len() > 0,
                replace_all(s@, from@, to@) == out@ + replace_all(s@.skip(i as int), from@, to@),
            decreases sv.len() - i,
        {
            let ghost rest = s@.skip(i as int);
            let ghost old_out = out@;
            if matches_at(&sv, &fv, i) {
                assert(rest.subrange(0, from@.len() as int) =~= s@.subrange(i as int, i + from@.len()));
                assert(rest.skip(from@.len() as int) =~= s@.skip(i + from@.len()));
                push_str(&mut out, to);
                i = i + fv.len();
                assert(out@ + replace_all(s@.skip(i as int), from@, to@) =~= old_out + (to@ + replace_all(rest.skip(from@.len() as int), from@, to@)));
            } else {
                assert(!is_prefix(from@, rest)) by {
                    if is_prefix(from@, rest) {
                        assert(rest.subrange(0, from@.len() as int) =~= s@.subrange(i as int, i + from@.len()));
                    }
                }
                assert(rest.skip(1) =~= s@.skip(i + 1));
                assert(rest[0] == sv@[i as int]);
                push_char(&mut out, sv[i]);
                i = i + 1;
                assert(out@ + replace_all(s@.skip(i as int), from@, to@) =~= old_out + (seq![rest[0]] + replace_all(rest.skip(1), from@, to@)));
            }
        }
        assert(s@.skip(i as int) =~= Seq::<char>::empty());
        assert(out@ + replace_all(Seq::<char>::empty(), from@, to@) =~= out@);
    }
    out
}


/// Characterises `last_segment` by the position where the last segment starts.
pub proof fn lemma_last_segment_from(s: Seq<char>, k: int)
    requires
        0 <= k <= s.len(),
        forall|i: int| k <= i < s.len() ==> s[i] != '/',
        k == 0 || s[k - 1] == '/',
    ensures
        last_segment(s) == s.subrange(k, s.len() as int),
    decreases s.len(),
{
    if s.len() == k {
        assert(s.subrange(k, s.len() as int) =~= Seq::<char>::empty());
    } else {
        assert forall|i: int| k <= i < s.drop_last().len() implies s.drop_last()[i] != '/' by {
            assert(s.drop_last()[i] == s[i]);
        }
        lemma_last_segment_from(s.drop_last(), k);
        assert(s.subrange(k, s.len() as int) =~= s.drop_last().subrange(k, s.len() - 1).push(s.last()));
    }
}

/// The digit character for `d`.
fn digit_to_char(d: u64) -> (c: char)
    requires
        d < 10,
    ensures
        c == digit_char(d as nat),
        digit_value(c) == d,
        is_digit(c),
{
    if d == 0 { '0' }
    else if d == 1 { '1' }
    else if d == 2 { '2' }
    else if d == 3 { '3' }
    else if d == 4 { '4' }
    else if d == 5 { '5' }
    else if d == 6 { '6' }
    else if d == 7 { '7' }
    else if d == 8 { '8' }
    else { '9' }
}

/// The decimal representation of `n` (`u64`'s `Display`).
pub fn format_u64(n: u64) -> (r: String)
    ensures
        r@ == decimal_string(n as nat),
{
    let mut digits: Vec<char> = Vec::new();
    let mut cur = n;
    while cur >= 10
        invariant
            decimal_string(n as nat) == decimal_string(cur as nat) + digits@,
        decreases cur,
    {
        let d = digit_to_char(cur % 10);
        let ghost before = digits@;
        digits.insert(0, d);
        assert(decimal_string(cur as nat) == decimal_string((cur / 10) as nat).push(d));
        assert(digits@ =~= seq![d] + before);
        assert(decimal_string(cur as nat) + before =~= decimal_string((cur / 10) as nat) + digits@);
        cur = cur / 10;
    }
    let d = digit_to_char(cur);
    let ghost before = digits@;
    digits.insert(0, d);
    assert(digits@ =~= seq![d] + before);
    string_of(&digits)
}

/// The decimal representation of `n` (`i64`'s `Display`).
pub fn format_i64(n: i64) -> (r: String)
    ensures
        r@ == signed_decimal_string(n as int),
{
    if n < 0 {
        let m: u64 = if n == i64::MIN { 9223372036854775808u64 } else { (-n) as u64 };
        let mut r = String::new();
        push_char(&mut r, '-');
        let digits = format_u64(m);
        push_str(&mut r, digits.as_str());
        r
    } else {
        format_u64(n as u64)
    }
}

/// Reads an optional sign and a non-empty run of decimal digits, as the
/// standard library's integer `FromStr` does; `None` also when the magnitude
/// does not fit in a `u64`.
fn parse_decimal(s: &str, signed: bool) -> (r: Option<(bool, u64)>)
    ensures
        match r {
            Some((neg, m)) => {
                &&& neg ==> signed
                &&& decimal_int(s@, signed) == Some(if neg { -(m as int) } else { m as int })
            },
            None => match decimal_int(s@, signed) {
                Some(v) => v > u64::MAX || v < -(u64::MAX as int),
                None => true,
            },
        },
{
    let v = chars_of(s);
    if v.len() == 0 {
        return None;
    }
    let neg = signed && v[0] == '-';
    let start: usize = if v[0] == '+' || neg { 1 } else { 0 };
    let ghost body = s@.skip(start as int);
    assert(start == 0 ==> body =~= s@);
    if start >= v.len() {
        return None;
    }
    let mut acc: u64 = 0;
    let mut i: usize = start;
    assert(body.take(0) =~= Seq::<char>::empty());
    while i < v.len()
        invariant
            v@ == s@,
            v@.len() > 0,
            neg == (signed && s@[0] == '-'),
            start == (if s@[0] == '+' || neg { 1usize } else { 0usize }),
            start < v.len(),
            start == 0 ==> body == s@,
            start <= i <= v.len(),
            body == s@.skip(start as int),
            all_digits(body.take(i - start)),
            acc as int == digits_value(body.take(i - start)),
        decreases v.len() - i,
    {
        let c = v[i];
        assert(c == body[i - start]);
        if !('0' <= c && c <= '9') {
            assert(!all_digits(body));
            assert(start == 0 ==> !all_digits(s@));
            assert(decimal_int(s@, signed) is None);
            return None;
        }
        let d: u64 = (c as u32 - '0' as u32) as u64;
        assert(body.take(i - start + 1).drop_last() =~= body.take(i - start));
        assert(all_digits(body.take(i - start + 1)));
        if acc > (u64::MAX - d) / 10 {
            assert(acc * 10 + d > u64::MAX) by (nonlinear_arith)
                requires
                    acc > (u64::MAX - d) / 10,
                    d < 10,
            ;
            proof {
                if all_digits(body) {
                    lemma_digits_value_prefix(body, i - start + 1);
                    lemma_digits_value_nonneg(body);
                    assert(digits_value(body) > u64::MAX);
                    assert(start == 0 ==> all_digits(s@));
                }
            }
            return None;
        }
        acc = acc * 10 + d;
        i = i + 1;
    }
    assert(body.take(i - start) =~= body);
    Some((neg, acc))
}

/// The digit character for `d` is a digit worth `d`.
pub proof fn lemma_digit_char(d: nat)
    requires
        d < 10,
    ensures
        is_digit(digit_char(d)),
        digit_value(digit_char(d)) == d,
{
    if d == 0 {
        assert(digit_char(0) == '0');
    } else if d == 1 {
        assert(digit_char(1) == '1');
    } else if d == 2 {
        assert(digit_char(2) == '2');
    } else if d == 3 {
        assert(digit_char(3) == '3');
    } else if d == 4 {
        assert(digit_char(4) == '4');
    } else if d == 5 {
        assert(digit_char(5) == '5');
    } else if d == 6 {
        assert(digit_char(6) == '6');
    } else if d == 7 {
        assert(digit_char(7) == '7');
    } else if d == 8 {
        assert(digit_char(8) == '8');
    } else {
        assert(digit_char(9) == '9');
    }
}

/// The decimal representation of `n` is a non-empty run of digits worth `n`.
pub proof fn lemma_decimal_string_digits(n: nat)
    ensures
        decimal_string(n).len() > 0,
        all_digits(decimal_string(n)),
        digits_value(decimal_string(n)) == n,
    decreases n,
{
    let s = decimal_string(n);
    lemma_digit_char(n % 10);
    if n < 10 {
        assert(s.drop_last() =~= Seq::<char>::empty());
        assert(digits_value(s) == digits_value(s.drop_last()) * 10 + digit_value(s.last()));
        assert(n % 10 == n);
    } else {
        let prefix = decimal_string(n / 10);
        lemma_decimal_string_digits(n / 10);
        assert(s.drop_last() =~= prefix);
        assert(s.last() == digit_char(n % 10));
        assert(digits_value(s) == digits_value(prefix) * 10 + digit_value(s.last()));
        assert((n / 10) * 10 + n % 10 == n);
        assert forall|i: int| 0 <= i < s.len() implies is_digit(#[trigger] s[i]) by {
            if i < s.len() - 1 {
                assert(s[i] == prefix[i]);
            }
        }
    }
}

/// A number written in decimal is read back: parsing `n.to_string()` as a
/// `u64` gives `n`.
pub proof fn lemma_parse_u64_of_decimal(n: u64)
    ensures
        parse_u64_spec(decimal_string(n as nat)) == Some(n),
{
    lemma_decimal_string_digits(n as nat);
    assert(is_digit(decimal_string(n as nat)[0]));
}

/// A number written in decimal is read back: parsing `n.to_string()` as a
/// `u32` gives `n`.
pub proof fn lemma_parse_u32_of_decimal(n: u32)
    ensures
        parse_u32_spec(decimal_string(n as nat)) == Some(n),
{
    lemma_decimal_string_digits(n as nat);
    assert(is_digit(decimal_string(n as nat)[0]));
}

/// A number written in decimal is read back: parsing `n.to_string()` as an
/// `i64` gives `n`.
pub proof fn lemma_parse_i64_of_decimal(n: i64)
    ensures
        parse_i64_spec(signed_decimal_string(n as int)) == Some(n),
{
    if n < 0 {
        let d = decimal_string((-n) as nat);
        lemma_decimal_string_digits((-n) as nat);
        let s = signed_decimal_string(n as int);
        assert(s[0] == '-');
        assert(s.skip(1) =~= d);
    } else {
        lemma_decimal_string_digits(n as nat);
        assert(is_digit(decimal_string(n as nat)[0]));
    }
}

/// An unsigned reading is never negative.
pub proof fn lemma_decimal_int_unsigned(s: Seq<char>)
    ensures
        decimal_int(s, false) matches Some(v) ==> v >= 0,
{
    if s.len() > 0 && s[0] == '+' && s.skip(1).len() > 0 && all_digits(s.skip(1)) {
        lemma_digits_value_nonneg(s.skip(1));
    } else if s.len() > 0 && all_digits(s) {
        lemma_digits_value_nonneg(s);
    }
}

/// `s.parse::<u64>()`, with `None` for the error.
pub fn parse_u64(s: &str) -> (r: Option<u64>)
    ensures
        r == parse_u64_spec(s@),
{
    proof { lemma_decimal_int_unsigned(s@); }
    match parse_decimal(s, false) {
        Some((_, m)) => Some(m),
        None => None,
    }
}

/// `s.parse::<u32>()`, with `None` for the error.
pub fn parse_u32(s: &str) -> (r: Option<u32>)
    ensures
        r == parse_u32_spec(s@),
{
    proof { lemma_decimal_int_unsigned(s@); }
    match parse_decimal(s, false) {
        Some((_, m)) => if m <= 4294967295u64 { Some(m as u32) } else { None },
        None => None,
    }
}

/// `s.parse::<i64>()`, with `None` for the error.
pub fn parse_i64(s: &str) -> (r: Option<i64>)
    ensures
        r == parse_i64_spec(s@),
{
    match parse_decimal(s, true) {
        Some((neg, m)) => {
            if neg {
                if m < 9223372036854775808u64 {
                    Some(-(m as i64))
                } else if m == 9223372036854775808u64 {
                    Some(i64::MIN)
                } else {
                    None
                }
            } else if m <= 9223372036854775807u64 {
                Some(m as i64)
            } else {
                None
            }
        },
        None => None,
    }
}

/// `s.parse::<i32>()`, with `None` for the error.
pub fn parse_i32(s: &str) -> (r: Option<i32>)
    ensures
        r == parse_i32_spec(s@),
{
    match parse_i64(s) {
        Some(v) => if -2147483648i64 <= v && v <= 2147483647i64 { Some(v as i32) } else { None },
        None => None,
    }
}

/// The final component of a path (`Path::file_name`, read back as a string).
pub fn file_name(path: &str) -> (r: Option<String>)
    ensures
        match r {
            Some(f) => path_file_name(path@) == Some(f@),
            None => path_file_name(path@) is None,
        },
{
    let v = chars_of(path);
    let mut end: usize = v.len();
    assert(v@.take(end as int) =~= v@);
    loop
        invariant
            v@ == path@,
            end <= v.len(),
            path_file_name(path@) == path_file_name(v@.take(end as int)),
        decreases end,
    {
        let ghost t = v@.take(end as int);
        if end == 0 {
            return None;
        }
        let mut k: usize = end;
        while k > 0 && v[k - 1] != '/'
            invariant
                k <= end <= v.len(),
                forall|i: int| k <= i < end ==> v@[i] != '/',
            decreases k,
        {
            k = k - 1;
        }
        proof {
            lemma_last_segment_from(t, k as int);
        }
        assert(t.subrange(k as int, end as int) =~= v@.subrange(k as int, end as int));
        let seg_len = end - k;
        if seg_len == 0 || (seg_len == 1 && v[k] == '.') {
            assert(seg_len == 1 ==> v@.subrange(k as int, end as int) =~= seq!['.']);
            assert(seg_len != 1 ==> v@.subrange(k as int, end as int) != seq!['.']);
            if k == 0 {
                return None;
            }
            assert(t.take(k - 1) =~= v@.take(k - 1));
            end = k - 1;
        } else if seg_len == 2 && v[k] == '.' && v[k + 1] == '.' {
            assert(v@.subrange(k as int, end as int) =~= seq!['.', '.']);
            return None;
        } else {
            assert(v@.subrange(k as int, end as int) != seq!['.']) by {
                if seg_len == 1 {
                    assert(v@.subrange(k as int, end as int)[0] == v@[k as int]);
                }
            }
            assert(v@.subrange(k as int, end as int) != seq!['.', '.']) by {
                if seg_len == 2 {
                    assert(v@.subrange(k as int, end as int)[0] == v@[k as int]);
                    assert(v@.subrange(k as int, end as int)[1] == v@[k + 1]);
                }
            }
            return Some(string_of_range(&v, k, end));
        }
    }
}

} // verus!

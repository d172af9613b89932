use vstd::prelude::*;

verus! {

/// `String::push`: appends one character to the end of the string.
#[verifier::external_body]
pub(crate) fn push_char(s: &mut String, c: char)
    ensures
        final(s)@ == old(s)@.push(c),
{
    s.push(c)
}

/// The characters of a string, in order.
pub fn chars_of(s: &str) -> (v: Vec<char>)
    ensures
        v@ == s@,
{
    let mut v: Vec<char> = Vec::new();
    for c in it: s.chars()
        invariant
            v@ == it.seq().take(it.index() as int),
            it.seq() == s@,
    {
        v.push(c);
    }
    v
}

/// The string made of the characters `v[from..to]`.
pub fn text_of(v: &Vec<char>, from: usize, to: usize) -> (s: String)
    requires
        from <= to <= v.len(),
    ensures
        s@ == v@.subrange(from as int, to as int),
{
    let mut s = String::new();
    let mut i: usize = from;
    while i < to
        invariant
            from <= i <= to <= v.len(),
            s@ == v@.subrange(from as int, i as int),
        decreases to - i,
    {
        push_char(&mut s, v[i]);
        i = i + 1;
    }
    s
}

/// Whether two strings hold the same characters.
pub fn same_text(a: &str, b: &str) -> (r: bool)
    ensures
        r == (a@ == b@),
{
    let x = a.to_owned();
    let y = b.to_owned();
    x == y
}

/// A copy of an optional string.
pub fn copy_opt_text(o: &Option<String>) -> (r: Option<String>)
    ensures
        r.deep_view() == o.deep_view(),
{
    match o {
        Some(s) => Some(s.clone()),
        None => None,
    }
}

/// Whether two optional strings are both absent or hold the same characters.
pub fn same_opt_text(a: &Option<String>, b: &Option<String>) -> (r: bool)
    ensures
        r == (a.deep_view() == b.deep_view()),
{
    match (a, b) {
        (Some(x), Some(y)) => same_text(x.as_str(), y.as_str()),
        (None, None) => true,
        _ => false,
    }
}

/// A copy of a list of strings.
pub fn copy_names(v: &Vec<String>) -> (r: Vec<String>)
    ensures
        r.deep_view() == v.deep_view(),
{
    let mut r: Vec<String> = Vec::new();
    let mut i: usize = 0;
    while i < v.len()
        invariant
            i <= v.len(),
            r.len() == i,
            forall|j: int| 0 <= j < i ==> r[j]@ == v[j]@,
        decreases v.len() - i,
    {
        r.push(v[i].clone());
        i = i + 1;
    }
    assert(r.deep_view() =~= v.deep_view());
    r
}

/// Whether two lists of strings agree in length and item by item.
pub fn same_names(a: &Vec<String>, b: &Vec<String>) -> (r: bool)
    ensures
        r == (a.deep_view() == b.deep_view()),
{
    if a.len() != b.len() {
        assert(a.deep_view().len() != b.deep_view().len());
        return false;
    }
    let mut i: usize = 0;
    while i < a.len()
        invariant
            i <= a.len(),
            a.len() == b.len(),
            forall|j: int| 0 <= j < i ==> a[j]@ == b[j]@,
        decreases a.len() - i,
    {
        if !same_text(a[i].as_str(), b[i].as_str()) {
            assert(a.deep_view()[i as int] != b.deep_view()[i as int]);
            return false;
        }
        i = i + 1;
    }
    assert(a.deep_view() =~= b.deep_view());
    true
}

/// A copy of an optional list of strings.
pub fn copy_opt_names(o: &Option<Vec<String>>) -> (r: Option<Vec<String>>)
    ensures
        r.deep_view() == o.deep_view(),
{
    match o {
        Some(v) => Some(copy_names(v)),
        None => None,
    }
}

/// Whether two optional lists of strings are both absent or agree item by item.
pub fn same_opt_names(a: &Option<Vec<String>>, b: &Option<Vec<String>>) -> (r: bool)
    ensures
        r == (a.deep_view() == b.deep_view()),
{
    match (a, b) {
        (Some(x), Some(y)) => same_names(x, y),
        (None, None) => true,
        _ => false,
    }
}

/// `text` with each `$h`, found from left to right, replaced by `host`.
pub open spec fn substitute_host(text: Seq<char>, host: Seq<char>) -> Seq<char>
    decreases text.len(),
{
    if text.len() < 2 {
        text
    } else if text[0] == '$' && text[1] == 'h' {
        host + substitute_host(text.skip(2), host)
    } else {
        seq![text[0]] + substitute_host(text.skip(1), host)
    }
}

/// A text without a `$` stays as it is, and a text that begins with `$h`
/// begins with the host instead.
pub proof fn lemma_substitute_host(text: Seq<char>, host: Seq<char>)
    ensures
        !text.contains('$') ==> substitute_host(text, host) == text,
        substitute_host(seq!['$', 'h'] + text, host) == host + substitute_host(text, host),
    decreases text.len(),
{
    let led = seq!['$', 'h'] + text;
    assert(led.skip(2) =~= text);
    if !text.contains('$') && text.len() >= 2 {
        assert(text.contains(text[0]));
        assert forall|c: char| text.skip(1).contains(c) implies text.contains(c) by {
            let i = choose|i: int| 0 <= i < text.skip(1).len() && text.skip(1)[i] == c;
            assert(text[i + 1] == c);
        }
        lemma_substitute_host(text.skip(1), host);
        assert(seq![text[0]] + text.skip(1) =~= text);
    }
}

/// `text` with each `$h` replaced by `host`.
pub fn substitute(text: &str, host: &str) -> (out: String)
    ensures
        out@ == substitute_host(text@, host@),
{
    let v = chars_of(text);
    let mut out = String::new();
    let mut i: usize = 0;
    proof {
        assert(v@.skip(0) =~= v@);
        assert(out@ + substitute_host(v@, host@) =~= substitute_host(v@, host@));
    }
    while i < v.len()
        invariant
            i <= v.len(),
            v@ == text@,
            out@ + substitute_host(v@.skip(i as int), host@) == substitute_host(v@, host@),
        decreases v.len() - i,
    {
        let ghost rest = v@.skip(i as int);
        if v.len() - i >= 2 && v[i] == '$' && v[i + 1] == 'h' {
            proof {
                assert(rest.skip(2) =~= v@.skip(i + 2));
                assert(out@ + (host@ + substitute_host(rest.skip(2), host@)) =~= (out@ + host@)
                    + substitute_host(rest.skip(2), host@));
            }
            out.append(host);
            i = i + 2;
        } else {
            proof {
                if rest.len() >= 2 {
                    assert(rest.skip(1) =~= v@.skip(i + 1));
                    assert(out@ + (seq![rest[0]] + substitute_host(rest.skip(1), host@))
                        =~= out@.push(v@[i as int]) + substitute_host(rest.skip(1), host@));
                } else {
                    assert(rest.len() == 1);
                    assert(v@.skip(i + 1) =~= Seq::<char>::empty());
                    assert(out@ + rest =~= out@.push(v@[i as int]) + Seq::<char>::empty());
                }
            }
            push_char(&mut out, v[i]);
            i = i + 1;
        }
    }
    assert(out@ + Seq::<char>::empty() =~= out@);
    out
}

/// The place of the first `c` in `v`.
pub fn find_first(v: &Vec<char>, c: char) -> (place: Option<usize>)
    ensures
        match place {
            Some(i) => i < v.len() && v@.index_of_first(c) == Some(i as int),
            None => v@.index_of_first(c) is None,
        },
{
    let mut i: usize = 0;
    while i < v.len()
        invariant
            i <= v.len(),
            forall|j: int| 0 <= j < i ==> v@[j] != c,
        decreases v.len() - i,
    {
        if v[i] == c {
            proof {
                v@.index_of_first_ensures(c);
            }
            return Some(i);
        }
        i = i + 1;
    }
    proof {
        v@.index_of_first_ensures(c);
    }
    None
}

/// The place of the last `c` in `v`.
pub fn find_last(v: &Vec<char>, c: char) -> (place: Option<usize>)
    ensures
        match place {
            Some(i) => i < v.len() && v@.index_of_last(c) == Some(i as int),
            None => v@.index_of_last(c) is None,
        },
{
    let mut i: usize = v.len();
    while i > 0
        invariant
            i <= v.len(),
            forall|j: int| i <= j < v.len() ==> v@[j] != c,
        decreases i,
    {
        i = i - 1;
        if v[i] == c {
            proof {
                v@.index_of_last_ensures(c);
            }
            return Some(i);
        }
    }
    proof {
        v@.index_of_last_ensures(c);
    }
    None
}

/// Whether `c` is one of the ten decimal digits.
pub open spec fn is_digit(c: char) -> bool {
    '0' <= c <= '9'
}

/// The number that a sequence of decimal digits writes.
pub open spec fn decimal_value(digits: Seq<char>) -> nat
    decreases digits.len(),
{
    if digits.len() == 0 {
        0
    } else {
        (decimal_value(digits.drop_last()) * 10 + (digits.last() as u32 - '0' as u32)) as nat
    }
}

/// Whether every character of `s` is a decimal digit.
pub open spec fn all_digits(s: Seq<char>) -> bool {
    forall|i: int| 0 <= i < s.len() ==> is_digit(#[trigger] s[i])
}

/// The number of at most 65535 that `digits` writes: at least one decimal
/// digit and nothing else.
pub open spec fn number_of(digits: Seq<char>) -> Option<u16> {
    if digits.len() > 0 && all_digits(digits) && decimal_value(digits) <= u16::MAX {
        Some(decimal_value(digits) as u16)
    } else {
        None
    }
}

/// The port that `text` writes: a number of at most 65535 in decimal
/// digits, which a single `+` may precede.
pub open spec fn port_of(text: Seq<char>) -> Option<u16> {
    if text.len() > 0 && text[0] == '+' {
        number_of(text.skip(1))
    } else {
        number_of(text)
    }
}

/// A longer run of digits writes no smaller number than its beginning.
pub proof fn lemma_decimal_grows(digits: Seq<char>, len: int)
    requires
        0 <= len <= digits.len(),
        all_digits(digits),
    ensures
        decimal_value(digits.take(len)) <= decimal_value(digits),
    decreases digits.len() - len,
{
    if len == digits.len() {
        assert(digits.take(len) =~= digits);
    } else {
        let longer = digits.take(len + 1);
        assert(longer.drop_last() =~= digits.take(len));
        assert(is_digit(digits[len]));
        assert(longer.last() == digits[len]);
        lemma_decimal_grows(digits, len + 1);
    }
}

/// Reads `v[from..]` as a port.
pub fn parse_port(v: &Vec<char>, from: usize) -> (port: Option<u16>)
    requires
        from <= v.len(),
    ensures
        port == port_of(v@.skip(from as int)),
{
    let ghost text = v@.skip(from as int);
    let mut start = from;
    if start < v.len() && v[start] == '+' {
        start = start + 1;
        assert(text.skip(1) =~= v@.skip(start as int));
    } else {
        assert(!(text.len() > 0 && text[0] == '+'));
    }
    let ghost digits = v@.skip(start as int);
    if start == v.len() {
        return None;
    }
    let mut value: u32 = 0;
    let mut i: usize = start;
    assert(digits.take(0) =~= Seq::<char>::empty());
    while i < v.len()
        invariant
            start <= i <= v.len(),
            start < v.len(),
            from <= start,
            digits == v@.skip(start as int),
            port_of(v@.skip(from as int)) == number_of(digits),
            forall|j: int| 0 <= j < i - start ==> is_digit(#[trigger] digits[j]),
            value == decimal_value(digits.take(i - start)),
            value <= u16::MAX,
        decreases v.len() - i,
    {
        let c = v[i];
        assert(c == digits[i - start]);
        if !('0' <= c && c <= '9') {
            assert(!is_digit(digits[i - start]));
            return None;
        }
        let ghost longer = digits.take(i - start + 1);
        assert(longer.drop_last() =~= digits.take(i - start));
        assert(longer.last() == c);
        let digit: u32 = c as u32 - '0' as u32;
        value = value * 10 + digit;
        if value > 65535 {
            proof {
                if all_digits(digits) {
                    lemma_decimal_grows(digits, i - start + 1);
                }
            }
            return None;
        }
        i = i + 1;
    }
    assert(digits.take(i - start) =~= digits);
    Some(value as u16)
}

/// The character that writes a digit.
pub open spec fn digit_char(digit: nat) -> char {
    if digit == 0 {
        '0'
    } else if digit == 1 {
        '1'
    } else if digit == 2 {
        '2'
    } else if digit == 3 {
        '3'
    } else if digit == 4 {
        '4'
    } else if digit == 5 {
        '5'
    } else if digit == 6 {
        '6'
    } else if digit == 7 {
        '7'
    } else if digit == 8 {
        '8'
    } else {
        '9'
    }
}

/// The decimal digits that write `n`, without leading zeros.
pub open spec fn decimal_digits(n: nat) -> Seq<char>
    decreases n,
{
    if n < 10 {
        seq![digit_char(n)]
    } else {
        decimal_digits(n / 10).push(digit_char(n % 10))
    }
}

/// The character that writes a digit.
fn digit_to_char(digit: u64) -> (c: char)
    requires
        digit < 10,
    ensures
        c == digit_char(digit as nat),
{
    if digit == 0 {
        '0'
    } else if digit == 1 {
        '1'
    } else if digit == 2 {
        '2'
    } else if digit == 3 {
        '3'
    } else if digit == 4 {
        '4'
    } else if digit == 5 {
        '5'
    } else if digit == 6 {
        '6'
    } else if digit == 7 {
        '7'
    } else if digit == 8 {
        '8'
    } else {
        '9'
    }
}

/// Writes a number in decimal digits.
pub fn decimal_text(n: u64) -> (text: String)
    ensures
        text@ == decimal_digits(n as nat),
{
    let mut digits: Vec<char> = Vec::new();
    let mut rest = n;
    // the digits from the last to the first
    while rest >= 10
        invariant
            decimal_digits(n as nat) == decimal_digits(rest as nat) + digits@.reverse(),
        decreases rest,
    {
        let ghost before = digits@;
        digits.push(digit_to_char(rest % 10));
        proof {
            let last = digit_char((rest % 10) as nat);
            assert(digits@.reverse() =~= seq![last] + before.reverse());
            assert(decimal_digits(rest as nat) == decimal_digits((rest / 10) as nat).push(last));
            assert(decimal_digits((rest / 10) as nat).push(last) + before.reverse()
                =~= decimal_digits((rest / 10) as nat) + (seq![last] + before.reverse()));
        }
        rest = rest / 10;
    }
    let ghost before = digits@;
    digits.push(digit_to_char(rest));
    proof {
        let first = digit_char(rest as nat);
        assert(digits@.reverse() =~= seq![first] + before.reverse());
        assert(decimal_digits(rest as nat) == seq![first]);
    }
    let mut text = String::new();
    let mut i: usize = digits.len();
    while i > 0
        invariant
            i <= digits.len(),
            text@ == digits@.reverse().take(digits.len() - i),
        decreases i,
    {
        i = i - 1;
        push_char(&mut text, digits[i]);
        assert(digits@.reverse().take(digits.len() - i) =~= digits@.reverse().take(
            digits.len() - i - 1,
        ).push(digits@[i as int]));
    }
    assert(digits@.reverse().take(digits.len() as int) =~= digits@.reverse());
    text
}

/// What is written in decimal digits reads back as the number.
pub proof fn lemma_decimal_round_trip(n: nat)
    ensures
        all_digits(decimal_digits(n)),
        decimal_digits(n).len() > 0,
        decimal_value(decimal_digits(n)) == n,
    decreases n,
{
    if n >= 10 {
        lemma_decimal_round_trip(n / 10);
        let head = decimal_digits(n / 10);
        let last = digit_char(n % 10);
        assert(head.push(last).drop_last() =~= head);
        assert(last as u32 - '0' as u32 == n % 10);
    } else {
        let only = digit_char(n);
        assert(seq![only].drop_last() =~= Seq::<char>::empty());
        assert(decimal_value(Seq::<char>::empty()) == 0);
        assert(only as u32 - '0' as u32 == n);
    }
}

/// Every port, written in decimal digits, reads back as that port.
pub proof fn lemma_port_round_trip(port: u16)
    ensures
        port_of(decimal_digits(port as nat)) == Some(port),
{
    lemma_decimal_round_trip(port as nat);
    let digits = decimal_digits(port as nat);
    assert(digits[0] != '+') by {
        assert(is_digit(digits[0]));
    }
}

} // verus!

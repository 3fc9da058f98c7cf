use vstd::prelude::*;
use vstd::string::StringSliceAdditionalSpecFns;

verus! {

/// The sign flag of a format specification.
#[derive(Debug, PartialEq, Eq, Structural)]
pub enum Sign {
    Plus,
    Minus,
}

/// The precision of a format specification.
#[derive(Debug, PartialEq, Eq, Structural)]
pub enum Precision {
    /// `.N`
    Integer(usize),
    /// `.N$`: taken from the argument at index `N`.
    Argument(usize),
    /// `.*`
    Asterisk,
}

pub open spec fn is_digit(c: u8) -> bool {
    48 <= c <= 57
}

/// `<`, `^` or `>`.
pub open spec fn is_align(c: u8) -> bool {
    c == 60 || c == 94 || c == 62
}

/// `+` or `-`.
pub open spec fn is_sign(c: u8) -> bool {
    c == 43 || c == 45
}

/// An ASCII letter, digit or `_`.
pub open spec fn is_word(c: u8) -> bool {
    is_digit(c) || (65 <= c <= 90) || (97 <= c <= 122) || c == 95
}

/// Length of the `[[fill]align]` part at the start of `s`; a fill is any
/// byte but a sign.
pub open spec fn align_len(s: Seq<u8>) -> int {
    if s.len() >= 2 && is_align(s[1]) && !is_sign(s[0]) {
        2
    } else if s.len() >= 1 && is_align(s[0]) {
        1
    } else {
        0
    }
}

/// End of the run of digits that starts at `i`.
pub open spec fn digits_end(s: Seq<u8>, i: int) -> int
    decreases s.len() - i,
{
    if 0 <= i < s.len() && is_digit(s[i]) {
        digits_end(s, i + 1)
    } else {
        i
    }
}

/// The number that the decimal digits `d` write.
pub open spec fn decimal(d: Seq<u8>) -> nat
    decreases d.len(),
{
    if d.len() == 0 {
        0
    } else {
        decimal(d.drop_last()) * 10 + (d.last() - 48) as nat
    }
}

/// Whether `t` is an accepted type: empty, `?`, or a word.
pub open spec fn is_type(t: Seq<u8>) -> bool {
    t.len() == 0 || t =~= seq![63u8] || forall|i: int| 0 <= i < t.len() ==> is_word(#[trigger] t[i])
}

/// The sign flag, read after the `[[fill]align]` part.
pub open spec fn sign_of(s: Seq<u8>) -> Option<Sign> {
    let fill_end = align_len(s);
    if fill_end < s.len() && s[fill_end] == 43 {
        Some(Sign::Plus)
    } else if fill_end < s.len() && s[fill_end] == 45 {
        Some(Sign::Minus)
    } else {
        None
    }
}

/// Where the width starts: after `[[fill]align][sign]['#']['0']`.
pub open spec fn flags_end(s: Seq<u8>) -> int {
    let fill_end = align_len(s);
    let sign_end = if sign_of(s) is Some { fill_end + 1 } else { fill_end };
    let hash_end = if sign_end < s.len() && s[sign_end] == 35 { sign_end + 1 } else { sign_end };
    if hash_end < s.len() && s[hash_end] == 48 { hash_end + 1 } else { hash_end }
}

/// The `['.' precision][type]` part that starts at `p`: `None` where it is
/// malformed or its number does not fit in `usize`, else the precision it
/// gives, if any.
pub open spec fn precision_part(s: Seq<u8>, p: int) -> Option<Option<Precision>> {
    let has_dot = p < s.len() && s[p] == 46;
    let star = has_dot && p + 1 < s.len() && s[p + 1] == 42;
    let q = digits_end(s, p + 1);
    let prec = decimal(s.subrange(p + 1, q));
    let dollar = has_dot && !star && q < s.len() && s[q] == 36;
    let end = if !has_dot {
        p
    } else if star {
        p + 2
    } else if dollar {
        q + 1
    } else {
        q
    };
    if !is_type(s.subrange(end, s.len() as int)) {
        None
    } else if !has_dot {
        Some(None)
    } else if star {
        Some(Some(Precision::Asterisk))
    } else if q == p + 1 || prec > usize::MAX {
        None
    } else if dollar {
        Some(Some(Precision::Argument(prec as usize)))
    } else {
        Some(Some(Precision::Integer(prec as usize)))
    }
}

/// What a format specification `[[fill]align][sign]['#']['0'][width]['.'
/// precision][type]` holds, where width is a decimal number, precision is a
/// decimal number, a decimal number followed by `$`, or `*`, and type is
/// empty, `?` or a word. Bytes that do not form such a specification, or
/// numbers that do not fit in `usize`, give nothing at all.
pub open spec fn format_spec(s: Seq<u8>) -> (Option<Sign>, Option<usize>, Option<Precision>) {
    let width_start = flags_end(s);
    let width_end = digits_end(s, width_start);
    let width = decimal(s.subrange(width_start, width_end));
    match precision_part(s, width_end) {
        None => (None, None, None),
        Some(prec) => if width_end > width_start && width > usize::MAX {
            (None, None, None)
        } else {
            (sign_of(s), if width_end > width_start { Some(width as usize) } else { None }, prec)
        },
    }
}

proof fn lemma_decimal_grows(d: Seq<u8>, e: Seq<u8>)
    requires
        forall|i: int| 0 <= i < e.len() ==> is_digit(#[trigger] e[i]),
    ensures
        decimal(d + e) >= decimal(d),
    decreases e.len(),
{
    if e.len() > 0 {
        let e2 = e.drop_last();
        lemma_decimal_grows(d, e2);
        assert((d + e).drop_last() =~= d + e2);
    }
}

/// End of the run of digits in `b` that starts at `from`.
fn scan_digits(b: &[u8], from: usize) -> (r: usize)
    requires
        from <= b@.len(),
    ensures
        r == digits_end(b@, from as int),
        from <= r <= b@.len(),
        forall|i: int| from <= i < r ==> is_digit(#[trigger] b@[i]),
{
    let mut i = from;
    while i < b.len() && 48 <= b[i] && b[i] <= 57
        invariant
            from <= i <= b@.len(),
            digits_end(b@, from as int) == digits_end(b@, i as int),
            forall|j: int| from <= j < i ==> is_digit(#[trigger] b@[j]),
        decreases b@.len() - i,
    {
        i = i + 1;
    }
    i
}

/// The number that the digits `b[from..to]` write, if it fits in `usize`.
fn read_decimal(b: &[u8], from: usize, to: usize) -> (r: Option<usize>)
    requires
        from <= to <= b@.len(),
        forall|i: int| from <= i < to ==> is_digit(#[trigger] b@[i]),
    ensures
        r == (if decimal(b@.subrange(from as int, to as int)) <= usize::MAX {
            Some(decimal(b@.subrange(from as int, to as int)) as usize)
        } else {
            None
        }),
{
    let mut v: usize = 0;
    let mut i = from;
    while i < to
        invariant
            from <= i <= to <= b@.len(),
            forall|j: int| from <= j < to ==> is_digit(#[trigger] b@[j]),
            v as nat == decimal(b@.subrange(from as int, i as int)),
        decreases to - i,
    {
        let d = (b[i] - 48) as usize;
        proof {
            assert(b@.subrange(from as int, i + 1).drop_last() =~= b@.subrange(from as int, i as int));
        }
        if v > (usize::MAX - d) / 10 {
            proof {
                let whole = b@.subrange(from as int, to as int);
                let pre = b@.subrange(from as int, i + 1);
                let post = b@.subrange(i + 1, to as int);
                assert(pre + post =~= whole);
                assert forall|j: int| 0 <= j < post.len() implies is_digit(#[trigger] post[j]) by {
                    assert(post[j] == b@[i + 1 + j]);
                }
                lemma_decimal_grows(pre, post);
                assert(decimal(pre) == v * 10 + d);
                assert(v * 10 + d > usize::MAX) by (nonlinear_arith)
                    requires
                        v > (usize::MAX - d) / 10,
                        d <= 9,
                ;
            }
            return None;
        }
        proof {
            assert(v * 10 + d <= usize::MAX) by (nonlinear_arith)
                requires
                    v <= (usize::MAX - d) / 10,
                    d <= 9,
            ;
        }
        v = v * 10 + d;
        i = i + 1;
    }
    Some(v)
}

/// Whether `b[from..]` is an accepted type: empty, `?`, or a word.
fn check_type(b: &[u8], from: usize) -> (r: bool)
    requires
        from <= b@.len(),
    ensures
        r == is_type(b@.subrange(from as int, b@.len() as int)),
{
    let ghost t = b@.subrange(from as int, b@.len() as int);
    if from == b.len() {
        return true;
    }
    if from + 1 == b.len() && b[from] == 63 {
        assert(t =~= seq![63u8]);
        return true;
    }
    let mut i = from;
    while i < b.len()
        invariant
            from <= i <= b@.len(),
            t == b@.subrange(from as int, b@.len() as int),
            from < b@.len(),
            !(from + 1 == b@.len() && b@[from as int] == 63),
            forall|j: int| from <= j < i ==> is_word(#[trigger] b@[j]),
        decreases b@.len() - i,
    {
        let c = b[i];
        if !((48 <= c && c <= 57) || (65 <= c && c <= 90) || (97 <= c && c <= 122) || c == 95) {
            proof {
                assert(t[i - from] == c);
                assert(!is_word(t[i - from]));
                assert(t.len() > 0);
                if t =~= seq![63u8] {
                    assert(t.len() == 1);
                    assert(b@.len() == from + 1);
                    assert(t[0] == b@[from as int]);
                }
            }
            return false;
        }
        i = i + 1;
    }
    proof {
        assert forall|j: int| 0 <= j < t.len() implies is_word(#[trigger] t[j]) by {
            assert(t[j] == b@[from + j]);
        }
    }
    true
}

/// The sign flag and where the width starts.
fn read_flags(b: &[u8]) -> (r: (Option<Sign>, usize))
    ensures
        r.0 == sign_of(b@),
        r.1 == flags_end(b@),
        r.1 <= b@.len(),
{
    let n = b.len();
    let fill_end: usize = if n >= 2 && (b[1] == 60 || b[1] == 94 || b[1] == 62) && !(b[0] == 43 || b[0]
        == 45) {
        2
    } else if n >= 1 && (b[0] == 60 || b[0] == 94 || b[0] == 62) {
        1
    } else {
        0
    };
    let sign = if fill_end < n && b[fill_end] == 43 {
        Some(Sign::Plus)
    } else if fill_end < n && b[fill_end] == 45 {
        Some(Sign::Minus)
    } else {
        None
    };
    let sign_end: usize = if sign.is_some() { fill_end + 1 } else { fill_end };
    let hash_end: usize = if sign_end < n && b[sign_end] == 35 { sign_end + 1 } else { sign_end };
    let width_start: usize = if hash_end < n && b[hash_end] == 48 { hash_end + 1 } else { hash_end };
    (sign, width_start)
}

/// The `['.' precision][type]` part that starts at `p`.
fn read_precision(b: &[u8], p: usize) -> (r: Option<Option<Precision>>)
    requires
        p <= b@.len(),
    ensures
        r == precision_part(b@, p as int),
{
    let n = b.len();
    let has_dot = p < n && b[p] == 46;
    if !has_dot {
        if !check_type(b, p) {
            return None;
        }
        return Some(None);
    }
    if p + 1 < n && b[p + 1] == 42 {
        if !check_type(b, p + 2) {
            return None;
        }
        return Some(Some(Precision::Asterisk));
    }
    let q = scan_digits(b, p + 1);
    let dollar = q < n && b[q] == 36;
    let end = if dollar { q + 1 } else { q };
    if !check_type(b, end) {
        return None;
    }
    if q == p + 1 {
        return None;
    }
    let prec = match read_decimal(b, p + 1, q) {
        Some(v) => v,
        None => { return None; },
    };
    if dollar {
        Some(Some(Precision::Argument(prec)))
    } else {
        Some(Some(Precision::Integer(prec)))
    }
}

/// Reads the sign, width and precision of a format specification such as
/// `>+8.*` or `a^#043.8?`; see `format_spec`.
pub fn parse(input: &str) -> (r: (Option<Sign>, Option<usize>, Option<Precision>))
    ensures
        r == format_spec(input.spec_bytes()),
{
    let b = input.as_bytes();
    let (sign, width_start) = read_flags(b);
    let width_end = scan_digits(b, width_start);
    let prec = match read_precision(b, width_end) {
        Some(pr) => pr,
        None => { return (None, None, None); },
    };
    if width_end > width_start {
        match read_decimal(b, width_start, width_end) {
            Some(w) => (sign, Some(w), prec),
            None => (None, None, None),
        }
    } else {
        (sign, None, prec)
    }
}

} // verus!

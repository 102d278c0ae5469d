use vstd::prelude::*;
use vstd::string::StringExecFns;

verus! {

/// `a` sorts strictly before `b` in the lexicographic order of their
/// characters (for UTF-8 text the same order as that of their bytes).
pub open spec fn precedes(a: Seq<char>, b: Seq<char>) -> bool
    decreases a.len(),
{
    if a.len() == 0 {
        b.len() > 0
    } else if b.len() == 0 {
        false
    } else if a[0] != b[0] {
        a[0] < b[0]
    } else {
        precedes(a.drop_first(), b.drop_first())
    }
}

pub proof fn lemma_precedes_irreflexive(a: Seq<char>)
    ensures
        !precedes(a, a),
    decreases a.len(),
{
    if a.len() > 0 {
        lemma_precedes_irreflexive(a.drop_first());
    }
}

pub proof fn lemma_precedes_total(a: Seq<char>, b: Seq<char>)
    ensures
        a == b || precedes(a, b) || precedes(b, a),
    decreases a.len(),
{
    if a.len() > 0 && b.len() > 0 && a[0] == b[0] {
        lemma_precedes_total(a.drop_first(), b.drop_first());
        if a.drop_first() == b.drop_first() {
            assert(a =~= seq![a[0]] + a.drop_first());
            assert(b =~= seq![b[0]] + b.drop_first());
        }
    } else if a.len() == 0 && b.len() == 0 {
        assert(a =~= b);
    }
}

pub proof fn lemma_precedes_transitive(a: Seq<char>, b: Seq<char>, c: Seq<char>)
    requires
        precedes(a, b),
        precedes(b, c),
    ensures
        precedes(a, c),
    decreases a.len(),
{
    if a.len() > 0 && b.len() > 0 && c.len() > 0 && a[0] == b[0] && b[0] == c[0] {
        lemma_precedes_transitive(a.drop_first(), b.drop_first(), c.drop_first());
    }
}

/// Whether `a` sorts strictly before `b`, comparing character by character
/// (the order of std's `<` on `str`).
pub(crate) fn str_precedes(a: &str, b: &str) -> (before: bool)
    ensures
        before == precedes(a@, b@),
{
    let x = chars_of(a);
    let y = chars_of(b);
    let mut i: usize = 0;
    assert(x@.skip(0) =~= x@ && y@.skip(0) =~= y@);
    while i < x.len() && i < y.len()
        invariant
            x@ == a@,
            y@ == b@,
            i <= x@.len(),
            i <= y@.len(),
            precedes(x@.skip(i as int), y@.skip(i as int)) == precedes(a@, b@),
        decreases x@.len() - i,
    {
        if x[i] != y[i] {
            let ghost p = x@.skip(i as int);
            let ghost q = y@.skip(i as int);
            assert(p[0] == x@[i as int] && q[0] == y@[i as int]);
            return x[i] < y[i];
        }
        proof {
            let p = x@.skip(i as int);
            let q = y@.skip(i as int);
            assert(p[0] == q[0]);
            assert(p.drop_first() =~= x@.skip(i + 1));
            assert(q.drop_first() =~= y@.skip(i + 1));
        }
        i = i + 1;
    }
    proof {
        let p = x@.skip(i as int);
        let q = y@.skip(i as int);
        assert(p.len() == x@.len() - i && q.len() == y@.len() - i);
    }
    i == x.len() && i < y.len()
}

} // verus!

verus! {

/// Whether two strings have the same characters (std's `==` on `str`).
pub(crate) fn str_equals(a: &str, b: &str) -> (same: bool)
    ensures
        same == (a@ == b@),
{
    let x = chars_of(a);
    let y = chars_of(b);
    if x.len() != y.len() {
        return false;
    }
    for i in 0..x.len()
        invariant
            x@ == a@,
            y@ == b@,
            x@.len() == y@.len(),
            forall|k: int| 0 <= k < i ==> x@[k] == y@[k],
    {
        if x[i] != y[i] {
            return false;
        }
    }
    assert(x@ =~= y@);
    true
}

} // verus!

verus! {

/// The decimal digit for `d` (below ten).
pub open spec fn digit_char(d: nat) -> char {
    if d == 0 {
        '0'
    } else if d == 1 {
        '1'
    } else if d == 2 {
        '2'
    } else if d == 3 {
        '3'
    } else if d == 4 {
        '4'
    } else if d == 5 {
        '5'
    } else if d == 6 {
        '6'
    } else if d == 7 {
        '7'
    } else if d == 8 {
        '8'
    } else {
        '9'
    }
}

/// `n` written in decimal without leading zeros, as `Display` writes integers.
pub open spec fn decimal(n: nat) -> Seq<char>
    decreases n,
{
    if n < 10 {
        seq![digit_char(n)]
    } else {
        decimal(n / 10).push(digit_char(n % 10))
    }
}

fn digit_text(d: u64) -> (text: &'static str)
    requires
        d < 10,
    ensures
        text@ == seq![digit_char(d as nat)],
{
    proof {
        reveal_strlit("0");
        reveal_strlit("1");
        reveal_strlit("2");
        reveal_strlit("3");
        reveal_strlit("4");
        reveal_strlit("5");
        reveal_strlit("6");
        reveal_strlit("7");
        reveal_strlit("8");
        reveal_strlit("9");
    }
    if d == 0 {
        "0"
    } else if d == 1 {
        "1"
    } else if d == 2 {
        "2"
    } else if d == 3 {
        "3"
    } else if d == 4 {
        "4"
    } else if d == 5 {
        "5"
    } else if d == 6 {
        "6"
    } else if d == 7 {
        "7"
    } else if d == 8 {
        "8"
    } else {
        "9"
    }
}

/// The number that a string of decimal digits stands for.
pub open spec fn digits_value(digits: Seq<char>) -> int
    decreases digits.len(),
{
    if digits.len() == 0 {
        0
    } else {
        digits_value(digits.drop_last()) * 10 + (digits.last() as int - '0' as int)
    }
}

pub open spec fn is_digit(c: char) -> bool {
    '0' <= c && c <= '9'
}

/// `decimal(n)` is written as integers are: it is made of digits only, has
/// no leading zero (but for zero itself), and reads back as `n`.
pub proof fn lemma_decimal_reads_back(n: nat)
    ensures
        decimal(n).len() > 0,
        forall|i: int| 0 <= i < decimal(n).len() ==> is_digit(#[trigger] decimal(n)[i]),
        digits_value(decimal(n)) == n,
        decimal(n)[0] == '0' ==> n == 0,
    decreases n,
{
    if n >= 10 {
        lemma_decimal_reads_back(n / 10);
        let head = decimal(n / 10);
        let d = (n % 10) as nat;
        assert(decimal(n) == head.push(digit_char(d)));
        assert(head.push(digit_char(d)).drop_last() =~= head);
        assert(digit_char(d) as int - '0' as int == d);
        assert forall|i: int| 0 <= i < decimal(n).len() implies is_digit(#[trigger] decimal(n)[i]) by {
            if i < head.len() {
                assert(decimal(n)[i] == head[i]);
            }
        }
        assert(digits_value(head.push(digit_char(d))) == digits_value(head) * 10 + d);
        assert((n / 10) * 10 + d == n);
        assert(decimal(n)[0] == head[0]);
    } else {
        assert(seq![digit_char(n)].drop_last() =~= Seq::<char>::empty());
        assert(digit_char(n) as int - '0' as int == n);
        assert(digits_value(decimal(n)) == digits_value(Seq::<char>::empty()) * 10 + n);
    }
}

/// `n` in decimal.
pub fn decimal_text(n: u64) -> (text: String)
    ensures
        text@ == decimal(n as nat),
    decreases n,
{
    if n < 10 {
        digit_text(n).to_string()
    } else {
        let head = decimal_text(n / 10);
        let text = head.concat(digit_text(n % 10));
        assert(text@ =~= decimal(n as nat));
        text
    }
}

} // verus!

verus! {

/// The characters of `text`, in order.
pub fn chars_of(text: &str) -> (chars: Vec<char>)
    ensures
        chars@ == text@,
{
    let ghost s = text@;
    let mut chars: Vec<char> = Vec::new();
    for c in it: text.chars()
        invariant
            it.seq() == s,
            chars@ == s.take(it.index() as int),
    {
        chars.push(c);
        assert(chars@ =~= s.take(it.index() + 1));
    }
    assert(chars@ =~= s);
    chars
}

pub open spec fn ends_with(text: Seq<char>, suffix: Seq<char>) -> bool {
    suffix.len() <= text.len() && text.subrange(text.len() - suffix.len(), text.len() as int) == suffix
}

/// Whether `text` ends with `suffix`.
pub fn text_ends_with(text: &str, suffix: &str) -> (ends: bool)
    ensures
        ends == ends_with(text@, suffix@),
{
    let t = chars_of(text);
    let x = chars_of(suffix);
    if x.len() > t.len() {
        return false;
    }
    let offset = t.len() - x.len();
    for i in 0..x.len()
        invariant
            t@ == text@,
            x@ == suffix@,
            offset + x.len() == t.len(),
            forall|k: int| 0 <= k < i ==> t@[offset + k] == x@[k],
    {
        if t[offset + i] != x[i] {
            assert(t@.subrange(offset as int, t@.len() as int)[i as int] != x@[i as int]);
            return false;
        }
    }
    assert(t@.subrange(offset as int, t@.len() as int) =~= x@);
    true
}

} // verus!

verus! {

/// Unicode's White_Space property, which `char::is_whitespace` tests: tab,
/// line feed, vertical tab, form feed, carriage return, space, next line,
/// no-break space, ogham space mark, the spaces U+2000 to U+200A, line and
/// paragraph separators, narrow no-break space, medium mathematical space and
/// ideographic space.
pub open spec fn is_white_space(c: char) -> bool {
    let u = c as u32;
    (0x09 <= u && u <= 0x0d) || u == 0x20 || u == 0x85 || u == 0xa0 || u == 0x1680 || (0x2000 <= u
        && u <= 0x200a) || u == 0x2028 || u == 0x2029 || u == 0x202f || u == 0x205f || u == 0x3000
}

fn char_is_white_space(c: char) -> (white: bool)
    ensures
        white == is_white_space(c),
{
    let u = c as u32;
    (0x09 <= u && u <= 0x0d) || u == 0x20 || u == 0x85 || u == 0xa0 || u == 0x1680 || (0x2000 <= u
        && u <= 0x200a) || u == 0x2028 || u == 0x2029 || u == 0x202f || u == 0x205f || u == 0x3000
}

/// A text is blank when trimming its white space leaves nothing, that is when
/// every character is white space.
pub open spec fn is_blank(text: Seq<char>) -> bool {
    forall|i: int| 0 <= i < text.len() ==> is_white_space(#[trigger] text[i])
}

pub fn text_is_blank(text: &str) -> (blank: bool)
    ensures
        blank == is_blank(text@),
{
    let chars = chars_of(text);
    for i in 0..chars.len()
        invariant
            chars@ == text@,
            forall|k: int| 0 <= k < i ==> is_white_space(#[trigger] chars@[k]),
    {
        if !char_is_white_space(chars[i]) {
            return false;
        }
    }
    true
}

} // verus!

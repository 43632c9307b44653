use vstd::prelude::*;

verus! {

pub open spec fn digit(c: char) -> bool {
    '0' <= c && c <= '9'
}

pub open spec fn all_digits(s: Seq<char>) -> bool {
    forall|i: int| 0 <= i < s.len() ==> digit(#[trigger] s[i])
}

/// A run of digits, optionally followed by `.` and at least one more digit.
pub open spec fn is_decimal_literal(t: Seq<char>) -> bool {
    ||| t.len() > 0 && all_digits(t)
    ||| exists|p: int|
        0 < p < t.len() - 1 && #[trigger] t[p] == '.' && all_digits(t.take(p)) && all_digits(
            t.skip(p + 1),
        )
}

/// Position of the first `.`, or the length when there is none.
pub open spec fn dot_index(t: Seq<char>) -> nat
    decreases t.len(),
{
    if t.len() == 0 {
        0
    } else if t[0] == '.' {
        0
    } else {
        1 + dot_index(t.drop_first())
    }
}

/// Drops leading zeros, keeping at least one character.
pub open spec fn strip_leading_zeros(w: Seq<char>) -> Seq<char>
    decreases w.len(),
{
    if w.len() > 1 && w[0] == '0' {
        strip_leading_zeros(w.drop_first())
    } else {
        w
    }
}

pub open spec fn strip_trailing_zeros(f: Seq<char>) -> Seq<char>
    decreases f.len(),
{
    if f.len() > 0 && f.last() == '0' {
        strip_trailing_zeros(f.drop_last())
    } else {
        f
    }
}

/// The shortest decimal text of a literal's exact value: no leading zeros in
/// the whole part, no trailing zeros in the fraction, and no `.` when the
/// fraction is zero (`007.50` is `7.5`, `12.0` is `12`). All digits are kept,
/// where printing a double would round past its precision.
pub open spec fn canonical(t: Seq<char>) -> Seq<char> {
    let d = dot_index(t);
    let whole = strip_leading_zeros(t.take(d as int));
    let frac = if d < t.len() {
        strip_trailing_zeros(t.skip(d as int + 1))
    } else {
        Seq::<char>::empty()
    };
    if frac.len() == 0 {
        whole
    } else {
        whole + seq!['.'] + frac
    }
}

/// Two decimal literals denote the same number, compared exactly. Doubles
/// would round literals with more than about 17 significant digits, so two
/// such literals may be equal as doubles yet differ here
/// (`9007199254740993` and `9007199254740992`).
pub open spec fn same_value(a: Seq<char>, b: Seq<char>) -> bool {
    canonical(a) == canonical(b)
}

/// A number literal, held as the decimal text it was written with.
#[derive(Debug)]
pub struct Number {
    text: String,
}

impl View for Number {
    type V = Seq<char>;

    closed spec fn view(&self) -> Seq<char> {
        self.text@
    }
}


impl Number {
    pub(crate) fn from_lexeme(text: String) -> (r: Number)
        ensures
            r@ == text@,
    {
        Number { text }
    }

    /// Reads a decimal literal: `None` unless `text` is one.
    pub fn parse(text: &str) -> (r: Option<Number>)
        ensures
            r is Some <==> is_decimal_literal(text@),
            r matches Some(n) ==> n@ == text@,
    {
        let len = text.unicode_len();
        let d = find_dot(text);
        if d == 0 {
            proof {
                assert(!(text@.len() > 0 && all_digits(text@)));
                assert forall|p: int| 0 < p < text@.len() - 1 && #[trigger] text@[p] == '.'
                    implies !(all_digits(text@.take(p)) && all_digits(text@.skip(p + 1))) by {
                    assert(text@.take(p)[0] == text@[0]);
                }
            }
            return None;
        }
        if !digits_between(text, 0, d) {
            proof {
                let i = choose|i: int| 0 <= i < d && !digit(#[trigger] text@[i]);
                assert(!all_digits(text@));
                assert forall|p: int| 0 < p < text@.len() - 1 && #[trigger] text@[p] == '.'
                    implies !(all_digits(text@.take(p)) && all_digits(text@.skip(p + 1))) by {
                    assert(p >= d);
                    assert(text@.take(p)[i] == text@[i]);
                }
            }
            return None;
        }
        if d == len {
            proof {
                assert(all_digits(text@));
            }
            return Some(Number { text: String::from_str(text) });
        }
        if d + 1 == len || !digits_between(text, d + 1, len) {
            proof {
                assert(!digit(text@[d as int]));
                assert(!all_digits(text@));
                assert forall|p: int| 0 < p < text@.len() - 1 && #[trigger] text@[p] == '.'
                    implies !(all_digits(text@.take(p)) && all_digits(text@.skip(p + 1))) by {
                    assert(p >= d);
                    if p > d {
                        assert(text@.take(p)[d as int] == text@[d as int]);
                        assert(!all_digits(text@.take(p)));
                    } else {
                        let i = choose|i: int| d + 1 <= i < len && !digit(#[trigger] text@[i]);
                        assert(text@.skip(p + 1)[i - p - 1] == text@[i]);
                    }
                }
            }
            return None;
        }
        proof {
            assert(all_digits(text@.take(d as int)));
            assert(all_digits(text@.skip(d + 1)));
            assert(text@[d as int] == '.');
        }
        Some(Number { text: String::from_str(text) })
    }

    /// The shortest decimal text of this number's exact value, every digit
    /// kept (a double would be printed rounded past its precision).
    pub fn canonical_text(&self) -> (r: String)
        ensures
            r@ == canonical(self@),
    {
        let t = self.text.as_str();
        let len = t.unicode_len();
        let d = find_dot(t);
        // whole part: drop leading zeros, keeping one character
        let mut lead: usize = 0;
        while lead + 1 < d && t.get_char(lead) == '0'
            invariant
                d <= len == t@.len(),
                d == dot_index(t@),
                lead < d || lead == 0,
                strip_leading_zeros(t@.take(d as int)) == strip_leading_zeros(
                    t@.subrange(lead as int, d as int),
                ),
            decreases d - lead,
        {
            proof {
                let w = t@.subrange(lead as int, d as int);
                assert(w.drop_first() =~= t@.subrange(lead + 1, d as int));
            }
            lead = lead + 1;
        }
        proof {
            let w = t@.subrange(lead as int, d as int);
            assert(strip_leading_zeros(w) == w);
        }
        if d == len {
            proof {
                assert(t@.take(d as int) =~= t@);
            }
            return String::from_str(t.substring_char(lead, d));
        }
        // fraction: drop trailing zeros
        let mut end: usize = len;
        while end > d + 1 && t.get_char(end - 1) == '0'
            invariant
                d < len == t@.len(),
                d + 1 <= end <= len,
                strip_trailing_zeros(t@.skip(d + 1)) == strip_trailing_zeros(
                    t@.subrange(d + 1, end as int),
                ),
            decreases end,
        {
            proof {
                let f = t@.subrange(d + 1, end as int);
                assert(f.drop_last() =~= t@.subrange(d + 1, end - 1));
            }
            end = end - 1;
        }
        proof {
            assert(t@.skip(d + 1) =~= t@.subrange(d + 1, len as int));
            let f = t@.subrange(d + 1, end as int);
            assert(strip_trailing_zeros(f) == f);
        }
        if end == d + 1 {
            return String::from_str(t.substring_char(lead, d));
        }
        proof {
            assert(t@.subrange(lead as int, end as int) =~= t@.subrange(lead as int, d as int)
                + seq!['.'] + t@.subrange(d + 1, end as int));
        }
        String::from_str(t.substring_char(lead, end))
    }

    /// Whether two literals denote the same number (`1` and `1.0` do),
    /// compared exactly rather than as doubles: literals beyond double
    /// precision that round to one double still differ here.
    pub fn same_value(&self, other: &Number) -> (r: bool)
        ensures
            r == same_value(self@, other@),
    {
        let a = self.canonical_text();
        let b = other.canonical_text();
        a.eq(&b)
    }
}

/// Index of the first `.` of `t`, or its length.
fn find_dot(t: &str) -> (r: usize)
    ensures
        r == dot_index(t@),
        r <= t@.len(),
        r < t@.len() ==> t@[r as int] == '.',
        forall|i: int| 0 <= i < r ==> t@[i] != '.',
{
    let len = t.unicode_len();
    let mut i: usize = 0;
    proof {
        assert(t@.skip(0) =~= t@);
    }
    while i < len && t.get_char(i) != '.'
        invariant
            len == t@.len(),
            i <= len,
            dot_index(t@) == i + dot_index(t@.skip(i as int)),
            forall|j: int| 0 <= j < i ==> t@[j] != '.',
        decreases len - i,
    {
        proof {
            assert(t@.skip(i as int).drop_first() =~= t@.skip(i + 1));
        }
        i = i + 1;
    }
    i
}

/// Whether `t[from..to]` holds only digits.
fn digits_between(t: &str, from: usize, to: usize) -> (r: bool)
    requires
        from <= to <= t@.len(),
    ensures
        r == (forall|i: int| from <= i < to ==> digit(#[trigger] t@[i])),
{
    let mut i: usize = from;
    while i < to
        invariant
            from <= i <= to <= t@.len(),
            forall|j: int| from <= j < i ==> digit(#[trigger] t@[j]),
        decreases to - i,
    {
        let c = t.get_char(i);
        if !('0' <= c && c <= '9') {
            return false;
        }
        i = i + 1;
    }
    true
}

impl Clone for Number {
    fn clone(&self) -> (r: Self)
        ensures
            r == *self,
    {
        Number { text: self.text.clone() }
    }
}

impl PartialEq for Number {
    fn eq(&self, other: &Number) -> (r: bool) {
        self.same_value(other)
    }
}

impl vstd::std_specs::cmp::PartialEqSpecImpl for Number {
    open spec fn obeys_eq_spec() -> bool {
        true
    }

    open spec fn eq_spec(&self, other: &Number) -> bool {
        same_value(self@, other@)
    }
}

} // verus!

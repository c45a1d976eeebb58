//! Character-level helpers on strings: searching, slicing and decimal text.

use vstd::prelude::*;

verus! {

/// `String::push` appends one character to the end of the string.
pub assume_specification[ String::push ](s: &mut String, ch: char)
    ensures
        final(s)@ == old(s)@.push(ch),
;

/// `pat` stands in `s` at position `i`.
pub open spec fn occurs_at(s: Seq<char>, pat: Seq<char>, i: int) -> bool {
    0 <= i && i + pat.len() <= s.len() && s.subrange(i, i + pat.len()) == pat
}

/// `pat` stands somewhere in `s`.
pub open spec fn contains(s: Seq<char>, pat: Seq<char>) -> bool {
    exists|i: int| occurs_at(s, pat, i)
}

/// `pat` stands in `s` at position `i` and nowhere before it.
pub open spec fn is_first_occurrence(s: Seq<char>, pat: Seq<char>, i: int) -> bool {
    occurs_at(s, pat, i) && forall|j: int| 0 <= j < i ==> !occurs_at(s, pat, j)
}

/// The position of the first occurrence of `pat` in `s`; meaningful when
/// `contains(s, pat)`.
pub open spec fn first_occurrence(s: Seq<char>, pat: Seq<char>) -> int {
    choose|i: int| is_first_occurrence(s, pat, i)
}

/// `s` cut in two at the first occurrence of `sep`, which belongs to neither
/// part; `None` when `sep` does not occur.
pub open spec fn split_once(s: Seq<char>, sep: Seq<char>) -> Option<(Seq<char>, Seq<char>)> {
    if contains(s, sep) {
        let i = first_occurrence(s, sep);
        Some((s.take(i), s.skip(i + sep.len())))
    } else {
        None
    }
}

/// The test that a character is another than `a`.
pub open spec fn other_than(a: char) -> spec_fn(char) -> bool {
    |c: char| c != a
}

/// `s` without the characters that equal `a`.
pub open spec fn without(s: Seq<char>, a: char) -> Seq<char> {
    s.filter(other_than(a))
}

/// `s` without its last character, where that is `a`.
pub open spec fn without_final(s: Seq<char>, a: char) -> Seq<char> {
    if s.len() > 0 && s.last() == a {
        s.drop_last()
    } else {
        s
    }
}

/// `c` is one of the ten decimal digits.
pub open spec fn is_digit(c: char) -> bool {
    c == '0' || c == '1' || c == '2' || c == '3' || c == '4' || c == '5' || c == '6' || c == '7'
        || c == '8' || c == '9'
}

/// `s` is made of exactly `n` decimal digits.
pub open spec fn is_digits(s: Seq<char>, n: nat) -> bool {
    s.len() == n && forall|i: int| 0 <= i < s.len() ==> is_digit(#[trigger] s[i])
}

/// The decimal digit for `d`, which is below ten.
pub open spec fn digit_char(d: int) -> char {
    if d == 0 {
        '0'
    } else if d == 1 {
        '1'
    } else if d == 2 {
        '2'
    } else if d == 3 {
        '3'
    } else if d == 4 {
        '4'
    } else if d == 5 {
        '5'
    } else if d == 6 {
        '6'
    } else if d == 7 {
        '7'
    } else if d == 8 {
        '8'
    } else {
        '9'
    }
}

/// The decimal text of `n`, without leading zeros.
pub open spec fn decimal(n: nat) -> Seq<char>
    decreases n,
{
    if n < 10 {
        seq![digit_char(n as int)]
    } else {
        decimal(n / 10).push(digit_char((n % 10) as int))
    }
}

/// Two first occurrences of one pattern are the same position.
pub proof fn lemma_first_occurrence_unique(s: Seq<char>, pat: Seq<char>, i: int)
    requires
        is_first_occurrence(s, pat, i),
    ensures
        contains(s, pat),
        first_occurrence(s, pat) == i,
{
    let k = first_occurrence(s, pat);
    assert(is_first_occurrence(s, pat, k));
    if k < i {
        assert(!occurs_at(s, pat, k));
    }
    if i < k {
        assert(!occurs_at(s, pat, i));
    }
}

/// A pattern that occurs has a first occurrence.
pub proof fn lemma_first_occurrence_exists(s: Seq<char>, pat: Seq<char>)
    requires
        contains(s, pat),
    ensures
        is_first_occurrence(s, pat, first_occurrence(s, pat)),
{
    let w = choose|i: int| occurs_at(s, pat, i);
    lemma_least_occurrence(s, pat, w, 0);
}

/// With an occurrence at `w` and none before `from`, some position between
/// the two is a first occurrence.
proof fn lemma_least_occurrence(s: Seq<char>, pat: Seq<char>, w: int, from: int)
    requires
        occurs_at(s, pat, w),
        0 <= from <= w,
        forall|j: int| 0 <= j < from ==> !occurs_at(s, pat, j),
    ensures
        exists|i: int| is_first_occurrence(s, pat, i),
    decreases w - from,
{
    if occurs_at(s, pat, from) {
        assert(is_first_occurrence(s, pat, from));
    } else {
        lemma_least_occurrence(s, pat, w, from + 1);
    }
}

/// The characters of `s`, in order.
pub fn chars_of(s: &str) -> (v: Vec<char>)
    ensures
        v@ == s@,
{
    let mut v: Vec<char> = Vec::new();
    for c in it: s.chars()
        invariant
            v@ == s@.take(it.index() as int),
            it.seq() == s@,
    {
        v.push(c);
    }
    v
}

/// The string made of the characters of `chars` from `from` up to `to`.
pub fn string_of(chars: &Vec<char>, from: usize, to: usize) -> (s: String)
    requires
        from <= to <= chars.len(),
    ensures
        s@ == chars@.subrange(from as int, to as int),
{
    let mut s = String::new();
    let mut i: usize = from;
    while i < to
        invariant
            from <= i <= to <= chars.len(),
            s@ == chars@.subrange(from as int, i as int),
        decreases to - i,
    {
        s.push(chars[i]);
        i += 1;
    }
    s
}

/// Whether `pat` stands in `s` at position `i`.
pub fn matches_at(s: &Vec<char>, pat: &Vec<char>, i: usize) -> (r: bool)
    requires
        i + pat.len() <= s.len(),
    ensures
        r == occurs_at(s@, pat@, i as int),
{
    let mut k: usize = 0;
    while k < pat.len()
        invariant
            k <= pat.len(),
            i + pat.len() <= s.len(),
            forall|j: int| 0 <= j < k ==> s@[i + j] == pat@[j],
        decreases pat.len() - k,
    {
        if s[i + k] != pat[k] {
            assert(s@.subrange(i as int, i + pat.len())[k as int] != pat@[k as int]);
            return false;
        }
        k += 1;
    }
    assert(s@.subrange(i as int, i + pat.len()) =~= pat@);
    true
}

/// The first position at which `pat` stands within the first `end`
/// characters of `s`.
pub fn find_before(s: &Vec<char>, pat: &Vec<char>, end: usize) -> (r: Option<usize>)
    requires
        end <= s.len(),
    ensures
        match r {
            Some(i) => is_first_occurrence(s@.take(end as int), pat@, i as int),
            None => !contains(s@.take(end as int), pat@),
        },
{
    let ghost head = s@.take(end as int);
    if pat.len() > end {
        return None;
    }
    let last: usize = end - pat.len();
    let mut i: usize = 0;
    while i <= last
        invariant
            i <= last + 1,
            last == end - pat.len(),
            end <= s.len(),
            head == s@.take(end as int),
            forall|j: int| 0 <= j < i ==> !occurs_at(head, pat@, j),
        decreases last + 1 - i,
    {
        let hit = matches_at(s, pat, i);
        assert(head.subrange(i as int, i + pat.len()) =~= s@.subrange(i as int, i + pat.len()));
        if hit {
            return Some(i);
        }
        assert(pat@.len() > 0) by {
            if pat@.len() == 0 {
                assert(head.subrange(i as int, i as int) =~= pat@);
            }
        }
        i += 1;
    }
    None
}

/// The first position at which `pat` stands in `s`.
pub fn find(s: &Vec<char>, pat: &Vec<char>) -> (r: Option<usize>)
    ensures
        match r {
            Some(i) => is_first_occurrence(s@, pat@, i as int),
            None => !contains(s@, pat@),
        },
{
    assert(s@.take(s.len() as int) =~= s@);
    find_before(s, pat, s.len())
}

/// Cuts the first `end` characters of `s` at the first occurrence of `sep`.
/// The result gives where the separator begins and where it ends: the part
/// before it lies before the first position, the part after it from the
/// second position up to `end`.
pub fn cut_before(s: &Vec<char>, sep: &Vec<char>, end: usize) -> (r: Option<(usize, usize)>)
    requires
        end <= s.len(),
    ensures
        match r {
            Some((at, after)) => at <= after <= end && split_once(s@.take(end as int), sep@)
                == Some((s@.subrange(0, at as int), s@.subrange(after as int, end as int))),
            None => split_once(s@.take(end as int), sep@) is None,
        },
{
    let ghost head = s@.take(end as int);
    match find_before(s, sep, end) {
        None => None,
        Some(at) => {
            proof {
                lemma_first_occurrence_unique(head, sep@, at as int);
                assert(occurs_at(head, sep@, at as int));
            }
            let after: usize = at + sep.len();
            assert(head.take(at as int) =~= s@.subrange(0, at as int));
            assert(head.skip(after as int) =~= s@.subrange(after as int, end as int));
            Some((at, after))
        },
    }
}

/// Whether `chars` is made of exactly `n` decimal digits.
pub fn digits_only(chars: &Vec<char>, n: usize) -> (r: bool)
    ensures
        r == is_digits(chars@, n as nat),
{
    if chars.len() != n {
        return false;
    }
    let mut i: usize = 0;
    while i < chars.len()
        invariant
            i <= chars.len(),
            chars.len() == n,
            forall|j: int| 0 <= j < i ==> is_digit(#[trigger] chars@[j]),
        decreases chars.len() - i,
    {
        let c = chars[i];
        let digit = c == '0' || c == '1' || c == '2' || c == '3' || c == '4' || c == '5' || c == '6'
            || c == '7' || c == '8' || c == '9';
        if !digit {
            assert(!is_digit(chars@[i as int]));
            return false;
        }
        i += 1;
    }
    true
}

/// Whether `c` stands in the text.
pub fn has_char(text: &str, c: char) -> (r: bool)
    ensures
        r == text@.contains(c),
{
    let chars = chars_of(text);
    let mut i: usize = 0;
    while i < chars.len()
        invariant
            i <= chars.len(),
            chars@ == text@,
            forall|j: int| 0 <= j < i ==> chars@[j] != c,
        decreases chars.len() - i,
    {
        if chars[i] == c {
            return true;
        }
        i += 1;
    }
    false
}

/// Whether the two strings hold the same characters.
pub fn same_text(a: &str, b: &str) -> (r: bool)
    ensures
        r == (a@ == b@),
{
    let x = chars_of(a);
    let y = chars_of(b);
    if x.len() != y.len() {
        return false;
    }
    let mut i: usize = 0;
    while i < x.len()
        invariant
            i <= x.len(),
            x.len() == y.len(),
            x@ == a@,
            y@ == b@,
            forall|j: int| 0 <= j < i ==> x@[j] == y@[j],
        decreases x.len() - i,
    {
        if x[i] != y[i] {
            assert(x@[i as int] != y@[i as int]);
            return false;
        }
        i += 1;
    }
    assert(x@ =~= y@);
    true
}

/// The executable digit for `d`.
fn digit(d: usize) -> (c: char)
    requires
        d < 10,
    ensures
        c == digit_char(d as int),
{
    if d == 0 {
        '0'
    } else if d == 1 {
        '1'
    } else if d == 2 {
        '2'
    } else if d == 3 {
        '3'
    } else if d == 4 {
        '4'
    } else if d == 5 {
        '5'
    } else if d == 6 {
        '6'
    } else if d == 7 {
        '7'
    } else if d == 8 {
        '8'
    } else {
        '9'
    }
}

/// The decimal text of `n`.
pub fn decimal_string(n: usize) -> (s: String)
    ensures
        s@ == decimal(n as nat),
    decreases n,
{
    if n < 10 {
        let mut s = String::new();
        s.push(digit(n));
        assert(s@ =~= seq![digit_char(n as int)]);
        s
    } else {
        let mut s = decimal_string(n / 10);
        s.push(digit(n % 10));
        s
    }
}

} // verus!

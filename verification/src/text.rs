//! Building the text of messages: decimal and hexadecimal numerals, joining
//! strings, case-folding and substring search over characters, and reading
//! a decimal index typed by the user.

use vstd::prelude::*;
use vstd::string::*;

verus! {

// ---------------------------------------------------------------------------
// Numerals
// ---------------------------------------------------------------------------

/// The character for a digit value below 16; letters are upper case.
pub open spec fn digit_char(d: int) -> char {
    if d < 10 {
        (('0' as int) + d) as char
    } else {
        (('A' as int) + d - 10) as char
    }
}

/// `n` written in `base` (10 or 16) without leading zeros; zero is "0".
pub open spec fn numeral(n: nat, base: nat) -> Seq<char>
    decreases n,
{
    if base < 2 || n < base {
        seq![digit_char(n as int)]
    } else {
        proof {
            assert(n / base < n) by (nonlinear_arith)
                requires
                    base >= 2,
                    n >= base,
            ;
        }
        numeral(n / base, base).push(digit_char((n % base) as int))
    }
}

/// `s` with '0' characters put in front until it is `width` long.
pub open spec fn zero_padded(s: Seq<char>, width: nat) -> Seq<char> {
    if s.len() >= width {
        s
    } else {
        Seq::new((width - s.len()) as nat, |i: int| '0') + s
    }
}

/// What `format!("{:0w$X}", n)` prints for an unsigned `n`.
pub open spec fn hex_numeral(n: nat, width: nat) -> Seq<char> {
    zero_padded(numeral(n, 16), width)
}

/// What `format!("{}", n)` prints for an unsigned `n`.
pub open spec fn decimal_numeral(n: nat) -> Seq<char> {
    numeral(n, 10)
}

/// Appends a character to a string.
/// Calls `String::push`; its documentation says it appends the character
/// to the end of the string, which is what the contract states.
#[verifier::external_body]
pub fn push_char(s: &mut String, c: char)
    ensures
        final(s)@ == old(s)@.push(c),
{
    s.push(c)
}

fn digit(d: u64) -> (c: char)
    requires
        d < 16,
    ensures
        c == digit_char(d as int),
{
    let c: char = if d < 10 {
        ((48u8 + d as u8) as char)
    } else {
        ((55u8 + d as u8) as char)
    };
    assert(c == digit_char(d as int)) by {
        assert((48u8 + d as u8) as char == digit_char(d as int) || d >= 10);
    }
    c
}

/// Appends `n` written in `base` to `s`.
fn push_numeral(s: &mut String, n: u64, base: u64)
    requires
        base == 10 || base == 16,
    ensures
        final(s)@ == old(s)@ + numeral(n as nat, base as nat),
    decreases n,
{
    if n >= base {
        push_numeral(s, n / base, base);
    }
    let d = digit(n % base);
    push_char(s, d);
    assert(numeral(n as nat, base as nat) =~= if n < base {
        seq![digit_char(n as int)]
    } else {
        numeral((n / base) as nat, base as nat).push(digit_char((n % base) as int))
    });
}

/// `n` in decimal, as `format!("{}", n)` writes it.
pub fn decimal(n: u64) -> (s: String)
    ensures
        s@ == decimal_numeral(n as nat),
{
    let mut s = String::new();
    push_numeral(&mut s, n, 10);
    assert(s@ =~= decimal_numeral(n as nat));
    s
}

/// `n` in upper-case hexadecimal padded with zeros to `width` digits, as
/// `format!("{:0width$X}", n)` writes it.
pub fn hex(n: u64, width: usize) -> (s: String)
    ensures
        s@ == hex_numeral(n as nat, width as nat),
{
    let mut digits = String::new();
    push_numeral(&mut digits, n, 16);
    let len = digits.as_str().unicode_len();
    let mut s = String::new();
    let mut k: usize = len;
    while k < width
        invariant
            len == numeral(n as nat, 16).len(),
            digits@ == numeral(n as nat, 16),
            len <= k <= width || (k == len && width < len),
            s@ == Seq::new((k - len) as nat, |i: int| '0'),
        decreases width - k,
    {
        push_char(&mut s, '0');
        k = k + 1;
        assert(s@ =~= Seq::new((k - len) as nat, |i: int| '0'));
    }
    s.append(digits.as_str());
    assert(s@ =~= hex_numeral(n as nat, width as nat));
    s
}

/// The concatenation of three pieces of text.
pub fn concat3(a: &str, b: &str, c: &str) -> (s: String)
    ensures
        s@ == a@ + b@ + c@,
{
    let mut s = String::from_str(a);
    s.append(b);
    s.append(c);
    s
}

/// The items joined by `sep`, as `[..].join(sep)` does.
pub open spec fn joined(items: Seq<Seq<char>>, sep: Seq<char>) -> Seq<char>
    decreases items.len(),
{
    if items.len() == 0 {
        Seq::empty()
    } else if items.len() == 1 {
        items[0]
    } else {
        joined(items.drop_last(), sep) + sep + items.last()
    }
}

/// The strings joined by `sep`.
pub fn join(items: &Vec<String>, sep: &str) -> (s: String)
    ensures
        s@ == joined(items@.map_values(|t: String| t@), sep@),
{
    let ghost views = items@.map_values(|t: String| t@);
    let mut s = String::new();
    let mut i: usize = 0;
    while i < items.len()
        invariant
            i <= items.len(),
            views == items@.map_values(|t: String| t@),
            s@ == joined(views.take(i as int), sep@),
        decreases items.len() - i,
    {
        if i > 0 {
            s.append(sep);
        }
        s.append(items[i].as_str());
        assert(views.take(i + 1).drop_last() =~= views.take(i as int));
        i = i + 1;
    }
    assert(views.take(items.len() as int) =~= views);
    s
}

// ---------------------------------------------------------------------------
// Characters
// ---------------------------------------------------------------------------

/// The characters of a string.
pub fn chars_of(s: &str) -> (v: Vec<char>)
    ensures
        v@ == s@,
{
    let n = s.unicode_len();
    let mut v: Vec<char> = Vec::new();
    let mut i: usize = 0;
    while i < n
        invariant
            n == s@.len(),
            i <= n,
            v@ == s@.take(i as int),
        decreases n - i,
    {
        let c = s.get_char(i);
        v.push(c);
        i = i + 1;
        assert(v@ =~= s@.take(i as int));
    }
    assert(v@ =~= s@);
    v
}

/// What `str::to_lowercase` gives for a string: its lower-case equivalent
/// under the Unicode `Lowercase` property. A function of the characters alone.
pub uninterp spec fn lowercase(s: Seq<char>) -> Seq<char>;

/// The lower-case equivalent of a string.
/// Calls `str::to_lowercase`. The contract names the result, as `lowercase`
/// of the argument's characters, and states one fact of it that std's
/// documentation gives: the empty string stays empty. Nothing else of the
/// Unicode case mapping is stated.
#[verifier::external_body]
pub fn to_lowercase(s: &str) -> (r: String)
    ensures
        r@ == lowercase(s@),
        s@.len() == 0 ==> r@.len() == 0,
{
    s.to_lowercase()
}

/// `needle` occurs in `hay` starting at position `k`.
pub open spec fn occurs_at(hay: Seq<char>, needle: Seq<char>, k: int) -> bool {
    0 <= k && k + needle.len() <= hay.len() && hay.subrange(k, k + needle.len()) == needle
}

/// `needle` occurs somewhere in `hay`, as `str::contains` decides for a
/// string pattern. The empty needle occurs in every string.
pub open spec fn contains_text(hay: Seq<char>, needle: Seq<char>) -> bool {
    exists|k: int| occurs_at(hay, needle, k)
}

fn occurs_here(hay: &Vec<char>, needle: &Vec<char>, k: usize) -> (r: bool)
    requires
        k + needle.len() <= hay.len(),
    ensures
        r == occurs_at(hay@, needle@, k as int),
{
    let mut j: usize = 0;
    while j < needle.len()
        invariant
            k + needle.len() <= hay.len(),
            j <= needle.len(),
            forall|t: int| 0 <= t < j ==> hay@[k + t] == needle@[t],
        decreases needle.len() - j,
    {
        if hay[k + j] != needle[j] {
            assert(hay@.subrange(k as int, k + needle.len())[j as int] != needle@[j as int]);
            return false;
        }
        j = j + 1;
    }
    assert(hay@.subrange(k as int, k + needle.len()) =~= needle@);
    true
}

/// Whether `needle` occurs in `hay`.
pub fn contains_chars(hay: &Vec<char>, needle: &Vec<char>) -> (r: bool)
    ensures
        r == contains_text(hay@, needle@),
{
    if needle.len() > hay.len() {
        assert forall|k: int| !occurs_at(hay@, needle@, k) by {}
        return false;
    }
    let last = hay.len() - needle.len();
    let mut k: usize = 0;
    while k <= last
        invariant
            last == hay.len() - needle.len(),
            needle.len() <= hay.len(),
            forall|t: int| 0 <= t < k ==> !occurs_at(hay@, needle@, t),
        decreases last + 1 - k,
    {
        if occurs_here(hay, needle, k) {
            return true;
        }
        if k == last {
            assert forall|t: int| !occurs_at(hay@, needle@, t) by {}
            return false;
        }
        k = k + 1;
    }
    assert forall|t: int| !occurs_at(hay@, needle@, t) by {}
    false
}

/// The empty pattern occurs in every text.
pub proof fn lemma_empty_pattern_occurs(hay: Seq<char>)
    ensures
        contains_text(hay, Seq::empty()),
{
    assert(hay.subrange(0, 0) =~= Seq::<char>::empty());
    assert(occurs_at(hay, Seq::empty(), 0));
}

/// The positions, in order, of the texts in `hays` that contain `needle`.
pub open spec fn containing_positions(hays: Seq<Seq<char>>, needle: Seq<char>) -> Seq<int>
    decreases hays.len(),
{
    if hays.len() == 0 {
        Seq::empty()
    } else {
        let prev = containing_positions(hays.drop_last(), needle);
        if contains_text(hays.last(), needle) {
            prev.push(hays.len() - 1)
        } else {
            prev
        }
    }
}

/// The empty pattern is found at every position.
pub proof fn lemma_empty_pattern_everywhere(hays: Seq<Seq<char>>)
    ensures
        containing_positions(hays, Seq::empty()) == Seq::new(hays.len(), |i: int| i),
    decreases hays.len(),
{
    if hays.len() > 0 {
        lemma_empty_pattern_everywhere(hays.drop_last());
        lemma_empty_pattern_occurs(hays.last());
        assert(containing_positions(hays, Seq::empty()) =~= Seq::new(hays.len(), |i: int| i));
    }
}

/// The positions, in order, of the texts in `hays` that contain `needle`.
pub fn positions_containing(hays: &Vec<Vec<char>>, needle: &Vec<char>) -> (r: Vec<usize>)
    ensures
        r@.map_values(|p: usize| p as int) == containing_positions(
            hays@.map_values(|h: Vec<char>| h@),
            needle@,
        ),
        forall|k: int| 0 <= k < r@.len() ==> r@[k] < hays@.len(),
{
    let ghost all = hays@.map_values(|h: Vec<char>| h@);
    let mut r: Vec<usize> = Vec::new();
    let mut i: usize = 0;
    while i < hays.len()
        invariant
            i <= hays.len(),
            all == hays@.map_values(|h: Vec<char>| h@),
            r@.map_values(|p: usize| p as int) == containing_positions(all.take(i as int), needle@),
            forall|k: int| 0 <= k < r@.len() ==> r@[k] < i,
        decreases hays.len() - i,
    {
        assert(all.take(i + 1).drop_last() =~= all.take(i as int));
        assert(all.take(i + 1).last() == hays@[i as int]@);
        if contains_chars(&hays[i], needle) {
            r.push(i);
        }
        i = i + 1;
        assert(r@.map_values(|p: usize| p as int) =~= containing_positions(all.take(i as int), needle@));
    }
    assert(all.take(hays.len() as int) =~= all);
    r
}

/// The characters of each text, lower-cased.
pub open spec fn lowercased_all(texts: Seq<Seq<char>>) -> Seq<Seq<char>> {
    texts.map_values(|t: Seq<char>| lowercase(t))
}

/// Each text lower-cased, as characters.
pub fn lowercase_each(texts: &Vec<&str>) -> (v: Vec<Vec<char>>)
    ensures
        v@.map_values(|h: Vec<char>| h@) == lowercased_all(texts@.map_values(|t: &str| t@)),
{
    let mut v: Vec<Vec<char>> = Vec::new();
    let mut i: usize = 0;
    while i < texts.len()
        invariant
            i <= texts.len(),
            v@.len() == i,
            forall|j: int| 0 <= j < i ==> (#[trigger] v@[j])@ == lowercase(texts@[j]@),
        decreases texts.len() - i,
    {
        let l = to_lowercase(texts[i]);
        v.push(chars_of(l.as_str()));
        i = i + 1;
    }
    assert(v@.map_values(|h: Vec<char>| h@) =~= lowercased_all(texts@.map_values(|t: &str| t@)));
    v
}

/// Whether `needle` occurs in the lower-case form of `hay`.
pub fn lowercase_contains(hay: &str, needle: &str) -> (r: bool)
    ensures
        r == contains_text(lowercase(hay@), needle@),
{
    let h = to_lowercase(hay);
    contains_chars(&chars_of(h.as_str()), &chars_of(needle))
}

/// Whether two strings are the same text.
pub fn same_text(a: &str, b: &str) -> (r: bool)
    ensures
        r == (a@ == b@),
{
    let x = chars_of(a);
    let y = chars_of(b);
    if x.len() != y.len() {
        return false;
    }
    let mut i: usize = 0;
    while i < x.len()
        invariant
            x@ == a@,
            y@ == b@,
            x.len() == y.len(),
            i <= x.len(),
            forall|k: int| 0 <= k < i ==> x@[k] == y@[k],
        decreases x.len() - i,
    {
        if x[i] != y[i] {
            return false;
        }
        i = i + 1;
    }
    assert(x@ =~= y@);
    true
}

// ---------------------------------------------------------------------------
// Reading a decimal index
// ---------------------------------------------------------------------------

pub open spec fn is_digit(c: char) -> bool {
    '0' <= c <= '9'
}

/// Every character is a decimal digit.
pub open spec fn all_digits(s: Seq<char>) -> bool {
    forall|i: int| 0 <= i < s.len() ==> is_digit(#[trigger] s[i])
}

/// The value of a string of decimal digits.
pub open spec fn digits_value(s: Seq<char>) -> nat
    decreases s.len(),
{
    if s.len() == 0 {
        0
    } else {
        digits_value(s.drop_last()) * 10 + ((s.last() as int) - ('0' as int)) as nat
    }
}

/// The digits after an optional leading '+'.
pub open spec fn unsigned_body(s: Seq<char>) -> Seq<char> {
    if s.len() > 0 && s[0] == '+' {
        s.drop_first()
    } else {
        s
    }
}

/// What `str::parse::<usize>` accepts: an optional '+' followed by one or
/// more decimal digits whose value fits in a `usize`, nothing else.
pub open spec fn parsed_index(s: Seq<char>) -> Option<nat> {
    let body = unsigned_body(s);
    if body.len() > 0 && all_digits(body) && digits_value(body) <= usize::MAX {
        Some(digits_value(body))
    } else {
        None
    }
}

proof fn lemma_digits_value_prefix(s: Seq<char>, i: int)
    requires
        0 <= i <= s.len(),
        all_digits(s),
    ensures
        digits_value(s.take(i)) <= digits_value(s),
    decreases s.len(),
{
    if i < s.len() {
        assert(s.drop_last().take(i) =~= s.take(i));
        lemma_digits_value_prefix(s.drop_last(), i);
    } else {
        assert(s.take(i) =~= s);
    }
}

/// A device index typed by the user, read as `str::parse::<usize>` reads it.
pub fn parse_index(s: &str) -> (r: Option<usize>)
    ensures
        match r {
            Some(v) => parsed_index(s@) == Some(v as nat),
            None => parsed_index(s@) is None,
        },
{
    let chars = chars_of(s);
    let start: usize = if chars.len() > 0 && chars[0] == '+' { 1 } else { 0 };
    let ghost body = unsigned_body(s@);
    assert(body =~= chars@.skip(start as int));
    if start >= chars.len() {
        return None;
    }
    let mut value: usize = 0;
    let mut i: usize = start;
    while i < chars.len()
        invariant
            chars@ == s@,
            start <= i <= chars.len(),
            body == chars@.skip(start as int),
            body == unsigned_body(s@),
            forall|j: int| start <= j < i ==> is_digit(chars@[j]),
            value as nat == digits_value(body.take(i - start)),
        decreases chars.len() - i,
    {
        let c = chars[i];
        if !('0' <= c && c <= '9') {
            assert(body[i - start] == c);
            assert(!is_digit(body[i - start]));
            assert(!all_digits(body));
            return None;
        }
        let d: usize = (c as u32 - 48u32) as usize;
        assert(body.take(i + 1 - start).drop_last() =~= body.take(i - start));
        assert(body.take(i + 1 - start).last() == c);
        assert(digits_value(body.take(i + 1 - start)) == value * 10 + d);
        if value > (usize::MAX - d) / 10 {
            proof {
                assert(digits_value(body.take(i + 1 - start)) > usize::MAX) by (nonlinear_arith)
                    requires
                        value > (usize::MAX - d) / 10,
                        digits_value(body.take(i + 1 - start)) == value * 10 + d,
                        d <= 9;
                if all_digits(body) {
                    lemma_digits_value_prefix(body, i + 1 - start);
                    assert(digits_value(body) > usize::MAX);
                }
                assert(parsed_index(s@) is None);
            }
            return None;
        }
        proof {
            assert(value * 10 + d <= usize::MAX) by (nonlinear_arith)
                requires
                    value <= (usize::MAX - d) / 10,
                    d <= 9;
        }
        value = value * 10 + d;
        i = i + 1;
    }
    assert(body.take(i - start) =~= body);
    Some(value)
}

} // verus!

//! Text as the rest of the library builds and reads it.
//!
//! A string's view is its sequence of characters, and every rule below — trimming, splitting,
//! matching, reading a number — is stated over that sequence. The executable helpers work on
//! character vectors and are proved against those statements, so the modules that parse
//! compositor events, desktop entries and version strings can state their own contracts in the
//! same vocabulary.

use vstd::prelude::*;

verus! {

// --- Numbers as text --------------------------------------------------------

/// The decimal spelling of a natural number, most significant digit first.
pub open spec fn decimal(n: nat) -> Seq<char>
    decreases n,
{
    if n < 10 {
        seq![digit(n)]
    } else {
        decimal(n / 10) + seq![digit(n % 10)]
    }
}

/// One decimal digit.
pub open spec fn digit(n: nat) -> char {
    if n == 0 {
        '0'
    } else if n == 1 {
        '1'
    } else if n == 2 {
        '2'
    } else if n == 3 {
        '3'
    } else if n == 4 {
        '4'
    } else if n == 5 {
        '5'
    } else if n == 6 {
        '6'
    } else if n == 7 {
        '7'
    } else if n == 8 {
        '8'
    } else {
        '9'
    }
}

/// The decimal spelling of an integer, with a leading `-` when it is negative.
pub open spec fn signed(i: int) -> Seq<char> {
    if i < 0 {
        seq!['-'] + decimal((-i) as nat)
    } else {
        decimal(i as nat)
    }
}

pub assume_specification[ String::push ](string: &mut String, ch: char)
    ensures
        final(string)@ == old(string)@.push(ch),
;

fn digit_char(n: u64) -> (c: char)
    requires
        n < 10,
    ensures
        c == digit(n as nat),
{
    if n == 0 {
        '0'
    } else if n == 1 {
        '1'
    } else if n == 2 {
        '2'
    } else if n == 3 {
        '3'
    } else if n == 4 {
        '4'
    } else if n == 5 {
        '5'
    } else if n == 6 {
        '6'
    } else if n == 7 {
        '7'
    } else if n == 8 {
        '8'
    } else {
        '9'
    }
}

/// Append `n` in decimal.
pub fn push_decimal(out: &mut String, n: u64)
    ensures
        final(out)@ == old(out)@ + decimal(n as nat),
    decreases n,
{
    if n >= 10 {
        push_decimal(out, n / 10);
    }
    out.push(digit_char(n % 10));
}

/// Append `i` in decimal, signed.
pub fn push_signed(out: &mut String, i: i64)
    ensures
        final(out)@ == old(out)@ + signed(i as int),
{
    if i < 0 {
        out.push('-');
        let magnitude: u64 = if i == i64::MIN {
            9223372036854775808u64
        } else {
            (-i) as u64
        };
        push_decimal(out, magnitude);
    } else {
        push_decimal(out, i as u64);
    }
}

/// Append a string slice.
pub fn push_str(out: &mut String, s: &str)
    ensures
        final(out)@ == old(out)@ + s@,
{
    let chars = chars_of(s);
    push_chars(out, &chars);
}

/// Append characters.
pub fn push_chars(out: &mut String, chars: &Vec<char>)
    ensures
        final(out)@ == old(out)@ + chars@,
{
    let ghost start = out@;
    for i in 0..chars.len()
        invariant
            out@ == start + chars@.take(i as int),
    {
        out.push(chars[i]);
        assert(chars@.take(i + 1) == chars@.take(i as int).push(chars@[i as int]));
    }
    assert(chars@.take(chars.len() as int) == chars@);
}

/// A new string holding exactly these characters.
pub fn string_of(chars: &Vec<char>) -> (s: String)
    ensures
        s@ == chars@,
{
    let mut s = String::new();
    push_chars(&mut s, chars);
    s
}

/// The characters of a string slice.
pub fn chars_of(s: &str) -> (v: Vec<char>)
    ensures
        v@ == s@,
{
    let mut v: Vec<char> = Vec::new();
    for c in it: s.chars()
        invariant
            v@ == it.seq().take(it.index() as int),
    {
        v.push(c);
    }
    v
}

/// Whether two character sequences are the same.
pub fn same_chars(a: &Vec<char>, b: &Vec<char>) -> (r: bool)
    ensures
        r == (a@ == b@),
{
    if a.len() != b.len() {
        return false;
    }
    for i in 0..a.len()
        invariant
            a.len() == b.len(),
            forall|j: int| 0 <= j < i ==> a@[j] == b@[j],
    {
        if a[i] != b[i] {
            return false;
        }
    }
    assert(a@ =~= b@);
    true
}

/// Whether two strings are the same.
pub fn same(a: &str, b: &str) -> (r: bool)
    ensures
        r == (a@ == b@),
{
    same_chars(&chars_of(a), &chars_of(b))
}

/// A copy of a run of characters.
pub fn slice_of(chars: &Vec<char>, from: usize, to: usize) -> (v: Vec<char>)
    requires
        from <= to <= chars.len(),
    ensures
        v@ == chars@.subrange(from as int, to as int),
{
    let mut v: Vec<char> = Vec::new();
    let mut i = from;
    while i < to
        invariant
            from <= i <= to <= chars.len(),
            v@ == chars@.subrange(from as int, i as int),
        decreases to - i,
    {
        v.push(chars[i]);
        assert(chars@.subrange(from as int, i + 1) == chars@.subrange(from as int, i as int).push(
            chars@[i as int],
        ));
        i += 1;
    }
    v
}

// --- Whitespace ---------------------------------------------------------------

/// The Unicode `White_Space` characters, which is what Rust's `char::is_whitespace` and so
/// `str::trim` go by.
pub open spec fn is_white(c: char) -> bool {
    ||| '\u{9}' <= c <= '\u{d}'
    ||| c == ' '
    ||| c == '\u{85}'
    ||| c == '\u{a0}'
    ||| c == '\u{1680}'
    ||| '\u{2000}' <= c <= '\u{200a}'
    ||| c == '\u{2028}'
    ||| c == '\u{2029}'
    ||| c == '\u{202f}'
    ||| c == '\u{205f}'
    ||| c == '\u{3000}'
}

/// Without its leading whitespace.
pub open spec fn trim_start(s: Seq<char>) -> Seq<char>
    decreases s.len(),
{
    if s.len() > 0 && is_white(s[0]) {
        trim_start(s.drop_first())
    } else {
        s
    }
}

/// Without its trailing whitespace.
pub open spec fn trim_end(s: Seq<char>) -> Seq<char>
    decreases s.len(),
{
    if s.len() > 0 && is_white(s.last()) {
        trim_end(s.drop_last())
    } else {
        s
    }
}

/// Without whitespace at either end.
pub open spec fn trim(s: Seq<char>) -> Seq<char> {
    trim_end(trim_start(s))
}

pub fn white(c: char) -> (r: bool)
    ensures
        r == is_white(c),
{
    ('\u{9}' <= c && c <= '\u{d}') || c == ' ' || c == '\u{85}' || c == '\u{a0}' || c == '\u{1680}'
        || ('\u{2000}' <= c && c <= '\u{200a}') || c == '\u{2028}' || c == '\u{2029}' || c
        == '\u{202f}' || c == '\u{205f}' || c == '\u{3000}'
}

/// The characters without their trailing whitespace.
pub fn trimmed_end(chars: &Vec<char>) -> (v: Vec<char>)
    ensures
        v@ == trim_end(chars@),
{
    let mut j = chars.len();
    assert(chars@.take(j as int) == chars@);
    while j > 0 && white(chars[j - 1])
        invariant
            j <= chars.len(),
            trim_end(chars@) == trim_end(chars@.take(j as int)),
        decreases j,
    {
        assert(chars@.take(j as int).drop_last() == chars@.take(j - 1));
        j -= 1;
    }
    assert(trim_end(chars@.take(j as int)) == chars@.take(j as int));
    slice_of(chars, 0, j)
}

/// The characters without their leading whitespace.
pub fn trimmed_start(chars: &Vec<char>) -> (v: Vec<char>)
    ensures
        v@ == trim_start(chars@),
{
    let mut i: usize = 0;
    assert(chars@.skip(0) == chars@);
    while i < chars.len() && white(chars[i])
        invariant
            i <= chars.len(),
            trim_start(chars@) == trim_start(chars@.skip(i as int)),
        decreases chars.len() - i,
    {
        assert(chars@.skip(i as int).drop_first() == chars@.skip(i + 1));
        i += 1;
    }
    assert(trim_start(chars@.skip(i as int)) == chars@.skip(i as int));
    assert(chars@.skip(i as int) == chars@.subrange(i as int, chars.len() as int));
    slice_of(chars, i, chars.len())
}

/// The characters without whitespace at either end.
pub fn trimmed(chars: &Vec<char>) -> (v: Vec<char>)
    ensures
        v@ == trim(chars@),
{
    trimmed_end(&trimmed_start(chars))
}

// --- Splitting ----------------------------------------------------------------

/// The pieces between each occurrence of `sep`, in order. Never empty: text with no separator
/// is one piece, and the empty text is one empty piece — which is what `str::split` yields.
pub open spec fn split(s: Seq<char>, sep: char) -> Seq<Seq<char>>
    decreases s.len(),
{
    if s.len() == 0 {
        seq![Seq::<char>::empty()]
    } else {
        let before = split(s.drop_last(), sep);
        if s.last() == sep {
            before.push(Seq::<char>::empty())
        } else {
            before.update(before.len() - 1, before.last().push(s.last()))
        }
    }
}

pub proof fn lemma_split_nonempty(s: Seq<char>, sep: char)
    ensures
        split(s, sep).len() >= 1,
    decreases s.len(),
{
    if s.len() > 0 {
        lemma_split_nonempty(s.drop_last(), sep);
    }
}

/// The character sequences a vector of character vectors holds.
pub open spec fn views_of(v: Seq<Vec<char>>) -> Seq<Seq<char>> {
    v.map_values(|piece: Vec<char>| piece@)
}

/// Split characters at every occurrence of `sep`.
pub fn split_chars(chars: &Vec<char>, sep: char) -> (pieces: Vec<Vec<char>>)
    ensures
        views_of(pieces@) == split(chars@, sep),
        pieces.len() >= 1,
{
    let mut pieces: Vec<Vec<char>> = Vec::new();
    let mut current: Vec<char> = Vec::new();
    proof {
        assert(chars@.take(0) == Seq::<char>::empty());
        assert(views_of(pieces@).push(current@) =~= split(chars@.take(0), sep));
    }
    for i in 0..chars.len()
        invariant
            views_of(pieces@).push(current@) == split(chars@.take(i as int), sep),
    {
        let c = chars[i];
        let ghost prefix = chars@.take(i + 1);
        proof {
            assert(prefix.drop_last() == chars@.take(i as int));
            assert(prefix.last() == c);
        }
        if c == sep {
            let ghost before = views_of(pieces@);
            let done = current;
            let ghost done_view = done@;
            pieces.push(done);
            assert(views_of(pieces@) =~= before.push(done_view));
            current = Vec::new();
            assert(views_of(pieces@).push(current@) =~= split(prefix, sep));
        } else {
            let ghost before = views_of(pieces@).push(current@);
            current.push(c);
            assert(views_of(pieces@).push(current@) =~= before.update(
                before.len() - 1,
                before.last().push(c),
            ));
        }
    }
    assert(chars@.take(chars.len() as int) == chars@);
    let ghost before = views_of(pieces@);
    let ghost last_view = current@;
    pieces.push(current);
    assert(views_of(pieces@) =~= before.push(last_view));
    pieces
}

// --- Finding --------------------------------------------------------------------

/// Whether `pattern` occurs in `s` starting at `at`.
pub open spec fn occurs_at(s: Seq<char>, pattern: Seq<char>, at: int) -> bool {
    0 <= at && at + pattern.len() <= s.len() && s.subrange(at, at + pattern.len()) == pattern
}

/// Whether `at` is the first place `pattern` occurs in `s`.
pub open spec fn first_occurrence(s: Seq<char>, pattern: Seq<char>, at: int) -> bool {
    occurs_at(s, pattern, at) && forall|j: int| 0 <= j < at ==> !occurs_at(s, pattern, j)
}

/// `s` split around the first occurrence of `pattern`, or `None` when it does not occur — what
/// `str::split_once` answers.
pub open spec fn split_once(s: Seq<char>, pattern: Seq<char>) -> Option<(Seq<char>, Seq<char>)> {
    if exists|at: int| occurs_at(s, pattern, at) {
        let at = choose|at: int| first_occurrence(s, pattern, at);
        Some((s.take(at), s.skip(at + pattern.len())))
    } else {
        None
    }
}

/// Where `pattern` first occurs in `chars`, if it does.
pub fn find(chars: &Vec<char>, pattern: &Vec<char>) -> (at: Option<usize>)
    ensures
        match at {
            Some(at) => first_occurrence(chars@, pattern@, at as int),
            None => forall|j: int| !occurs_at(chars@, pattern@, j),
        },
{
    if pattern.len() > chars.len() {
        return None;
    }
    if pattern.len() == 0 {
        assert(chars@.subrange(0, 0) =~= pattern@);
        return Some(0);
    }
    let last = chars.len() - pattern.len();
    let mut at: usize = 0;
    while at <= last
        invariant
            last == chars.len() - pattern.len(),
            0 < pattern.len() <= chars.len(),
            at <= last + 1,
            forall|j: int| 0 <= j < at ==> !occurs_at(chars@, pattern@, j),
        decreases last + 1 - at,
    {
        let mut k: usize = 0;
        let mut matched = true;
        while k < pattern.len()
            invariant
                at <= last,
                last == chars.len() - pattern.len(),
                k <= pattern.len(),
                matched ==> forall|m: int| 0 <= m < k ==> chars@[at + m] == pattern@[m],
                !matched ==> !occurs_at(chars@, pattern@, at as int),
            decreases pattern.len() - k,
        {
            if chars[at + k] != pattern[k] {
                matched = false;
                assert(chars@.subrange(at as int, at + pattern.len())[k as int] != pattern@[k as int]);
            }
            k += 1;
        }
        if matched {
            assert(chars@.subrange(at as int, at + pattern.len()) =~= pattern@);
            return Some(at);
        }
        at += 1;
    }
    assert forall|j: int| !occurs_at(chars@, pattern@, j) by {
        if 0 <= j && j + pattern.len() <= chars.len() {
            assert(j < at);
        }
    }
    None
}

/// Split around the first occurrence of `pattern`.
pub fn split_once_chars(chars: &Vec<char>, pattern: &Vec<char>) -> (r: Option<(Vec<char>, Vec<char>)>)
    ensures
        match r {
            Some((before, after)) => split_once(chars@, pattern@) == Some((before@, after@)),
            None => split_once(chars@, pattern@) is None,
        },
{
    match find(chars, pattern) {
        Some(at) => {
            proof {
                let chosen = choose|a: int| first_occurrence(chars@, pattern@, a);
                assert(first_occurrence(chars@, pattern@, chosen));
                if chosen < at {
                } else if chosen > at {
                    assert(!occurs_at(chars@, pattern@, at as int));
                }
                assert(chosen == at);
                assert(chars@.skip(at + pattern@.len()) == chars@.subrange(
                    at + pattern.len(),
                    chars@.len() as int,
                ));
            }
            let before = slice_of(chars, 0, at);
            let after = slice_of(chars, at + pattern.len(), chars.len());
            assert(before@ == chars@.take(at as int));
            Some((before, after))
        },
        None => None,
    }
}

/// Splitting around the first occurrence leaves less behind than there was.
pub proof fn lemma_split_once_shorter(s: Seq<char>, pattern: Seq<char>)
    requires
        pattern.len() > 0,
    ensures
        split_once(s, pattern) matches Some((before, after)) ==> {
            &&& after.len() < s.len()
            &&& exists|at: int| first_occurrence(s, pattern, at) && before == s.take(at) && after
                == s.skip(at + pattern.len())
        },
{
    if exists|at: int| occurs_at(s, pattern, at) {
        let found = choose|at: int| occurs_at(s, pattern, at);
        let p = |at: int| occurs_at(s, pattern, at);
        crate::seqs::lemma_first_where_facts(s.len() as int + 1, p);
        assert(p(found));
        let first = crate::seqs::first_where(s.len() as int + 1, p)->Some_0;
        assert forall|j: int| 0 <= j < first implies !occurs_at(s, pattern, j) by {
            assert(!p(j));
        }
        assert(first_occurrence(s, pattern, first));
        let at = choose|at: int| first_occurrence(s, pattern, at);
        assert(first_occurrence(s, pattern, at));
    }
}

/// `s` cut at every occurrence of `pattern`, scanning left to right and resuming after each
/// match — what `str::split` with a string pattern yields.
pub open spec fn split_on(s: Seq<char>, pattern: Seq<char>) -> Seq<Seq<char>>
    decreases s.len(),
{
    if pattern.len() == 0 {
        seq![s]
    } else {
        match split_once(s, pattern) {
            Some((before, after)) => {
                proof {
                    lemma_split_once_shorter(s, pattern);
                }
                seq![before] + split_on(after, pattern)
            },
            None => seq![s],
        }
    }
}

/// Split at every occurrence of a non-empty `pattern`.
pub fn split_on_chars(chars: &Vec<char>, pattern: &Vec<char>) -> (pieces: Vec<Vec<char>>)
    requires
        pattern.len() > 0,
    ensures
        views_of(pieces@) == split_on(chars@, pattern@),
{
    let mut pieces: Vec<Vec<char>> = Vec::new();
    let mut rest = slice_of(chars, 0, chars.len());
    assert(rest@ =~= chars@);
    loop
        invariant
            pattern.len() > 0,
            views_of(pieces@) + split_on(rest@, pattern@) == split_on(chars@, pattern@),
        decreases rest.len(),
    {
        proof {
            lemma_split_once_shorter(rest@, pattern@);
        }
        match split_once_chars(&rest, pattern) {
            Some((before, after)) => {
                let ghost before_view = before@;
                let ghost old_pieces = views_of(pieces@);
                assert(split_on(rest@, pattern@) == seq![before@] + split_on(after@, pattern@));
                pieces.push(before);
                assert(views_of(pieces@) =~= old_pieces.push(before_view));
                assert(views_of(pieces@) + split_on(after@, pattern@) =~= old_pieces + (seq![
                    before_view,
                ] + split_on(after@, pattern@)));
                rest = after;
            },
            None => {
                let ghost old_pieces = views_of(pieces@);
                let ghost rest_view = rest@;
                assert(split_on(rest@, pattern@) == seq![rest_view]);
                pieces.push(rest);
                assert(views_of(pieces@) =~= old_pieces + seq![rest_view]);
                return pieces;
            },
        }
    }
}

/// Whether `s` begins with `prefix`.
pub open spec fn begins_with(s: Seq<char>, prefix: Seq<char>) -> bool {
    prefix.len() <= s.len() && s.take(prefix.len() as int) == prefix
}

pub fn starts_with(chars: &Vec<char>, prefix: &Vec<char>) -> (r: bool)
    ensures
        r == begins_with(chars@, prefix@),
{
    if prefix.len() > chars.len() {
        return false;
    }
    for i in 0..prefix.len()
        invariant
            prefix.len() <= chars.len(),
            forall|j: int| 0 <= j < i ==> chars@[j] == prefix@[j],
    {
        if chars[i] != prefix[i] {
            assert(chars@.take(prefix.len() as int)[i as int] != prefix@[i as int]);
            return false;
        }
    }
    assert(chars@.take(prefix.len() as int) =~= prefix@);
    true
}

// --- Case -----------------------------------------------------------------------

/// ASCII lower-casing of one character; every other character is left alone.
pub open spec fn ascii_lower(c: char) -> char {
    if 'A' <= c <= 'Z' {
        ((c as u32) + 32) as char
    } else {
        c
    }
}

/// Whether two texts are the same once ASCII letters are lower-cased — what
/// `str::eq_ignore_ascii_case` answers.
pub open spec fn same_ignoring_ascii_case(a: Seq<char>, b: Seq<char>) -> bool {
    a.len() == b.len() && forall|i: int| 0 <= i < a.len() ==> ascii_lower(a[i]) == ascii_lower(b[i])
}

pub fn lower(c: char) -> (r: char)
    ensures
        r == ascii_lower(c),
{
    if 'A' <= c && c <= 'Z' {
        let code = ((c as u32) + 32) as u8;
        code as char
    } else {
        c
    }
}

pub fn eq_ignore_ascii_case(a: &Vec<char>, b: &Vec<char>) -> (r: bool)
    ensures
        r == same_ignoring_ascii_case(a@, b@),
{
    if a.len() != b.len() {
        return false;
    }
    for i in 0..a.len()
        invariant
            a.len() == b.len(),
            forall|j: int| 0 <= j < i ==> ascii_lower(a@[j]) == ascii_lower(b@[j]),
    {
        if lower(a[i]) != lower(b[i]) {
            return false;
        }
    }
    true
}

// --- Numbers read from text -----------------------------------------------------

pub open spec fn is_digit(c: char) -> bool {
    '0' <= c <= '9'
}

pub open spec fn all_digits(s: Seq<char>) -> bool {
    forall|i: int| 0 <= i < s.len() ==> is_digit(s[i])
}

/// The value of a run of decimal digits.
pub open spec fn digits_value(s: Seq<char>) -> nat
    decreases s.len(),
{
    if s.len() == 0 {
        0
    } else {
        digits_value(s.drop_last()) * 10 + ((s.last() as int) - ('0' as int)) as nat
    }
}

/// The magnitude a run of digits spells, with an optional leading `+`, as Rust's unsigned
/// `from_str` reads it; `None` for anything else, the empty text included.
pub open spec fn unsigned_value(s: Seq<char>) -> Option<nat> {
    let d = if s.len() > 0 && s[0] == '+' {
        s.drop_first()
    } else {
        s
    };
    if d.len() > 0 && all_digits(d) {
        Some(digits_value(d))
    } else {
        None
    }
}

/// What `str::parse::<u32>` answers.
pub open spec fn parse_u32(s: Seq<char>) -> Option<u32> {
    match unsigned_value(s) {
        Some(v) => if v <= u32::MAX {
            Some(v as u32)
        } else {
            None
        },
        None => None,
    }
}

/// What `str::parse::<i32>` answers: an optional sign, then at least one digit, in range.
pub open spec fn parse_i32(s: Seq<char>) -> Option<i32> {
    if s.len() > 0 && s[0] == '-' {
        let d = s.drop_first();
        if d.len() > 0 && all_digits(d) && digits_value(d) <= 0x8000_0000 {
            Some((0 - digits_value(d)) as i32)
        } else {
            None
        }
    } else {
        match unsigned_value(s) {
            Some(v) => if v <= i32::MAX {
                Some(v as i32)
            } else {
                None
            },
            None => None,
        }
    }
}

proof fn lemma_digits_grow(s: Seq<char>, k: int)
    requires
        0 <= k <= s.len(),
        all_digits(s),
    ensures
        digits_value(s) >= digits_value(s.take(k)),
    decreases s.len() - k,
{
    if k < s.len() {
        let next = s.take(k + 1);
        assert(next.drop_last() == s.take(k));
        assert(all_digits(next));
        lemma_digits_grow(s, k + 1);
    } else {
        assert(s.take(k) == s);
    }
}

/// The value of `chars[from..]` read as decimal digits, if every character there is a digit,
/// there is at least one, and the value does not exceed `limit`.
fn digits_up_to(chars: &Vec<char>, from: usize, limit: u64) -> (r: Option<u64>)
    requires
        from <= chars.len(),
        limit <= 0x1_0000_0000,
    ensures
        ({
            let d = chars@.skip(from as int);
            match r {
                Some(v) => d.len() > 0 && all_digits(d) && v == digits_value(d) && v <= limit,
                None => !(d.len() > 0 && all_digits(d) && digits_value(d) <= limit),
            }
        }),
{
    let ghost d = chars@.skip(from as int);
    if from == chars.len() {
        return None;
    }
    let mut value: u64 = 0;
    let mut i = from;
    while i < chars.len()
        invariant
            from <= i <= chars.len(),
            d == chars@.skip(from as int),
            limit <= 0x1_0000_0000,
            value <= limit,
            all_digits(d.take(i - from)),
            value == digits_value(d.take(i - from)),
        decreases chars.len() - i,
    {
        let c = chars[i];
        assert(d[i - from] == c);
        if !('0' <= c && c <= '9') {
            assert(!all_digits(d));
            return None;
        }
        let ghost next = d.take(i - from + 1);
        assert(next.drop_last() == d.take(i - from));
        assert(next.last() == c);
        value = value * 10 + ((c as u32) - ('0' as u32)) as u64;
        assert(all_digits(next));
        if value > limit {
            proof {
                if all_digits(d) {
                    lemma_digits_grow(d, i - from + 1);
                }
            }
            return None;
        }
        i += 1;
    }
    assert(d.take(i - from) == d);
    Some(value)
}

/// Read a `u32` as `str::parse` does.
pub fn parse_u32_chars(chars: &Vec<char>) -> (r: Option<u32>)
    ensures
        r == parse_u32(chars@),
{
    let from: usize = if chars.len() > 0 && chars[0] == '+' {
        1
    } else {
        0
    };
    assert(chars@.skip(from as int) == if chars@.len() > 0 && chars@[0] == '+' {
        chars@.drop_first()
    } else {
        chars@
    });
    match digits_up_to(chars, from, 0xffff_ffff) {
        Some(v) => Some(v as u32),
        None => None,
    }
}

/// Read an `i32` as `str::parse` does.
pub fn parse_i32_chars(chars: &Vec<char>) -> (r: Option<i32>)
    ensures
        r == parse_i32(chars@),
{
    if chars.len() > 0 && chars[0] == '-' {
        assert(chars@.skip(1) == chars@.drop_first());
        match digits_up_to(chars, 1, 0x8000_0000) {
            Some(v) => Some((0 - (v as i64)) as i32),
            None => None,
        }
    } else {
        let from: usize = if chars.len() > 0 && chars[0] == '+' {
            1
        } else {
            0
        };
        assert(chars@.skip(from as int) == if chars@.len() > 0 && chars@[0] == '+' {
            chars@.drop_first()
        } else {
            chars@
        });
        match digits_up_to(chars, from, 0x7fff_ffff) {
            Some(v) => Some(v as i32),
            None => None,
        }
    }
}


// --- Reading known shapes ----------------------------------------------------------------

/// Text that does not end in whitespace is its own trimmed end.
pub proof fn lemma_trim_end_of_plain(s: Seq<char>)
    requires
        s.len() > 0,
        !is_white(s.last()),
    ensures
        trim_end(s) == s,
{
}

/// A pattern whose first character the text before it does not hold is found right after that
/// text: splitting there gives the text before and the text after.
pub proof fn lemma_split_once_after(before: Seq<char>, pattern: Seq<char>, after: Seq<char>)
    requires
        pattern.len() > 0,
        forall|j: int| 0 <= j < before.len() ==> before[j] != pattern[0],
    ensures
        split_once(before + pattern + after, pattern) == Some((before, after)),
{
    let s = before + pattern + after;
    let n = before.len() as int;
    assert(s.subrange(n, n + pattern.len()) =~= pattern);
    assert(occurs_at(s, pattern, n));
    assert forall|j: int| 0 <= j < n implies !occurs_at(s, pattern, j) by {
        if occurs_at(s, pattern, j) {
            assert(s.subrange(j, j + pattern.len())[0] == s[j]);
            assert(s[j] == before[j]);
        }
    }
    let at = choose|at: int| first_occurrence(s, pattern, at);
    assert(first_occurrence(s, pattern, n));
    assert(at == n) by {
        if at < n {
            assert(!occurs_at(s, pattern, at));
        } else if at > n {
            assert(!occurs_at(s, pattern, n));
        }
    }
    assert(s.take(n) =~= before);
    assert(s.skip(n + pattern.len()) =~= after);
}

/// Text without the separator is one piece.
pub proof fn lemma_split_without_separator(s: Seq<char>, sep: char)
    requires
        forall|i: int| 0 <= i < s.len() ==> s[i] != sep,
    ensures
        split(s, sep) == seq![s],
    decreases s.len(),
{
    if s.len() > 0 {
        lemma_split_without_separator(s.drop_last(), sep);
        assert(s.last() != sep);
        assert(s.drop_last().push(s.last()) =~= s);
        assert(seq![s.drop_last()].update(0, s) =~= seq![s]);
    } else {
        assert(s =~= Seq::<char>::empty());
    }
}

/// Splitting text joined by the separator gives the pieces of each side.
pub proof fn lemma_split_joined(a: Seq<char>, b: Seq<char>, sep: char)
    ensures
        split(a + seq![sep] + b, sep) == split(a, sep) + split(b, sep),
    decreases b.len(),
{
    let s = a + seq![sep] + b;
    lemma_split_nonempty(a, sep);
    if b.len() == 0 {
        assert(s.drop_last() =~= a);
        assert(split(b, sep) =~= seq![Seq::<char>::empty()]);
        assert(split(a, sep).push(Seq::<char>::empty()) =~= split(a, sep) + split(b, sep));
    } else {
        let b0 = b.drop_last();
        lemma_split_joined(a, b0, sep);
        lemma_split_nonempty(b0, sep);
        assert(s.drop_last() =~= a + seq![sep] + b0);
        assert(s.last() == b.last());
        let x = split(a, sep);
        let y = split(b0, sep);
        if b.last() == sep {
            assert((x + y).push(Seq::<char>::empty()) =~= x + y.push(Seq::<char>::empty()));
        } else {
            assert((x + y).update((x + y).len() - 1, (x + y).last().push(b.last())) =~= x + y.update(
                y.len() - 1,
                y.last().push(b.last()),
            ));
        }
    }
}

} // verus!

verus! {

/// Whether the characters spell exactly `literal`.
pub fn is_literal(chars: &Vec<char>, literal: &str) -> (r: bool)
    ensures
        r == (chars@ == literal@),
{
    same_chars(chars, &chars_of(literal))
}

/// The `i`-th piece, or the empty text when there are fewer pieces.
pub open spec fn piece(pieces: Seq<Seq<char>>, i: int) -> Seq<char> {
    if 0 <= i < pieces.len() {
        pieces[i]
    } else {
        Seq::<char>::empty()
    }
}

/// The `i`-th piece as a string, or the empty string when there are fewer pieces.
pub fn piece_at(pieces: &Vec<Vec<char>>, i: usize) -> (s: String)
    ensures
        s@ == piece(views_of(pieces@), i as int),
{
    if i < pieces.len() {
        string_of(&pieces[i])
    } else {
        String::new()
    }
}

// --- Paths ------------------------------------------------------------------

/// `base` with `part` appended as a path component, as `Path::join` does on Unix: an absolute
/// `part` replaces `base`, and a separator goes between them unless `base` is empty or already
/// ends in one.
pub open spec fn path_join(base: Seq<char>, part: Seq<char>) -> Seq<char> {
    if part.len() > 0 && part[0] == '/' {
        part
    } else if base.len() == 0 || base.last() == '/' {
        base + part
    } else {
        base + seq!['/'] + part
    }
}

pub fn join_path(base: &str, part: &str) -> (joined: String)
    ensures
        joined@ == path_join(base@, part@),
{
    let base_chars = chars_of(base);
    let part_chars = chars_of(part);
    if part_chars.len() > 0 && part_chars[0] == '/' {
        return string_of(&part_chars);
    }
    let mut joined = string_of(&base_chars);
    if !(base_chars.len() == 0 || base_chars[base_chars.len() - 1] == '/') {
        joined.push('/');
    }
    push_chars(&mut joined, &part_chars);
    joined
}


} // verus!

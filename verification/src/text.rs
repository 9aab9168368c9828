//! Text helpers: comparison, trimming, splitting, searching, and decimal numbers.

use vstd::prelude::*;

verus! {

/// The characters of `s`, in order.
pub fn chars_of(s: &str) -> (out: Vec<char>)
    ensures
        out@ == s@,
{
    let mut out: Vec<char> = Vec::new();
    for c in it: s.chars()
        invariant
            out@ == it.seq().take(it.index() as int),
            it.seq() == s@,
    {
        out.push(c);
    }
    assert(out@ =~= s@);
    out
}

/// The decimal digits of `n`, most significant first.
pub open spec fn decimal(n: nat) -> Seq<char>
    decreases n,
{
    if n < 10 {
        seq![digit(n)]
    } else {
        decimal(n / 10).push(digit(n % 10))
    }
}

/// The character of one decimal digit.
pub open spec fn digit(d: nat) -> char {
    if d == 0 {
        '0'
    } else if d == 1 {
        '1'
    } else if d == 2 {
        '2'
    } else if d == 3 {
        '3'
    } else if d == 4 {
        '4'
    } else if d == 5 {
        '5'
    } else if d == 6 {
        '6'
    } else if d == 7 {
        '7'
    } else if d == 8 {
        '8'
    } else {
        '9'
    }
}

fn digit_text(d: u64) -> (r: &'static str)
    requires
        d < 10,
    ensures
        r@ == seq![digit(d as nat)],
{
    proof {
        reveal_strlit("0");
        reveal_strlit("1");
        reveal_strlit("2");
        reveal_strlit("3");
        reveal_strlit("4");
        reveal_strlit("5");
        reveal_strlit("6");
        reveal_strlit("7");
        reveal_strlit("8");
        reveal_strlit("9");
    }
    match d {
        0 => "0",
        1 => "1",
        2 => "2",
        3 => "3",
        4 => "4",
        5 => "5",
        6 => "6",
        7 => "7",
        8 => "8",
        _ => "9",
    }
}

/// The number `n` written in decimal.
pub fn decimal_text(n: u64) -> (r: String)
    ensures
        r@ == decimal(n as nat),
{
    wide_decimal_text(n as u128)
}

/// The number `n` written in decimal.
pub fn wide_decimal_text(n: u128) -> (r: String)
    ensures
        r@ == decimal(n as nat),
    decreases n,
{
    if n < 10 {
        digit_text(n as u64).to_string()
    } else {
        let head = wide_decimal_text(n / 10);
        head.concat(digit_text((n % 10) as u64))
    }
}

/// `a` followed by `b`.
pub fn joined(a: &str, b: &str) -> (r: String)
    ensures
        r@ == a@ + b@,
{
    let mut out = a.to_string();
    out.append(b);
    out
}

/// `a`, `b` and `c`, one after the other.
pub fn joined3(a: &str, b: &str, c: &str) -> (r: String)
    ensures
        r@ == a@ + b@ + c@,
{
    let mut out = a.to_string();
    out.append(b);
    out.append(c);
    out
}

/// Whether two texts hold the same characters.
pub fn same_text(a: &str, b: &str) -> (r: bool)
    ensures
        r == (a@ == b@),
{
    a.to_string() == b.to_string()
}

/// A character with the Unicode property `White_Space`.
pub open spec fn is_space(c: char) -> bool {
    ||| '\u{9}' <= c <= '\u{d}'
    ||| c == ' '
    ||| c == '\u{85}'
    ||| c == '\u{a0}'
    ||| c == '\u{1680}'
    ||| '\u{2000}' <= c <= '\u{200a}'
    ||| c == '\u{2028}'
    ||| c == '\u{2029}'
    ||| c == '\u{202f}'
    ||| c == '\u{205f}'
    ||| c == '\u{3000}'
}

fn is_space_char(c: char) -> (r: bool)
    ensures
        r == is_space(c),
{
    ('\u{9}' <= c && c <= '\u{d}') || c == ' ' || c == '\u{85}' || c == '\u{a0}' || c
        == '\u{1680}' || ('\u{2000}' <= c && c <= '\u{200a}') || c == '\u{2028}' || c == '\u{2029}'
        || c == '\u{202f}' || c == '\u{205f}' || c == '\u{3000}'
}

/// `s` without its leading white space.
pub open spec fn trimmed_start(s: Seq<char>) -> Seq<char>
    decreases s.len(),
{
    if s.len() > 0 && is_space(s[0]) {
        trimmed_start(s.drop_first())
    } else {
        s
    }
}

/// `s` without its trailing white space.
pub open spec fn trimmed_end(s: Seq<char>) -> Seq<char>
    decreases s.len(),
{
    if s.len() > 0 && is_space(s.last()) {
        trimmed_end(s.drop_last())
    } else {
        s
    }
}

/// `s` without white space at either end.
pub open spec fn trimmed(s: Seq<char>) -> Seq<char> {
    trimmed_end(trimmed_start(s))
}

/// The text without white space at either end.
pub fn trim(s: &str) -> (r: String)
    ensures
        r@ == trimmed(s@),
{
    let chars = chars_of(s);
    let n: usize = chars.len();
    let mut from: usize = 0;
    assert(s@.skip(0) =~= s@);
    while from < n && is_space_char(chars[from])
        invariant
            from <= n,
            n == chars@.len(),
            chars@ == s@,
            trimmed_start(s@) == trimmed_start(s@.skip(from as int)),
        decreases n - from,
    {
        assert(s@.skip(from as int).drop_first() =~= s@.skip(from as int + 1));
        from += 1;
    }
    let ghost front = s@.skip(from as int);
    assert(trimmed_start(s@) == front);
    let mut to: usize = n;
    assert(front.take(to - from) =~= front);
    while to > from && is_space_char(chars[to - 1])
        invariant
            from <= to <= n,
            n == chars@.len(),
            chars@ == s@,
            front == s@.skip(from as int),
            trimmed_end(front) == trimmed_end(front.take(to - from)),
        decreases to,
    {
        assert(front.take(to - from).drop_last() =~= front.take(to - from - 1));
        assert(front.take(to - from).last() == chars@[to - 1]);
        to -= 1;
    }
    assert(to > from ==> front.take(to - from).last() == chars@[to - 1]);
    assert(trimmed(s@) == front.take(to - from));
    assert(front.take(to - from) =~= s@.subrange(from as int, to as int));
    s.substring_char(from, to).to_string()
}

/// `needle` occurs in `hay`.
pub open spec fn has_text(hay: Seq<char>, needle: Seq<char>) -> bool {
    exists|i: int| occurs_at(hay, needle, i)
}

/// `needle` stands in `hay` at position `i`.
pub open spec fn occurs_at(hay: Seq<char>, needle: Seq<char>, i: int) -> bool {
    0 <= i && i + needle.len() <= hay.len() && hay.subrange(i, i + needle.len()) == needle
}

fn occurs_here(hay: &Vec<char>, needle: &Vec<char>, at: usize) -> (r: bool)
    requires
        at + needle@.len() <= hay@.len(),
    ensures
        r == occurs_at(hay@, needle@, at as int),
{
    let end: usize = hay.len();
    let mut k: usize = 0;
    while k < needle.len()
        invariant
            k <= needle@.len(),
            end == hay@.len(),
            at + needle@.len() <= end,
            forall|j: int| 0 <= j < k ==> hay@[at + j] == needle@[j],
        decreases needle@.len() - k,
    {
        if hay[at + k] != needle[k] {
            assert(hay@.subrange(at as int, at + needle@.len())[k as int] != needle@[k as int]);
            return false;
        }
        k += 1;
    }
    assert(hay@.subrange(at as int, at + needle@.len()) =~= needle@);
    true
}

/// Whether `needle` occurs in `hay`; the empty text occurs everywhere.
pub fn contains_text(hay: &str, needle: &str) -> (r: bool)
    ensures
        r == has_text(hay@, needle@),
{
    let h = chars_of(hay);
    let n = chars_of(needle);
    if n.len() > h.len() {
        return false;
    }
    let last: usize = h.len() - n.len();
    let mut i: usize = 0;
    while i <= last
        invariant
            h@ == hay@,
            n@ == needle@,
            last == h@.len() - n@.len(),
            i <= last + 1,
            forall|j: int| 0 <= j < i ==> !occurs_at(hay@, needle@, j),
        decreases last + 1 - i,
    {
        if occurs_here(&h, &n, i) {
            assert(occurs_at(hay@, needle@, i as int));
            return true;
        }
        if i == last {
            assert forall|j: int| !occurs_at(hay@, needle@, j) by {
                if j > last {
                    assert(!(j + needle@.len() <= hay@.len()));
                }
            }
            return false;
        }
        i += 1;
    }
    false
}

/// Whether the text holds the character.
pub fn contains_char(s: &str, c: char) -> (r: bool)
    ensures
        r == s@.contains(c),
{
    let chars = chars_of(s);
    let mut i: usize = 0;
    while i < chars.len()
        invariant
            chars@ == s@,
            i <= chars@.len(),
            forall|j: int| 0 <= j < i ==> s@[j] != c,
        decreases chars@.len() - i,
    {
        if chars[i] == c {
            assert(s@[i as int] == c);
            return true;
        }
        i += 1;
    }
    false
}

/// Whether the text begins with the character.
pub fn starts_with_char(s: &str, c: char) -> (r: bool)
    ensures
        r == (s@.len() > 0 && s@[0] == c),
{
    if s.is_empty() {
        false
    } else {
        s.get_char(0) == c
    }
}

/// Whether `s` begins with `prefix`.
pub fn starts_with_text(s: &str, prefix: &str) -> (r: bool)
    ensures
        r == prefix@.is_prefix_of(s@),
{
    let h = chars_of(s);
    let n = chars_of(prefix);
    if n.len() > h.len() {
        return false;
    }
    let r = occurs_here(&h, &n, 0);
    assert(r == prefix@.is_prefix_of(s@));
    r
}

/// The pieces of `s` between the separators `/`, the empty ones too.
pub open spec fn pieces(s: Seq<char>) -> Seq<Seq<char>>
    decreases s.len(),
{
    if s.len() == 0 {
        seq![Seq::<char>::empty()]
    } else {
        let front = pieces(s.drop_last());
        if s.last() == '/' {
            front.push(Seq::<char>::empty())
        } else {
            front.update(front.len() - 1, front.last().push(s.last()))
        }
    }
}

/// The non-empty pieces of `s` between the separators `/`.
pub open spec fn names(s: Seq<char>) -> Seq<Seq<char>> {
    pieces(s).filter(|p: Seq<char>| p.len() > 0)
}

/// The contents of a list of texts.
pub open spec fn texts(v: Seq<String>) -> Seq<Seq<char>> {
    v.map_values(|s: String| s@)
}

pub proof fn lemma_pieces_non_empty(s: Seq<char>)
    ensures
        pieces(s).len() > 0,
    decreases s.len(),
{
    if s.len() > 0 {
        lemma_pieces_non_empty(s.drop_last());
    }
}

/// The non-empty pieces of the text between the separators `/`.
pub fn split_names(s: &str) -> (r: Vec<String>)
    ensures
        texts(r@) == names(s@),
{
    let chars = chars_of(s);
    let mut out: Vec<String> = Vec::new();
    let mut start: usize = 0;
    let mut i: usize = 0;
    let ghost keep = |p: Seq<char>| p.len() > 0;
    assert(pieces(s@.take(0)) =~= seq![Seq::<char>::empty()]) by {
        assert(s@.take(0).len() == 0);
    }
    assert(pieces(s@.take(0)).drop_last() =~= Seq::<Seq<char>>::empty());
    assert(Seq::<Seq<char>>::empty().filter(keep) =~= Seq::<Seq<char>>::empty()) by {
        reveal(Seq::filter);
    }
    assert(s@.subrange(0, 0) =~= Seq::<char>::empty());
    assert(texts(out@) =~= Seq::<Seq<char>>::empty());
    while i < chars.len()
        invariant
            chars@ == s@,
            start <= i <= chars@.len(),
            keep == (|p: Seq<char>| p.len() > 0),
            pieces(s@.take(i as int)).len() > 0,
            pieces(s@.take(i as int)).last() == s@.subrange(start as int, i as int),
            texts(out@) == pieces(s@.take(i as int)).drop_last().filter(keep),
        decreases chars@.len() - i,
    {
        let ghost before = pieces(s@.take(i as int));
        let ghost after = pieces(s@.take(i + 1));
        assert(s@.take(i + 1).drop_last() =~= s@.take(i as int));
        assert(s@.take(i + 1).last() == s@[i as int]);
        if chars[i] == '/' {
            assert(after.drop_last() =~= before);
            assert(before =~= before.drop_last().push(before.last()));
            proof {
                reveal(Seq::filter);
                assert(before.drop_last().push(before.last()).drop_last() =~= before.drop_last());
            }
            if start < i {
                let piece = s.substring_char(start, i).to_string();
                let ghost held = out@;
                out.push(piece);
                assert(texts(out@) =~= texts(held).push(piece@));
            }
            start = i + 1;
            assert(s@.subrange(i + 1, i + 1) =~= Seq::<char>::empty());
        } else {
            assert(after.drop_last() =~= before.drop_last());
            assert(before.last().push(s@[i as int]) =~= s@.subrange(start as int, i + 1));
        }
        i += 1;
    }
    assert(s@.take(i as int) =~= s@);
    let ghost all = pieces(s@);
    assert(all =~= all.drop_last().push(all.last()));
    proof {
        reveal(Seq::filter);
        assert(all.drop_last().push(all.last()).drop_last() =~= all.drop_last());
    }
    if start < i {
        let piece = s.substring_char(start, i).to_string();
        let ghost held = out@;
        out.push(piece);
        assert(texts(out@) =~= texts(held).push(piece@));
    }
    out
}

/// `s` without its trailing separators.
pub open spec fn without_end_slashes(s: Seq<char>) -> Seq<char>
    decreases s.len(),
{
    if s.len() > 0 && s.last() == '/' {
        without_end_slashes(s.drop_last())
    } else {
        s
    }
}

/// The text without its trailing separators.
pub fn trim_end_slashes(s: &str) -> (r: String)
    ensures
        r@ == without_end_slashes(s@),
{
    let chars = chars_of(s);
    let mut to: usize = chars.len();
    assert(s@.take(to as int) =~= s@);
    while to > 0 && chars[to - 1] == '/'
        invariant
            chars@ == s@,
            to <= chars@.len(),
            without_end_slashes(s@) == without_end_slashes(s@.take(to as int)),
        decreases to,
    {
        assert(s@.take(to as int).drop_last() =~= s@.take(to - 1));
        to -= 1;
    }
    assert(s@.take(to as int) =~= s@.subrange(0, to as int));
    s.substring_char(0, to).to_string()
}

/// The part of a path that names a file: the last piece that is neither empty nor `.`, unless
/// that piece is `..`.
pub open spec fn file_name(path: Seq<char>) -> Option<Seq<char>> {
    let proper = names(path).filter(|p: Seq<char>| p != seq!['.']);
    if proper.len() == 0 || proper.last() == seq!['.', '.'] {
        None
    } else {
        Some(proper.last())
    }
}

/// The part of a path that names a file, as [`file_name`] says.
pub fn file_name_in(path: &str) -> (r: Option<String>)
    ensures
        r is Some == file_name(path@) is Some,
        r is Some ==> r->0@ == file_name(path@)->0,
{
    let all = split_names(path);
    let ghost proper = |p: Seq<char>| p != seq!['.'];
    proof {
        reveal_strlit(".");
        reveal_strlit("..");
        assert("."@ =~= seq!['.']);
        assert(".."@ =~= seq!['.', '.']);
    }
    let mut n: usize = all.len();
    assert(names(path@).take(n as int) =~= names(path@));
    while n > 0
        invariant
            n <= all@.len(),
            texts(all@) == names(path@),
            proper == (|p: Seq<char>| p != seq!['.']),
            "."@ == seq!['.'],
            ".."@ == seq!['.', '.'],
            names(path@).filter(proper) == names(path@).take(n as int).filter(proper),
        decreases n,
    {
        let last = &all[n - 1];
        let ghost front = names(path@).take(n as int);
        assert(front.last() == last@);
        proof {
            reveal(Seq::filter);
            assert(front.drop_last() =~= names(path@).take(n - 1));
        }
        if same_text(last, ".") {
            n -= 1;
        } else {
            assert(front.filter(proper).last() == last@);
            if same_text(last, "..") {
                return None;
            }
            return Some(last.clone());
        }
    }
    proof {
        reveal(Seq::filter);
        assert(names(path@).take(0).len() == 0);
    }
    None
}

/// The value of a row of decimal digits, or nothing where a character is no digit.
pub open spec fn digits_value(s: Seq<char>) -> Option<nat>
    decreases s.len(),
{
    if s.len() == 0 {
        Some(0)
    } else if '0' <= s.last() <= '9' {
        match digits_value(s.drop_last()) {
            Some(front) => Some(front * 10 + ((s.last() as nat) - ('0' as nat)) as nat),
            None => None,
        }
    } else {
        None
    }
}

/// The number that a text denotes: digits, at least one, after an optional plus sign.
pub open spec fn number_of(s: Seq<char>) -> Option<nat> {
    let digits = if s.len() > 0 && s[0] == '+' {
        s.drop_first()
    } else {
        s
    };
    if digits.len() == 0 {
        None
    } else {
        digits_value(digits)
    }
}

proof fn lemma_digits_prefix(s: Seq<char>, n: int)
    requires
        0 <= n <= s.len(),
    ensures
        digits_value(s.take(n)) is None ==> digits_value(s) is None,
        digits_value(s) is Some ==> digits_value(s.take(n)) is Some && digits_value(s.take(n))->0
            <= digits_value(s)->0,
    decreases s.len(),
{
    if n == s.len() {
        assert(s.take(n) =~= s);
    } else {
        lemma_digits_prefix(s.drop_last(), n);
        assert(s.drop_last().take(n) =~= s.take(n));
    }
}

/// The port that a text denotes, where it denotes a number that fits.
pub fn parse_port(s: &str) -> (r: Option<u16>)
    ensures
        r is Some <==> number_of(s@) is Some && number_of(s@)->0 <= u16::MAX,
        r is Some ==> r->0 as nat == number_of(s@)->0,
{
    let chars = chars_of(s);
    let start: usize = if chars.len() > 0 && chars[0] == '+' {
        1
    } else {
        0
    };
    if chars.len() == start {
        return None;
    }
    let ghost digits = s@.skip(start as int);
    assert(start == 1 ==> s@.drop_first() =~= digits);
    assert(start == 0 ==> s@ =~= digits);
    let mut value: u32 = 0;
    let mut i: usize = start;
    while i < chars.len()
        invariant
            chars@ == s@,
            start <= i <= chars@.len(),
            digits == s@.skip(start as int),
            digits.len() > 0,
            number_of(s@) == digits_value(digits),
            value <= u16::MAX,
            digits_value(digits.take(i - start)) == Some(value as nat),
        decreases chars@.len() - i,
    {
        let c = chars[i];
        let ghost next = digits.take(i - start + 1);
        assert(next.drop_last() =~= digits.take(i - start));
        assert(next.last() == c);
        proof {
            lemma_digits_prefix(digits, i - start + 1);
        }
        if c < '0' || c > '9' {
            return None;
        }
        value = value * 10 + (c as u32 - '0' as u32);
        if value > 65535 {
            return None;
        }
        i += 1;
    }
    assert(digits.take(i - start) =~= digits);
    Some(value as u16)
}

/// Every character is ASCII.
pub open spec fn all_ascii(s: Seq<char>) -> bool {
    forall|i: int| 0 <= i < s.len() ==> (#[trigger] s[i]) <= '\u{7f}'
}

/// The small letter of an ASCII capital; any other character itself.
pub open spec fn ascii_small(c: char) -> char {
    if 'A' <= c <= 'Z' {
        ((c as u32) + 32) as char
    } else {
        c
    }
}

/// The text with its ASCII capitals made small.
pub open spec fn ascii_lowercase(s: Seq<char>) -> Seq<char> {
    s.map_values(|c: char| ascii_small(c))
}

/// The lower case of a text by Unicode's rules.
pub uninterp spec fn unicode_lowercase(s: Seq<char>) -> Seq<char>;

/// The lower case of a text; for one that is all ASCII, its letters made small one by one.
pub open spec fn lowercase(s: Seq<char>) -> Seq<char> {
    if all_ascii(s) {
        ascii_lowercase(s)
    } else {
        unicode_lowercase(s)
    }
}

/// The lower case of a text, from `str::to_lowercase`.
///
/// Claimed of it: its result depends on the text alone, and of a text that is all ASCII it makes
/// the capitals `A` to `Z` small and leaves every other character as it is. What it makes of
/// other texts is not stated.
#[verifier::external_body]
pub(crate) fn to_lowercase(s: &str) -> (r: String)
    ensures
        all_ascii(s@) ==> r@ == ascii_lowercase(s@),
        !all_ascii(s@) ==> r@ == unicode_lowercase(s@),
{
    s.to_lowercase()
}

proof fn lemma_small_keeps_space(c: char)
    ensures
        is_space(ascii_small(c)) == is_space(c),
{
}

/// Making letters small and cutting white space off the ends can be done in either order.
pub proof fn lemma_trimmed_lowercase(s: Seq<char>)
    ensures
        trimmed(ascii_lowercase(s)) == ascii_lowercase(trimmed(s)),
{
    lemma_trimmed_start_lowercase(s);
    lemma_trimmed_end_lowercase(trimmed_start(s));
}

proof fn lemma_trimmed_start_lowercase(s: Seq<char>)
    ensures
        trimmed_start(ascii_lowercase(s)) == ascii_lowercase(trimmed_start(s)),
    decreases s.len(),
{
    if s.len() > 0 {
        lemma_small_keeps_space(s[0]);
        if is_space(s[0]) {
            lemma_trimmed_start_lowercase(s.drop_first());
            assert(ascii_lowercase(s).drop_first() =~= ascii_lowercase(s.drop_first()));
        }
    }
}

proof fn lemma_trimmed_end_lowercase(s: Seq<char>)
    ensures
        trimmed_end(ascii_lowercase(s)) == ascii_lowercase(trimmed_end(s)),
    decreases s.len(),
{
    if s.len() > 0 {
        lemma_small_keeps_space(s.last());
        if is_space(s.last()) {
            lemma_trimmed_end_lowercase(s.drop_last());
            assert(ascii_lowercase(s).drop_last() =~= ascii_lowercase(s.drop_last()));
        }
    }
}

/// A text without white space at its ends holds only characters of the text.
pub proof fn lemma_trimmed_ascii(s: Seq<char>)
    requires
        all_ascii(s),
    ensures
        all_ascii(trimmed(s)),
{
    lemma_trimmed_start_ascii(s);
    lemma_trimmed_end_ascii(trimmed_start(s));
}

proof fn lemma_trimmed_start_ascii(s: Seq<char>)
    requires
        all_ascii(s),
    ensures
        all_ascii(trimmed_start(s)),
    decreases s.len(),
{
    if s.len() > 0 && is_space(s[0]) {
        assert forall|i: int| 0 <= i < s.drop_first().len() implies (#[trigger] s.drop_first()[i])
            <= '\u{7f}' by {
            assert(s[i + 1] <= '\u{7f}');
        }
        lemma_trimmed_start_ascii(s.drop_first());
    }
}

proof fn lemma_trimmed_end_ascii(s: Seq<char>)
    requires
        all_ascii(s),
    ensures
        all_ascii(trimmed_end(s)),
    decreases s.len(),
{
    if s.len() > 0 && is_space(s.last()) {
        assert forall|i: int| 0 <= i < s.drop_last().len() implies (#[trigger] s.drop_last()[i])
            <= '\u{7f}' by {
            assert(s[i] <= '\u{7f}');
        }
        lemma_trimmed_end_ascii(s.drop_last());
    }
}

}

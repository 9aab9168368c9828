//! Texts, numbers and paths: what is cut off, what is read back, what is put together.

use vstd::prelude::*;

use crate::helpers::{append_local_name, append_remote_name, endpoint_text, expand_home};
use crate::nav::{child_of, lemma_names_of_path, lemma_names_plus_name, parent_of, path_of};
use crate::resources::lemma_decimal_injective;
use crate::text::{
    contains_text, decimal, decimal_text, digits_value, file_name_in, is_space, names, number_of,
    occurs_at, parse_port, pieces, trim, trimmed, trimmed_end, trimmed_start, without_end_slashes,
};

verus! {

/// A blank, a tab or the end of a line.
pub open spec fn is_blank(c: char) -> bool {
    c == ' ' || c == '\t' || c == '\n' || c == '\r'
}

/// A letter, a digit or a mark of ASCII.
pub open spec fn is_mark(c: char) -> bool {
    '!' <= c <= '~'
}

proof fn lemma_trimmed_start(s: Seq<char>)
    ensures
        exists|a: int|
            0 <= a <= s.len() && trimmed_start(s) == #[trigger] s.skip(a) && (forall|k: int|
                0 <= k < a ==> is_space(#[trigger] s[k])) && (a < s.len() ==> !is_space(s[a])),
    decreases s.len(),
{
    if s.len() > 0 && is_space(s[0]) {
        let rest = s.drop_first();
        lemma_trimmed_start(rest);
        let a = choose|a: int|
            0 <= a <= rest.len() && trimmed_start(rest) == #[trigger] rest.skip(a) && (forall|
                k: int,
            |
                0 <= k < a ==> is_space(#[trigger] rest[k])) && (a < rest.len() ==> !is_space(
                rest[a],
            ));
        assert(rest.skip(a) =~= s.skip(a + 1));
        assert forall|k: int| 0 <= k < a + 1 implies is_space(#[trigger] s[k]) by {
            if k > 0 {
                assert(rest[k - 1] == s[k]);
            }
        }
    } else {
        assert(s.skip(0) =~= s);
    }
}

proof fn lemma_trimmed_end(s: Seq<char>)
    ensures
        exists|b: int|
            0 <= b <= s.len() && trimmed_end(s) == #[trigger] s.take(b) && (forall|k: int|
                b <= k < s.len() ==> is_space(#[trigger] s[k])) && (b > 0 ==> !is_space(s[b - 1])),
    decreases s.len(),
{
    if s.len() > 0 && is_space(s.last()) {
        let rest = s.drop_last();
        lemma_trimmed_end(rest);
        let b = choose|b: int|
            0 <= b <= rest.len() && trimmed_end(rest) == #[trigger] rest.take(b) && (forall|k: int|
                b <= k < rest.len() ==> is_space(#[trigger] rest[k])) && (b > 0 ==> !is_space(
                rest[b - 1],
            ));
        assert(rest.take(b) =~= s.take(b));
        assert forall|k: int| b <= k < s.len() implies is_space(#[trigger] s[k]) by {
            if k < rest.len() {
                assert(rest[k] == s[k]);
            }
        }
    } else {
        assert(s.take(s.len() as int) =~= s);
    }
}

/// Trimming leaves a stretch of the text: blanks at its ends are gone, and all that is cut off is
/// white space. A text that begins and ends with a mark is left as it is.
pub proof fn law_trimming_cuts_white_space_alone(s: &str, r: String)
    requires
        call_ensures(trim, (s,), r),
    ensures
        exists|a: int, b: int|
            0 <= a <= b <= s@.len() && r@ == #[trigger] s@.subrange(a, b) && (forall|k: int|
                0 <= k < a || b <= k < s@.len() ==> is_space(#[trigger] s@[k])),
        r@.len() > 0 ==> !is_blank(r@[0]) && !is_blank(r@.last()),
        r@.len() == 0 <==> forall|k: int| 0 <= k < s@.len() ==> is_space(#[trigger] s@[k]),
        s@.len() > 0 && is_mark(s@[0]) && is_mark(s@.last()) ==> r@ == s@,
{
    let t = s@;
    lemma_trimmed_start(t);
    let a = choose|a: int|
        0 <= a <= t.len() && trimmed_start(t) == #[trigger] t.skip(a) && (forall|k: int|
            0 <= k < a ==> is_space(#[trigger] t[k])) && (a < t.len() ==> !is_space(t[a]));
    let u = t.skip(a);
    lemma_trimmed_end(u);
    let b = choose|b: int|
        0 <= b <= u.len() && trimmed_end(u) == #[trigger] u.take(b) && (forall|k: int|
            b <= k < u.len() ==> is_space(#[trigger] u[k])) && (b > 0 ==> !is_space(u[b - 1]));
    assert(r@ =~= t.subrange(a, a + b));
    assert forall|k: int| 0 <= k < a || a + b <= k < t.len() implies is_space(
        #[trigger] t[k],
    ) by {
        if k >= a + b {
            assert(u[k - a] == t[k]);
        }
    }
    if r@.len() > 0 {
        assert(r@[0] == t[a]);
        assert(r@.last() == u[b - 1]);
        assert(!is_space(t[a]) && !is_space(u[b - 1]));
        assert(exists|k: int| 0 <= k < t.len() && !is_space(#[trigger] t[k]));
    }
    if t.len() > 0 && is_mark(t[0]) && is_mark(t.last()) {
        assert(!is_space(t[0]));
        assert(a == 0);
        assert(u.last() == t.last());
        assert(b == u.len());
        assert(t.subrange(0, t.len() as int) =~= t);
    }
}

/// A row of digits reads back as the number that it was written for.
pub proof fn lemma_decimal_reads_back(n: nat)
    ensures
        digits_value(decimal(n)) == Some(n),
        decimal(n).len() > 0,
        forall|k: int| 0 <= k < decimal(n).len() ==> '0' <= #[trigger] decimal(n)[k] <= '9',
        number_of(decimal(n)) == Some(n),
        trimmed(decimal(n)) == decimal(n),
    decreases n,
{
    let d = decimal(n);
    if n >= 10 {
        lemma_decimal_reads_back(n / 10);
        assert(d.drop_last() =~= decimal(n / 10));
        assert forall|k: int| 0 <= k < d.len() implies '0' <= #[trigger] d[k] <= '9' by {
            if k < d.len() - 1 {
                assert(d.drop_last()[k] == d[k]);
            }
        }
    } else {
        assert(d.drop_last() =~= Seq::<char>::empty());
        assert(digits_value(d.drop_last()) == Some(0nat));
    }
    assert(d[0] == d.first());
    assert('0' <= d[0] <= '9');
    assert('0' <= d[d.len() - 1] <= '9');
    assert(trimmed_start(d) == d);
    assert(trimmed_end(d) == d);
}

/// A port written down reads back as that port; a larger number is none.
pub proof fn law_written_port_reads_back(n: u64, text: String, t: &str, port: Option<u16>)
    requires
        call_ensures(decimal_text, (n,), text),
        t@ == text@,
        call_ensures(parse_port, (t,), port),
    ensures
        n <= 65535 ==> port == Some(n as u16),
        n > 65535 ==> port is None,
{
    lemma_decimal_reads_back(n as nat);
}

/// Numbers are written in decimal: one digit for each number below ten, and a further digit for
/// each further power of ten. No two numbers are written alike.
pub proof fn law_numbers_are_written_in_decimal(
    n: u64,
    d: u64,
    all: String,
    front: String,
    last: String,
)
    requires
        d < 10,
        10 * n + d <= u64::MAX,
        call_ensures(decimal_text, ((10 * n + d) as u64,), all),
        call_ensures(decimal_text, (n,), front),
        call_ensures(decimal_text, (d,), last),
    ensures
        last@.len() == 1,
        last@[0] as int == '0' as int + d,
        n > 0 ==> all@ == front@ + last@,
        all@ == front@ ==> n == 10 * n + d,
{
    lemma_decimal_reads_back(d as nat);
    if n > 0 {
        assert((10 * n + d) / 10 == n);
        assert((10 * n + d) % 10 == d);
        assert(all@ =~= front@ + last@);
    }
    if all@ == front@ {
        lemma_decimal_injective((10 * n + d) as nat, n as nat);
    }
}

/// A text is found in another exactly where the other is something before it, it, and something
/// behind it.
pub proof fn law_found_text_is_there(
    hay: &str,
    needle: &str,
    r: bool,
    before: Seq<char>,
    behind: Seq<char>,
)
    requires
        call_ensures(contains_text, (hay, needle), r),
    ensures
        hay@ == before + needle@ + behind ==> r,
        r ==> exists|a: Seq<char>, b: Seq<char>| hay@ == #[trigger] (a + needle@ + b),
{
    let n = needle@.len() as int;
    if hay@ == before + needle@ + behind {
        let i = before.len() as int;
        assert(hay@.subrange(i, i + n) =~= needle@);
        assert(occurs_at(hay@, needle@, i));
    }
    if r {
        let i = choose|i: int| occurs_at(hay@, needle@, i);
        let (a, b) = (hay@.take(i), hay@.skip(i + n));
        assert(hay@ =~= a + hay@.subrange(i, i + n) + b);
        assert(hay@ == a + needle@ + b);
    }
}

/// A clean path: it begins with a separator, has none at its end and no two in a row.
pub open spec fn is_clean(path: Seq<char>) -> bool {
    &&& path.len() > 1
    &&& path[0] == '/'
    &&& path.last() != '/'
    &&& forall|k: int| 0 <= k < path.len() - 1 ==> !(#[trigger] path[k] == '/' && path[k + 1] == '/')
}

/// A name of a file: neither empty, nor one of the two that stand for directories, and without
/// separators.
pub open spec fn is_name(name: Seq<char>) -> bool {
    name.len() > 0 && name != seq!['.'] && name != seq!['.', '.'] && !name.contains('/')
}

proof fn lemma_path_of_pieces(s: Seq<char>)
    requires
        s.len() > 0,
        s[0] == '/',
        forall|k: int| 0 <= k < s.len() - 1 ==> !(#[trigger] s[k] == '/' && s[k + 1] == '/'),
    ensures
        s.last() != '/' ==> path_of(names(s)) == s && names(s).len() > 0,
        s.last() == '/' ==> path_of(names(s)) == s.drop_last() && pieces(s).last().len() == 0,
        s.last() != '/' ==> pieces(s).last() == names(s).last(),
    decreases s.len(),
{
    reveal(Seq::filter);
    let front = s.drop_last();
    let keep = |p: Seq<char>| p.len() > 0;
    crate::text::lemma_pieces_non_empty(front);
    if s.len() == 1 {
        assert(front =~= Seq::<char>::empty());
        assert(pieces(front) =~= seq![Seq::<char>::empty()]);
        assert(pieces(s) =~= seq![Seq::<char>::empty(), Seq::<char>::empty()]);
        assert(pieces(s).drop_last() =~= seq![Seq::<char>::empty()]);
        assert(pieces(s).drop_last().drop_last() =~= Seq::<Seq<char>>::empty());
        assert(Seq::<Seq<char>>::empty().filter(keep) =~= Seq::<Seq<char>>::empty());
        assert(seq![Seq::<char>::empty()].filter(keep) =~= Seq::<Seq<char>>::empty());
        assert(names(s) =~= Seq::<Seq<char>>::empty());
        assert(path_of(names(s)) =~= front);
    } else {
        assert forall|k: int| 0 <= k < front.len() - 1 implies !(#[trigger] front[k] == '/'
            && front[k + 1] == '/') by {
            assert(s[k] == front[k]);
        }
        lemma_path_of_pieces(front);
        let p = pieces(front);
        if s.last() == '/' {
            assert(s[s.len() - 2] == front.last());
            assert(front.last() != '/');
            assert(pieces(s).drop_last() =~= p);
            assert(names(s) == names(front));
        } else {
            let grown = p.last().push(s.last());
            assert(pieces(s).drop_last() =~= p.drop_last());
            assert(pieces(s).last() == grown);
            assert(names(s) == p.drop_last().filter(keep).push(grown));
            assert(names(s).drop_last() =~= p.drop_last().filter(keep));
            if front.last() == '/' {
                assert(p.last().len() == 0);
                assert(names(front) == p.drop_last().filter(keep));
                assert(front.drop_last() + seq!['/'] + grown =~= s);
            } else {
                assert(names(front) == p.drop_last().filter(keep).push(p.last()));
                assert(names(front).drop_last() =~= p.drop_last().filter(keep));
                assert(path_of(names(front).drop_last()) + seq!['/'] + p.last() == front);
                assert(path_of(names(s)) =~= front.push(s.last()));
                assert(front.push(s.last()) =~= s);
            }
        }
    }
}

pub(crate) proof fn lemma_clean(path: Seq<char>)
    requires
        is_clean(path),
    ensures
        path_of(names(path)) == path,
        names(path).len() > 0,
        without_end_slashes(path) == path,
{
    lemma_path_of_pieces(path);
}

/// A file in a directory has that directory above it and its own name as its name; and it is
/// reached from the directory by that name.
pub proof fn law_directories_and_names(
    dir: &str,
    name: &str,
    path: String,
    p: &str,
    above: Option<String>,
    named: Option<String>,
)
    requires
        is_clean(dir@) || dir@ == seq!['/'],
        is_name(name@),
        call_ensures(child_of, (dir, name), path),
        p@ == path@,
        call_ensures(parent_of, (p,), above),
        call_ensures(file_name_in, (p,), named),
    ensures
        is_clean(dir@) ==> path@ == dir@ + seq!['/'] + name@,
        dir@ == seq!['/'] ==> path@ == seq!['/'] + name@,
        above is Some,
        above->0@ == dir@,
        named is Some,
        named->0@ == name@,
{
    reveal(Seq::filter);
    let base = without_end_slashes(dir@);
    if dir@ == seq!['/'] {
        assert(dir@.drop_last() =~= Seq::<char>::empty());
        assert(without_end_slashes(dir@.drop_last()) == dir@.drop_last());
        assert(base =~= Seq::<char>::empty());
        lemma_names_of_path(Seq::<Seq<char>>::empty());
        assert(names(base) =~= Seq::<Seq<char>>::empty());
        assert(path@ =~= seq!['/'] + name@);
    } else {
        lemma_clean(dir@);
    }
    lemma_names_plus_name(base, name@);
    let all = names(path@);
    assert(all == names(base).push(name@));
    assert(all.drop_last() =~= names(base));
    assert(all.last() == name@);
    let proper = |q: Seq<char>| q != seq!['.'];
    assert(all.filter(proper).last() == name@);
}

/// The root has nothing above it.
pub proof fn law_root_is_at_the_top(p: &str, above: Option<String>)
    requires
        p@ == seq!['/'],
        call_ensures(parent_of, (p,), above),
    ensures
        above is None,
{
    lemma_path_of_pieces(p@);
    assert(p@.drop_last() =~= Seq::<char>::empty());
    if names(p@).len() > 0 {
        let all = names(p@);
        assert(path_of(all).len() > 0);
    }
}

/// A copied file keeps its name: it lands in the directory of the other side under it.
pub proof fn law_copied_file_keeps_its_name(
    dir: &str,
    source: &str,
    name: Seq<char>,
    from: Seq<char>,
    up: Option<String>,
    down: Option<String>,
)
    requires
        is_clean(dir@),
        is_clean(from),
        is_name(name),
        source@ == from + seq!['/'] + name,
        call_ensures(append_remote_name, (dir, source), up),
        call_ensures(append_local_name, (dir, source), down),
    ensures
        up is Some,
        up->0@ == dir@ + seq!['/'] + name,
        down is Some,
        down->0@ == dir@ + seq!['/'] + name,
{
    reveal(Seq::filter);
    lemma_clean(dir@);
    lemma_names_plus_name(from, name);
    let all = names(source@);
    assert(all.drop_last() =~= names(from));
    assert(all.last() == name);
    let proper = |q: Seq<char>| q != seq!['.'];
    assert(all.filter(proper).last() == name);
}

/// A place below the home directory is written with a tilde; any other is left as it is.
pub proof fn law_tilde_stands_for_home(
    path: &str,
    home: &str,
    rest: Seq<char>,
    known: String,
    unknown: String,
)
    requires
        is_clean(home@),
        call_ensures(expand_home, (path, Some(home)), known),
        call_ensures(expand_home, (path, None), unknown),
    ensures
        unknown@ == path@,
        path@ == seq!['~', '/'] + rest ==> known@ == home@ + seq!['/'] + rest,
        path@.len() > 0 && path@[0] != '~' ==> known@ == path@,
        path@ == seq!['~'] ==> known@ == path@,
{
    reveal_strlit("~/");
    reveal_strlit("/");
    lemma_clean(home@);
    assert("~/"@ =~= seq!['~', '/']);
    if path@ == seq!['~', '/'] + rest {
        assert("~/"@.is_prefix_of(path@));
        assert(path@.skip(2) =~= rest);
        assert("/"@ =~= seq!['/']);
    }
    if "~/"@.is_prefix_of(path@) {
        assert(path@[0] == "~/"@[0]);
    }
}

/// An endpoint is written as user, host and port.
pub proof fn law_endpoint_is_written_out(
    user: &str,
    host: &str,
    port: u16,
    text: String,
    number: String,
)
    requires
        call_ensures(endpoint_text, (user, host, port), text),
        call_ensures(decimal_text, (port as u64,), number),
    ensures
        text@ == user@ + seq!['@'] + host@ + seq![':'] + number@,
{
    reveal_strlit("@");
    reveal_strlit(":");
    assert("@"@ =~= seq!['@']);
    assert(":"@ =~= seq![':']);
}

}

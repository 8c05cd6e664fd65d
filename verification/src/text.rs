//! Text primitives over `str` with their mathematical models on `Seq<char>`.

use vstd::prelude::*;
use vstd::string::*;
use vstd::utf8::*;

verus! {

/// The Unicode `White_Space` property, as `char::is_whitespace` documents it.
pub open spec fn is_ws(c: char) -> bool {
    let u = c as u32;
    ||| 0x09 <= u <= 0x0d
    ||| u == 0x20
    ||| u == 0x85
    ||| u == 0xa0
    ||| u == 0x1680
    ||| 0x2000 <= u <= 0x200a
    ||| u == 0x2028
    ||| u == 0x2029
    ||| u == 0x202f
    ||| u == 0x205f
    ||| u == 0x3000
}

/// `s` without its leading white space.
pub open spec fn trim_left(s: Seq<char>) -> Seq<char>
    decreases s.len(),
{
    if s.len() > 0 && is_ws(s[0]) {
        trim_left(s.drop_first())
    } else {
        s
    }
}

/// `s` without its trailing white space.
pub open spec fn trim_right(s: Seq<char>) -> Seq<char>
    decreases s.len(),
{
    if s.len() > 0 && is_ws(s.last()) {
        trim_right(s.drop_last())
    } else {
        s
    }
}

/// `s` without white space at either end (what `str::trim` gives).
pub open spec fn trim(s: Seq<char>) -> Seq<char> {
    trim_right(trim_left(s))
}

/// Whether `c` has the Unicode `White_Space` property.
pub fn is_whitespace(c: char) -> (r: bool)
    ensures
        r == is_ws(c),
{
    let u = c as u32;
    (0x09 <= u && u <= 0x0d) || u == 0x20 || u == 0x85 || u == 0xa0 || u == 0x1680 || (0x2000
        <= u && u <= 0x200a) || u == 0x2028 || u == 0x2029 || u == 0x202f || u == 0x205f || u
        == 0x3000
}

/// Removes leading and trailing white space.
pub fn trim_str(s: &str) -> (r: &str)
    ensures
        r@ == trim(s@),
{
    let n = s.unicode_len();
    let mut i: usize = 0;
    assert(s@.subrange(0, n as int) =~= s@);
    while i < n && is_whitespace(s.get_char(i))
        invariant
            n == s@.len(),
            i <= n,
            trim_left(s@) == trim_left(s@.subrange(i as int, n as int)),
        decreases n - i,
    {
        assert(s@.subrange(i as int, n as int).drop_first() =~= s@.subrange(i + 1, n as int));
        i = i + 1;
    }
    assert(trim_left(s@) == s@.subrange(i as int, n as int));
    let mut j: usize = n;
    while j > i && is_whitespace(s.get_char(j - 1))
        invariant
            n == s@.len(),
            i <= j <= n,
            trim(s@) == trim_right(s@.subrange(i as int, j as int)),
        decreases j,
    {
        assert(s@.subrange(i as int, j as int).drop_last() =~= s@.subrange(i as int, j - 1));
        j = j - 1;
    }
    s.substring_char(i, j)
}

/// `s` without one leading `'` and then one trailing `'`, each only where present.
pub open spec fn strip_quotes(s: Seq<char>) -> Seq<char> {
    let t = if s.len() > 0 && s[0] == '\'' {
        s.drop_first()
    } else {
        s
    };
    if t.len() > 0 && t.last() == '\'' {
        t.drop_last()
    } else {
        t
    }
}

/// Removes one leading single quote and one trailing single quote, where present.
pub fn strip_str(text: &str) -> (r: &str)
    ensures
        r@ == strip_quotes(text@),
{
    let n = text.unicode_len();
    let start: usize = if n > 0 && text.get_char(0) == '\'' {
        1
    } else {
        0
    };
    let end: usize = if n > start && text.get_char(n - 1) == '\'' {
        n - 1
    } else {
        n
    };
    proof {
        let t = if n > 0 && text@[0] == '\'' {
            text@.drop_first()
        } else {
            text@
        };
        assert(t =~= text@.subrange(start as int, n as int));
        if t.len() > 0 && t.last() == '\'' {
            assert(t.drop_last() =~= text@.subrange(start as int, end as int));
        } else {
            assert(t =~= text@.subrange(start as int, end as int));
        }
    }
    text.substring_char(start, end)
}

/// `s` with every repetition of the prefix `p` at its start removed
/// (what `str::trim_start_matches` gives; `s` itself where `p` is empty).
pub open spec fn strip_all_prefix(s: Seq<char>, p: Seq<char>) -> Seq<char>
    decreases s.len(),
{
    if p.len() > 0 && p.is_prefix_of(s) {
        strip_all_prefix(s.skip(p.len() as int), p)
    } else {
        s
    }
}

/// Whether `p` occurs in `s` at position `at`.
fn occurs_at(s: &str, at: usize, p: &str) -> (r: bool)
    requires
        at <= s@.len(),
    ensures
        r == p@.is_prefix_of(s@.skip(at as int)),
{
    let n = s.unicode_len();
    let m = p.unicode_len();
    if m > n - at {
        return false;
    }
    let mut i: usize = 0;
    while i < m
        invariant
            n == s@.len(),
            m == p@.len(),
            at + m <= n,
            i <= m,
            forall|k: int| 0 <= k < i ==> p@[k] == s@[at + k],
        decreases m - i,
    {
        if s.get_char(at + i) != p.get_char(i) {
            return false;
        }
        i = i + 1;
    }
    true
}

/// Removes every repetition of the prefix `p` at the start of `s` (nothing
/// where `p` is empty).
pub fn trim_start_matches<'a>(s: &'a str, p: &str) -> (r: &'a str)
    ensures
        r@ == strip_all_prefix(s@, p@),
{
    let n = s.unicode_len();
    let m = p.unicode_len();
    if m == 0 {
        return s;
    }
    let mut i: usize = 0;
    assert(s@.skip(0) =~= s@);
    while occurs_at(s, i, p)
        invariant
            n == s@.len(),
            m == p@.len(),
            m > 0,
            i <= n,
            strip_all_prefix(s@, p@) == strip_all_prefix(s@.skip(i as int), p@),
        decreases n - i,
    {
        assert(s@.skip(i as int).skip(m as int) =~= s@.skip(i + m));
        i = i + m;
    }
    assert(s@.skip(i as int) =~= s@.subrange(i as int, n as int));
    s.substring_char(i, n)
}

/// Splits `s` at the first `c`: the text before it and the text after it.
pub open spec fn split_once_spec(s: Seq<char>, c: char) -> Option<(Seq<char>, Seq<char>)> {
    match s.index_of_first(c) {
        Some(k) => Some((s.take(k), s.skip(k + 1))),
        None => None,
    }
}

/// Splits `s` at the last `c`: the text before it and the text after it.
pub open spec fn rsplit_once_spec(s: Seq<char>, c: char) -> Option<(Seq<char>, Seq<char>)> {
    match s.index_of_last(c) {
        Some(k) => Some((s.take(k), s.skip(k + 1))),
        None => None,
    }
}

/// The two views of an optional pair of strings.
pub open spec fn pair_view(r: Option<(&str, &str)>) -> Option<(Seq<char>, Seq<char>)> {
    match r {
        Some((a, b)) => Some((a@, b@)),
        None => None,
    }
}

/// `str::split_once` with a character pattern.
pub fn split_once<'a>(s: &'a str, c: char) -> (r: Option<(&'a str, &'a str)>)
    ensures
        pair_view(r) == split_once_spec(s@, c),
{
    let n = s.unicode_len();
    let mut i: usize = 0;
    proof {
        s@.index_of_first_ensures(c);
    }
    while i < n
        invariant
            n == s@.len(),
            i <= n,
            forall|k: int| 0 <= k < i ==> s@[k] != c,
            match s@.index_of_first(c) {
                Some(index) => {
                    &&& 0 <= index < s@.len()
                    &&& s@[index] == c
                    &&& forall|j: int| 0 <= j < index ==> s@[j] != c
                },
                None => !s@.contains(c),
            },
        decreases n - i,
    {
        if s.get_char(i) == c {
            let a = s.substring_char(0, i);
            let b = s.substring_char(i + 1, n);
            proof {
                let index = s@.index_of_first(c)->0;
                assert(index == i);
                assert(a@ =~= s@.take(i as int));
                assert(b@ =~= s@.skip(i + 1));
            }
            return Some((a, b));
        }
        i = i + 1;
    }
    proof {
        if s@.contains(c) {
            let k = choose|k: int| 0 <= k < s@.len() && s@[k] == c;
            assert(s@[k] == c);
        }
    }
    None
}

/// `str::rsplit_once` with a character pattern.
pub fn rsplit_once<'a>(s: &'a str, c: char) -> (r: Option<(&'a str, &'a str)>)
    ensures
        pair_view(r) == rsplit_once_spec(s@, c),
{
    let n = s.unicode_len();
    let mut j: usize = n;
    proof {
        s@.index_of_last_ensures(c);
    }
    while j > 0
        invariant
            n == s@.len(),
            j <= n,
            forall|k: int| j <= k < n ==> s@[k] != c,
            match s@.index_of_last(c) {
                Some(index) => {
                    &&& 0 <= index < s@.len()
                    &&& s@[index] == c
                    &&& forall|k: int| index < k < s@.len() ==> s@[k] != c
                },
                None => !s@.contains(c),
            },
        decreases j,
    {
        if s.get_char(j - 1) == c {
            let a = s.substring_char(0, j - 1);
            let b = s.substring_char(j, n);
            proof {
                let index = s@.index_of_last(c)->0;
                assert(index == j - 1);
                assert(a@ =~= s@.take(j - 1));
                assert(b@ =~= s@.skip(j as int));
            }
            return Some((a, b));
        }
        j = j - 1;
    }
    proof {
        if s@.contains(c) {
            let k = choose|k: int| 0 <= k < s@.len() && s@[k] == c;
            assert(s@[k] == c);
        }
    }
    None
}

/// `s` with every `'` written as `\'` (what `replace('\'', "\\'")` gives).
pub open spec fn escape_quotes(s: Seq<char>) -> Seq<char>
    decreases s.len(),
{
    if s.len() == 0 {
        seq![]
    } else {
        escape_quotes(s.drop_last()) + if s.last() == '\'' {
            seq!['\\', '\'']
        } else {
            seq![s.last()]
        }
    }
}

/// Writes every single quote of `s` as a backslash and a single quote.
pub fn escape_single_quotes(s: &str) -> (r: String)
    ensures
        r@ == escape_quotes(s@),
{
    let n = s.unicode_len();
    let mut out = String::new();
    let mut i: usize = 0;
    while i < n
        invariant
            n == s@.len(),
            i <= n,
            out@ == escape_quotes(s@.take(i as int)),
        decreases n - i,
    {
        assert(s@.take(i + 1).drop_last() =~= s@.take(i as int));
        if s.get_char(i) == '\'' {
            proof {
                reveal_strlit("\\'");
            }
            out.append("\\'");
        } else {
            let one = s.substring_char(i, i + 1);
            assert(one@ =~= seq![s@[i as int]]);
            out.append(one);
        }
        assert(s@.take(i + 1).last() == s@[i as int]);
        i = i + 1;
    }
    assert(s@.take(n as int) =~= s@);
    out
}

/// Whether `c` is an ASCII decimal digit.
pub open spec fn is_digit(c: char) -> bool {
    48 <= (c as u32) <= 57
}

/// The value of the decimal digit `c`.
pub open spec fn digit_value(c: char) -> nat {
    ((c as u32) - 48) as nat
}

/// The value of the decimal numeral `s`.
pub open spec fn decimal_value(s: Seq<char>) -> nat
    decreases s.len(),
{
    if s.len() == 0 {
        0
    } else {
        decimal_value(s.drop_last()) * 10 + digit_value(s.last())
    }
}

/// The digits that `s` holds after an optional leading `+`.
pub open spec fn unsigned_digits(s: Seq<char>) -> Seq<char> {
    if s.len() > 0 && s[0] == '+' {
        s.drop_first()
    } else {
        s
    }
}

/// What `str::parse::<u16>` gives: `Some` for a non-empty run of decimal digits,
/// optionally after one `+`, whose value fits in 16 bits.
pub open spec fn parse_u16_spec(s: Seq<char>) -> Option<u16> {
    let d = unsigned_digits(s);
    if d.len() > 0 && (forall|i: int| 0 <= i < d.len() ==> is_digit(d[i])) && decimal_value(d)
        <= 65535 {
        Some(decimal_value(d) as u16)
    } else {
        None
    }
}

proof fn lemma_decimal_value_grows(s: Seq<char>, i: int, j: int)
    requires
        0 <= i <= j <= s.len(),
    ensures
        decimal_value(s.take(i)) <= decimal_value(s.take(j)),
    decreases j - i,
{
    if i < j {
        lemma_decimal_value_grows(s, i, j - 1);
        assert(s.take(j).drop_last() =~= s.take(j - 1));
    }
}

/// Parses a decimal `u16` the way `str::parse::<u16>` does.
pub fn parse_u16(s: &str) -> (r: Option<u16>)
    ensures
        r == parse_u16_spec(s@),
{
    let n = s.unicode_len();
    let start: usize = if n > 0 && s.get_char(0) == '+' {
        1
    } else {
        0
    };
    let ghost d = unsigned_digits(s@);
    assert(d =~= s@.skip(start as int));
    if start == n {
        return None;
    }
    let mut acc: u32 = 0;
    let mut i: usize = start;
    while i < n
        invariant
            n == s@.len(),
            d == s@.skip(start as int),
            d == unsigned_digits(s@),
            start < n,
            start <= i <= n,
            forall|k: int| 0 <= k < i - start ==> is_digit(d[k]),
            acc == decimal_value(d.take(i - start)),
            acc <= 65535,
        decreases n - i,
    {
        let c = s.get_char(i);
        let cv = c as u32;
        assert(d[i - start] == c);
        if cv < 48 || cv > 57 {
            assert(!is_digit(d[i - start]));
            assert(!(forall|k: int| 0 <= k < d.len() ==> is_digit(d[k])));
            return None;
        }
        assert(d.take(i - start + 1).drop_last() =~= d.take(i - start));
        assert(d.take(i - start + 1).last() == c);
        acc = acc * 10 + (cv - 48);
        assert(acc == decimal_value(d.take(i - start + 1)));
        if acc > 65535 {
            proof {
                lemma_decimal_value_grows(d, i - start + 1, d.len() as int);
                assert(d.take(d.len() as int) =~= d);
            }
            return None;
        }
        i = i + 1;
    }
    assert(d.take(n - start) =~= d);
    Some(acc as u16)
}

/// The decimal numeral of `n`, without leading zeros.
pub open spec fn decimal(n: nat) -> Seq<char>
    decreases n,
{
    if n < 10 {
        seq![((n + 48) as u32) as char]
    } else {
        decimal(n / 10).push((((n % 10) + 48) as u32) as char)
    }
}

fn append_decimal(out: &mut String, n: u16)
    ensures
        final(out)@ == old(out)@ + decimal(n as nat),
    decreases n,
{
    if n >= 10 {
        append_decimal(out, n / 10);
    }
    let d = (n % 10) as usize;
    let digits = "0123456789";
    proof {
        reveal_strlit("0123456789");
    }
    out.append(digits.substring_char(d, d + 1));
    proof {
        let ds = digits@.subrange(d as int, d + 1);
        assert(ds =~= seq![(((n % 10) + 48) as u32) as char]);
    }
}

/// The decimal text of `n` (what `format!("{}", n)` gives).
pub fn u16_to_string(n: u16) -> (r: String)
    ensures
        r@ == decimal(n as nat),
{
    let mut out = String::new();
    append_decimal(&mut out, n);
    assert(out@ =~= decimal(n as nat));
    out
}

/// The pieces of `s` between occurrences of `c` (what `str::split` with a
/// character pattern yields): never empty, and one piece more than there are `c`s.
pub open spec fn split_on(s: Seq<char>, c: char) -> Seq<Seq<char>>
    decreases s.len(),
{
    if s.len() == 0 {
        seq![seq![]]
    } else {
        let rest = split_on(s.drop_first(), c);
        if s[0] == c {
            seq![seq![]] + rest
        } else {
            rest.update(0, seq![s[0]] + rest[0])
        }
    }
}

pub proof fn lemma_split_nonempty(s: Seq<char>, c: char)
    ensures
        split_on(s, c).len() >= 1,
    decreases s.len(),
{
    if s.len() > 0 {
        lemma_split_nonempty(s.drop_first(), c);
    }
}

/// Text without the separator is one piece.
pub proof fn lemma_split_no_sep(s: Seq<char>, c: char)
    requires
        !s.contains(c),
    ensures
        split_on(s, c) == seq![s],
    decreases s.len(),
{
    if s.len() > 0 {
        assert(!s.drop_first().contains(c)) by {
            if s.drop_first().contains(c) {
                let k = choose|k: int| 0 <= k < s.drop_first().len() && s.drop_first()[k] == c;
                assert(s[k + 1] == c);
            }
        }
        lemma_split_no_sep(s.drop_first(), c);
        assert(s[0] != c) by {
            if s[0] == c {
                assert(s.contains(c));
            }
        }
        assert(seq![s[0]] + s.drop_first() =~= s);
        assert(split_on(s, c) =~= seq![s]);
    } else {
        assert(s =~= seq![]);
    }
}

/// Splitting text joined at a separator splits each side.
pub proof fn lemma_split_concat(a: Seq<char>, b: Seq<char>, c: char)
    ensures
        split_on(a + seq![c] + b, c) == split_on(a, c) + split_on(b, c),
    decreases a.len(),
{
    let s = a + seq![c] + b;
    if a.len() == 0 {
        assert(s.drop_first() =~= b);
        assert(split_on(s, c) =~= split_on(a, c) + split_on(b, c));
    } else {
        assert(s.drop_first() =~= a.drop_first() + seq![c] + b);
        lemma_split_concat(a.drop_first(), b, c);
        lemma_split_nonempty(a.drop_first(), c);
        assert(split_on(s, c) =~= split_on(a, c) + split_on(b, c));
    }
}

/// No piece holds the separator.
pub proof fn lemma_split_pieces(s: Seq<char>, c: char)
    ensures
        forall|i: int| 0 <= i < split_on(s, c).len() ==> !(#[trigger] split_on(s, c)[i]).contains(c),
    decreases s.len(),
{
    if s.len() > 0 {
        lemma_split_pieces(s.drop_first(), c);
        lemma_split_nonempty(s.drop_first(), c);
        let rest = split_on(s.drop_first(), c);
        if s[0] != c {
            let p0 = seq![s[0]] + rest[0];
            assert(!p0.contains(c)) by {
                if p0.contains(c) {
                    let k = choose|k: int| 0 <= k < p0.len() && p0[k] == c;
                    if k > 0 {
                        assert(rest[0][k - 1] == c);
                        assert(rest[0].contains(c));
                    }
                }
            }
        }
        assert forall|i: int| 0 <= i < split_on(s, c).len() implies !(#[trigger] split_on(
            s,
            c,
        )[i]).contains(c) by {
            if s[0] == c {
                if i > 0 {
                    assert(split_on(s, c)[i] == rest[i - 1]);
                }
            } else {
                if i > 0 {
                    assert(split_on(s, c)[i] == rest[i]);
                }
            }
        }
    }
}

/// The views of a sequence of string slices.
pub open spec fn strs_view(v: Seq<&str>) -> Seq<Seq<char>> {
    v.map_values(|p: &str| p@)
}

/// The views of a sequence of strings.
pub open spec fn strings_view(v: Seq<String>) -> Seq<Seq<char>> {
    v.map_values(|p: String| p@)
}

/// `str::split` with a character pattern.
pub fn split_char<'a>(s: &'a str, c: char) -> (r: Vec<&'a str>)
    ensures
        strs_view(r@) == split_on(s@, c),
{
    let n = s.unicode_len();
    let mut pieces: Vec<&'a str> = Vec::new();
    let mut start: usize = 0;
    let mut i: usize = 0;
    assert(s@.skip(0) =~= s@);
    while i < n
        invariant
            n == s@.len(),
            start <= i <= n,
            forall|k: int| start <= k < i ==> s@[k] != c,
            split_on(s@, c) == strs_view(pieces@) + split_on(s@.skip(start as int), c),
        decreases n - i,
    {
        if s.get_char(i) == c {
            let piece = s.substring_char(start, i);
            proof {
                let a = s@.subrange(start as int, i as int);
                assert(s@.skip(start as int) =~= a + seq![c] + s@.skip(i + 1));
                lemma_split_concat(a, s@.skip(i + 1), c);
                assert(!a.contains(c)) by {
                    if a.contains(c) {
                        let k = choose|k: int| 0 <= k < a.len() && a[k] == c;
                        assert(s@[start + k] == c);
                    }
                }
                lemma_split_no_sep(a, c);
                assert(strs_view(pieces@.push(piece)) =~= strs_view(pieces@).push(piece@));
            }
            pieces.push(piece);
            start = i + 1;
        }
        i = i + 1;
    }
    let last = s.substring_char(start, n);
    proof {
        let a = s@.skip(start as int);
        assert(a =~= last@);
        assert(!a.contains(c)) by {
            if a.contains(c) {
                let k = choose|k: int| 0 <= k < a.len() && a[k] == c;
                assert(s@[start + k] == c);
            }
        }
        lemma_split_no_sep(a, c);
        assert(strs_view(pieces@.push(last)) =~= strs_view(pieces@).push(last@));
    }
    pieces.push(last);
    pieces
}

/// The pieces joined with `sep` between each two (what `join` gives).
pub open spec fn join(parts: Seq<Seq<char>>, sep: Seq<char>) -> Seq<char>
    decreases parts.len(),
{
    if parts.len() == 0 {
        seq![]
    } else if parts.len() == 1 {
        parts[0]
    } else {
        join(parts.drop_last(), sep) + sep + parts.last()
    }
}

/// Joins the strings with `sep` between each two.
pub fn join_strings(parts: &Vec<String>, sep: &str) -> (r: String)
    ensures
        r@ == join(strings_view(parts@), sep@),
{
    let mut out = String::new();
    let n = parts.len();
    let mut i: usize = 0;
    while i < n
        invariant
            n == parts@.len(),
            i <= n,
            out@ == join(strings_view(parts@).take(i as int), sep@),
        decreases n - i,
    {
        assert(strings_view(parts@).take(i + 1).drop_last() =~= strings_view(parts@).take(
            i as int,
        ));
        if i > 0 {
            out.append(sep);
        }
        out.append(parts[i].as_str());
        i = i + 1;
    }
    assert(strings_view(parts@).take(n as int) =~= strings_view(parts@));
    out
}

/// Whether two strings hold the same characters.
pub fn str_equal(a: &str, b: &str) -> (r: bool)
    ensures
        r == (a@ == b@),
{
    let n = a.unicode_len();
    if n != b.unicode_len() {
        return false;
    }
    let mut i: usize = 0;
    while i < n
        invariant
            n == a@.len(),
            n == b@.len(),
            i <= n,
            forall|k: int| 0 <= k < i ==> a@[k] == b@[k],
        decreases n - i,
    {
        if a.get_char(i) != b.get_char(i) {
            return false;
        }
        i = i + 1;
    }
    assert(a@ =~= b@);
    true
}

/// `std::str::from_utf8`: the text that `bytes` encode, where they are valid UTF-8.
/// Claimed of it: it succeeds exactly on valid UTF-8, and the text it gives is
/// the decoding of `bytes`.
#[verifier::external_body]
pub(crate) fn utf8_text(bytes: &[u8]) -> (r: Option<&str>)
    ensures
        r is Some <==> valid_utf8(bytes@),
        r matches Some(t) ==> t@ == decode_utf8(bytes@),
{
    std::str::from_utf8(bytes).ok()
}

} // verus!

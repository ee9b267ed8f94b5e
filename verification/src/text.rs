//! Text primitives: comparison, trimming, case folding and decimal numerals over `str`.
use vstd::prelude::*;
use vstd::utf8::*;

verus! {

/// `String::push` appends the character to the end of the string.
pub assume_specification[ String::push ](s: &mut String, c: char)
    ensures
        final(s)@ == old(s)@.push(c),
;

/// The text that `String::from_utf8_lossy` makes of a byte string.
pub uninterp spec fn utf8_lossy(bytes: Seq<u8>) -> Seq<char>;

/// Calls `String::from_utf8_lossy`. A byte string that is valid UTF-8 is decoded as it is;
/// where it is not, replacement characters stand for the invalid parts, and which ones is
/// left to the name.
#[verifier::external_body]
pub(crate) fn from_utf8_lossy(bytes: &[u8]) -> (s: String)
    ensures
        s@ == utf8_lossy(bytes@),
        valid_utf8(bytes@) ==> s@ == decode_utf8(bytes@),
{
    String::from_utf8_lossy(bytes).into_owned()
}

/// Calls `str::from_utf8`: bytes that are valid UTF-8 are decoded, and others are refused.
#[verifier::external_body]
pub(crate) fn text_of(bytes: &[u8]) -> (r: Option<String>)
    ensures
        (match r {
            Some(s) => valid_utf8(bytes@) && s@ == decode_utf8(bytes@),
            None => !valid_utf8(bytes@),
        }),
{
    std::str::from_utf8(bytes).ok().map(|s| s.to_string())
}

/// The text that `{:?}` writes for a string: the string in double quotes, with escapes.
pub uninterp spec fn quoted(s: Seq<char>) -> Seq<char>;

/// Formats a string with `{:?}`. Which characters are escaped, and how, is left to the name.
#[verifier::external_body]
pub(crate) fn debug_text(s: &str) -> (r: String)
    ensures
        r@ == quoted(s@),
{
    format!("{:?}", s)
}

/// Whether two texts are the same.
pub(crate) fn str_eq(a: &str, b: &str) -> (r: bool)
    ensures
        r == (a@ == b@),
{
    let (x, y) = (a.as_bytes(), b.as_bytes());
    proof {
        encode_utf8_decode_utf8(a@);
        encode_utf8_decode_utf8(b@);
    }
    if x.len() != y.len() {
        return false;
    }
    let mut i: usize = 0;
    while i < x.len()
        invariant
            i <= x@.len(),
            x@.len() == y@.len(),
            x@ == encode_utf8(a@),
            y@ == encode_utf8(b@),
            forall|j: int| 0 <= j < i ==> x@[j] == y@[j],
        decreases x@.len() - i,
    {
        if x[i] != y[i] {
            return false;
        }
        i += 1;
    }
    assert(x@ =~= y@);
    true
}

/// The characters that count as white space (the Unicode property `White_Space`).
pub open spec fn is_white_space(c: char) -> bool {
    let u = c as u32;
    ||| 0x09 <= u <= 0x0d
    ||| u == 0x20
    ||| u == 0x85
    ||| u == 0xa0
    ||| u == 0x1680
    ||| 0x2000 <= u <= 0x200a
    ||| u == 0x2028
    ||| u == 0x2029
    ||| u == 0x202f
    ||| u == 0x205f
    ||| u == 0x3000
}

fn white_space(c: char) -> (r: bool)
    ensures
        r == is_white_space(c),
{
    let u: u32 = c as u32;
    (0x09 <= u && u <= 0x0d) || u == 0x20 || u == 0x85 || u == 0xa0 || u == 0x1680 || (0x2000 <= u
        && u <= 0x200a) || u == 0x2028 || u == 0x2029 || u == 0x202f || u == 0x205f || u == 0x3000
}

/// `s` without its leading white space.
pub open spec fn trim_start_spec(s: Seq<char>) -> Seq<char>
    decreases s.len(),
{
    if s.len() > 0 && is_white_space(s[0]) {
        trim_start_spec(s.subrange(1, s.len() as int))
    } else {
        s
    }
}

/// `s` without its trailing white space.
pub open spec fn trim_end_spec(s: Seq<char>) -> Seq<char>
    decreases s.len(),
{
    if s.len() > 0 && is_white_space(s.last()) {
        trim_end_spec(s.drop_last())
    } else {
        s
    }
}

/// `s` without the white space at both ends.
pub open spec fn trimmed(s: Seq<char>) -> Seq<char> {
    trim_end_spec(trim_start_spec(s))
}

/// The characters of `s`, in order.
pub fn chars_of(s: &str) -> (v: Vec<char>)
    ensures
        v@ == s@,
{
    let mut v: Vec<char> = Vec::new();
    for c in it: s.chars()
        invariant
            it.seq() == s@,
            v@ == s@.subrange(0, it.index() as int),
    {
        v.push(c);
        assert(v@ =~= s@.subrange(0, it.index() + 1));
    }
    assert(s@.subrange(0, s@.len() as int) =~= s@);
    v
}

/// The characters from `from` up to, not including, `to`, as a string.
pub fn string_of(v: &Vec<char>, from: usize, to: usize) -> (s: String)
    requires
        from <= to <= v@.len(),
    ensures
        s@ == v@.subrange(from as int, to as int),
{
    let mut s = String::new();
    let mut i: usize = from;
    while i < to
        invariant
            from <= i <= to <= v@.len(),
            s@ == v@.subrange(from as int, i as int),
        decreases to - i,
    {
        s.push(v[i]);
        i += 1;
        assert(s@ =~= v@.subrange(from as int, i as int));
    }
    s
}

/// `s` without the white space at both ends.
pub fn trim(s: &str) -> (r: String)
    ensures
        r@ == trimmed(s@),
{
    let v = chars_of(s);
    let mut a: usize = 0;
    assert(v@.subrange(0, v@.len() as int) =~= s@);
    while a < v.len() && white_space(v[a])
        invariant
            a <= v@.len(),
            v@ == s@,
            trim_start_spec(s@) == trim_start_spec(v@.subrange(a as int, v@.len() as int)),
        decreases v@.len() - a,
    {
        let ghost rest = v@.subrange(a as int, v@.len() as int);
        assert(rest.subrange(1, rest.len() as int) =~= v@.subrange(a + 1, v@.len() as int));
        a += 1;
    }
    let ghost mid = v@.subrange(a as int, v@.len() as int);
    assert(trim_start_spec(s@) == mid);
    let mut b: usize = v.len();
    assert(v@.subrange(a as int, b as int) =~= mid);
    while b > a && white_space(v[b - 1])
        invariant
            a <= b <= v@.len(),
            trim_end_spec(mid) == trim_end_spec(v@.subrange(a as int, b as int)),
        decreases b,
    {
        let ghost rest = v@.subrange(a as int, b as int);
        assert(rest.drop_last() =~= v@.subrange(a as int, b - 1));
        b -= 1;
    }
    string_of(&v, a, b)
}

proof fn trim_start_edges(s: Seq<char>)
    ensures
        trim_start_spec(s).len() > 0 ==> !is_white_space(trim_start_spec(s)[0]),
    decreases s.len(),
{
    if s.len() > 0 && is_white_space(s[0]) {
        trim_start_edges(s.subrange(1, s.len() as int));
    }
}

proof fn trim_end_edges(s: Seq<char>)
    ensures
        trim_end_spec(s).len() > 0 ==> !is_white_space(trim_end_spec(s).last())
            && trim_end_spec(s)[0] == s[0],
    decreases s.len(),
{
    if s.len() > 0 && is_white_space(s.last()) {
        trim_end_edges(s.drop_last());
    }
}

/// A trimmed text neither starts nor ends with white space.
pub proof fn trimmed_has_no_edges(s: Seq<char>)
    ensures
        trimmed(s).len() > 0 ==> !is_white_space(trimmed(s)[0]) && !is_white_space(
            trimmed(s).last(),
        ),
{
    trim_start_edges(s);
    trim_end_edges(trim_start_spec(s));
}

/// A text that neither starts nor ends with white space is trimmed.
pub proof fn no_edges_is_trimmed(s: Seq<char>)
    requires
        s.len() > 0 ==> !is_white_space(s[0]) && !is_white_space(s.last()),
    ensures
        trimmed(s) == s,
{
}

/// `c` in lower case where it is an ASCII letter, else `c`.
pub open spec fn ascii_lower_char(c: char) -> char {
    if 'A' <= c <= 'Z' {
        (c as u8 + 32) as char
    } else {
        c
    }
}

/// `s` with its ASCII letters in lower case.
pub open spec fn ascii_lower(s: Seq<char>) -> Seq<char> {
    s.map_values(|c: char| ascii_lower_char(c))
}

fn lower_char(c: char) -> (r: char)
    ensures
        r == ascii_lower_char(c),
{
    if 'A' <= c && c <= 'Z' {
        let b: u8 = c as u8;
        (b + 32) as char
    } else {
        c
    }
}

/// `s` with its ASCII letters in lower case.
pub fn to_ascii_lowercase(s: &str) -> (r: String)
    ensures
        r@ == ascii_lower(s@),
{
    let v = chars_of(s);
    let mut r = String::new();
    let mut i: usize = 0;
    while i < v.len()
        invariant
            i <= v@.len(),
            v@ == s@,
            r@ == ascii_lower(s@.subrange(0, i as int)),
        decreases v@.len() - i,
    {
        r.push(lower_char(v[i]));
        i += 1;
        assert(r@ =~= ascii_lower(s@.subrange(0, i as int)));
    }
    assert(s@.subrange(0, s@.len() as int) =~= s@);
    r
}

/// Two texts are the same but for the case of ASCII letters.
pub open spec fn same_ignoring_case(a: Seq<char>, b: Seq<char>) -> bool {
    ascii_lower(a) == ascii_lower(b)
}

/// Whether two texts are the same but for the case of ASCII letters.
pub fn eq_ignore_ascii_case(a: &str, b: &str) -> (r: bool)
    ensures
        r == same_ignoring_case(a@, b@),
{
    let x = to_ascii_lowercase(a);
    let y = to_ascii_lowercase(b);
    x == y
}

/// The character of one decimal digit.
pub open spec fn digit_char(d: nat) -> char {
    ('0' as u8 + d) as char
}

/// The decimal numeral of `n`, without leading zeros.
pub open spec fn decimal_spec(n: nat) -> Seq<char>
    decreases n,
{
    if n < 10 {
        seq![digit_char(n)]
    } else {
        decimal_spec(n / 10).push(digit_char(n % 10))
    }
}

/// The decimal numeral of `n`, without leading zeros.
pub fn decimal(n: u64) -> (s: String)
    ensures
        s@ == decimal_spec(n as nat),
    decreases n,
{
    let d: u8 = (n % 10) as u8;
    let c: char = (48 + d) as char;
    if n < 10 {
        let mut s = String::new();
        s.push(c);
        assert(s@ =~= seq![digit_char(n as nat)]);
        s
    } else {
        let mut s = decimal(n / 10);
        s.push(c);
        s
    }
}

/// Appends `tail` to `s`.
pub fn push_str(s: &mut String, tail: &str)
    ensures
        final(s)@ == old(s)@ + tail@,
{
    s.append(tail);
}

/// The text of an optional string.
pub open spec fn opt_view(o: Option<String>) -> Option<Seq<char>> {
    match o {
        Some(s) => Some(s@),
        None => None,
    }
}

/// `a` followed by `b`.
pub fn concat(a: &str, b: &str) -> (s: String)
    ensures
        s@ == a@ + b@,
{
    let mut s = a.to_owned();
    s.append(b);
    s
}

/// The parts of `s` between the occurrences of `sep`.
pub open spec fn split_spec(s: Seq<char>, sep: char) -> Seq<Seq<char>>
    decreases s.len(),
{
    if s.len() == 0 {
        seq![Seq::empty()]
    } else {
        let p = split_spec(s.drop_last(), sep);
        if s.last() == sep {
            p.push(Seq::empty())
        } else {
            p.drop_last().push(p.last().push(s.last()))
        }
    }
}

/// The characters of each of the parts.
pub open spec fn views(v: Seq<Vec<char>>) -> Seq<Seq<char>> {
    v.map_values(|s: Vec<char>| s@)
}

/// The parts of `s` between the occurrences of `sep`.
pub fn split(s: &[char], sep: char) -> (parts: Vec<Vec<char>>)
    ensures
        views(parts@) == split_spec(s@, sep),
        parts@.len() >= 1,
{
    let mut done: Vec<Vec<char>> = Vec::new();
    let mut cur: Vec<char> = Vec::new();
    let mut i: usize = 0;
    assert(s@.subrange(0, 0) =~= Seq::<char>::empty());
    assert(views(done@).push(cur@) =~= split_spec(s@.subrange(0, 0), sep));
    while i < s.len()
        invariant
            i <= s@.len(),
            views(done@).push(cur@) == split_spec(s@.subrange(0, i as int), sep),
        decreases s@.len() - i,
    {
        let c = s[i];
        let ghost before = s@.subrange(0, i as int);
        let ghost after = s@.subrange(0, i + 1);
        assert(after.drop_last() =~= before);
        let ghost p = split_spec(before, sep);
        assert(p.drop_last() =~= views(done@));
        assert(p.last() == cur@);
        if c == sep {
            let ghost was = done@;
            let ghost part = cur@;
            done.push(cur);
            cur = Vec::new();
            assert(views(done@) =~= views(was).push(part));
            assert(views(done@).push(cur@) =~= p.push(Seq::empty()));
        } else {
            cur.push(c);
        }
        i += 1;
    }
    assert(s@.subrange(0, i as int) =~= s@);
    let ghost was = done@;
    let ghost part = cur@;
    done.push(cur);
    assert(views(done@) =~= views(was).push(part));
    done
}

/// The texts `parts` with `sep` between them.
pub open spec fn joined_by(parts: Seq<Seq<char>>, sep: Seq<char>) -> Seq<char>
    decreases parts.len(),
{
    if parts.len() == 0 {
        Seq::empty()
    } else if parts.len() == 1 {
        parts[0]
    } else {
        joined_by(parts.drop_last(), sep) + sep + parts.last()
    }
}

/// Lower case moves the letters `A` to `Z` to `a` to `z`, and leaves every other character, and
/// their number, as they are.
pub proof fn lower_case_moves_letters_only(s: Seq<char>, i: int)
    requires
        0 <= i < s.len(),
    ensures
        ascii_lower(s).len() == s.len(),
        65 <= s[i] as int <= 90 ==> ascii_lower(s)[i] as int == s[i] as int + 32,
        !(65 <= s[i] as int <= 90) ==> ascii_lower(s)[i] == s[i],
        !(65 <= ascii_lower(s)[i] as int <= 90),
{
}

/// Two texts are the same but for the case of letters where, place by place, they have the same
/// character or the two forms of one letter.
pub proof fn same_but_for_the_case(a: Seq<char>, b: Seq<char>)
    ensures
        same_ignoring_case(a, b) <==> (a.len() == b.len() && forall|i: int|
            0 <= i < a.len() ==> (#[trigger] a[i] == b[i] || (65 <= a[i] as int <= 90 && b[i] as int
                == a[i] as int + 32) || (65 <= b[i] as int <= 90 && a[i] as int == b[i] as int + 32))),
{
    if same_ignoring_case(a, b) {
        assert(ascii_lower(a).len() == a.len() && ascii_lower(b).len() == b.len());
        assert forall|i: int| 0 <= i < a.len() implies (#[trigger] a[i] == b[i] || (65
            <= a[i] as int <= 90 && b[i] as int == a[i] as int + 32) || (65 <= b[i] as int <= 90
            && a[i] as int == b[i] as int + 32)) by {
            lower_case_moves_letters_only(a, i);
            lower_case_moves_letters_only(b, i);
        }
    }
    if a.len() == b.len() && forall|i: int|
        0 <= i < a.len() ==> (#[trigger] a[i] == b[i] || (65 <= a[i] as int <= 90 && b[i] as int
            == a[i] as int + 32) || (65 <= b[i] as int <= 90 && a[i] as int == b[i] as int + 32)) {
        assert forall|i: int| 0 <= i < a.len() implies ascii_lower(a)[i] == ascii_lower(b)[i] by {
            lower_case_moves_letters_only(a, i);
            lower_case_moves_letters_only(b, i);
            assert(a[i] == a[i]);
        }
        assert(ascii_lower(a) =~= ascii_lower(b));
    }
}

/// Space, tab and the ends of lines are white space; no other visible ASCII character is.
pub proof fn white_space_in_ascii(c: char)
    requires
        c as int <= 127,
    ensures
        is_white_space(c) <==> c == ' ' || c == '\t' || c == '\n' || c == '\r' || c as int == 11
            || c as int == 12,
{
}

proof fn trim_start_parts(s: Seq<char>) -> (n: int)
    ensures
        0 <= n <= s.len(),
        trim_start_spec(s) == s.subrange(n, s.len() as int),
        forall|i: int| 0 <= i < n ==> is_white_space(#[trigger] s[i]),
    decreases s.len(),
{
    if s.len() > 0 && is_white_space(s[0]) {
        let rest = s.subrange(1, s.len() as int);
        let n = trim_start_parts(rest);
        assert(rest.subrange(n, rest.len() as int) =~= s.subrange(n + 1, s.len() as int));
        assert forall|i: int| 0 <= i < n + 1 implies is_white_space(#[trigger] s[i]) by {
            if i > 0 {
                assert(rest[i - 1] == s[i]);
            }
        }
        n + 1
    } else {
        assert(s.subrange(0, s.len() as int) =~= s);
        0
    }
}

proof fn trim_end_parts(s: Seq<char>) -> (n: int)
    ensures
        0 <= n <= s.len(),
        trim_end_spec(s) == s.subrange(0, n),
        forall|i: int| n <= i < s.len() ==> is_white_space(#[trigger] s[i]),
    decreases s.len(),
{
    if s.len() > 0 && is_white_space(s.last()) {
        let n = trim_end_parts(s.drop_last());
        assert(s.drop_last().subrange(0, n) =~= s.subrange(0, n));
        assert forall|i: int| n <= i < s.len() implies is_white_space(#[trigger] s[i]) by {
            if i < s.len() - 1 {
                assert(s.drop_last()[i] == s[i]);
            }
        }
        n
    } else {
        assert(s.subrange(0, s.len() as int) =~= s);
        s.len() as int
    }
}

/// Trimming takes nothing but white space off a text: what stands before and behind the rest is
/// white space.
pub proof fn trimming_takes_white_space_only(s: Seq<char>) -> (r: (int, int))
    ensures
        0 <= r.0 <= r.1 <= s.len(),
        trimmed(s) == s.subrange(r.0, r.1),
        forall|i: int| 0 <= i < r.0 || r.1 <= i < s.len() ==> is_white_space(#[trigger] s[i]),
{
    let a = trim_start_parts(s);
    let mid = s.subrange(a, s.len() as int);
    let b = trim_end_parts(mid);
    assert(mid.subrange(0, b) =~= s.subrange(a, a + b));
    assert forall|i: int| 0 <= i < a || a + b <= i < s.len() implies is_white_space(
        #[trigger] s[i],
    ) by {
        if i >= a + b {
            assert(mid[i - a] == s[i]);
        }
    }
    (a, a + b)
}

/// White space around a text is trimmed away, and nothing of the text.
pub proof fn padding_is_trimmed(before: Seq<char>, s: Seq<char>, after: Seq<char>)
    requires
        forall|i: int| 0 <= i < before.len() ==> is_white_space(#[trigger] before[i]),
        forall|i: int| 0 <= i < after.len() ==> is_white_space(#[trigger] after[i]),
        s.len() > 0 ==> !is_white_space(s[0]) && !is_white_space(s.last()),
    ensures
        trimmed(before + s + after) == s,
{
    let all = before + s + after;
    let (a, b) = trimming_takes_white_space_only(all);
    trimmed_has_no_edges(all);
    let t = trimmed(all);
    assert forall|i: int| 0 <= i < before.len() || before.len() + s.len() <= i < all.len() implies
        is_white_space(#[trigger] all[i]) by {
        if i < before.len() {
            assert(all[i] == before[i]);
        } else {
            assert(all[i] == after[i - before.len() - s.len()]);
        }
    }
    if s.len() > 0 {
        assert(all[before.len() as int] == s[0]);
        assert(all[before.len() + s.len() - 1] == s.last());
        assert(a <= before.len() && before.len() + s.len() <= b);
        assert(t[0] == all[a] && t.last() == all[b - 1]);
        assert(a == before.len() && b == before.len() + s.len());
    } else if t.len() > 0 {
        assert(t[0] == all[a]);
    }
    assert(t =~= s);
}

/// The number that a sequence of decimal digits stands for.
pub open spec fn numeral_value(s: Seq<char>) -> int
    decreases s.len(),
{
    if s.len() == 0 {
        0
    } else {
        numeral_value(s.drop_last()) * 10 + (s.last() as int - 48)
    }
}

/// A decimal numeral has digits only, has no zero in front unless it is one, and stands for its
/// number.
pub proof fn numeral_reads_back(n: nat)
    ensures
        decimal_spec(n).len() > 0,
        forall|i: int|
            0 <= i < decimal_spec(n).len() ==> 48 <= (#[trigger] decimal_spec(n)[i]) as int <= 57,
        n > 0 ==> decimal_spec(n)[0] as int != 48,
        numeral_value(decimal_spec(n)) == n,
    decreases n,
{
    let s = decimal_spec(n);
    if n >= 10 {
        numeral_reads_back(n / 10);
        assert(s.drop_last() =~= decimal_spec(n / 10));
        assert forall|i: int| 0 <= i < s.len() implies 48 <= (#[trigger] s[i]) as int <= 57 by {
            if i < s.len() - 1 {
                assert(s[i] == decimal_spec(n / 10)[i]);
            }
        }
        assert(s[0] == decimal_spec(n / 10)[0]);
    } else {
        assert(s.drop_last() =~= Seq::<char>::empty());
        assert(numeral_value(s.drop_last()) == 0);
    }
}

/// Splitting a text loses nothing: the parts, with the separator between them, are the text
/// again, and none of them holds the separator.
pub proof fn splitting_loses_nothing(s: Seq<char>, sep: char)
    ensures
        split_spec(s, sep).len() >= 1,
        joined_by(split_spec(s, sep), seq![sep]) == s,
        forall|i: int|
            0 <= i < split_spec(s, sep).len() ==> !(#[trigger] split_spec(s, sep)[i]).contains(sep),
    decreases s.len(),
{
    let p = split_spec(s, sep);
    if s.len() == 0 {
        assert(p[0] =~= s);
    } else {
        let before = s.drop_last();
        let q = split_spec(before, sep);
        splitting_loses_nothing(before, sep);
        assert(before.push(s.last()) =~= s);
        if s.last() == sep {
            assert(p.drop_last() =~= q);
            assert(joined_by(p, seq![sep]) =~= before + seq![sep] + Seq::empty());
            assert(joined_by(p, seq![sep]) =~= s);
            assert forall|i: int| 0 <= i < p.len() implies !(#[trigger] p[i]).contains(sep) by {
                if i < q.len() {
                    assert(p[i] == q[i]);
                }
            }
        } else {
            assert(p.drop_last() =~= q.drop_last());
            assert(p.last() == q.last().push(s.last()));
            if q.len() == 1 {
                assert(joined_by(p, seq![sep]) =~= s);
            } else {
                assert(joined_by(p, seq![sep]) =~= joined_by(q.drop_last(), seq![sep]) + seq![sep]
                    + q.last().push(s.last()));
                assert(joined_by(p, seq![sep]) =~= joined_by(q, seq![sep]).push(s.last()));
            }
            assert forall|i: int| 0 <= i < p.len() implies !(#[trigger] p[i]).contains(sep) by {
                if i < q.len() - 1 {
                    assert(p[i] == q[i]);
                } else {
                    let last = q.last();
                    assert(!last.contains(sep));
                    assert forall|k: int| 0 <= k < p[i].len() implies p[i][k] != sep by {
                        if k < last.len() {
                            assert(last[k] == p[i][k]);
                        }
                    }
                }
            }
        }
    }
}

/// A text that ends in a separator and a part without one is split there, and before that as the
/// rest is.
pub proof fn last_part_is_split_off(rest: Seq<char>, part: Seq<char>, sep: char)
    requires
        !part.contains(sep),
    ensures
        split_spec(rest + seq![sep] + part, sep) == split_spec(rest, sep).push(part),
    decreases part.len(),
{
    let s = rest + seq![sep] + part;
    if part.len() == 0 {
        assert(s.drop_last() =~= rest);
        assert(s.last() == sep);
        assert(part =~= Seq::<char>::empty());
    } else {
        let p = part.drop_last();
        assert forall|i: int| 0 <= i < p.len() implies p[i] != sep by {
            assert(part[i] == p[i]);
        }
        last_part_is_split_off(rest, p, sep);
        assert(s.drop_last() =~= rest + seq![sep] + p);
        assert(s.last() == part.last());
        assert(part.contains(part.last())) by {
            assert(part[part.len() - 1] == part.last());
        }
        let q = split_spec(rest, sep).push(p);
        assert(q.drop_last() =~= split_spec(rest, sep));
        assert(p.push(part.last()) =~= part);
        assert(split_spec(s, sep) =~= split_spec(rest, sep).push(part));
    }
}

/// A text without a separator is its only part.
pub proof fn text_without_separator_is_one_part(s: Seq<char>, sep: char)
    requires
        !s.contains(sep),
    ensures
        split_spec(s, sep) == seq![s],
    decreases s.len(),
{
    if s.len() > 0 {
        assert forall|i: int| 0 <= i < s.len() - 1 implies s.drop_last()[i] != sep by {
            assert(s.contains(s[i]));
        }
        assert(s.contains(s.last()));
        text_without_separator_is_one_part(s.drop_last(), sep);
        assert(seq![s.drop_last()].drop_last() =~= Seq::<Seq<char>>::empty());
        assert(s.drop_last().push(s.last()) =~= s);
        assert(split_spec(s, sep) =~= seq![s]);
    } else {
        assert(s =~= Seq::<char>::empty());
    }
}

} // verus!

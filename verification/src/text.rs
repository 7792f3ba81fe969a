//! Character-level helpers on which the rest of the library is built:
//! conversion between strings and character vectors, Unicode whitespace,
//! trimming, ASCII case folding, substring search, lexicographic order
//! and joining.

use vstd::prelude::*;

verus! {

/// The characters of a string slice, in order.
pub fn chars_of(s: &str) -> (r: Vec<char>)
    ensures
        r@ == s@,
{
    let mut r: Vec<char> = Vec::new();
    for c in it: s.chars()
        invariant
            r@ == it.seq().take(it.index() as int),
    {
        r.push(c);
    }
    r
}

/// Appends one character to a string (`String::push`). Trusted: the string
/// afterwards is the one before with `c` at its end, as the standard
/// library documents.
#[verifier::external_body]
fn push_char(s: &mut String, c: char)
    ensures
        final(s)@ == old(s)@.push(c),
{
    s.push(c);
}

/// The string made of the given characters.
pub fn string_of(v: &[char]) -> (s: String)
    ensures
        s@ == v@,
{
    let mut s = String::new();
    let mut i: usize = 0;
    while i < v.len()
        invariant
            i <= v.len(),
            s@ == v@.take(i as int),
        decreases v.len() - i,
    {
        push_char(&mut s, v[i]);
        i = i + 1;
    }
    s
}

/// A string made from a string slice.
pub fn owned(s: &str) -> (r: String)
    ensures
        r@ == s@,
{
    s.to_owned()
}

/// `s` followed by `t`.
pub fn concat(s: &str, t: &str) -> (r: String)
    ensures
        r@ == s@ + t@,
{
    let mut r = s.to_owned();
    r.append(t);
    r
}

/// The code points that Unicode gives the `White_Space` property, which
/// is what `char::is_whitespace` and `str::trim` go by.
pub open spec fn is_ws(c: char) -> bool {
    let n = c as u32;
    (0x9 <= n <= 0xd) || n == 0x20 || n == 0x85 || n == 0xa0 || n == 0x1680 || (0x2000 <= n
        <= 0x200a) || n == 0x2028 || n == 0x2029 || n == 0x202f || n == 0x205f || n == 0x3000
}

/// Whether a character is Unicode whitespace.
pub fn is_whitespace(c: char) -> (b: bool)
    ensures
        b == is_ws(c),
{
    let n = c as u32;
    (0x9 <= n && n <= 0xd) || n == 0x20 || n == 0x85 || n == 0xa0 || n == 0x1680 || (0x2000 <= n
        && n <= 0x200a) || n == 0x2028 || n == 0x2029 || n == 0x202f || n == 0x205f || n == 0x3000
}

/// `s` without its leading whitespace.
pub open spec fn trim_start(s: Seq<char>) -> Seq<char>
    decreases s.len(),
{
    if s.len() > 0 && is_ws(s[0]) {
        trim_start(s.drop_first())
    } else {
        s
    }
}

/// `s` without its trailing whitespace.
pub open spec fn trim_end(s: Seq<char>) -> Seq<char>
    decreases s.len(),
{
    if s.len() > 0 && is_ws(s.last()) {
        trim_end(s.drop_last())
    } else {
        s
    }
}

/// `s` without leading and trailing whitespace, as `str::trim` gives it.
pub open spec fn trim(s: Seq<char>) -> Seq<char> {
    trim_end(trim_start(s))
}

/// Whether `s` holds nothing but whitespace.
pub open spec fn is_blank(s: Seq<char>) -> bool {
    forall|i: int| 0 <= i < s.len() ==> is_ws(#[trigger] s[i])
}

proof fn lemma_trim_start_skip(s: Seq<char>, k: int)
    requires
        0 <= k <= s.len(),
        forall|i: int| 0 <= i < k ==> is_ws(#[trigger] s[i]),
    ensures
        trim_start(s) == trim_start(s.skip(k)),
    decreases k,
{
    if k > 0 {
        assert(s.drop_first().skip(k - 1) =~= s.skip(k));
        lemma_trim_start_skip(s.drop_first(), k - 1);
    } else {
        assert(s.skip(0) =~= s);
    }
}

proof fn lemma_trim_end_take(s: Seq<char>, k: int)
    requires
        0 <= k <= s.len(),
        forall|i: int| k <= i < s.len() ==> is_ws(#[trigger] s[i]),
    ensures
        trim_end(s) == trim_end(s.take(k)),
    decreases s.len() - k,
{
    if k < s.len() {
        assert(s.drop_last().take(k) =~= s.take(k));
        lemma_trim_end_take(s.drop_last(), k);
    } else {
        assert(s.take(k) =~= s);
    }
}

/// Trimming a string that is all whitespace leaves nothing; trimming one
/// that is not leaves something.
pub proof fn lemma_trim_empty_iff_blank(s: Seq<char>)
    ensures
        (trim(s).len() == 0) == is_blank(s),
    decreases s.len(),
{
    if s.len() > 0 {
        if is_ws(s[0]) {
            lemma_trim_empty_iff_blank(s.drop_first());
            assert(trim(s) == trim(s.drop_first()));
            if is_blank(s.drop_first()) {
                assert forall|i: int| 0 <= i < s.len() implies is_ws(#[trigger] s[i]) by {
                    if i > 0 {
                        assert(s[i] == s.drop_first()[i - 1]);
                    }
                }
            } else {
                let j = choose|j: int| 0 <= j < s.drop_first().len() && !is_ws(s.drop_first()[j]);
                assert(s[j + 1] == s.drop_first()[j]);
            }
        } else {
            assert(trim_start(s) == s);
            lemma_trim_end_nonempty(s);
        }
    }
}

proof fn lemma_trim_end_nonempty(s: Seq<char>)
    requires
        s.len() > 0,
        !is_ws(s[0]),
    ensures
        trim_end(s).len() > 0,
    decreases s.len(),
{
    if is_ws(s.last()) {
        lemma_trim_end_nonempty(s.drop_last());
    }
}

/// `s` without leading and trailing whitespace (`str::trim`).
pub fn trim_chars(s: &[char]) -> (r: Vec<char>)
    ensures
        r@ == trim(s@),
{
    let n = s.len();
    let mut start: usize = 0;
    while start < n && is_whitespace(s[start])
        invariant
            start <= n == s@.len(),
            forall|i: int| 0 <= i < start ==> is_ws(#[trigger] s@[i]),
        decreases n - start,
    {
        start = start + 1;
    }
    proof {
        lemma_trim_start_skip(s@, start as int);
    }
    let ghost rest = s@.skip(start as int);
    let mut end: usize = n;
    while end > start && is_whitespace(s[end - 1])
        invariant
            start <= end <= n == s@.len(),
            rest == s@.skip(start as int),
            forall|i: int| end <= i < n ==> is_ws(#[trigger] s@[i]),
        decreases end,
    {
        end = end - 1;
    }
    proof {
        if start < n {
            assert(!is_ws(rest[0]));
            assert(trim_start(rest) == rest);
            assert forall|i: int| end - start <= i < rest.len() implies is_ws(#[trigger] rest[i]) by {
                assert(rest[i] == s@[i + start]);
            }
            lemma_trim_end_take(rest, end - start);
            assert(rest.take(end - start) =~= s@.subrange(start as int, end as int));
            if end > start {
                assert(!is_ws(rest.take(end - start).last()));
            }
        } else {
            assert(rest.len() == 0);
            assert(s@.subrange(start as int, end as int).len() == 0);
        }
    }
    let mut r: Vec<char> = Vec::new();
    let mut i: usize = start;
    while i < end
        invariant
            start <= i <= end <= n == s@.len(),
            r@ == s@.subrange(start as int, i as int),
        decreases end - i,
    {
        r.push(s[i]);
        i = i + 1;
    }
    r
}

/// A string slice without leading and trailing whitespace, as a new string.
pub fn trimmed(s: &str) -> (r: String)
    ensures
        r@ == trim(s@),
{
    let v = chars_of(s);
    let t = trim_chars(v.as_slice());
    string_of(t.as_slice())
}

/// Whether a string slice is empty once trimmed.
pub fn is_blank_str(s: &str) -> (b: bool)
    ensures
        b == (trim(s@).len() == 0),
        b == is_blank(s@),
{
    let v = chars_of(s);
    proof {
        lemma_trim_empty_iff_blank(s@);
    }
    let mut i: usize = 0;
    while i < v.len()
        invariant
            i <= v.len(),
            v@ == s@,
            forall|j: int| 0 <= j < i ==> is_ws(#[trigger] v@[j]),
        decreases v.len() - i,
    {
        if !is_whitespace(v[i]) {
            assert(!is_ws(s@[i as int]));
            assert(!is_blank(s@));
            proof {
                lemma_trim_empty_iff_blank(s@);
            }
            return false;
        }
        i = i + 1;
    }
    true
}

} // verus!

verus! {

/// A character with ASCII upper-case letters mapped to lower case
/// (`char::to_ascii_lowercase`).
pub open spec fn ascii_lower(c: char) -> char {
    if 'A' <= c <= 'Z' {
        ((c as u32) + 32) as char
    } else {
        c
    }
}

/// `s` with every ASCII upper-case letter in lower case.
pub open spec fn lower(s: Seq<char>) -> Seq<char> {
    s.map_values(|c: char| ascii_lower(c))
}

/// Equality up to ASCII case (`str::eq_ignore_ascii_case`).
pub open spec fn eq_ignore_case(a: Seq<char>, b: Seq<char>) -> bool {
    lower(a) == lower(b)
}

/// Whether `needle` occurs in `hay` as a contiguous piece (`str::contains`).
pub open spec fn has_infix(hay: Seq<char>, needle: Seq<char>) -> bool {
    exists|i: int|
        0 <= i && i + needle.len() <= hay.len() && #[trigger] hay.subrange(i, i + needle.len())
            == needle
}

/// Lexicographic order on character sequences, by code point, which is
/// the order of `String` (the UTF-8 encoding keeps code-point order).
pub open spec fn lex_lt(a: Seq<char>, b: Seq<char>) -> bool
    decreases a.len(),
{
    if a.len() == 0 {
        b.len() > 0
    } else if b.len() == 0 {
        false
    } else if a[0] < b[0] {
        true
    } else if a[0] == b[0] {
        lex_lt(a.drop_first(), b.drop_first())
    } else {
        false
    }
}

/// A character with ASCII upper-case letters mapped to lower case.
pub fn to_ascii_lower(c: char) -> (r: char)
    ensures
        r == ascii_lower(c),
{
    if 'A' <= c && c <= 'Z' {
        let b = c as u8;
        assert(b == c as u32);
        ((b + 32) as u8) as char
    } else {
        c
    }
}

/// `v` with every ASCII upper-case letter in lower case.
pub fn lower_chars(v: &[char]) -> (r: Vec<char>)
    ensures
        r@ == lower(v@),
{
    let mut r: Vec<char> = Vec::new();
    let mut i: usize = 0;
    while i < v.len()
        invariant
            i <= v.len(),
            r@ == lower(v@.take(i as int)),
        decreases v.len() - i,
    {
        r.push(to_ascii_lower(v[i]));
        proof {
            assert(lower(v@.take(i + 1)) =~= lower(v@.take(i as int)).push(ascii_lower(v@[i as int])));
        }
        i = i + 1;
    }
    assert(v@.take(v.len() as int) =~= v@);
    r
}

/// Equality of two character vectors.
pub fn chars_eq(a: &[char], b: &[char]) -> (r: bool)
    ensures
        r == (a@ == b@),
{
    if a.len() != b.len() {
        return false;
    }
    let mut i: usize = 0;
    while i < a.len()
        invariant
            i <= a.len() == b.len(),
            forall|j: int| 0 <= j < i ==> a@[j] == b@[j],
        decreases a.len() - i,
    {
        if a[i] != b[i] {
            return false;
        }
        i = i + 1;
    }
    assert(a@ =~= b@);
    true
}

/// Equality up to ASCII case of two string slices.
pub fn eq_ignore_ascii_case(a: &str, b: &str) -> (r: bool)
    ensures
        r == eq_ignore_case(a@, b@),
{
    let la = lower_chars(chars_of(a).as_slice());
    let lb = lower_chars(chars_of(b).as_slice());
    chars_eq(la.as_slice(), lb.as_slice())
}

/// Whether `needle` occurs in `hay`.
pub fn contains_chars(hay: &[char], needle: &[char]) -> (r: bool)
    ensures
        r == has_infix(hay@, needle@),
{
    if needle.len() > hay.len() {
        return false;
    }
    let last = hay.len() - needle.len();
    let mut i: usize = 0;
    while i <= last
        invariant
            last + needle.len() == hay.len(),
            i <= last + 1,
            forall|k: int|
                0 <= k < i ==> #[trigger] hay@.subrange(k, k + needle@.len()) != needle@,
        decreases last + 1 - i,
    {
        let mut j: usize = 0;
        let mut same = true;
        while j < needle.len()
            invariant
                i <= last,
                last + needle.len() == hay.len(),
                j <= needle.len(),
                same == (forall|m: int| 0 <= m < j ==> hay@[i + m] == needle@[m]),
            decreases needle.len() - j,
        {
            if hay[i + j] != needle[j] {
                same = false;
            }
            j = j + 1;
        }
        if same {
            assert(hay@.subrange(i as int, i + needle@.len()) =~= needle@);
            return true;
        }
        proof {
            let k = choose|m: int| 0 <= m < needle.len() && hay@[i + m] != needle@[m];
            assert(hay@.subrange(i as int, i + needle@.len())[k] != needle@[k]);
        }
        i = i + 1;
    }
    assert forall|k: int| 0 <= k && k + needle@.len() <= hay@.len() implies #[trigger] hay@.subrange(
        k,
        k + needle@.len(),
    ) != needle@ by {}
    false
}

/// Whether `s` comes strictly before `t` in lexicographic order.
pub fn chars_lt(s: &[char], t: &[char]) -> (r: bool)
    ensures
        r == lex_lt(s@, t@),
{
    let mut i: usize = 0;
    assert(s@.skip(0) =~= s@);
    assert(t@.skip(0) =~= t@);
    while i < s.len() && i < t.len()
        invariant
            i <= s.len(),
            i <= t.len(),
            forall|j: int| 0 <= j < i ==> s@[j] == t@[j],
            lex_lt(s@, t@) == lex_lt(s@.skip(i as int), t@.skip(i as int)),
        decreases s.len() - i,
    {
        if s[i] < t[i] {
            assert(s@.skip(i as int)[0] == s@[i as int]);
            assert(t@.skip(i as int)[0] == t@[i as int]);
            return true;
        }
        if s[i] != t[i] {
            assert(s@.skip(i as int)[0] == s@[i as int]);
            assert(t@.skip(i as int)[0] == t@[i as int]);
            return false;
        }
        assert(s@.skip(i as int).drop_first() =~= s@.skip(i + 1));
        assert(t@.skip(i as int).drop_first() =~= t@.skip(i + 1));
        i = i + 1;
    }
    i == s.len() && i < t.len()
}

/// Whether string `a` comes strictly before string `b`.
pub fn str_lt(a: &str, b: &str) -> (r: bool)
    ensures
        r == lex_lt(a@, b@),
{
    let va = chars_of(a);
    let vb = chars_of(b);
    chars_lt(va.as_slice(), vb.as_slice())
}

} // verus!

verus! {

/// The character of a decimal digit.
pub open spec fn digit_char(d: nat) -> char {
    (48 + d) as char
}

/// The decimal notation of a natural number, as `Display` writes it.
pub open spec fn decimal(n: nat) -> Seq<char>
    decreases n,
{
    if n < 10 {
        seq![digit_char(n)]
    } else {
        decimal(n / 10).push(digit_char(n % 10))
    }
}

/// The decimal notation of an integer, with `-` before a negative one.
pub open spec fn signed_decimal(n: int) -> Seq<char> {
    if n < 0 {
        seq!['-'] + decimal((-n) as nat)
    } else {
        decimal(n as nat)
    }
}

/// The decimal notation of `n`.
pub fn decimal_chars(n: u64) -> (r: Vec<char>)
    ensures
        r@ == decimal(n as nat),
    decreases n,
{
    let d = (n % 10) as u8;
    let c = (d + 48) as char;
    assert(c == digit_char((n % 10) as nat));
    if n < 10 {
        let mut r: Vec<char> = Vec::new();
        r.push(c);
        assert(r@ =~= seq![c]);
        r
    } else {
        let mut r = decimal_chars(n / 10);
        r.push(c);
        r
    }
}

/// The decimal notation of a signed integer.
pub fn signed_decimal_chars(n: i64) -> (r: Vec<char>)
    ensures
        r@ == signed_decimal(n as int),
{
    if n < 0 {
        let m: u64 = if n == i64::MIN {
            9223372036854775808u64
        } else {
            (-n) as u64
        };
        let digits = decimal_chars(m);
        let mut r: Vec<char> = Vec::new();
        r.push('-');
        let mut i: usize = 0;
        while i < digits.len()
            invariant
                i <= digits.len(),
                r@ == seq!['-'] + digits@.take(i as int),
            decreases digits.len() - i,
        {
            r.push(digits[i]);
            assert(digits@.take(i + 1) =~= digits@.take(i as int).push(digits@[i as int]));
            i = i + 1;
        }
        assert(digits@.take(digits.len() as int) =~= digits@);
        r
    } else {
        decimal_chars(n as u64)
    }
}

/// Appends characters to a string.
pub fn append_chars(s: &mut String, v: &[char])
    ensures
        final(s)@ == old(s)@ + v@,
{
    let mut i: usize = 0;
    while i < v.len()
        invariant
            i <= v.len(),
            s@ == old(s)@ + v@.take(i as int),
        decreases v.len() - i,
    {
        push_char(s, v[i]);
        assert(v@.take(i + 1) =~= v@.take(i as int).push(v@[i as int]));
        i = i + 1;
    }
    assert(v@.take(v.len() as int) =~= v@);
}

} // verus!

verus! {

/// Equality of two string slices.
pub fn str_eq(a: &str, b: &str) -> (r: bool)
    ensures
        r == (a@ == b@),
{
    let va = chars_of(a);
    let vb = chars_of(b);
    chars_eq(va.as_slice(), vb.as_slice())
}

/// Whether some string of `v` equals `code` up to ASCII case.
pub open spec fn any_eq_ignore_case(v: Seq<Seq<char>>, code: Seq<char>) -> bool {
    exists|i: int| 0 <= i < v.len() && #[trigger] eq_ignore_case(v[i], code)
}

/// Whether some string of `v` equals `code` up to ASCII case.
pub fn any_eq_ignore_ascii_case(v: &Vec<String>, code: &str) -> (r: bool)
    ensures
        r == any_eq_ignore_case(v@.map_values(|s: String| s@), code@),
{
    let ghost w = v@.map_values(|s: String| s@);
    let mut i: usize = 0;
    while i < v.len()
        invariant
            i <= v.len(),
            w == v@.map_values(|s: String| s@),
            forall|j: int| 0 <= j < i ==> !eq_ignore_case(#[trigger] w[j], code@),
        decreases v.len() - i,
    {
        if eq_ignore_ascii_case(v[i].as_str(), code) {
            assert(eq_ignore_case(w[i as int], code@));
            return true;
        }
        i = i + 1;
    }
    false
}

/// Whether some string of `v` equals `code` exactly.
pub open spec fn any_eq(v: Seq<Seq<char>>, code: Seq<char>) -> bool {
    exists|i: int| 0 <= i < v.len() && #[trigger] v[i] == code
}

/// Whether some string of `v` equals `code`.
pub fn any_eq_str(v: &Vec<String>, code: &str) -> (r: bool)
    ensures
        r == any_eq(v@.map_values(|s: String| s@), code@),
{
    let ghost w = v@.map_values(|s: String| s@);
    let mut i: usize = 0;
    while i < v.len()
        invariant
            i <= v.len(),
            w == v@.map_values(|s: String| s@),
            forall|j: int| 0 <= j < i ==> #[trigger] w[j] != code@,
        decreases v.len() - i,
    {
        if str_eq(v[i].as_str(), code) {
            assert(w[i as int] == code@);
            return true;
        }
        i = i + 1;
    }
    false
}

} // verus!

verus! {

/// Whether `v` holds a string equal to `s`.
pub fn contains_string(v: &Vec<String>, s: &str) -> (r: bool)
    ensures
        r == v@.map_values(|x: String| x@).contains(s@),
{
    let ghost w = v@.map_values(|x: String| x@);
    let mut i: usize = 0;
    while i < v.len()
        invariant
            i <= v.len(),
            w == v@.map_values(|x: String| x@),
            forall|j: int| 0 <= j < i ==> #[trigger] w[j] != s@,
        decreases v.len() - i,
    {
        if str_eq(v[i].as_str(), s) {
            assert(w[i as int] == s@);
            return true;
        }
        i = i + 1;
    }
    false
}

} // verus!

verus! {

/// The strings of `list` with `sep` between each two (`[..].join(sep)`).
pub open spec fn join_with(list: Seq<Seq<char>>, sep: Seq<char>) -> Seq<char>
    decreases list.len(),
{
    if list.len() == 0 {
        Seq::empty()
    } else if list.len() == 1 {
        list[0]
    } else {
        join_with(list.drop_last(), sep) + sep + list.last()
    }
}

/// The strings of `list` with `sep` between each two.
pub fn join(list: &Vec<String>, sep: &str) -> (r: String)
    ensures
        r@ == join_with(list@.map_values(|s: String| s@), sep@),
{
    let ghost w = list@.map_values(|s: String| s@);
    let mut r = String::new();
    let mut i: usize = 0;
    while i < list.len()
        invariant
            i <= list.len(),
            w == list@.map_values(|s: String| s@),
            r@ == join_with(w.take(i as int), sep@),
        decreases list.len() - i,
    {
        proof {
            assert(w.take(i + 1).drop_last() =~= w.take(i as int));
            assert(w.take(i + 1).last() == list@[i as int]@);
        }
        if i != 0 {
            r.append(sep);
        } else {
            assert(r@ =~= Seq::<char>::empty());
        }
        r.append(list[i].as_str());
        i = i + 1;
    }
    assert(w.take(list.len() as int) =~= w);
    r
}

/// Whether `s` begins with `p` (`str::starts_with`).
pub fn has_prefix(s: &str, p: &str) -> (r: bool)
    ensures
        r == p@.is_prefix_of(s@),
{
    let vs = chars_of(s);
    let vp = chars_of(p);
    if vp.len() > vs.len() {
        return false;
    }
    let mut i: usize = 0;
    while i < vp.len()
        invariant
            i <= vp.len() <= vs.len(),
            vs@ == s@,
            vp@ == p@,
            forall|k: int| 0 <= k < i ==> vp@[k] == vs@[k],
        decreases vp.len() - i,
    {
        if vp[i] != vs[i] {
            assert(p@[i as int] != s@.subrange(0, p@.len() as int)[i as int]);
            return false;
        }
        i = i + 1;
    }
    assert(p@ =~= s@.subrange(0, p@.len() as int));
    true
}

/// What `String::from_utf8_lossy` makes of some bytes: the text they
/// encode, with U+FFFD in place of each invalid sequence.
pub uninterp spec fn utf8_lossy(bytes: Seq<u8>) -> Seq<char>;

/// The text of some bytes as `String::from_utf8_lossy` decodes them.
/// Trusted: the result is `utf8_lossy` of the bytes; what that is for
/// invalid input is left to the standard library.
#[verifier::external_body]
pub(crate) fn lossy_text(bytes: &Vec<u8>) -> (r: String)
    ensures
        r@ == utf8_lossy(bytes@),
{
    String::from_utf8_lossy(bytes.as_slice()).into_owned()
}

/// How `{:?}` writes a string: quoted, with quotes, backslashes and
/// control characters escaped.
pub uninterp spec fn str_debug(s: Seq<char>) -> Seq<char>;

/// A string as `{:?}` writes it. Trusted: the result is `str_debug` of the
/// text; the escaping rules are left to the standard library.
#[verifier::external_body]
pub(crate) fn debug_text(s: &str) -> (r: String)
    ensures
        r@ == str_debug(s@),
{
    format!("{:?}", s)
}

} // verus!

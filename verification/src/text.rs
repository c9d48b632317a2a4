//! Character-level string helpers used by the name matchers.
//!
//! Strings are reasoned about through their `Seq<char>` views. The two std
//! operations that vstd does not specify and that take more than a few
//! lines to state (`String::push`, Unicode lowercasing) are reached through
//! small wrappers; everything else here is verified, the White_Space
//! property included.
use vstd::prelude::*;

verus! {

/// `str::to_lowercase`, as a function of the character sequence alone
/// (Unicode `Lowercase` mapping of the std release the crate is built with).
pub uninterp spec fn lowercase(s: Seq<char>) -> Seq<char>;

/// `char::is_whitespace`: the Unicode `White_Space` property, which holds
/// of exactly these code points: U+0009 to U+000D, U+0020, U+0085, U+00A0,
/// U+1680, U+2000 to U+200A, U+2028, U+2029, U+202F, U+205F and U+3000.
pub open spec fn white_space(c: char) -> bool {
    ('\u{9}' <= c && c <= '\u{d}') || c == ' ' || c == '\u{85}' || c == '\u{a0}' || c == '\u{1680}'
        || ('\u{2000}' <= c && c <= '\u{200a}') || c == '\u{2028}' || c == '\u{2029}' || c == '\u{202f}'
        || c == '\u{205f}' || c == '\u{3000}'
}

/// Wraps `String::push`: the character is appended at the end.
#[verifier::external_body]
pub(crate) fn string_push(s: &mut String, c: char)
    ensures
        final(s)@ == old(s)@.push(c),
{
    s.push(c);
}

/// Wraps `str::to_lowercase`; the result is named by `lowercase`.
#[verifier::external_body]
pub(crate) fn to_lowercase(s: &str) -> (r: String)
    ensures
        r@ == lowercase(s@),
{
    s.to_lowercase()
}

/// `char::is_whitespace`: whether `c` has the Unicode `White_Space`
/// property.
pub fn is_whitespace(c: char) -> (r: bool)
    ensures
        r == white_space(c),
{
    ('\u{9}' <= c && c <= '\u{d}') || c == ' ' || c == '\u{85}' || c == '\u{a0}' || c == '\u{1680}'
        || ('\u{2000}' <= c && c <= '\u{200a}') || c == '\u{2028}' || c == '\u{2029}' || c == '\u{202f}'
        || c == '\u{205f}' || c == '\u{3000}'
}

/// The characters of `s`, in order.
pub fn chars_of(s: &str) -> (v: Vec<char>)
    ensures
        v@ == s@,
{
    let mut v: Vec<char> = Vec::new();
    for c in it: s.chars()
        invariant
            it.seq() == s@,
            v@ == s@.take(it.index() as int),
    {
        proof {
            assert(s@.take(it.index() + 1) =~= s@.take(it.index() as int).push(c));
        }
        v.push(c);
    }
    proof {
        assert(s@.take(s@.len() as int) =~= s@);
    }
    v
}

/// A `String` holding exactly the characters of `v`.
pub fn string_of(v: &Vec<char>) -> (s: String)
    ensures
        s@ == v@,
{
    let mut s = String::new();
    let mut i: usize = 0;
    while i < v.len()
        invariant
            i <= v.len(),
            s@ == v@.take(i as int),
        decreases v.len() - i,
    {
        proof {
            assert(v@.take(i + 1) =~= v@.take(i as int).push(v@[i as int]));
        }
        string_push(&mut s, v[i]);
        i = i + 1;
    }
    proof {
        assert(v@.take(v@.len() as int) =~= v@);
    }
    s
}

/// `suf` is a suffix of `s`.
pub open spec fn ends_with(s: Seq<char>, suf: Seq<char>) -> bool {
    suf.len() <= s.len() && s.subrange(s.len() - suf.len(), s.len() as int) == suf
}

/// `pat` occurs somewhere in `s`.
pub open spec fn contains(s: Seq<char>, pat: Seq<char>) -> bool {
    exists|i: int| 0 <= i <= s.len() - pat.len() && #[trigger] s.subrange(i, i + pat.len()) == pat
}

/// Whether `v` ends with the characters of `suf`.
pub fn ends_with_str(v: &Vec<char>, suf: &str) -> (r: bool)
    ensures
        r == ends_with(v@, suf@),
{
    let p = chars_of(suf);
    if p.len() > v.len() {
        return false;
    }
    let off = v.len() - p.len();
    let mut i: usize = 0;
    while i < p.len()
        invariant
            p@ == suf@,
            off + p.len() == v.len(),
            i <= p.len(),
            forall|k: int| 0 <= k < i ==> v@[off + k] == p@[k],
        decreases p.len() - i,
    {
        if v[off + i] != p[i] {
            proof {
                let sub = v@.subrange(off as int, v@.len() as int);
                assert(sub[i as int] != p@[i as int]);
            }
            return false;
        }
        i = i + 1;
    }
    proof {
        assert(v@.subrange(off as int, v@.len() as int) =~= p@);
    }
    true
}

/// Whether `pat` occurs in `v` at position `at`.
fn matches_at(v: &Vec<char>, p: &Vec<char>, at: usize) -> (r: bool)
    requires
        at + p.len() <= v.len(),
    ensures
        r == (v@.subrange(at as int, at + p.len()) == p@),
{
    let mut i: usize = 0;
    while i < p.len()
        invariant
            at + p.len() <= v.len(),
            i <= p.len(),
            forall|k: int| 0 <= k < i ==> v@[at + k] == p@[k],
        decreases p.len() - i,
    {
        if v[at + i] != p[i] {
            proof {
                assert(v@.subrange(at as int, at + p.len())[i as int] != p@[i as int]);
            }
            return false;
        }
        i = i + 1;
    }
    proof {
        assert(v@.subrange(at as int, at + p.len()) =~= p@);
    }
    true
}

/// Whether `pat` occurs somewhere in `v`.
pub fn contains_str(v: &Vec<char>, pat: &str) -> (r: bool)
    ensures
        r == contains(v@, pat@),
{
    let p = chars_of(pat);
    if p.len() > v.len() {
        return false;
    }
    let last = v.len() - p.len();
    let mut at: usize = 0;
    loop
        invariant
            p@ == pat@,
            last + p.len() == v.len(),
            at <= last,
            forall|k: int| 0 <= k < at ==> #[trigger] v@.subrange(k, k + p@.len()) != p@,
        ensures
            forall|k: int| 0 <= k <= last ==> #[trigger] v@.subrange(k, k + p@.len()) != p@,
        decreases last - at,
    {
        if matches_at(v, &p, at) {
            return true;
        }
        if at == last {
            break;
        }
        at = at + 1;
    }
    proof {
        if contains(v@, pat@) {
            let k = choose|k: int| 0 <= k <= v@.len() - pat@.len() && #[trigger] v@.subrange(k, k + pat@.len()) == pat@;
            assert(v@.subrange(k, k + p@.len()) != p@);
        }
    }
    false
}

/// `s` with its leading White_Space characters removed.
pub open spec fn trim_start(s: Seq<char>) -> Seq<char>
    decreases s.len(),
{
    if s.len() > 0 && white_space(s[0]) {
        trim_start(s.drop_first())
    } else {
        s
    }
}

/// `s` with its trailing White_Space characters removed.
pub open spec fn trim_end(s: Seq<char>) -> Seq<char>
    decreases s.len(),
{
    if s.len() > 0 && white_space(s.last()) {
        trim_end(s.drop_last())
    } else {
        s
    }
}

/// `str::trim`: both ends stripped of White_Space.
pub open spec fn trim(s: Seq<char>) -> Seq<char> {
    trim_end(trim_start(s))
}

/// `s` without its first `i` characters, if those are all white space,
/// trims to the same thing as `s`.
proof fn lemma_trim_start_skip(s: Seq<char>, i: int)
    requires
        0 <= i <= s.len(),
        forall|k: int| 0 <= k < i ==> white_space(#[trigger] s[k]),
    ensures
        trim_start(s) == trim_start(s.skip(i)),
    decreases i,
{
    if i > 0 {
        assert(s.drop_first().skip(i - 1) =~= s.skip(i));
        lemma_trim_start_skip(s.drop_first(), i - 1);
    } else {
        assert(s.skip(0) =~= s);
    }
}

proof fn lemma_trim_end_take(s: Seq<char>, j: int)
    requires
        0 <= j <= s.len(),
        forall|k: int| j <= k < s.len() ==> white_space(#[trigger] s[k]),
    ensures
        trim_end(s) == trim_end(s.take(j)),
    decreases s.len() - j,
{
    if j < s.len() {
        assert(s.drop_last().take(j) =~= s.take(j));
        lemma_trim_end_take(s.drop_last(), j);
    } else {
        assert(s.take(j) =~= s);
    }
}

/// `str::trim` over a character vector.
pub fn trim_chars(v: &Vec<char>) -> (r: Vec<char>)
    ensures
        r@ == trim(v@),
{
    let n = v.len();
    let mut i: usize = 0;
    while i < n && is_whitespace(v[i])
        invariant
            n == v.len(),
            i <= n,
            forall|k: int| 0 <= k < i ==> white_space(#[trigger] v@[k]),
        decreases n - i,
    {
        i = i + 1;
    }
    let mut j: usize = n;
    while j > i && is_whitespace(v[j - 1])
        invariant
            n == v.len(),
            i <= j <= n,
            forall|k: int| j <= k < n ==> white_space(#[trigger] v@[k]),
        decreases j - i,
    {
        j = j - 1;
    }
    let mut r: Vec<char> = Vec::new();
    let mut k: usize = i;
    while k < j
        invariant
            i <= k <= j <= n == v.len(),
            r@ == v@.subrange(i as int, k as int),
        decreases j - k,
    {
        r.push(v[k]);
        k = k + 1;
        proof {
            assert(r@ =~= v@.subrange(i as int, k as int));
        }
    }
    proof {
        lemma_trim_start_skip(v@, i as int);
        let t = v@.skip(i as int);
        if i < n && !white_space(v@[i as int]) {
            assert(trim_start(t) == t);
        } else {
            assert(i == n);
            assert(t.len() == 0);
        }
        assert(trim_start(v@) == t);
        assert forall|k: int| j - i <= k < t.len() implies white_space(#[trigger] t[k]) by {
            assert(t[k] == v@[i + k]);
        }
        lemma_trim_end_take(t, j - i);
        let u = t.take(j - i);
        assert(u =~= v@.subrange(i as int, j as int));
        if j > i {
            assert(u.last() == v@[j - 1]);
            assert(!white_space(u.last()));
        }
        assert(trim_end(u) == u);
    }
    r
}

/// Number of leading non-white-space characters of `s`.
pub open spec fn word_len(s: Seq<char>) -> nat
    decreases s.len(),
{
    if s.len() == 0 || white_space(s[0]) {
        0
    } else {
        1 + word_len(s.drop_first())
    }
}

/// The white-space separated words of `s` (`str::split_whitespace`).
pub open spec fn words(s: Seq<char>) -> Seq<Seq<char>>
    decreases s.len(),
{
    if s.len() == 0 {
        seq![]
    } else if white_space(s[0]) {
        words(s.drop_first())
    } else {
        let n = word_len(s);
        if 0 < n <= s.len() {
            seq![s.take(n as int)] + words(s.skip(n as int))
        } else {
            seq![]
        }
    }
}

/// Words joined with single ASCII spaces (`join(" ")`).
pub open spec fn join_space(ws: Seq<Seq<char>>) -> Seq<char>
    decreases ws.len(),
{
    if ws.len() == 0 {
        seq![]
    } else if ws.len() == 1 {
        ws[0]
    } else {
        ws[0] + seq![' '] + join_space(ws.drop_first())
    }
}

/// `split_whitespace().collect::<Vec<_>>().join(" ")`.
pub open spec fn collapse_ws(s: Seq<char>) -> Seq<char> {
    join_space(words(s))
}

proof fn lemma_word_len(s: Seq<char>, k: int)
    requires
        0 <= k <= s.len(),
        forall|m: int| 0 <= m < k ==> !white_space(#[trigger] s[m]),
        k == s.len() || white_space(s[k]),
    ensures
        word_len(s) == k,
    decreases k,
{
    if k > 0 {
        assert forall|m: int| 0 <= m < k - 1 implies !white_space(#[trigger] s.drop_first()[m]) by {
            assert(s.drop_first()[m] == s[m + 1]);
        }
        if k < s.len() {
            assert(s.drop_first()[k - 1] == s[k]);
        }
        lemma_word_len(s.drop_first(), k - 1);
    }
}

proof fn lemma_word_len_bound(s: Seq<char>)
    ensures
        word_len(s) <= s.len(),
    decreases s.len(),
{
    if s.len() > 0 && !white_space(s[0]) {
        lemma_word_len_bound(s.drop_first());
    }
}

proof fn lemma_join_push(ws: Seq<Seq<char>>, w: Seq<char>)
    ensures
        join_space(ws.push(w)) == if ws.len() == 0 {
            w
        } else {
            join_space(ws) + seq![' '] + w
        },
    decreases ws.len(),
{
    if ws.len() == 0 {
        assert(ws.push(w) =~= seq![w]);
        assert(join_space(seq![w]) == w);
    } else if ws.len() == 1 {
        assert(ws.push(w).drop_first() =~= seq![w]);
        assert(join_space(seq![w]) == w);
        assert(join_space(ws) == ws[0]);
        assert(join_space(ws.push(w)) == ws[0] + seq![' '] + join_space(seq![w]));
    } else {
        assert(ws.push(w).drop_first() =~= ws.drop_first().push(w));
        lemma_join_push(ws.drop_first(), w);
        assert(join_space(ws.push(w)) == ws[0] + seq![' '] + join_space(ws.drop_first().push(w)));
        assert(join_space(ws.push(w)) =~= join_space(ws) + seq![' '] + w);
    }
}

/// `split_whitespace().collect::<Vec<_>>().join(" ")` over characters.
pub fn collapse_whitespace(v: &Vec<char>) -> (r: Vec<char>)
    ensures
        r@ == collapse_ws(v@),
{
    let n = v.len();
    let mut out: Vec<char> = Vec::new();
    let mut i: usize = 0;
    let ghost mut done: Seq<Seq<char>> = seq![];
    proof {
        assert(v@.skip(0) =~= v@);
    }
    while i < n
        invariant
            n == v.len(),
            i <= n,
            out@ == join_space(done),
            (out@.len() == 0) == (done.len() == 0),
            words(v@) == done + words(v@.skip(i as int)),
        decreases n - i,
    {
        if is_whitespace(v[i]) {
            proof {
                let t = v@.skip(i as int);
                assert(t.drop_first() =~= v@.skip(i + 1));
            }
            i = i + 1;
        } else {
            let start = i;
            let mut j: usize = i;
            while j < n && !is_whitespace(v[j])
                invariant
                    n == v.len(),
                    start <= j <= n,
                    forall|m: int| start <= m < j ==> !white_space(#[trigger] v@[m]),
                decreases n - j,
            {
                j = j + 1;
            }
            proof {
                assert(!white_space(v@[start as int]));
            }
            if out.len() > 0 {
                out.push(' ');
            }
            let ghost before = out@;
            let mut k: usize = start;
            while k < j
                invariant
                    start <= k <= j <= n == v.len(),
                    out@ == before + v@.subrange(start as int, k as int),
                decreases j - k,
            {
                out.push(v[k]);
                k = k + 1;
                proof {
                    assert(out@ =~= before + v@.subrange(start as int, k as int));
                }
            }
            proof {
                let t = v@.skip(start as int);
                let w = j - start;
                assert forall|m: int| 0 <= m < w implies !white_space(#[trigger] t[m]) by {
                    assert(t[m] == v@[start + m]);
                }
                if j < n {
                    assert(t[w] == v@[j as int]);
                }
                lemma_word_len(t, w);
                assert(t.take(w) =~= v@.subrange(start as int, j as int));
                assert(t.skip(w) =~= v@.skip(j as int));
                assert(words(t) == seq![t.take(w)] + words(t.skip(w)));
                lemma_join_push(done, t.take(w));
                if done.len() == 0 {
                    assert(join_space(done) =~= Seq::<char>::empty());
                }
                assert(done + words(t) =~= done.push(t.take(w)) + words(v@.skip(j as int)));
                done = done.push(t.take(w));
                assert(out@ =~= join_space(done));
            }
            i = j;
        }
    }
    proof {
        assert(v@.skip(n as int) =~= Seq::<char>::empty());
        assert(done + Seq::<Seq<char>>::empty() =~= done);
    }
    out
}

/// `c` is an ASCII decimal digit.
pub open spec fn is_ascii_digit(c: char) -> bool {
    '0' <= c && c <= '9'
}

/// Decimal value of a digit string.
pub open spec fn digits_value(s: Seq<char>) -> nat
    decreases s.len(),
{
    if s.len() == 0 {
        0
    } else {
        digits_value(s.drop_last()) * 10 + ((s.last() as u32) - ('0' as u32)) as nat
    }
}

/// The digits of `s` after an optional leading `+`.
pub open spec fn unsigned_body(s: Seq<char>) -> Seq<char> {
    if s.len() > 0 && s[0] == '+' {
        s.drop_first()
    } else {
        s
    }
}

/// `str::parse::<u32>`: an optional `+` followed by at least one ASCII
/// digit, whose value fits in a `u32`.
pub open spec fn spec_parse_u32(s: Seq<char>) -> Option<u32> {
    let b = unsigned_body(s);
    if b.len() > 0 && (forall|i: int| 0 <= i < b.len() ==> is_ascii_digit(#[trigger] b[i]))
        && digits_value(b) <= u32::MAX {
        Some(digits_value(b) as u32)
    } else {
        None
    }
}

proof fn lemma_digits_value_mono(s: Seq<char>, k: int)
    requires
        0 <= k <= s.len(),
        forall|i: int| 0 <= i < s.len() ==> is_ascii_digit(#[trigger] s[i]),
    ensures
        digits_value(s.take(k)) <= digits_value(s),
    decreases s.len() - k,
{
    if k < s.len() {
        assert(s.drop_last().take(k) =~= s.take(k));
        assert forall|i: int| 0 <= i < s.drop_last().len() implies is_ascii_digit(
            #[trigger] s.drop_last()[i],
        ) by {
            assert(s.drop_last()[i] == s[i]);
        }
        lemma_digits_value_mono(s.drop_last(), k);
    } else {
        assert(s.take(k) =~= s);
    }
}

/// `str::parse::<u32>().ok()`.
pub fn parse_u32(s: &str) -> (r: Option<u32>)
    ensures
        r == spec_parse_u32(s@),
{
    let v = chars_of(s);
    let n = v.len();
    let start: usize = if n > 0 && v[0] == '+' {
        1
    } else {
        0
    };
    let ghost b = unsigned_body(s@);
    proof {
        assert(b =~= v@.skip(start as int));
    }
    if start >= n {
        proof {
            assert(b.len() == 0);
        }
        return None;
    }
    let mut acc: u32 = 0;
    let mut i: usize = start;
    while i < n
        invariant
            n == v.len(),
            v@ == s@,
            b == v@.skip(start as int),
            b == unsigned_body(s@),
            start <= i <= n,
            forall|k: int| 0 <= k < i - start ==> is_ascii_digit(#[trigger] b[k]),
            acc as nat == digits_value(b.take(i - start)),
        decreases n - i,
    {
        let c = v[i];
        if !('0' <= c && c <= '9') {
            proof {
                assert(b[i - start] == c);
                assert(!is_ascii_digit(b[i - start]));
            }
            return None;
        }
        let d: u32 = (c as u32) - ('0' as u32);
        proof {
            assert(b[i - start] == c);
            let t = b.take(i + 1 - start);
            assert(t.drop_last() =~= b.take(i - start));
            assert(t.last() == c);
            assert(digits_value(t) == digits_value(b.take(i - start)) * 10 + d);
        }
        if acc > (u32::MAX - d) / 10 {
            proof {
                assert(acc * 10 + d > u32::MAX) by (nonlinear_arith)
                    requires
                        acc > (u32::MAX - d) / 10,
                        d <= 9,
                ;
                if forall|k: int| 0 <= k < b.len() ==> is_ascii_digit(#[trigger] b[k]) {
                    lemma_digits_value_mono(b, i + 1 - start);
                }
            }
            return None;
        }
        acc = acc * 10 + d;
        i = i + 1;
    }
    proof {
        assert(b.take(n - start) =~= b);
    }
    Some(acc)
}

/// `replace('_', " ")`: every underscore becomes an ASCII space.
pub open spec fn underscores_to_spaces(s: Seq<char>) -> Seq<char> {
    s.map_values(|c: char| if c == '_' { ' ' } else { c })
}

/// `c` is a square bracket.
pub open spec fn is_bracket(c: char) -> bool {
    c == '[' || c == ']'
}

/// `replace(['[', ']'], "")`: square brackets removed.
pub open spec fn without_brackets(s: Seq<char>) -> Seq<char> {
    s.filter(|c: char| !is_bracket(c))
}

/// Underscores replaced by spaces.
pub fn replace_underscores(v: &Vec<char>) -> (r: Vec<char>)
    ensures
        r@ == underscores_to_spaces(v@),
{
    let mut r: Vec<char> = Vec::new();
    let mut i: usize = 0;
    while i < v.len()
        invariant
            i <= v.len(),
            r@ == underscores_to_spaces(v@.take(i as int)),
        decreases v.len() - i,
    {
        let c = v[i];
        r.push(if c == '_' { ' ' } else { c });
        proof {
            assert(underscores_to_spaces(v@.take(i + 1)) =~= underscores_to_spaces(
                v@.take(i as int),
            ).push(if c == '_' { ' ' } else { c }));
        }
        i = i + 1;
    }
    proof {
        assert(v@.take(v@.len() as int) =~= v@);
    }
    r
}

/// Square brackets dropped.
pub fn remove_brackets(v: &Vec<char>) -> (r: Vec<char>)
    ensures
        r@ == without_brackets(v@),
{
    let mut r: Vec<char> = Vec::new();
    let mut i: usize = 0;
    while i < v.len()
        invariant
            i <= v.len(),
            r@ == without_brackets(v@.take(i as int)),
        decreases v.len() - i,
    {
        let c = v[i];
        proof {
            reveal(Seq::filter);
            assert(v@.take(i + 1).drop_last() =~= v@.take(i as int));
            assert(v@.take(i + 1).last() == c);
        }
        if c != '[' && c != ']' {
            r.push(c);
        }
        i = i + 1;
    }
    proof {
        assert(v@.take(v@.len() as int) =~= v@);
    }
    r
}

/// The character view of an optional string.
pub open spec fn opt_view(o: Option<String>) -> Option<Seq<char>> {
    match o {
        Some(s) => Some(s@),
        None => None,
    }
}

/// Index of the last `.` in `s`, if any (`rsplit_once('.')`).
pub open spec fn last_dot(s: Seq<char>) -> Option<int>
    decreases s.len(),
{
    if s.len() == 0 {
        None
    } else if s.last() == '.' {
        Some(s.len() - 1)
    } else {
        last_dot(s.drop_last())
    }
}

proof fn lemma_last_dot_bounds(s: Seq<char>)
    ensures
        last_dot(s) matches Some(k) ==> 0 <= k < s.len() && s[k] == '.' && forall|j: int|
            k < j < s.len() ==> #[trigger] s[j] != '.',
        last_dot(s) is None ==> forall|j: int| 0 <= j < s.len() ==> #[trigger] s[j] != '.',
    decreases s.len(),
{
    if s.len() > 0 && s.last() != '.' {
        lemma_last_dot_bounds(s.drop_last());
        assert forall|j: int| 0 <= j < s.len() - 1 implies s.drop_last()[j] == #[trigger] s[j] by {}
    }
}

proof fn lemma_last_dot_take(s: Seq<char>, i: int)
    requires
        0 <= i <= s.len(),
        forall|j: int| i <= j < s.len() ==> #[trigger] s[j] != '.',
    ensures
        last_dot(s) == last_dot(s.take(i)),
    decreases s.len() - i,
{
    if i < s.len() {
        assert(s.drop_last().take(i) =~= s.take(i));
        lemma_last_dot_take(s.drop_last(), i);
    } else {
        assert(s.take(i) =~= s);
    }
}

/// Position of the last `.` in `v`, if any.
pub fn find_last_dot(v: &Vec<char>) -> (r: Option<usize>)
    ensures
        r matches Some(k) ==> last_dot(v@) == Some(k as int),
        r is None ==> last_dot(v@) is None,
        r matches Some(k) ==> k < v.len(),
{
    let mut i: usize = v.len();
    while i > 0
        invariant
            i <= v.len(),
            forall|j: int| i <= j < v.len() ==> #[trigger] v@[j] != '.',
        decreases i,
    {
        if v[i - 1] == '.' {
            proof {
                lemma_last_dot_take(v@, i as int);
                let t = v@.take(i as int);
                assert(t.last() == '.');
            }
            return Some(i - 1);
        }
        i = i - 1;
    }
    proof {
        lemma_last_dot_take(v@, 0);
        assert(v@.take(0).len() == 0);
    }
    None
}

/// The first `n` characters of `v`.
pub fn prefix_chars(v: &Vec<char>, n: usize) -> (r: Vec<char>)
    requires
        n <= v.len(),
    ensures
        r@ == v@.take(n as int),
{
    let mut r: Vec<char> = Vec::new();
    let mut i: usize = 0;
    while i < n
        invariant
            n <= v.len(),
            i <= n,
            r@ == v@.take(i as int),
        decreases n - i,
    {
        r.push(v[i]);
        i = i + 1;
        proof {
            assert(r@ =~= v@.take(i as int));
        }
    }
    r
}

/// `s` without its trailing `s` characters (`trim_end_matches('s')`).
pub open spec fn trim_trailing_s(s: Seq<char>) -> Seq<char>
    decreases s.len(),
{
    if s.len() > 0 && s.last() == 's' {
        trim_trailing_s(s.drop_last())
    } else {
        s
    }
}

proof fn lemma_trim_trailing_s_take(s: Seq<char>, j: int)
    requires
        0 <= j <= s.len(),
        forall|k: int| j <= k < s.len() ==> #[trigger] s[k] == 's',
    ensures
        trim_trailing_s(s) == trim_trailing_s(s.take(j)),
    decreases s.len() - j,
{
    if j < s.len() {
        assert(s.drop_last().take(j) =~= s.take(j));
        lemma_trim_trailing_s_take(s.drop_last(), j);
    } else {
        assert(s.take(j) =~= s);
    }
}

/// `trim_end_matches('s')` over characters.
pub fn trim_trailing_s_chars(v: &Vec<char>) -> (r: Vec<char>)
    ensures
        r@ == trim_trailing_s(v@),
{
    let mut j: usize = v.len();
    while j > 0 && v[j - 1] == 's'
        invariant
            j <= v.len(),
            forall|k: int| j <= k < v.len() ==> #[trigger] v@[k] == 's',
        decreases j,
    {
        j = j - 1;
    }
    proof {
        lemma_trim_trailing_s_take(v@, j as int);
        let t = v@.take(j as int);
        if j > 0 {
            assert(t.last() == v@[j - 1]);
        }
        assert(trim_trailing_s(t) == t);
    }
    prefix_chars(v, j)
}

/// Whether two character vectors are equal.
pub fn chars_equal(a: &Vec<char>, b: &Vec<char>) -> (r: bool)
    ensures
        r == (a@ == b@),
{
    if a.len() != b.len() {
        return false;
    }
    let mut i: usize = 0;
    while i < a.len()
        invariant
            a.len() == b.len(),
            i <= a.len(),
            forall|k: int| 0 <= k < i ==> a@[k] == b@[k],
        decreases a.len() - i,
    {
        if a[i] != b[i] {
            return false;
        }
        i = i + 1;
    }
    proof {
        assert(a@ =~= b@);
    }
    true
}

/// The ASCII digit character of `d` (0 to 9).
pub open spec fn digit_char(d: nat) -> char {
    ((d + 48) as u8) as char
}

/// Decimal notation of `n`, as `Display` writes a `u32`.
pub open spec fn spec_decimal(n: nat) -> Seq<char>
    decreases n,
{
    if n < 10 {
        seq![digit_char(n)]
    } else {
        spec_decimal(n / 10).push(digit_char(n % 10))
    }
}

/// Decimal notation of `n`.
pub fn decimal_chars(n: u32) -> (r: Vec<char>)
    ensures
        r@ == spec_decimal(n as nat),
    decreases n,
{
    let d: u8 = (n % 10) as u8;
    let c: char = (48u8 + d) as char;
    if n < 10 {
        let mut v: Vec<char> = Vec::new();
        v.push(c);
        proof {
            assert(v@ =~= seq![digit_char(n as nat)]);
        }
        v
    } else {
        let mut v = decimal_chars(n / 10);
        v.push(c);
        v
    }
}

} // verus!

use vstd::prelude::*;

verus! {

/// `pat` occurs in `s` starting at position `i`.
pub open spec fn occurs_at(s: Seq<char>, pat: Seq<char>, i: int) -> bool {
    0 <= i && i + pat.len() <= s.len() && s.subrange(i, i + pat.len()) == pat
}

/// `pat` occurs somewhere in `s`.
pub open spec fn has_substring(s: Seq<char>, pat: Seq<char>) -> bool {
    exists|i: int| occurs_at(s, pat, i)
}

/// The characters of a string, one by one.
pub fn chars_of(s: &str) -> (r: Vec<char>)
    ensures
        r@ == s@,
{
    let n = s.unicode_len();
    let mut r: Vec<char> = Vec::new();
    let mut k: usize = 0;
    while k < n
        invariant
            n == s@.len(),
            k <= n,
            r@ == s@.take(k as int),
        decreases n - k,
    {
        r.push(s.get_char(k));
        k += 1;
        assert(r@ =~= s@.take(k as int));
    }
    assert(s@.take(n as int) =~= s@);
    r
}

/// Whether `pat` occurs in `s` at position `i`.
pub fn occurs_at_exec(s: &Vec<char>, pat: &Vec<char>, i: usize) -> (r: bool)
    ensures
        r == occurs_at(s@, pat@, i as int),
{
    let n = s.len();
    if i > n || pat.len() > n - i {
        return false;
    }
    let mut j: usize = 0;
    while j < pat.len()
        invariant
            n == s@.len(),
            i + pat@.len() <= s@.len(),
            j <= pat@.len(),
            forall|m: int| 0 <= m < j ==> s@[i + m] == pat@[m],
        decreases pat@.len() - j,
    {
        if s[i + j] != pat[j] {
            assert(s@.subrange(i as int, i + pat@.len())[j as int] != pat@[j as int]);
            return false;
        }
        j += 1;
    }
    assert(s@.subrange(i as int, i + pat@.len()) =~= pat@);
    true
}

/// Whether `pat` occurs anywhere in `s`.
pub fn contains_chars(s: &Vec<char>, pat: &Vec<char>) -> (r: bool)
    ensures
        r == has_substring(s@, pat@),
{
    if pat.len() > s.len() {
        return false;
    }
    if pat.len() == 0 {
        assert(s@.subrange(0, 0) =~= pat@);
        assert(occurs_at(s@, pat@, 0));
        return true;
    }
    let positions = s.len() - pat.len() + 1;
    let mut i: usize = 0;
    while i < positions
        invariant
            positions + pat@.len() == s@.len() + 1,
            i <= positions,
            forall|m: int| 0 <= m < i ==> !occurs_at(s@, pat@, m),
        decreases positions - i,
    {
        if occurs_at_exec(s, pat, i) {
            return true;
        }
        i += 1;
    }
    assert forall|m: int| !occurs_at(s@, pat@, m) by {
        if 0 <= m && m + pat@.len() <= s@.len() {
            assert(m < i);
        }
    }
    false
}

/// Whether `pat` occurs anywhere in `s`.
pub fn contains_str(s: &str, pat: &str) -> (r: bool)
    ensures
        r == has_substring(s@, pat@),
{
    let sc = chars_of(s);
    let pc = chars_of(pat);
    contains_chars(&sc, &pc)
}

/// White space as Unicode defines it (what `char::is_whitespace` tests).
pub open spec fn is_space(c: char) -> bool {
    c == '\t' || c == '\n' || c == '\u{0B}' || c == '\u{0C}' || c == '\r' || c == ' '
        || c == '\u{85}' || c == '\u{A0}' || c == '\u{1680}' || ('\u{2000}' <= c && c
        <= '\u{200A}') || c == '\u{2028}' || c == '\u{2029}' || c == '\u{202F}' || c
        == '\u{205F}' || c == '\u{3000}'
}

pub fn is_space_exec(c: char) -> (r: bool)
    ensures
        r == is_space(c),
{
    c == '\t' || c == '\n' || c == '\u{0B}' || c == '\u{0C}' || c == '\r' || c == ' '
        || c == '\u{85}' || c == '\u{A0}' || c == '\u{1680}' || ('\u{2000}' <= c && c
        <= '\u{200A}') || c == '\u{2028}' || c == '\u{2029}' || c == '\u{202F}' || c
        == '\u{205F}' || c == '\u{3000}'
}

/// The text without its trailing white space.
pub open spec fn trim_end(l: Seq<char>) -> Seq<char>
    decreases l.len(),
{
    if l.len() > 0 && is_space(l.last()) {
        trim_end(l.drop_last())
    } else {
        l
    }
}

/// The text without its leading white space.
pub open spec fn trim_start(l: Seq<char>) -> Seq<char>
    decreases l.len(),
{
    if l.len() > 0 && is_space(l[0]) {
        trim_start(l.drop_first())
    } else {
        l
    }
}

/// The text without white space at either end.
pub open spec fn trim(l: Seq<char>) -> Seq<char> {
    trim_start(trim_end(l))
}

/// The text cut at each line feed; a text without one is a single line.
pub open spec fn split_lines(s: Seq<char>) -> Seq<Seq<char>>
    decreases s.len(),
{
    if s.len() == 0 {
        seq![Seq::<char>::empty()]
    } else if s.last() == '\n' {
        split_lines(s.drop_last()).push(Seq::<char>::empty())
    } else {
        let lines = split_lines(s.drop_last());
        lines.update(lines.len() - 1, lines.last().push(s.last()))
    }
}

pub open spec fn trim_each() -> spec_fn(Seq<char>) -> Seq<char> {
    |l: Seq<char>| trim(l)
}

pub open spec fn nonblank() -> spec_fn(Seq<char>) -> bool {
    |l: Seq<char>| l.len() > 0
}

/// The lines of a text, each without surrounding white space, blank ones left out.
pub open spec fn trimmed_lines(s: Seq<char>) -> Seq<Seq<char>> {
    split_lines(s).map_values(trim_each()).filter(nonblank())
}

pub open spec fn views_of(v: Seq<String>) -> Seq<Seq<char>> {
    v.map_values(|x: String| x@)
}

/// Bounds of the text `s[start..end]` without white space at either end.
fn trim_bounds(s: &Vec<char>, start: usize, end: usize) -> (r: (usize, usize))
    requires
        start <= end <= s@.len(),
    ensures
        start <= r.0 <= r.1 <= end,
        s@.subrange(r.0 as int, r.1 as int) == trim(s@.subrange(start as int, end as int)),
{
    let mut b = end;
    while b > start && is_space_exec(s[b - 1])
        invariant
            start <= b <= end <= s@.len(),
            trim_end(s@.subrange(start as int, end as int)) == trim_end(
                s@.subrange(start as int, b as int),
            ),
        decreases b,
    {
        assert(s@.subrange(start as int, b as int).drop_last() =~= s@.subrange(
            start as int,
            b - 1,
        ));
        b -= 1;
    }
    assert(trim_end(s@.subrange(start as int, b as int)) == s@.subrange(start as int, b as int));
    let mut a = start;
    while a < b && is_space_exec(s[a])
        invariant
            start <= a <= b <= end <= s@.len(),
            trim(s@.subrange(start as int, end as int)) == trim_start(
                s@.subrange(a as int, b as int),
            ),
        decreases b - a,
    {
        assert(s@.subrange(a as int, b as int).drop_first() =~= s@.subrange(a + 1, b as int));
        a += 1;
    }
    (a, b)
}

/// The string made of `s[from..to]`.
fn string_of(s: &str, from: usize, to: usize) -> (r: String)
    requires
        from <= to <= s@.len(),
    ensures
        r@ == s@.subrange(from as int, to as int),
{
    String::from_str(s.substring_char(from, to))
}

/// The lines of a text, each without surrounding white space, blank ones left out.
pub fn nonblank_lines(s: &str) -> (r: Vec<String>)
    ensures
        views_of(r@) == trimmed_lines(s@),
{
    let cs = chars_of(s);
    let n = cs.len();
    let mut out: Vec<String> = Vec::new();
    let mut start: usize = 0;
    let mut k: usize = 0;
    let ghost mut done: Seq<Seq<char>> = Seq::empty();
    let ghost trim_f = trim_each();
    let ghost keep_f = nonblank();
    assert(s@.take(0) =~= Seq::<char>::empty());
    assert(done.push(s@.subrange(0, 0)) =~= seq![Seq::<char>::empty()]);
    assert(done.map_values(trim_f) =~= Seq::<Seq<char>>::empty());
    proof {
        reveal(Seq::filter);
    }
    while k < n
        invariant
            cs@ == s@,
            n == s@.len(),
            start <= k <= n,
            split_lines(s@.take(k as int)) == done.push(s@.subrange(start as int, k as int)),
            views_of(out@) == done.map_values(trim_f).filter(keep_f),
            trim_f == trim_each(),
            keep_f == nonblank(),
        decreases n - k,
    {
        let c = cs[k];
        assert(s@.take(k + 1).drop_last() =~= s@.take(k as int));
        assert(s@.take(k + 1).last() == c);
        if c == '\n' {
            let (a, b) = trim_bounds(&cs, start, k);
            proof {
                let line = s@.subrange(start as int, k as int);
                assert(done.push(line).map_values(trim_f) =~= done.map_values(trim_f).push(
                    trim(line),
                ));
                reveal(Seq::filter);
                assert(done.push(line).map_values(trim_f).drop_last() =~= done.map_values(
                    trim_f,
                ));
                done = done.push(line);
            }
            if a < b {
                let piece = string_of(s, a, b);
                out.push(piece);
                assert(views_of(out@) =~= views_of(out@.drop_last()).push(piece@));
            }
            start = k + 1;
            assert(s@.subrange(start as int, k + 1) =~= Seq::<char>::empty());
        } else {
            proof {
                let lines = split_lines(s@.take(k as int));
                assert(s@.subrange(start as int, k + 1) =~= s@.subrange(
                    start as int,
                    k as int,
                ).push(c));
                assert(lines.update(lines.len() - 1, lines.last().push(c)) =~= done.push(
                    s@.subrange(start as int, k + 1),
                ));
            }
        }
        k += 1;
    }
    assert(s@.take(n as int) =~= s@);
    let (a, b) = trim_bounds(&cs, start, n);
    proof {
        let line = s@.subrange(start as int, n as int);
        assert(done.push(line).map_values(trim_f) =~= done.map_values(trim_f).push(trim(line)));
        reveal(Seq::filter);
        assert(done.push(line).map_values(trim_f).drop_last() =~= done.map_values(trim_f));
    }
    if a < b {
        let piece = string_of(s, a, b);
        out.push(piece);
        assert(views_of(out@) =~= views_of(out@.drop_last()).push(piece@));
    }
    out
}

pub open spec fn is_digit(c: char) -> bool {
    '0' <= c <= '9'
}

pub open spec fn digit_value(c: char) -> int {
    (c as u32) - ('0' as u32)
}

pub open spec fn all_digits(s: Seq<char>) -> bool {
    forall|i: int| 0 <= i < s.len() ==> is_digit(#[trigger] s[i])
}

/// The number a string of decimal digits writes.
pub open spec fn decimal_value(s: Seq<char>) -> int
    decreases s.len(),
{
    if s.len() == 0 {
        0
    } else {
        decimal_value(s.drop_last()) * 10 + digit_value(s.last())
    }
}

/// The digits of a number, after an optional leading plus sign.
pub open spec fn unsigned_digits(s: Seq<char>) -> Seq<char> {
    if s.len() > 0 && s[0] == '+' {
        s.drop_first()
    } else {
        s
    }
}

/// What reading a `u64` from text gives: an optional '+' and at least one
/// decimal digit, with a value that fits; `None` for anything else.
pub open spec fn parsed_u64(s: Seq<char>) -> Option<u64> {
    let d = unsigned_digits(s);
    if d.len() > 0 && all_digits(d) && decimal_value(d) <= u64::MAX {
        Some(decimal_value(d) as u64)
    } else {
        None
    }
}

pub proof fn lemma_decimal_value_nonneg(s: Seq<char>)
    requires
        all_digits(s),
    ensures
        decimal_value(s) >= 0,
    decreases s.len(),
{
    if s.len() > 0 {
        lemma_decimal_value_nonneg(s.drop_last());
    }
}

/// More digits never write a smaller number.
pub proof fn lemma_decimal_value_prefix(s: Seq<char>, j: int)
    requires
        all_digits(s),
        0 <= j <= s.len(),
    ensures
        decimal_value(s.take(j)) <= decimal_value(s),
    decreases s.len(),
{
    if j < s.len() {
        assert(s.drop_last().take(j) =~= s.take(j));
        lemma_decimal_value_prefix(s.drop_last(), j);
        lemma_decimal_value_nonneg(s.drop_last());
    } else {
        assert(s.take(j) =~= s);
    }
}

/// Reads a `u64` written in decimal, with an optional leading '+'.
pub fn parse_u64(s: &str) -> (r: Option<u64>)
    ensures
        r == parsed_u64(s@),
{
    let cs = chars_of(s);
    let n = cs.len();
    let mut i: usize = 0;
    if n > 0 && cs[0] == '+' {
        i = 1;
    }
    let ghost d = unsigned_digits(s@);
    assert(d =~= s@.subrange(i as int, n as int));
    if i == n {
        return None;
    }
    let mut v: u64 = 0;
    let mut k: usize = i;
    while k < n
        invariant
            cs@ == s@,
            n == s@.len(),
            i <= k <= n,
            d == s@.subrange(i as int, n as int),
            d == unsigned_digits(s@),
            all_digits(d.take(k - i)),
            v == decimal_value(d.take(k - i)),
        decreases n - k,
    {
        let c = cs[k];
        assert(d.take(k - i + 1).drop_last() =~= d.take(k - i));
        assert(d.take(k - i + 1).last() == c);
        if !('0' <= c && c <= '9') {
            assert(!all_digits(d)) by {
                assert(d[k - i] == c);
                assert(!is_digit(d[k - i]));
            }
            return None;
        }
        let digit = ((c as u32) - ('0' as u32)) as u64;
        assert(digit == digit_value(c));
        assert(all_digits(d.take(k - i + 1)));
        match v.checked_mul(10) {
            Some(m) => match m.checked_add(digit) {
                Some(next) => {
                    v = next;
                },
                None => {
                    proof {
                        if all_digits(d) {
                            lemma_decimal_value_prefix(d, k - i + 1);
                        }
                    }
                    return None;
                },
            },
            None => {
                proof {
                    if all_digits(d) {
                        lemma_decimal_value_prefix(d, k - i + 1);
                    }
                }
                return None;
            },
        }
        k += 1;
    }
    assert(d.take(n - i) =~= d);
    Some(v)
}

/// The last component of a path: the text after its last '/'.
pub open spec fn file_name_of(path: Seq<char>) -> Seq<char>
    decreases path.len(),
{
    if path.len() == 0 || path.last() == '/' {
        Seq::empty()
    } else {
        file_name_of(path.drop_last()).push(path.last())
    }
}

/// The last component of a path: the text after its last '/'.
pub fn file_name(path: &str) -> (r: String)
    ensures
        r@ == file_name_of(path@),
{
    let cs = chars_of(path);
    let n = cs.len();
    let mut b: usize = n;
    assert(path@.take(n as int) =~= path@);
    assert(path@.subrange(n as int, n as int) =~= Seq::<char>::empty());
    while b > 0 && cs[b - 1] != '/'
        invariant
            cs@ == path@,
            n == path@.len(),
            b <= n,
            file_name_of(path@) == file_name_of(path@.take(b as int)) + path@.subrange(
                b as int,
                n as int,
            ),
        decreases b,
    {
        assert(path@.take(b as int).drop_last() =~= path@.take(b - 1));
        assert(path@.take(b as int).last() == cs@[b - 1]);
        assert(file_name_of(path@.take(b - 1)).push(cs@[b - 1]) + path@.subrange(b as int, n as int)
            =~= file_name_of(path@.take(b - 1)) + path@.subrange(b - 1, n as int));
        b -= 1;
    }
    assert(file_name_of(path@.take(b as int)) =~= Seq::<char>::empty());
    assert(Seq::<char>::empty() + path@.subrange(b as int, n as int) =~= path@.subrange(
        b as int,
        n as int,
    ));
    string_of(path, b, n)
}

/// The file name has `ext` as its extension: it ends with '.' and `ext`, and
/// something stands before that dot.
pub open spec fn has_extension(name: Seq<char>, ext: Seq<char>) -> bool {
    name.len() >= ext.len() + 2 && name[name.len() - ext.len() - 1] == '.' && name.subrange(
        name.len() - ext.len(),
        name.len() as int,
    ) == ext
}

pub fn has_extension_exec(name: &str, ext: &str) -> (r: bool)
    ensures
        r == has_extension(name@, ext@),
{
    let nc = chars_of(name);
    let ec = chars_of(ext);
    let n = nc.len();
    let e = ec.len();
    if n < 2 || e > n - 2 {
        return false;
    }
    if nc[n - e - 1] != '.' {
        return false;
    }
    let mut j: usize = 0;
    while j < e
        invariant
            nc@ == name@,
            ec@ == ext@,
            n == name@.len(),
            e == ext@.len(),
            e + 2 <= n,
            j <= e,
            forall|m: int| 0 <= m < j ==> nc@[n - e + m] == ec@[m],
        decreases e - j,
    {
        if nc[n - e + j] != ec[j] {
            assert(name@.subrange(n - e, n as int)[j as int] != ext@[j as int]);
            return false;
        }
        j += 1;
    }
    assert(name@.subrange(n - e, n as int) =~= ext@);
    true
}

/// The first `count` characters of a string, or all of it where it is shorter.
pub fn first_chars(s: &str, count: usize) -> (r: String)
    ensures
        r@ == s@.take(if count < s@.len() { count as int } else { s@.len() as int }),
{
    let n = s.unicode_len();
    let end = if count < n { count } else { n };
    let r = string_of(s, 0, end);
    assert(s@.subrange(0, end as int) =~= s@.take(end as int));
    r
}

/// `prefix` followed by `rest`.
pub fn joined(prefix: &str, rest: &str) -> (r: String)
    ensures
        r@ == prefix@ + rest@,
{
    let mut r = String::from_str(prefix);
    r.append(rest);
    r
}

/// Whether two strings hold the same characters.
pub fn str_eq(a: &str, b: &str) -> (r: bool)
    ensures
        r == (a@ == b@),
{
    let n = a.unicode_len();
    if n != b.unicode_len() {
        return false;
    }
    let mut k: usize = 0;
    while k < n
        invariant
            n == a@.len() == b@.len(),
            k <= n,
            forall|j: int| 0 <= j < k ==> a@[j] == b@[j],
        decreases n - k,
    {
        if a.get_char(k) != b.get_char(k) {
            return false;
        }
        k += 1;
    }
    assert(a@ =~= b@);
    true
}

/// The string without white space at either end.
pub fn trimmed(s: &str) -> (r: String)
    ensures
        r@ == trim(s@),
{
    let cs = chars_of(s);
    let (a, b) = trim_bounds(&cs, 0, cs.len());
    assert(s@.subrange(0, s@.len() as int) =~= s@);
    string_of(s, a, b)
}

} // verus!

//! Text operations on strings, stated over their character sequences.

use vstd::prelude::*;

verus! {

/// The character of a decimal digit `d` (`0 <= d < 10`).
pub open spec fn digit_char(d: nat) -> char {
    if d == 0 { '0' }
    else if d == 1 { '1' }
    else if d == 2 { '2' }
    else if d == 3 { '3' }
    else if d == 4 { '4' }
    else if d == 5 { '5' }
    else if d == 6 { '6' }
    else if d == 7 { '7' }
    else if d == 8 { '8' }
    else { '9' }
}

/// The decimal digits of `n`, most significant first, with no leading zero.
pub open spec fn digits(n: nat) -> Seq<char>
    decreases n,
{
    if n < 10 {
        seq![digit_char(n)]
    } else {
        digits(n / 10).push(digit_char(n % 10))
    }
}

/// How `Display` writes the integer `i`: a minus sign for negative values, then the digits.
pub open spec fn decimal(i: int) -> Seq<char> {
    if i < 0 {
        seq!['-'] + digits((-i) as nat)
    } else {
        digits(i as nat)
    }
}

fn digit_str(d: u64) -> (s: &'static str)
    requires
        d < 10,
    ensures
        s@ == seq![digit_char(d as nat)],
{
    proof {
        reveal_strlit("0");
        reveal_strlit("1");
        reveal_strlit("2");
        reveal_strlit("3");
        reveal_strlit("4");
        reveal_strlit("5");
        reveal_strlit("6");
        reveal_strlit("7");
        reveal_strlit("8");
        reveal_strlit("9");
    }
    if d == 0 { "0" }
    else if d == 1 { "1" }
    else if d == 2 { "2" }
    else if d == 3 { "3" }
    else if d == 4 { "4" }
    else if d == 5 { "5" }
    else if d == 6 { "6" }
    else if d == 7 { "7" }
    else if d == 8 { "8" }
    else { "9" }
}

fn push_digits(n: u64, out: &mut String)
    ensures
        final(out)@ == old(out)@ + digits(n as nat),
    decreases n,
{
    if n >= 10 {
        push_digits(n / 10, out);
    }
    out.append(digit_str(n % 10));
}

/// Writes `i` in decimal, as `i.to_string()` does.
pub fn format_decimal(i: i64) -> (s: String)
    ensures
        s@ == decimal(i as int),
{
    let mut s = String::new();
    if i < 0 {
        proof { reveal_strlit("-"); }
        s.append("-");
        let magnitude: u64 = (0i128 - (i as i128)) as u64;
        push_digits(magnitude, &mut s);
    } else {
        push_digits(i as u64, &mut s);
    }
    s
}

} // verus!

verus! {

/// The characters of `s`, in order.
pub fn chars_of(s: &str) -> (v: Vec<char>)
    ensures
        v@ == s@,
{
    let mut v: Vec<char> = Vec::new();
    for c in it: s.chars()
        invariant
            v@ == it.seq().take(it.index() as int),
    {
        v.push(c);
    }
    v
}

} // verus!

verus! {

/// What `s.replace(from, to)` gives: the occurrences of `from` in `s`, found from
/// left to right without overlap, each replaced by `to`. An empty `from` matches
/// before every character and at the end.
pub open spec fn replace_all(s: Seq<char>, from: Seq<char>, to: Seq<char>) -> Seq<char>
    decreases s.len(),
{
    if s.len() == 0 {
        if from.len() == 0 { to } else { Seq::empty() }
    } else if from.len() == 0 {
        to + seq![s[0]] + replace_all(s.drop_first(), from, to)
    } else if from.len() <= s.len() && s.take(from.len() as int) == from {
        to + replace_all(s.skip(from.len() as int), from, to)
    } else {
        seq![s[0]] + replace_all(s.drop_first(), from, to)
    }
}

fn matches_at(s: &Vec<char>, i: usize, pat: &Vec<char>) -> (b: bool)
    requires
        i <= s.len(),
    ensures
        b == (pat.len() <= s.len() - i && s@.skip(i as int).take(pat.len() as int) == pat@),
{
    if pat.len() > s.len() - i {
        return false;
    }
    let mut k: usize = 0;
    while k < pat.len()
        invariant
            i <= s.len(),
            pat.len() <= s.len() - i,
            k <= pat.len(),
            forall|j: int| 0 <= j < k ==> s@[i + j] == pat@[j],
        decreases pat.len() - k,
    {
        if s[i + k] != pat[k] {
            assert(s@.skip(i as int).take(pat.len() as int)[k as int] != pat@[k as int]);
            return false;
        }
        k += 1;
    }
    assert(s@.skip(i as int).take(pat.len() as int) =~= pat@);
    true
}

/// Replaces every occurrence of `from` in `s` by `to`, as `s.replace(from, to)` does.
pub fn replace_all_str(s: &str, from: &str, to: &str) -> (r: String)
    ensures
        r@ == replace_all(s@, from@, to@),
{
    let sv = chars_of(s);
    let fv = chars_of(from);
    let n = sv.len();
    let m = fv.len();
    let mut out = String::new();
    assert(s@.skip(0) =~= s@);
    assert(out@ + s@ =~= s@);
    if m == 0 {
        let mut i: usize = 0;
        while i < n
            invariant
                n == s@.len(),
                from@.len() == 0,
                i <= n,
                replace_all(s@, from@, to@) == out@ + replace_all(s@.skip(i as int), from@, to@),
            decreases n - i,
        {
            assert(s@.skip(i as int).drop_first() =~= s@.skip(i + 1));
            out.append(to);
            out.append(s.substring_char(i, i + 1));
            assert(s@.subrange(i as int, i + 1) =~= seq![s@.skip(i as int)[0]]);
            i += 1;
        }
        out.append(to);
        assert(s@.skip(n as int) =~= Seq::<char>::empty());
        return out;
    }
    let mut i: usize = 0;
    let mut last: usize = 0;
    assert(out@ + s@.subrange(0, 0) + s@ =~= s@);
    while i < n
        invariant
            n == s@.len(),
            sv@ == s@,
            fv@ == from@,
            m == from@.len(),
            m > 0,
            last <= i <= n,
            replace_all(s@, from@, to@) == out@ + s@.subrange(last as int, i as int)
                + replace_all(s@.skip(i as int), from@, to@),
        decreases n - i,
    {
        let ghost rest = s@.skip(i as int);
        if matches_at(&sv, i, &fv) {
            assert(rest.skip(m as int) =~= s@.skip(i + m));
            out.append(s.substring_char(last, i));
            out.append(to);
            i = i + m;
            last = i;
            assert(s@.subrange(last as int, i as int) =~= Seq::<char>::empty());
        } else {
            assert(rest.drop_first() =~= s@.skip(i + 1));
            assert(s@.subrange(last as int, i + 1) =~= s@.subrange(last as int, i as int) + seq![rest[0]]);
            i = i + 1;
        }
    }
    out.append(s.substring_char(last, n));
    assert(s@.skip(n as int) =~= Seq::<char>::empty());
    out
}

} // verus!

verus! {

/// The character sequences of a sequence of strings.
pub open spec fn views(v: Seq<String>) -> Seq<Seq<char>> {
    v.map_values(|s: String| s@)
}

/// `entries` with `sep` between each two neighbours, as `[..].join(sep)` gives.
pub open spec fn join_with(entries: Seq<Seq<char>>, sep: Seq<char>) -> Seq<char>
    decreases entries.len(),
{
    if entries.len() == 0 {
        Seq::empty()
    } else if entries.len() == 1 {
        entries[0]
    } else {
        join_with(entries.drop_last(), sep) + sep + entries.last()
    }
}

/// Joins `entries` with `sep` between each two neighbours, as `entries.join(sep)` does.
pub fn join_strings(entries: &[String], sep: &str) -> (r: String)
    ensures
        r@ == join_with(views(entries@), sep@),
{
    let mut r = String::new();
    let n = entries.len();
    let mut i: usize = 0;
    while i < n
        invariant
            n == entries@.len(),
            i <= n,
            r@ == join_with(views(entries@.take(i as int)), sep@),
        decreases n - i,
    {
        if i > 0 {
            r.append(sep);
        }
        r.append(entries[i].as_str());
        proof {
            let before = views(entries@.take(i as int));
            let after = views(entries@.take(i + 1));
            assert(after.drop_last() =~= before);
            assert(after.last() == entries@[i as int]@);
            if i == 0 {
                assert(after.len() == 1);
            }
        }
        i += 1;
    }
    assert(entries@.take(n as int) =~= entries@);
    r
}

/// Pads `s` on the left with `'0'` up to `width` characters, as the format `{:0>width}` does.
pub open spec fn pad_zeros(s: Seq<char>, width: nat) -> Seq<char> {
    if s.len() < width {
        Seq::new((width - s.len()) as nat, |_i: int| '0') + s
    } else {
        s
    }
}

/// Pads `s` on the left with `'0'` up to `width` characters.
pub fn pad_zeros_str(s: &str, width: usize) -> (r: String)
    ensures
        r@ == pad_zeros(s@, width as nat),
{
    let len = s.unicode_len();
    let mut r = String::new();
    if len < width {
        let mut k: usize = 0;
        while k < width - len
            invariant
                len == s@.len(),
                len < width,
                k <= width - len,
                r@ == Seq::new(k as nat, |_i: int| '0'),
            decreases width - len - k,
        {
            proof { reveal_strlit("0"); }
            r.append("0");
            k += 1;
            assert(r@ =~= Seq::new(k as nat, |_i: int| '0'));
        }
    }
    r.append(s);
    assert(len >= width ==> r@ =~= s@);
    r
}

} // verus!

verus! {

proof fn lemma_digit_char_injective(a: nat, b: nat)
    requires
        a < 10,
        b < 10,
        digit_char(a) == digit_char(b),
    ensures
        a == b,
{
}

proof fn lemma_digits_shape(n: nat)
    ensures
        digits(n).len() >= 1,
        n < 10 <==> digits(n).len() == 1,
        digits(n)[0] == '0' ==> n == 0,
        digits(n)[0] != '-',
    decreases n,
{
    if n >= 10 {
        lemma_digits_shape(n / 10);
        assert(digits(n)[0] == digits(n / 10)[0]);
    }
}

proof fn lemma_digits_injective(a: nat, b: nat)
    requires
        digits(a) == digits(b),
    ensures
        a == b,
    decreases a,
{
    lemma_digits_shape(a);
    lemma_digits_shape(b);
    if a < 10 && b < 10 {
        assert(digits(a)[0] == digits(b)[0]);
        lemma_digit_char_injective(a, b);
    } else if a >= 10 && b >= 10 {
        assert(digits(a).last() == digits(b).last());
        assert(digits(a).last() == digit_char(a % 10));
        assert(digits(b).last() == digit_char(b % 10));
        lemma_digit_char_injective(a % 10, b % 10);
        assert(digits(a).drop_last() =~= digits(a / 10));
        assert(digits(b).drop_last() =~= digits(b / 10));
        lemma_digits_injective(a / 10, b / 10);
    }
}

/// Two integers with the same decimal form are equal, so the decimal form (of an
/// event transaction, say) tells every integer apart.
pub proof fn law_decimal_injective(a: int, b: int)
    requires
        decimal(a) == decimal(b),
    ensures
        a == b,
{
    lemma_digits_shape((-a) as nat);
    lemma_digits_shape((-b) as nat);
    lemma_digits_shape(a as nat);
    lemma_digits_shape(b as nat);
    if a < 0 && b < 0 {
        assert(decimal(a).drop_first() =~= digits((-a) as nat));
        assert(decimal(b).drop_first() =~= digits((-b) as nat));
        lemma_digits_injective((-a) as nat, (-b) as nat);
    } else if a >= 0 && b >= 0 {
        lemma_digits_injective(a as nat, b as nat);
    } else if a < 0 {
        assert(decimal(a)[0] == '-');
        assert(decimal(b)[0] == digits(b as nat)[0]);
    } else {
        assert(decimal(b)[0] == '-');
        assert(decimal(a)[0] == digits(a as nat)[0]);
    }
}

/// Two integers with the same decimal form, padded with zeros to two
/// characters, are equal: the padded form tells every integer apart.
pub proof fn law_padded_decimal_injective(a: int, b: int)
    requires
        pad_zeros(decimal(a), 2) == pad_zeros(decimal(b), 2),
    ensures
        a == b,
{
    lemma_digits_shape((-a) as nat);
    lemma_digits_shape((-b) as nat);
    lemma_digits_shape(a as nat);
    lemma_digits_shape(b as nat);
    let da = decimal(a);
    let db = decimal(b);
    assert(da.len() >= 1);
    assert(db.len() >= 1);
    if da.len() < 2 && db.len() < 2 {
        assert(da =~= pad_zeros(da, 2).drop_first());
        assert(db =~= pad_zeros(db, 2).drop_first());
    } else if da.len() < 2 {
        // `a` is a single digit, so its padded form starts with a zero that
        // the decimal form of `b` (two or more characters) cannot start with.
        assert(a >= 0 && a < 10);
        assert(pad_zeros(da, 2)[0] == '0');
        if b < 0 {
            assert(db[0] == '-');
        } else {
            assert(db[0] == digits(b as nat)[0]);
        }
    } else if db.len() < 2 {
        assert(b >= 0 && b < 10);
        assert(pad_zeros(db, 2)[0] == '0');
        if a < 0 {
            assert(da[0] == '-');
        } else {
            assert(da[0] == digits(a as nat)[0]);
        }
    }
    law_decimal_injective(a, b);
}

} // verus!

verus! {

/// Whether `pat` occurs in `s` at some position.
pub open spec fn occurs_in(pat: Seq<char>, s: Seq<char>) -> bool {
    exists|i: int| 0 <= i && i + pat.len() <= s.len() && #[trigger] s.subrange(i, i + pat.len()) == pat
}

/// Replacing a non-empty string that does not occur leaves the text as it was.
pub proof fn law_replace_absent(s: Seq<char>, from: Seq<char>, to: Seq<char>)
    requires
        from.len() > 0,
        !occurs_in(from, s),
    ensures
        replace_all(s, from, to) == s,
    decreases s.len(),
{
    if s.len() > 0 {
        let m = from.len() as int;
        if m <= s.len() && s.take(m) == from {
            assert(s.subrange(0, 0 + m) == from);
        }
        let t = s.drop_first();
        assert(!occurs_in(from, t)) by {
            if occurs_in(from, t) {
                let i = choose|i: int| 0 <= i && i + from.len() <= t.len()
                    && #[trigger] t.subrange(i, i + from.len()) == from;
                assert(s.subrange(i + 1, i + 1 + m) =~= t.subrange(i, i + m));
            }
        }
        law_replace_absent(t, from, to);
        assert(seq![s[0]] + t =~= s);
    }
}

} // verus!

verus! {

/// The character sequences of a list of character vectors.
pub open spec fn char_views(v: Seq<Vec<char>>) -> Seq<Seq<char>> {
    v.map_values(|p: Vec<char>| p@)
}

/// `s` cut at each character that is `a` or `b`, as
/// `s.split(&[a, b][..])` gives: always at least one piece.
pub open spec fn split_at_either(s: Seq<char>, a: char, b: char) -> Seq<Seq<char>>
    decreases s.len(),
{
    if s.len() == 0 {
        seq![Seq::empty()]
    } else {
        let r = split_at_either(s.drop_last(), a, b);
        if s.last() == a || s.last() == b {
            r.push(Seq::empty())
        } else {
            r.update(r.len() - 1, r.last().push(s.last()))
        }
    }
}

/// Cuts `s` at each character that is `a` or `b`.
pub fn split_chars_at_either(s: &Vec<char>, a: char, b: char) -> (r: Vec<Vec<char>>)
    ensures
        char_views(r@) == split_at_either(s@, a, b),
{
    let mut pieces: Vec<Vec<char>> = Vec::new();
    let mut cur: Vec<char> = Vec::new();
    let mut i: usize = 0;
    assert(s@.take(0) =~= Seq::<char>::empty());
    while i < s.len()
        invariant
            i <= s.len(),
            split_at_either(s@.take(i as int), a, b) == char_views(pieces@).push(cur@),
        decreases s.len() - i,
    {
        let c = s[i];
        let ghost prefix = s@.take(i + 1);
        assert(prefix.drop_last() =~= s@.take(i as int));
        assert(prefix.last() == c);
        if c == a || c == b {
            let ghost before = pieces@;
            let done = cur;
            pieces.push(done);
            cur = Vec::new();
            assert(char_views(pieces@) =~= char_views(before).push(done@));
            assert(cur@ =~= Seq::<char>::empty());
        } else {
            let ghost old_cur = cur@;
            cur.push(c);
            let ghost r = char_views(pieces@).push(old_cur);
            assert(r.update(r.len() - 1, old_cur.push(c)) =~= char_views(pieces@).push(cur@));
        }
        i += 1;
    }
    assert(s@.take(s.len() as int) =~= s@);
    let ghost before = pieces@;
    pieces.push(cur);
    assert(char_views(pieces@) =~= char_views(before).push(pieces@.last()@));
    pieces
}

/// Whether `c` is white space, as `char::is_whitespace` says (the Unicode
/// `White_Space` property).
pub open spec fn is_white_space(c: char) -> bool {
    ||| '\t' <= c <= '\r'
    ||| c == ' '
    ||| c == '\u{85}'
    ||| c == '\u{a0}'
    ||| c == '\u{1680}'
    ||| '\u{2000}' <= c <= '\u{200a}'
    ||| c == '\u{2028}'
    ||| c == '\u{2029}'
    ||| c == '\u{202f}'
    ||| c == '\u{205f}'
    ||| c == '\u{3000}'
}

fn white_space(c: char) -> (b: bool)
    ensures
        b == is_white_space(c),
{
    ('\t' <= c && c <= '\r') || c == ' ' || c == '\u{85}' || c == '\u{a0}' || c == '\u{1680}'
        || ('\u{2000}' <= c && c <= '\u{200a}') || c == '\u{2028}' || c == '\u{2029}'
        || c == '\u{202f}' || c == '\u{205f}' || c == '\u{3000}'
}

/// `s` without its leading white space.
pub open spec fn trim_start(s: Seq<char>) -> Seq<char>
    decreases s.len(),
{
    if s.len() > 0 && is_white_space(s[0]) {
        trim_start(s.drop_first())
    } else {
        s
    }
}

/// `s` without its trailing white space.
pub open spec fn trim_end(s: Seq<char>) -> Seq<char>
    decreases s.len(),
{
    if s.len() > 0 && is_white_space(s.last()) {
        trim_end(s.drop_last())
    } else {
        s
    }
}

/// `s` without leading and trailing white space, as `str::trim` gives.
pub open spec fn trim(s: Seq<char>) -> Seq<char> {
    trim_end(trim_start(s))
}

/// The characters of `s` without leading and trailing white space.
pub fn trim_chars(s: &str) -> (r: Vec<char>)
    ensures
        r@ == trim(s@),
{
    let cs = chars_of(s);
    let n = cs.len();
    let mut a: usize = 0;
    assert(s@.skip(0) =~= s@);
    while a < n && white_space(cs[a])
        invariant
            cs@ == s@,
            n == cs@.len(),
            a <= n,
            trim_start(s@) == trim_start(s@.skip(a as int)),
        decreases n - a,
    {
        assert(s@.skip(a as int).drop_first() =~= s@.skip(a + 1));
        a += 1;
    }
    let mut b: usize = n;
    assert(s@.subrange(a as int, n as int) =~= s@.skip(a as int));
    while b > a && white_space(cs[b - 1])
        invariant
            cs@ == s@,
            n == cs@.len(),
            a <= b <= n,
            trim(s@) == trim_end(s@.subrange(a as int, b as int)),
        decreases b,
    {
        assert(s@.subrange(a as int, b as int).drop_last() =~= s@.subrange(a as int, b - 1));
        b -= 1;
    }
    let mut r: Vec<char> = Vec::new();
    let mut k: usize = a;
    while k < b
        invariant
            cs@ == s@,
            n == cs@.len(),
            a <= k <= b <= n,
            r@ == s@.subrange(a as int, k as int),
        decreases b - k,
    {
        r.push(cs[k]);
        assert(r@ =~= s@.subrange(a as int, k + 1));
        k += 1;
    }
    r
}

} // verus!

verus! {

/// Whether an occurrence of `from` in `a + b` starts inside `a` and ends
/// inside `b`.
pub open spec fn straddles(from: Seq<char>, a: Seq<char>, b: Seq<char>) -> bool {
    exists|i: int|
        0 <= i < a.len() && a.len() < i + from.len() <= a.len() + b.len()
            && #[trigger] (a + b).subrange(i, i + from.len()) == from
}

/// Replacing in two pieces of text, where no occurrence of a non-empty `from`
/// spans their boundary, is replacing in each piece: every occurrence is
/// replaced, whichever piece it lies in.
pub proof fn law_replace_concat(a: Seq<char>, b: Seq<char>, from: Seq<char>, to: Seq<char>)
    requires
        from.len() > 0,
        !straddles(from, a, b),
    ensures
        replace_all(a + b, from, to) == replace_all(a, from, to) + replace_all(b, from, to),
    decreases a.len(),
{
    let m = from.len() as int;
    let s = a + b;
    if a.len() == 0 {
        assert(s =~= b);
        assert(replace_all(a, from, to) =~= Seq::<char>::empty());
        assert(Seq::<char>::empty() + replace_all(b, from, to) =~= replace_all(b, from, to));
    } else if m <= s.len() && s.take(m) == from {
        if m > a.len() {
            assert(s.subrange(0, 0 + m) == from);
            assert(straddles(from, a, b));
        }
        assert(a.take(m) =~= s.take(m));
        let a2 = a.skip(m);
        assert(s.skip(m) =~= a2 + b);
        assert(!straddles(from, a2, b)) by {
            if straddles(from, a2, b) {
                let i = choose|i: int|
                    0 <= i < a2.len() && a2.len() < i + from.len() <= a2.len() + b.len()
                        && #[trigger] (a2 + b).subrange(i, i + from.len()) == from;
                assert((a + b).subrange(i + m, i + m + from.len()) =~= (a2 + b).subrange(i, i + from.len()));
            }
        }
        law_replace_concat(a2, b, from, to);
        assert(to + (replace_all(a2, from, to) + replace_all(b, from, to))
            =~= (to + replace_all(a2, from, to)) + replace_all(b, from, to));
    } else {
        if m <= a.len() && a.take(m) == from {
            assert(s.take(m) =~= a.take(m));
        }
        let a2 = a.drop_first();
        assert(s.drop_first() =~= a2 + b);
        assert(!straddles(from, a2, b)) by {
            if straddles(from, a2, b) {
                let i = choose|i: int|
                    0 <= i < a2.len() && a2.len() < i + from.len() <= a2.len() + b.len()
                        && #[trigger] (a2 + b).subrange(i, i + from.len()) == from;
                assert((a + b).subrange(i + 1, i + 1 + from.len()) =~= (a2 + b).subrange(i, i + from.len()));
            }
        }
        law_replace_concat(a2, b, from, to);
        assert(s[0] == a[0]);
        assert(seq![a[0]] + (replace_all(a2, from, to) + replace_all(b, from, to))
            =~= (seq![a[0]] + replace_all(a2, from, to)) + replace_all(b, from, to));
    }
}

/// Replacing a non-empty `from` that does not hold the character `c` works
/// piece by piece around `c`: the text on each side of `c` is replaced on its
/// own, and `c` stays.
pub proof fn law_replace_around(a: Seq<char>, c: char, b: Seq<char>, from: Seq<char>, to: Seq<char>)
    requires
        from.len() > 0,
        !from.contains(c),
    ensures
        replace_all(a + seq![c] + b, from, to) == replace_all(a, from, to) + seq![c] + replace_all(b, from, to),
{
    let cb = seq![c] + b;
    assert(a + seq![c] + b =~= a + cb);
    assert(!straddles(from, a, cb)) by {
        if straddles(from, a, cb) {
            let i = choose|i: int|
                0 <= i < a.len() && a.len() < i + from.len() <= a.len() + cb.len()
                    && #[trigger] (a + cb).subrange(i, i + from.len()) == from;
            assert(from[a.len() - i] == (a + cb)[a.len() as int]);
        }
    }
    law_replace_concat(a, cb, from, to);
    // `c + b` does not start with `from`, since `from` does not hold `c`.
    if from.len() <= cb.len() && cb.take(from.len() as int) == from {
        assert(from[0] == c);
    }
    assert(cb.drop_first() =~= b);
    assert(replace_all(a, from, to) + (seq![c] + replace_all(b, from, to))
        =~= replace_all(a, from, to) + seq![c] + replace_all(b, from, to));
}

} // verus!

verus! {

/// Whether `s` holds neither `a` nor `b`.
pub open spec fn free_of(s: Seq<char>, a: char, b: char) -> bool {
    forall|i: int| 0 <= i < s.len() ==> #[trigger] s[i] != a && s[i] != b
}

pub(crate) proof fn lemma_split_either_plain(y: Seq<char>, a: char, b: char)
    requires
        free_of(y, a, b),
    ensures
        split_at_either(y, a, b) == seq![y],
    decreases y.len(),
{
    if y.len() > 0 {
        let z = y.drop_last();
        assert(free_of(z, a, b)) by {
            assert forall|i: int| 0 <= i < z.len() implies #[trigger] z[i] != a && z[i] != b by {
                assert(z[i] == y[i]);
            }
        }
        lemma_split_either_plain(z, a, b);
        assert(y.last() == y[y.len() - 1]);
        assert(z.push(y.last()) =~= y);
        assert(seq![z].update(0, z.push(y.last())) =~= seq![y]);
    } else {
        assert(y =~= Seq::<char>::empty());
    }
}

pub(crate) proof fn lemma_split_either_after(x: Seq<char>, c: char, y: Seq<char>, a: char, b: char)
    requires
        c == a || c == b,
        free_of(y, a, b),
    ensures
        split_at_either(x + seq![c] + y, a, b) == split_at_either(x, a, b).push(y),
    decreases y.len(),
{
    let s = x + seq![c] + y;
    if y.len() == 0 {
        assert(s.drop_last() =~= x);
        assert(s.last() == c);
        assert(y =~= Seq::<char>::empty());
    } else {
        let z = y.drop_last();
        assert(free_of(z, a, b)) by {
            assert forall|i: int| 0 <= i < z.len() implies #[trigger] z[i] != a && z[i] != b by {
                assert(z[i] == y[i]);
            }
        }
        lemma_split_either_after(x, c, z, a, b);
        assert(s.drop_last() =~= x + seq![c] + z);
        assert(s.last() == y.last());
        assert(y.last() == y[y.len() - 1]);
        let r = split_at_either(x, a, b).push(z);
        assert(r.update(r.len() - 1, z.push(y.last())) =~= split_at_either(x, a, b).push(y)) by {
            assert(z.push(y.last()) =~= y);
        }
    }
}

/// The characters of `digits(n)` are all decimal digits.
pub(crate) proof fn lemma_digits_chars(n: nat)
    ensures
        forall|i: int| 0 <= i < digits(n).len() ==> '0' <= #[trigger] digits(n)[i] <= '9',
    decreases n,
{
    if n >= 10 {
        lemma_digits_chars(n / 10);
        assert forall|i: int| 0 <= i < digits(n).len() implies '0' <= #[trigger] digits(n)[i] <= '9' by {
            if i < digits(n / 10).len() {
                assert(digits(n)[i] == digits(n / 10)[i]);
            }
        }
    }
}

} // verus!

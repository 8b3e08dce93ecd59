//! Text helpers shared by the library: character views, substring search.
use vstd::prelude::*;

verus! {

/// Name for what `str::to_lowercase` returns: the Unicode lowercase mapping
/// of the text, character by character (one character may map to several).
pub uninterp spec fn lowercase(s: Seq<char>) -> Seq<char>;

/// Calls `str::to_lowercase`. Trusted: the result is the Unicode lowercase
/// mapping of `s`, a function of `s` alone.
#[verifier::external_body]
pub(crate) fn to_lowercase(s: &str) -> (r: String)
    ensures
        r@ == lowercase(s@),
{
    s.to_lowercase()
}

/// The characters of `s`, in order.
pub fn chars_of(s: &str) -> (v: Vec<char>)
    ensures
        v@ == s@,
{
    let mut v: Vec<char> = Vec::new();
    for c in it: s.chars()
        invariant
            v@ == it.seq().take(it.index() as int),
            it.seq() == s@,
    {
        v.push(c);
    }
    v
}


/// `needle` occurs in `hay` as a contiguous run of characters.
/// The empty needle occurs in every text.
pub open spec fn occurs_in(hay: Seq<char>, needle: Seq<char>) -> bool {
    exists|i: int| 0 <= i && i + needle.len() <= hay.len() && #[trigger] hay.subrange(i, i + needle.len()) == needle
}

/// `needle` occurs in `hay` starting exactly at position `i`.
pub open spec fn occurs_at(hay: Seq<char>, needle: Seq<char>, i: int) -> bool {
    0 <= i && i + needle.len() <= hay.len() && hay.subrange(i, i + needle.len()) == needle
}

/// Whether `needle` matches `hay` at position `at`.
fn matches_at(hay: &Vec<char>, needle: &Vec<char>, at: usize) -> (r: bool)
    requires
        at + needle@.len() <= hay@.len(),
    ensures
        r == occurs_at(hay@, needle@, at as int),
{
    let n = needle.len();
    let mut j: usize = 0;
    while j < n
        invariant
            n == needle@.len(),
            at + n <= hay@.len(),
            hay@.len() == hay.len(),
            j <= n,
            forall|k: int| 0 <= k < j ==> hay@[at + k] == needle@[k],
        decreases n - j,
    {
        if hay[at + j] != needle[j] {
            assert(hay@.subrange(at as int, at + n)[j as int] != needle@[j as int]);
            return false;
        }
        j = j + 1;
    }
    assert(hay@.subrange(at as int, at + n) =~= needle@);
    true
}

/// Whether `needle` occurs anywhere in `hay`.
pub fn contains_chars(hay: &Vec<char>, needle: &Vec<char>) -> (r: bool)
    ensures
        r == occurs_in(hay@, needle@),
{
    let h = hay.len();
    let n = needle.len();
    if n > h {
        assert forall|i: int| 0 <= i && i + needle@.len() <= hay@.len() implies
            #[trigger] hay@.subrange(i, i + needle@.len()) != needle@ by {}
        return false;
    }
    let last = h - n;
    let mut i: usize = 0;
    loop
        invariant
            h == hay@.len(),
            n == needle@.len(),
            last + n == h,
            i <= last,
            forall|k: int| 0 <= k < i ==> !occurs_at(hay@, needle@, k),
        ensures
            forall|k: int| 0 <= k <= last ==> !occurs_at(hay@, needle@, k),
        decreases last - i,
    {
        if matches_at(hay, needle, i) {
            assert(hay@.subrange(i as int, i + needle@.len()) == needle@);
            return true;
        }
        if i == last {
            break;
        }
        i = i + 1;
    }
    assert forall|k: int| 0 <= k && k + needle@.len() <= hay@.len() implies
        #[trigger] hay@.subrange(k, k + needle@.len()) != needle@ by {
        assert(!occurs_at(hay@, needle@, k));
    }
    false
}


/// Calls `String::push`. Trusted: appends `c` to `s`.
#[verifier::external_body]
pub(crate) fn push_char(s: &mut String, c: char)
    ensures
        final(s)@ == old(s)@.push(c),
{
    s.push(c);
}

/// A `String` holding exactly the characters of `v`.
pub fn string_from_chars(v: &Vec<char>) -> (s: String)
    ensures
        s@ == v@,
{
    let mut s = String::new();
    let n = v.len();
    let mut i: usize = 0;
    while i < n
        invariant
            n == v@.len(),
            i <= n,
            s@ == v@.take(i as int),
        decreases n - i,
    {
        push_char(&mut s, v[i]);
        assert(v@.take(i + 1) == v@.take(i as int).push(v@[i as int]));
        i = i + 1;
    }
    assert(v@.take(n as int) == v@);
    s
}

/// Whether two texts hold the same characters.
pub fn same_text(a: &str, b: &str) -> (r: bool)
    ensures
        r == (a@ == b@),
{
    let x = chars_of(a);
    let y = chars_of(b);
    if x.len() != y.len() {
        return false;
    }
    let n = x.len();
    let mut i: usize = 0;
    while i < n
        invariant
            n == x@.len(),
            n == y@.len(),
            x@ == a@,
            y@ == b@,
            i <= n,
            forall|k: int| 0 <= k < i ==> x@[k] == y@[k],
        decreases n - i,
    {
        if x[i] != y[i] {
            assert(x@[i as int] != y@[i as int]);
            return false;
        }
        i = i + 1;
    }
    assert(x@ =~= y@);
    true
}

/// Every non-overlapping occurrence of `pat` in `s`, scanning from the left,
/// replaced by `rep`. An empty `pat` occurs before every character and at the
/// end.
pub open spec fn replace_all(s: Seq<char>, pat: Seq<char>, rep: Seq<char>) -> Seq<char>
    decreases s.len(),
{
    if s.len() == 0 {
        if pat.len() == 0 {
            rep
        } else {
            s
        }
    } else if pat.len() == 0 {
        rep + seq![s[0]] + replace_all(s.drop_first(), pat, rep)
    } else if pat.len() <= s.len() && s.take(pat.len() as int) == pat {
        rep + replace_all(s.skip(pat.len() as int), pat, rep)
    } else {
        seq![s[0]] + replace_all(s.drop_first(), pat, rep)
    }
}

/// Replacing a non-empty pattern that does not occur leaves the text as it
/// is: a redacted message differs from its input only where the secret
/// occurred.
pub proof fn lemma_replace_without_occurrence(s: Seq<char>, pat: Seq<char>, rep: Seq<char>)
    requires
        pat.len() > 0,
        !occurs_in(s, pat),
    ensures
        replace_all(s, pat, rep) == s,
    decreases s.len(),
{
    if s.len() > 0 {
        if pat.len() <= s.len() && s.take(pat.len() as int) == pat {
            assert(s.subrange(0int, 0int + pat.len()) == pat);
            assert(false);
        }
        let t = s.drop_first();
        assert forall|i: int| 0 <= i && i + pat.len() <= t.len() implies #[trigger] t.subrange(i, i + pat.len()) != pat by {
            assert(t.subrange(i, i + pat.len()) == s.subrange(i + 1, i + 1 + pat.len()));
        }
        lemma_replace_without_occurrence(t, pat, rep);
        assert(replace_all(s, pat, rep) == seq![s[0]] + replace_all(t, pat, rep));
        assert(seq![s[0]] + t == s);
    }
}

/// No character of `pat` occurs in `rep`.
pub open spec fn shares_no_char(pat: Seq<char>, rep: Seq<char>) -> bool {
    forall|i: int, j: int| 0 <= i < pat.len() && 0 <= j < rep.len() ==> pat[i] != rep[j]
}

/// An occurrence of `pat` in `a + rep + t` lies within `a` or within `t`
/// when `rep` holds no character of `pat`.
proof fn lemma_occurrence_avoids_replacement(a: Seq<char>, rep: Seq<char>, t: Seq<char>, pat: Seq<char>)
    requires
        pat.len() > 0,
        rep.len() > 0,
        shares_no_char(pat, rep),
        occurs_in(a + rep + t, pat),
    ensures
        occurs_in(a, pat) || occurs_in(t, pat),
{
    let x = a + rep + t;
    let n = pat.len() as int;
    let j = choose|j: int| 0 <= j && j + n <= x.len() && #[trigger] x.subrange(j, j + n) == pat;
    if j + n <= a.len() {
        assert(a.subrange(j, j + n) =~= x.subrange(j, j + n));
    } else if j >= a.len() + rep.len() {
        let k = j - a.len() - rep.len();
        assert(t.subrange(k, k + n) =~= x.subrange(j, j + n));
    } else {
        let m = if j >= a.len() {
            j
        } else {
            a.len() as int
        };
        assert(x[m] == rep[m - a.len()]);
        assert(x.subrange(j, j + n)[m - j] == x[m]);
        assert(pat[m - j] == rep[m - a.len()]);
    }
}

/// Scanning `s` after a text `a` in which no occurrence of `pat` starts
/// leaves no occurrence of `pat` when `rep` holds none of its characters.
proof fn lemma_replace_leaves_no_occurrence_after(a: Seq<char>, s: Seq<char>, pat: Seq<char>, rep: Seq<char>)
    requires
        pat.len() > 0,
        rep.len() > 0,
        shares_no_char(pat, rep),
        forall|i: int| 0 <= i < a.len() ==> !occurs_at(a + s, pat, i),
    ensures
        !occurs_in(a + replace_all(s, pat, rep), pat),
    decreases s.len(),
{
    let n = pat.len() as int;
    if s.len() == 0 {
        assert(a + replace_all(s, pat, rep) =~= a + s);
        if occurs_in(a + s, pat) {
            let j = choose|j: int| 0 <= j && j + n <= (a + s).len() && #[trigger] (a + s).subrange(j, j + n) == pat;
            assert(occurs_at(a + s, pat, j));
        }
    } else if pat.len() <= s.len() && s.take(n) == pat {
        let rest = s.skip(n);
        lemma_replace_leaves_no_occurrence_after(Seq::empty(), rest, pat, rep);
        assert(Seq::<char>::empty() + replace_all(rest, pat, rep) =~= replace_all(rest, pat, rep));
        assert(a + replace_all(s, pat, rep) =~= a + rep + replace_all(rest, pat, rep));
        if occurs_in(a + replace_all(s, pat, rep), pat) {
            lemma_occurrence_avoids_replacement(a, rep, replace_all(rest, pat, rep), pat);
            let j = choose|j: int| 0 <= j && j + n <= a.len() && #[trigger] a.subrange(j, j + n) == pat;
            assert((a + s).subrange(j, j + n) =~= a.subrange(j, j + n));
            assert(occurs_at(a + s, pat, j));
        }
    } else {
        let rest = s.drop_first();
        let a2 = a.push(s[0]);
        assert(a2 + rest =~= a + s);
        assert forall|i: int| 0 <= i < a2.len() implies !occurs_at(a2 + rest, pat, i) by {
            if i == a.len() {
                if occurs_at(a + s, pat, i) {
                    assert((a + s).subrange(i, i + n) =~= s.take(n));
                }
            }
        }
        lemma_replace_leaves_no_occurrence_after(a2, rest, pat, rep);
        assert(a2 + replace_all(rest, pat, rep) =~= a + replace_all(s, pat, rep));
    }
}

/// Replacing every occurrence of a non-empty `pat` by a non-empty `rep` that
/// holds none of its characters leaves no occurrence of `pat`.
pub proof fn lemma_replace_removes_pattern(s: Seq<char>, pat: Seq<char>, rep: Seq<char>)
    requires
        pat.len() > 0,
        rep.len() > 0,
        shares_no_char(pat, rep),
    ensures
        !occurs_in(replace_all(s, pat, rep), pat),
{
    lemma_replace_leaves_no_occurrence_after(Seq::empty(), s, pat, rep);
    assert(Seq::<char>::empty() + s =~= s);
    assert(Seq::<char>::empty() + replace_all(s, pat, rep) =~= replace_all(s, pat, rep));
}

/// Appends every character of `v` to `out`.
fn push_all(out: &mut Vec<char>, v: &Vec<char>)
    ensures
        final(out)@ == old(out)@ + v@,
{
    let n = v.len();
    let mut i: usize = 0;
    while i < n
        invariant
            n == v@.len(),
            i <= n,
            out@ == old(out)@ + v@.take(i as int),
        decreases n - i,
    {
        out.push(v[i]);
        assert(v@.take(i + 1) == v@.take(i as int).push(v@[i as int]));
        i = i + 1;
    }
    assert(v@.take(n as int) == v@);
}

/// `s` with every occurrence of `pat` replaced by `rep`, as `str::replace`
/// does.
pub fn replace_text(s: &str, pat: &str, rep: &str) -> (r: String)
    ensures
        r@ == replace_all(s@, pat@, rep@),
{
    let hay = chars_of(s);
    let needle = chars_of(pat);
    let with = chars_of(rep);
    let h = hay.len();
    let n = needle.len();
    let mut out: Vec<char> = Vec::new();
    let mut i: usize = 0;
    assert(hay@.skip(0) == hay@);
    assert(out@ + replace_all(hay@, needle@, with@) =~= replace_all(hay@, needle@, with@));
    while i < h
        invariant
            h == hay@.len(),
            n == needle@.len(),
            i <= h,
            out@ + replace_all(hay@.skip(i as int), needle@, with@) == replace_all(hay@, needle@, with@),
        decreases h - i,
    {
        let ghost rest = hay@.skip(i as int);
        if n == 0 {
            assert(rest.drop_first() == hay@.skip(i + 1));
            push_all(&mut out, &with);
            out.push(hay[i]);
            assert(out@ + replace_all(hay@.skip(i + 1), needle@, with@) == replace_all(hay@, needle@, with@)) by {
                assert(replace_all(rest, needle@, with@) == with@ + seq![rest[0]] + replace_all(rest.drop_first(), needle@, with@));
            }
            i = i + 1;
        } else if n <= h - i && matches_at(&hay, &needle, i) {
            assert(rest.take(n as int) =~= hay@.subrange(i as int, i + n));
            assert(rest.skip(n as int) == hay@.skip(i + n));
            push_all(&mut out, &with);
            assert(out@ + replace_all(hay@.skip(i + n), needle@, with@) == replace_all(hay@, needle@, with@));
            i = i + n;
        } else {
            proof {
                if n <= h - i {
                    assert(rest.take(n as int) =~= hay@.subrange(i as int, i + n));
                }
            }
            assert(rest.drop_first() == hay@.skip(i + 1));
            out.push(hay[i]);
            assert(out@ + replace_all(hay@.skip(i + 1), needle@, with@) == replace_all(hay@, needle@, with@)) by {
                assert(replace_all(rest, needle@, with@) == seq![rest[0]] + replace_all(rest.drop_first(), needle@, with@));
            }
            i = i + 1;
        }
    }
    assert(hay@.skip(h as int).len() == 0);
    if n == 0 {
        push_all(&mut out, &with);
    }
    string_from_chars(&out)
}


/// The character of a decimal digit `d` (0 to 9).
pub open spec fn digit_char(d: nat) -> char {
    ((d + 48) as u32) as char
}

/// The decimal digits of `n`, most significant first, without leading zeros.
pub open spec fn nat_digits(n: nat) -> Seq<char>
    decreases n,
{
    if n < 10 {
        seq![digit_char(n)]
    } else {
        nat_digits(n / 10).push(digit_char(n % 10))
    }
}

/// `n` written in decimal, with a leading `-` when negative, as `Display`
/// writes integers.
pub open spec fn decimal(n: int) -> Seq<char> {
    if n < 0 {
        seq!['-'] + nat_digits((-n) as nat)
    } else {
        nat_digits(n as nat)
    }
}

/// The number a decimal digit character stands for.
pub open spec fn digit_value(c: char) -> int {
    (c as u32) - 48
}

/// Whether `c` is one of the characters `0` to `9`.
pub open spec fn is_decimal_digit(c: char) -> bool {
    48 <= (c as u32) <= 57
}

/// The number written by a string of decimal digits, most significant first.
pub open spec fn digits_value(s: Seq<char>) -> int
    decreases s.len(),
{
    if s.len() == 0 {
        0
    } else {
        digits_value(s.drop_last()) * 10 + digit_value(s.last())
    }
}

/// The number a decimal text stands for, with an optional leading `-`.
pub open spec fn read_decimal(s: Seq<char>) -> int {
    if s.len() > 0 && s[0] == '-' {
        -digits_value(s.drop_first())
    } else {
        digits_value(s)
    }
}

proof fn lemma_digit_char(d: nat)
    requires
        d < 10,
    ensures
        digit_value(digit_char(d)) == d,
        is_decimal_digit(digit_char(d)),
{
    let u = (d + 48) as u32;
    assert((u as char) as u32 == u);
}

/// The digits of `n` are decimal digits, with no leading zero, and read back
/// as `n`.
pub proof fn lemma_nat_digits_read_back(n: nat)
    ensures
        digits_value(nat_digits(n)) == n,
        nat_digits(n).len() >= 1,
        forall|i: int| 0 <= i < nat_digits(n).len() ==> is_decimal_digit(#[trigger] nat_digits(n)[i]),
        n > 0 ==> nat_digits(n)[0] != '0',
    decreases n,
{
    if n < 10 {
        lemma_digit_char(n);
        let s = nat_digits(n);
        assert(s.drop_last() =~= Seq::<char>::empty());
        assert(digits_value(s.drop_last()) == 0);
        assert(s.last() == digit_char(n));
        assert(digits_value(s) == digits_value(s.drop_last()) * 10 + digit_value(s.last()));
        if n > 0 {
            assert(digit_value(s[0]) == n);
        }
    } else {
        lemma_nat_digits_read_back(n / 10);
        lemma_digit_char(n % 10);
        let s = nat_digits(n);
        assert(s.drop_last() == nat_digits(n / 10));
        assert(s.last() == digit_char(n % 10));
        assert(digits_value(s) == digits_value(s.drop_last()) * 10 + digit_value(s.last()));
        assert(s[0] == nat_digits(n / 10)[0]);
        assert(n == (n / 10) * 10 + n % 10);
    }
}

/// Decimal text reads back as the number written, uses only digits after an
/// optional leading `-`, and has no leading zero.
pub proof fn lemma_decimal_reads_back(n: int)
    ensures
        read_decimal(decimal(n)) == n,
        decimal(n).len() >= 1,
        forall|i: int| 0 <= i < decimal(n).len() ==> (#[trigger] decimal(n)[i] == '-' || is_decimal_digit(decimal(n)[i])),
        decimal(n)[0] == '-' <==> n < 0,
        n != 0 ==> decimal(n)[0] != '0',
{
    if n < 0 {
        let m = (-n) as nat;
        lemma_nat_digits_read_back(m);
        assert(decimal(n).drop_first() =~= nat_digits(m));
        assert forall|i: int| 0 <= i < decimal(n).len() implies (#[trigger] decimal(n)[i] == '-' || is_decimal_digit(decimal(n)[i])) by {
            if i > 0 {
                assert(decimal(n)[i] == nat_digits(m)[i - 1]);
            }
        }
    } else {
        lemma_nat_digits_read_back(n as nat);
        let d = nat_digits(n as nat);
        assert(is_decimal_digit(d[0]));
    }
}

fn digit_of(d: u64) -> (c: char)
    requires
        d < 10,
    ensures
        c == digit_char(d as nat),
{
    let b: u8 = (d as u8) + 48;
    b as char
}

/// The decimal digits of `n`.
fn u64_digits(n: u64) -> (v: Vec<char>)
    ensures
        v@ == nat_digits(n as nat),
{
    let mut rest = n;
    let mut suffix: Vec<char> = Vec::new();
    while rest >= 10
        invariant
            nat_digits(n as nat) == nat_digits(rest as nat) + suffix@,
        decreases rest,
    {
        let d = digit_of(rest % 10);
        let ghost before = suffix@;
        assert(nat_digits(rest as nat) == nat_digits((rest / 10) as nat).push(d));
        suffix.insert(0, d);
        assert(nat_digits((rest / 10) as nat) + suffix@ =~= nat_digits(rest as nat) + before);
        rest = rest / 10;
    }
    let mut v: Vec<char> = Vec::new();
    v.push(digit_of(rest));
    push_all(&mut v, &suffix);
    assert(v@ =~= nat_digits(n as nat));
    v
}

/// `n` written in decimal, as `n.to_string()` writes it.
pub fn i64_to_decimal(n: i64) -> (s: String)
    ensures
        s@ == decimal(n as int),
{
    if n < 0 {
        let magnitude: u64 = ((-(n + 1)) as u64) + 1;
        let mut v: Vec<char> = Vec::new();
        v.push('-');
        let digits = u64_digits(magnitude);
        push_all(&mut v, &digits);
        string_from_chars(&v)
    } else {
        string_from_chars(&u64_digits(n as u64))
    }
}


} // verus!

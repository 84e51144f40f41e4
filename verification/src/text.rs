//! Text primitives over `Seq<char>`, with executable versions that work on
//! `&str` and `String` and are proved against the spec functions below.
use vstd::prelude::*;

verus! {

broadcast use vstd::string::group_string_axioms;

// ---------------------------------------------------------------------------
// Specifications
// ---------------------------------------------------------------------------

/// `pat` occurs in `s` starting at position `i`.
pub open spec fn occurs_at(s: Seq<char>, pat: Seq<char>, i: int) -> bool {
    0 <= i && i + pat.len() <= s.len() && s.subrange(i, i + pat.len()) == pat
}

/// The first position at or after `i` where `pat` occurs in `s`.
pub open spec fn find_from(s: Seq<char>, pat: Seq<char>, i: int) -> Option<int>
    decreases s.len() + 1 - i,
{
    if i < 0 || i + pat.len() > s.len() {
        None
    } else if s.subrange(i, i + pat.len()) == pat {
        Some(i)
    } else {
        find_from(s, pat, i + 1)
    }
}

/// The first position where `pat` occurs in `s` (`str::find`).
pub open spec fn find_seq(s: Seq<char>, pat: Seq<char>) -> Option<int> {
    find_from(s, pat, 0)
}

/// `pat` occurs somewhere in `s` (`str::contains`).
pub open spec fn contains_seq(s: Seq<char>, pat: Seq<char>) -> bool {
    find_seq(s, pat) is Some
}

/// `s` begins with `pat` (`str::starts_with`).
pub open spec fn starts_with_seq(s: Seq<char>, pat: Seq<char>) -> bool {
    occurs_at(s, pat, 0)
}

/// Left-to-right, non-overlapping replacement of `from` by `to`, scanning from
/// position `i` (`str::replace` for a non-empty pattern when `i == 0`).
pub open spec fn replace_from(s: Seq<char>, from: Seq<char>, to: Seq<char>, i: int) -> Seq<char>
    decreases s.len() - i,
{
    if i < 0 || i >= s.len() {
        Seq::empty()
    } else if from.len() > 0 && occurs_at(s, from, i) {
        to + replace_from(s, from, to, i + from.len())
    } else {
        seq![s[i]] + replace_from(s, from, to, i + 1)
    }
}

/// `to` before every character of `s` from position `i` on, and once more at
/// the end (what `str::replace` does for an empty pattern).
pub open spec fn interleave_from(s: Seq<char>, to: Seq<char>, i: int) -> Seq<char>
    decreases s.len() - i,
{
    if i < 0 || i >= s.len() {
        to
    } else {
        to + seq![s[i]] + interleave_from(s, to, i + 1)
    }
}

/// Every occurrence of `from` in `s` replaced by `to` (`str::replace`); an
/// empty `from` occurs before every character and at the end.
pub open spec fn replace_seq(s: Seq<char>, from: Seq<char>, to: Seq<char>) -> Seq<char> {
    if from.len() == 0 {
        interleave_from(s, to, 0)
    } else {
        replace_from(s, from, to, 0)
    }
}

/// Unicode `White_Space` (the characters `char::is_whitespace` accepts).
pub open spec fn is_ws(c: char) -> bool {
    ||| ('\t' <= c && c <= '\r')
    ||| c == ' '
    ||| c == '\u{85}'
    ||| c == '\u{a0}'
    ||| c == '\u{1680}'
    ||| ('\u{2000}' <= c && c <= '\u{200a}')
    ||| c == '\u{2028}'
    ||| c == '\u{2029}'
    ||| c == '\u{202f}'
    ||| c == '\u{205f}'
    ||| c == '\u{3000}'
}

/// `s` without its leading whitespace.
pub open spec fn trim_start_seq(s: Seq<char>) -> Seq<char>
    decreases s.len(),
{
    if s.len() > 0 && is_ws(s[0]) {
        trim_start_seq(s.drop_first())
    } else {
        s
    }
}

/// `s` without its trailing whitespace.
pub open spec fn trim_end_seq(s: Seq<char>) -> Seq<char>
    decreases s.len(),
{
    if s.len() > 0 && is_ws(s.last()) {
        trim_end_seq(s.drop_last())
    } else {
        s
    }
}

/// `s` without leading and trailing whitespace (`str::trim`).
pub open spec fn trim_seq(s: Seq<char>) -> Seq<char> {
    trim_end_seq(trim_start_seq(s))
}

/// The views of a sequence of strings.
pub open spec fn views(v: Seq<String>) -> Seq<Seq<char>> {
    v.map_values(|x: String| x@)
}

/// The pieces of `s` between the occurrences of the non-empty `sep`, scanning
/// from position `i` (`str::split` when `i == 0`).
pub open spec fn split_from(s: Seq<char>, sep: Seq<char>, i: int) -> Seq<Seq<char>>
    decreases s.len() + 1 - i,
{
    if sep.len() == 0 || i < 0 || i > s.len() {
        Seq::empty()
    } else {
        match find_from(s, sep, i) {
            None => seq![s.subrange(i, s.len() as int)],
            Some(k) => {
                proof {
                    lemma_find_from(s, sep, i);
                }
                seq![s.subrange(i, k)] + split_from(s, sep, k + sep.len())
            },
        }
    }
}

/// The pieces of `s` between the occurrences of `sep` (`str::split`); an
/// empty `sep` cuts before every character and at the end.
pub open spec fn split_seq(s: Seq<char>, sep: Seq<char>) -> Seq<Seq<char>> {
    if sep.len() == 0 {
        seq![Seq::<char>::empty()] + s.map_values(|c: char| seq![c]) + seq![Seq::<char>::empty()]
    } else {
        split_from(s, sep, 0)
    }
}

/// The pieces joined with `sep` between consecutive pieces (`[String]::join`).
pub open spec fn join_seq(parts: Seq<Seq<char>>, sep: Seq<char>) -> Seq<char>
    decreases parts.len(),
{
    if parts.len() == 0 {
        Seq::empty()
    } else if parts.len() == 1 {
        parts[0]
    } else {
        parts[0] + sep + join_seq(parts.drop_first(), sep)
    }
}

/// The part of `s` after the first occurrence of `pat`, if `pat` occurs.
pub open spec fn after_seq(s: Seq<char>, pat: Seq<char>) -> Option<Seq<char>> {
    match find_seq(s, pat) {
        Some(k) => Some(s.subrange(k + pat.len(), s.len() as int)),
        None => None,
    }
}

/// The part of `s` before the first occurrence of `pat`, if `pat` occurs.
pub open spec fn before_seq(s: Seq<char>, pat: Seq<char>) -> Option<Seq<char>> {
    match find_seq(s, pat) {
        Some(k) => Some(s.subrange(0, k)),
        None => None,
    }
}

/// Each piece trimmed, keeping only the pieces that are not empty afterwards.
pub open spec fn trimmed_nonempty(parts: Seq<Seq<char>>) -> Seq<Seq<char>>
    decreases parts.len(),
{
    if parts.len() == 0 {
        Seq::empty()
    } else {
        let rest = trimmed_nonempty(parts.drop_last());
        let t = trim_seq(parts.last());
        if t.len() > 0 {
            rest.push(t)
        } else {
            rest
        }
    }
}

/// The decimal digit `d` as a character.
pub open spec fn digit_char(d: int) -> char {
    (d + 48) as char
}

/// The decimal representation of `n`, without leading zeros.
pub open spec fn dec_nat(n: nat) -> Seq<char>
    decreases n,
{
    if n < 10 {
        seq![digit_char(n as int)]
    } else {
        dec_nat(n / 10).push(digit_char((n % 10) as int))
    }
}

/// The decimal representation of `n` as `Display` writes it for integers.
pub open spec fn dec_int(n: int) -> Seq<char> {
    if n < 0 {
        seq!['-'] + dec_nat((-n) as nat)
    } else {
        dec_nat(n as nat)
    }
}

/// `c` is one of `0`..`9`.
pub open spec fn is_digit(c: char) -> bool {
    '0' <= c && c <= '9'
}

/// Every character of `s` is a decimal digit.
pub open spec fn all_digits(s: Seq<char>) -> bool {
    forall|i: int| 0 <= i < s.len() ==> #[trigger] is_digit(s[i])
}

/// The number the decimal digits of `s` denote.
pub open spec fn digits_value(s: Seq<char>) -> int
    decreases s.len(),
{
    if s.len() == 0 {
        0
    } else {
        digits_value(s.drop_last()) * 10 + (s.last() as int - 48)
    }
}

/// The integer `s` denotes in the syntax `str::parse` accepts for signed
/// integers: an optional `+` or `-`, then one or more decimal digits.
pub open spec fn parse_int_seq(s: Seq<char>) -> Option<int> {
    if s.len() == 0 {
        None
    } else if s[0] == '+' || s[0] == '-' {
        let d = s.drop_first();
        if d.len() > 0 && all_digits(d) {
            Some(if s[0] == '-' { -digits_value(d) } else { digits_value(d) })
        } else {
            None
        }
    } else if all_digits(s) {
        Some(digits_value(s))
    } else {
        None
    }
}

/// What `str::parse::<i64>` gives for `s`.
pub open spec fn parse_i64_seq(s: Seq<char>) -> Option<i64> {
    match parse_int_seq(s) {
        Some(v) => if i64::MIN <= v <= i64::MAX {
            Some(v as i64)
        } else {
            None
        },
        None => None,
    }
}

// ---------------------------------------------------------------------------
// Lemmas
// ---------------------------------------------------------------------------

/// A found position is an occurrence at or after the start, and nothing
/// occurs between the start and it; when nothing is found, nothing occurs
/// from the start on.
pub proof fn lemma_find_from(s: Seq<char>, pat: Seq<char>, i: int)
    requires
        0 <= i,
    ensures
        find_from(s, pat, i) matches Some(k) ==> {
            &&& i <= k
            &&& occurs_at(s, pat, k)
            &&& forall|j: int| i <= j < k ==> !occurs_at(s, pat, j)
        },
        find_from(s, pat, i) is None ==> forall|j: int| i <= j ==> !occurs_at(s, pat, j),
    decreases s.len() + 1 - i,
{
    if i + pat.len() > s.len() {
    } else if s.subrange(i, i + pat.len()) == pat {
    } else {
        lemma_find_from(s, pat, i + 1);
    }
}

/// Splitting from a valid position gives at least one piece.
pub proof fn lemma_split_from_nonempty(s: Seq<char>, sep: Seq<char>, i: int)
    requires
        sep.len() > 0,
        0 <= i <= s.len(),
    ensures
        split_from(s, sep, i).len() > 0,
{
    lemma_find_from(s, sep, i);
}

/// Joining one more piece adds the separator and the piece at the end.
pub proof fn lemma_join_push(parts: Seq<Seq<char>>, sep: Seq<char>, x: Seq<char>)
    ensures
        join_seq(parts.push(x), sep) == if parts.len() == 0 {
            x
        } else {
            join_seq(parts, sep) + sep + x
        },
    decreases parts.len(),
{
    if parts.len() == 0 {
        assert(parts.push(x) =~= seq![x]);
    } else if parts.len() == 1 {
        assert(parts.push(x).drop_first() =~= seq![x]);
        assert(join_seq(seq![x], sep) == x);
        assert(parts.push(x)[0] == parts[0]);
    } else {
        assert(parts.push(x).drop_first() =~= parts.drop_first().push(x));
        assert(parts.push(x)[0] == parts[0]);
        lemma_join_push(parts.drop_first(), sep, x);
        assert(join_seq(parts.push(x), sep) =~= join_seq(parts, sep) + sep + x);
    }
}

/// Where nothing occurs in `[i, k)`, replacing from `i` copies `s[i..k]` first.
pub proof fn lemma_replace_copies(s: Seq<char>, from: Seq<char>, to: Seq<char>, i: int, k: int)
    requires
        from.len() > 0,
        0 <= i <= k <= s.len(),
        forall|j: int| i <= j < k ==> !occurs_at(s, from, j),
    ensures
        replace_from(s, from, to, i) == s.subrange(i, k) + replace_from(s, from, to, k),
    decreases k - i,
{
    if i == k {
        assert(s.subrange(i, k) =~= Seq::<char>::empty());
        assert(Seq::<char>::empty() + replace_from(s, from, to, k) =~= replace_from(s, from, to, k));
    } else {
        lemma_replace_copies(s, from, to, i + 1, k);
        assert(seq![s[i]] + s.subrange(i + 1, k) =~= s.subrange(i, k));
        assert(replace_from(s, from, to, i) =~= seq![s[i]] + (s.subrange(i + 1, k) + replace_from(s, from, to, k)));
    }
}

proof fn lemma_join_split_from(s: Seq<char>, sep: Seq<char>, to: Seq<char>, i: int)
    requires
        sep.len() > 0,
        0 <= i <= s.len(),
    ensures
        join_seq(split_from(s, sep, i), to) == replace_from(s, sep, to, i),
    decreases s.len() + 1 - i,
{
    lemma_find_from(s, sep, i);
    match find_from(s, sep, i) {
        None => {
            lemma_replace_copies(s, sep, to, i, s.len() as int);
            assert(replace_from(s, sep, to, s.len() as int) =~= Seq::<char>::empty());
            assert(s.subrange(i, s.len() as int) + Seq::<char>::empty() =~= s.subrange(i, s.len() as int));
        },
        Some(k) => {
            lemma_replace_copies(s, sep, to, i, k);
            lemma_join_split_from(s, sep, to, k + sep.len());
            lemma_split_from_nonempty(s, sep, k + sep.len());
            let rest = split_from(s, sep, k + sep.len());
            let parts = seq![s.subrange(i, k)] + rest;
            assert(parts.drop_first() =~= rest);
            assert(replace_from(s, sep, to, k) == to + replace_from(s, sep, to, k + sep.len()));
            assert(join_seq(parts, to) =~= s.subrange(i, k) + to + join_seq(rest, to));
            assert(replace_from(s, sep, to, i) =~= s.subrange(i, k) + to + replace_from(s, sep, to, k + sep.len()));
        },
    }
}

/// Splitting on a non-empty `sep` and joining the pieces with `to` is the
/// same as replacing every `sep` by `to`.
pub proof fn lemma_join_split_is_replace(s: Seq<char>, sep: Seq<char>, to: Seq<char>)
    requires
        sep.len() > 0,
    ensures
        join_seq(split_seq(s, sep), to) == replace_seq(s, sep, to),
{
    lemma_join_split_from(s, sep, to, 0);
}

/// The number of non-overlapping occurrences of a non-empty `pat` found
/// scanning left to right from position `i` (`str::matches(..).count()` when
/// `i == 0`).
pub open spec fn match_count_from(s: Seq<char>, pat: Seq<char>, i: int) -> nat
    decreases s.len() + 1 - i,
{
    if pat.len() == 0 || i < 0 || i > s.len() {
        0
    } else {
        match find_from(s, pat, i) {
            None => 0,
            Some(k) => {
                proof {
                    lemma_find_from(s, pat, i);
                }
                1 + match_count_from(s, pat, k + pat.len())
            },
        }
    }
}

/// The number of non-overlapping occurrences of a non-empty `pat` in `s`.
pub open spec fn match_count(s: Seq<char>, pat: Seq<char>) -> nat {
    match_count_from(s, pat, 0)
}

proof fn lemma_split_from_count(s: Seq<char>, sep: Seq<char>, i: int)
    requires
        sep.len() > 0,
        0 <= i <= s.len(),
    ensures
        split_from(s, sep, i).len() == match_count_from(s, sep, i) + 1,
    decreases s.len() + 1 - i,
{
    lemma_find_from(s, sep, i);
    match find_from(s, sep, i) {
        None => {},
        Some(k) => {
            lemma_split_from_count(s, sep, k + sep.len());
        },
    }
}

proof fn lemma_replace_self_from(s: Seq<char>, p: Seq<char>, i: int)
    requires
        p.len() > 0,
        0 <= i <= s.len(),
    ensures
        replace_from(s, p, p, i) == s.subrange(i, s.len() as int),
    decreases s.len() - i,
{
    if i < s.len() {
        if occurs_at(s, p, i) {
            lemma_replace_self_from(s, p, i + p.len());
            assert(s.subrange(i, i + p.len()) + s.subrange(i + p.len(), s.len() as int) =~= s.subrange(i, s.len() as int));
        } else {
            lemma_replace_self_from(s, p, i + 1);
            assert(seq![s[i]] + s.subrange(i + 1, s.len() as int) =~= s.subrange(i, s.len() as int));
        }
    } else {
        assert(s.subrange(i, s.len() as int) =~= Seq::<char>::empty());
    }
}

/// Splitting on a non-empty `sep` gives one piece more than there are
/// occurrences of `sep`, and joining the pieces with `sep` gives `s` back.
pub proof fn law_split_join_roundtrip(s: Seq<char>, sep: Seq<char>)
    requires
        sep.len() > 0,
    ensures
        split_seq(s, sep).len() == match_count(s, sep) + 1,
        join_seq(split_seq(s, sep), sep) == s,
{
    lemma_split_from_count(s, sep, 0);
    lemma_join_split_is_replace(s, sep, sep);
    lemma_replace_self_from(s, sep, 0);
    assert(s.subrange(0, s.len() as int) =~= s);
}

proof fn lemma_trim_start_shape(s: Seq<char>)
    ensures
        trim_start_seq(s).len() == 0 || !is_ws(trim_start_seq(s)[0]),
    decreases s.len(),
{
    if s.len() > 0 && is_ws(s[0]) {
        lemma_trim_start_shape(s.drop_first());
    }
}

proof fn lemma_trim_end_shape(s: Seq<char>)
    ensures
        trim_end_seq(s).len() <= s.len(),
        trim_end_seq(s) == s.subrange(0, trim_end_seq(s).len() as int),
        trim_end_seq(s).len() == 0 || !is_ws(trim_end_seq(s).last()),
    decreases s.len(),
{
    if s.len() > 0 && is_ws(s.last()) {
        lemma_trim_end_shape(s.drop_last());
        assert(s.drop_last().subrange(0, trim_end_seq(s).len() as int) =~= s.subrange(0, trim_end_seq(s).len() as int));
    } else {
        assert(s.subrange(0, s.len() as int) =~= s);
    }
}

/// A trimmed text is empty or begins and ends with a character that is not
/// whitespace.
pub proof fn lemma_trim_shape(s: Seq<char>)
    ensures
        trim_seq(s).len() == 0 || (!is_ws(trim_seq(s)[0]) && !is_ws(trim_seq(s).last())),
{
    let u = trim_start_seq(s);
    lemma_trim_start_shape(s);
    lemma_trim_end_shape(u);
    if trim_seq(s).len() > 0 {
        assert(trim_seq(s)[0] == u[0]);
    }
}

/// Trimming twice is trimming once.
pub proof fn law_trim_idempotent(s: Seq<char>)
    ensures
        trim_seq(trim_seq(s)) == trim_seq(s),
{
    lemma_trim_shape(s);
}

/// Every piece `trimmed_nonempty` keeps is non-empty and already trimmed.
pub proof fn law_trimmed_nonempty_clean(parts: Seq<Seq<char>>)
    ensures
        forall|i: int| 0 <= i < trimmed_nonempty(parts).len() ==> (#[trigger] trimmed_nonempty(parts)[i]).len() > 0
            && trim_seq(trimmed_nonempty(parts)[i]) == trimmed_nonempty(parts)[i],
    decreases parts.len(),
{
    if parts.len() > 0 {
        let rest = trimmed_nonempty(parts.drop_last());
        law_trimmed_nonempty_clean(parts.drop_last());
        law_trim_idempotent(parts.last());
        assert forall|i: int| 0 <= i < trimmed_nonempty(parts).len() implies (#[trigger] trimmed_nonempty(parts)[i]).len() > 0
            && trim_seq(trimmed_nonempty(parts)[i]) == trimmed_nonempty(parts)[i] by {
            if i < rest.len() {
                assert(trimmed_nonempty(parts)[i] == rest[i]);
            }
        }
    }
}

/// The decimal representation of `n` is a non-empty run of digits denoting `n`.
pub proof fn lemma_dec_nat(n: nat)
    ensures
        dec_nat(n).len() > 0,
        all_digits(dec_nat(n)),
        digits_value(dec_nat(n)) == n,
    decreases n,
{
    if n < 10 {
        assert(dec_nat(n).drop_last() =~= Seq::<char>::empty());
        assert(digit_char(n as int) as int == n + 48);
        assert(is_digit(dec_nat(n)[0]));
        assert(digits_value(Seq::<char>::empty()) == 0);
        assert(dec_nat(n).last() == digit_char(n as int));
    } else {
        lemma_dec_nat(n / 10);
        let p = dec_nat(n / 10);
        assert(dec_nat(n).drop_last() =~= p);
        assert(forall|i: int| 0 <= i < p.len() ==> dec_nat(n)[i] == p[i]);
        assert forall|i: int| 0 <= i < dec_nat(n).len() implies #[trigger] is_digit(dec_nat(n)[i]) by {
            if i < p.len() {
                assert(is_digit(p[i]));
            }
        }
        assert((n / 10) * 10 + n % 10 == n);
        assert(digit_char((n % 10) as int) as int == n % 10 + 48);
        assert(dec_nat(n).last() == digit_char((n % 10) as int));
        assert(digits_value(dec_nat(n)) == digits_value(p) * 10 + (n % 10));
    }
}

/// Parsing the decimal representation of an integer gives that integer back.
pub proof fn lemma_parse_dec_int(n: int)
    ensures
        parse_int_seq(dec_int(n)) == Some(n),
{
    if n < 0 {
        let m = (-n) as nat;
        lemma_dec_nat(m);
        assert((seq!['-'] + dec_nat(m)).drop_first() =~= dec_nat(m));
    } else {
        lemma_dec_nat(n as nat);
        assert(is_digit(dec_nat(n as nat)[0]));
    }
}

/// Three zeros appended to a decimal representation multiply its value by
/// a thousand.
pub proof fn lemma_parse_dec_thousand(n: int)
    ensures
        parse_int_seq(dec_int(n) + "000"@) == Some(n * 1000),
{
    reveal_strlit("000");
    let z = "000"@;
    assert(z =~= seq!['0', '0', '0']);
    let m: nat = if n < 0 { (-n) as nat } else { n as nat };
    lemma_dec_nat(m);
    let d = dec_nat(m);
    let d3 = d + z;
    assert(d3 =~= d.push('0').push('0').push('0'));
    lemma_digits_value_push(d, '0');
    lemma_digits_value_push(d.push('0'), '0');
    lemma_digits_value_push(d.push('0').push('0'), '0');
    assert(digits_value(d3) == m * 1000);
    assert forall|i: int| 0 <= i < d3.len() implies #[trigger] is_digit(d3[i]) by {
        if i < d.len() {
            assert(is_digit(d[i]));
        }
    }
    if n < 0 {
        assert((seq!['-'] + d) + z =~= seq!['-'] + d3);
        assert((seq!['-'] + d3).drop_first() =~= d3);
    } else {
        assert(is_digit(d3[0]));
    }
}

/// Digits appended at the end scale the value by ten per digit.
proof fn lemma_digits_value_push(s: Seq<char>, c: char)
    ensures
        digits_value(s.push(c)) == digits_value(s) * 10 + (c as int - 48),
{
    assert(s.push(c).drop_last() =~= s);
}

/// The value of a run of digits is not negative.
proof fn lemma_digits_value_nonneg(s: Seq<char>)
    requires
        all_digits(s),
    ensures
        digits_value(s) >= 0,
    decreases s.len(),
{
    if s.len() > 0 {
        assert(is_digit(s[s.len() - 1]));
        assert forall|i: int| 0 <= i < s.drop_last().len() implies #[trigger] is_digit(s.drop_last()[i]) by {
            assert(is_digit(s[i]));
        }
        lemma_digits_value_nonneg(s.drop_last());
    }
}

// ---------------------------------------------------------------------------
// Executable operations on characters
// ---------------------------------------------------------------------------

/// Appends one character to a `String` (`String::push`).
/// Claimed: the new contents are the old contents followed by `c`.
#[verifier::external_body]
fn push_char(s: &mut String, c: char)
    ensures
        final(s)@ == old(s)@.push(c),
{
    s.push(c);
}

/// The characters of `s`, in order.
pub fn chars_of(s: &str) -> (r: Vec<char>)
    ensures
        r@ == s@,
{
    let mut r: Vec<char> = Vec::new();
    for c in it: s.chars()
        invariant
            it.seq() == s@,
            r@ == it.seq().take(it.index() as int),
    {
        r.push(c);
    }
    r
}

/// A `String` holding exactly the characters of `v`.
pub fn string_of(v: &[char]) -> (r: String)
    ensures
        r@ == v@,
{
    let mut r = String::new();
    let mut i: usize = 0;
    while i < v.len()
        invariant
            i <= v@.len(),
            r@ == v@.take(i as int),
        decreases v@.len() - i,
    {
        push_char(&mut r, v[i]);
        assert(v@.take(i as int).push(v@[i as int]) =~= v@.take(i + 1));
        i = i + 1;
    }
    assert(v@.take(v@.len() as int) =~= v@);
    r
}

/// Appends the characters of `src` to `dst`.
fn extend_chars(dst: &mut Vec<char>, src: &[char])
    ensures
        final(dst)@ == old(dst)@ + src@,
{
    let mut i: usize = 0;
    while i < src.len()
        invariant
            i <= src@.len(),
            dst@ == old(dst)@ + src@.take(i as int),
        decreases src@.len() - i,
    {
        dst.push(src[i]);
        assert(old(dst)@ + src@.take(i as int) + seq![src@[i as int]] =~= old(dst)@ + src@.take(i + 1));
        i = i + 1;
    }
    assert(src@.take(src@.len() as int) =~= src@);
}

/// The characters of `s` from `lo` (inclusive) to `hi` (exclusive).
fn slice_chars(s: &[char], lo: usize, hi: usize) -> (r: Vec<char>)
    requires
        lo <= hi <= s@.len(),
    ensures
        r@ == s@.subrange(lo as int, hi as int),
{
    let mut r: Vec<char> = Vec::new();
    let mut i: usize = lo;
    while i < hi
        invariant
            lo <= i <= hi <= s@.len(),
            r@ == s@.subrange(lo as int, i as int),
        decreases hi - i,
    {
        r.push(s[i]);
        assert(s@.subrange(lo as int, i as int).push(s@[i as int]) =~= s@.subrange(lo as int, i + 1));
        i = i + 1;
    }
    r
}

/// Whether `pat` occurs in `s` at position `i`.
fn occurs_at_chars(s: &[char], pat: &[char], i: usize) -> (r: bool)
    ensures
        r == occurs_at(s@, pat@, i as int),
{
    if i > s.len() || pat.len() > s.len() - i {
        return false;
    }
    let mut k: usize = 0;
    while k < pat.len()
        invariant
            k <= pat@.len(),
            i + pat@.len() <= s@.len(),
            forall|j: int| 0 <= j < k ==> s@[i + j] == pat@[j],
        decreases pat@.len() - k,
    {
        assert(i + k < s.len());
        if s[i + k] != pat[k] {
            assert(s@.subrange(i as int, i + pat@.len())[k as int] != pat@[k as int]);
            return false;
        }
        k = k + 1;
    }
    assert(s@.subrange(i as int, i + pat@.len()) =~= pat@);
    true
}

/// The first position at or after `i` where `pat` occurs in `s`.
fn find_from_chars(s: &[char], pat: &[char], i: usize) -> (r: Option<usize>)
    ensures
        r matches Some(k) ==> find_from(s@, pat@, i as int) == Some(k as int),
        r is None ==> find_from(s@, pat@, i as int) is None,
{
    let mut j: usize = i;
    while j <= s.len()
        invariant
            i <= j,
            find_from(s@, pat@, i as int) == find_from(s@, pat@, j as int),
        decreases s@.len() + 1 - j,
    {
        if occurs_at_chars(s, pat, j) {
            return Some(j);
        }
        if pat.len() > s.len() - j {
            return None;
        }
        proof {
            if j == s.len() {
                assert(s@.subrange(j as int, j as int) =~= pat@);
            }
        }
        j = j + 1;
    }
    None
}

/// `to` before every character of `s` and once more at the end.
fn interleave_chars(s: &[char], to: &[char]) -> (r: Vec<char>)
    ensures
        r@ == interleave_from(s@, to@, 0),
{
    let mut out: Vec<char> = Vec::new();
    let mut i: usize = 0;
    while i < s.len()
        invariant
            i <= s@.len(),
            out@ + interleave_from(s@, to@, i as int) == interleave_from(s@, to@, 0),
        decreases s@.len() - i,
    {
        let ghost before = out@;
        extend_chars(&mut out, to);
        out.push(s[i]);
        assert(before + interleave_from(s@, to@, i as int) =~= out@ + interleave_from(s@, to@, i + 1));
        i = i + 1;
    }
    let ghost before = out@;
    extend_chars(&mut out, to);
    assert(before + interleave_from(s@, to@, i as int) =~= out@);
    out
}

/// `str::replace` on characters.
fn replace_chars(s: &[char], from: &[char], to: &[char]) -> (r: Vec<char>)
    ensures
        r@ == replace_seq(s@, from@, to@),
{
    if from.len() == 0 {
        return interleave_chars(s, to);
    }
    let mut out: Vec<char> = Vec::new();
    let mut i: usize = 0;
    while i < s.len()
        invariant
            i <= s@.len(),
            from@.len() > 0,
            out@ + replace_from(s@, from@, to@, i as int) == replace_seq(s@, from@, to@),
        decreases s@.len() - i,
    {
        if occurs_at_chars(s, from, i) {
            let ghost before = out@;
            extend_chars(&mut out, to);
            assert(before + replace_from(s@, from@, to@, i as int) =~= out@ + replace_from(s@, from@, to@, i + from@.len()));
            i = i + from.len();
        } else {
            let ghost before = out@;
            out.push(s[i]);
            assert(before + replace_from(s@, from@, to@, i as int) =~= out@ + replace_from(s@, from@, to@, i + 1));
            i = i + 1;
        }
    }
    assert(replace_from(s@, from@, to@, i as int) =~= Seq::<char>::empty());
    assert(out@ + Seq::<char>::empty() =~= out@);
    out
}

/// Whether `c` is whitespace in the sense of `char::is_whitespace`.
pub fn is_whitespace(c: char) -> (r: bool)
    ensures
        r == is_ws(c),
{
    ('\t' <= c && c <= '\r') || c == ' ' || c == '\u{85}' || c == '\u{a0}' || c == '\u{1680}'
        || ('\u{2000}' <= c && c <= '\u{200a}') || c == '\u{2028}' || c == '\u{2029}'
        || c == '\u{202f}' || c == '\u{205f}' || c == '\u{3000}'
}

/// `str::trim` on characters.
fn trim_chars(s: &[char]) -> (r: Vec<char>)
    ensures
        r@ == trim_seq(s@),
{
    let n = s.len();
    let mut i: usize = 0;
    assert(s@.subrange(0, n as int) =~= s@);
    while i < n && is_whitespace(s[i])
        invariant
            i <= n == s@.len(),
            trim_start_seq(s@) == trim_start_seq(s@.subrange(i as int, n as int)),
        decreases n - i,
    {
        assert(s@.subrange(i as int, n as int).drop_first() =~= s@.subrange(i + 1, n as int));
        i = i + 1;
    }
    assert(trim_start_seq(s@) == s@.subrange(i as int, n as int));
    let mut j: usize = n;
    while j > i && is_whitespace(s[j - 1])
        invariant
            i <= j <= n == s@.len(),
            trim_seq(s@) == trim_end_seq(s@.subrange(i as int, j as int)),
        decreases j - i,
    {
        assert(s@.subrange(i as int, j as int).drop_last() =~= s@.subrange(i as int, j - 1));
        j = j - 1;
    }
    slice_chars(s, i, j)
}

// ---------------------------------------------------------------------------
// Executable operations on strings
// ---------------------------------------------------------------------------

/// Whether `pat` occurs in `s` (`str::contains`).
pub fn contains(s: &str, pat: &str) -> (r: bool)
    ensures
        r == contains_seq(s@, pat@),
{
    let sc = chars_of(s);
    let pc = chars_of(pat);
    find_from_chars(&sc, &pc, 0).is_some()
}

/// Whether `s` begins with `pat` (`str::starts_with`).
pub fn starts_with(s: &str, pat: &str) -> (r: bool)
    ensures
        r == starts_with_seq(s@, pat@),
{
    let sc = chars_of(s);
    let pc = chars_of(pat);
    occurs_at_chars(&sc, &pc, 0)
}

/// Whether `a` and `b` hold the same text.
pub fn text_eq(a: &str, b: &str) -> (r: bool)
    ensures
        r == (a@ == b@),
{
    let ac = chars_of(a);
    let bc = chars_of(b);
    if ac.len() != bc.len() {
        return false;
    }
    let r = occurs_at_chars(&ac, &bc, 0);
    proof {
        if a@ == b@ {
            assert(a@.subrange(0, b@.len() as int) =~= a@);
        } else if r {
            assert(a@.subrange(0, b@.len() as int) =~= a@);
        }
    }
    r
}

/// Every occurrence of `from` in `s` replaced by `to` (`str::replace`).
pub fn replace(s: &str, from: &str, to: &str) -> (r: String)
    ensures
        r@ == replace_seq(s@, from@, to@),
{
    let sc = chars_of(s);
    let fc = chars_of(from);
    let tc = chars_of(to);
    string_of(&replace_chars(&sc, &fc, &tc))
}

/// `s` without leading and trailing whitespace (`str::trim`).
pub fn trim(s: &str) -> (r: String)
    ensures
        r@ == trim_seq(s@),
{
    let sc = chars_of(s);
    string_of(&trim_chars(&sc))
}

/// `a` followed by `b`.
pub fn concatenate(a: &str, b: &str) -> (r: String)
    ensures
        r@ == a@ + b@,
{
    let mut r = a.to_owned();
    r.append(b);
    r
}

/// The pieces of `s`: the empty text, each character, the empty text.
fn split_each_char(sc: &Vec<char>) -> (r: Vec<String>)
    ensures
        views(r@) == seq![Seq::<char>::empty()] + sc@.map_values(|c: char| seq![c]) + seq![Seq::<char>::empty()],
{
    let mut out: Vec<String> = Vec::new();
    out.push(String::new());
    let mut i: usize = 0;
    while i < sc.len()
        invariant
            i <= sc@.len(),
            views(out@) == seq![Seq::<char>::empty()] + sc@.map_values(|c: char| seq![c]).take(i as int),
        decreases sc@.len() - i,
    {
        let mut one: Vec<char> = Vec::new();
        one.push(sc[i]);
        let piece = string_of(&one);
        assert(piece@ =~= seq![sc@[i as int]]);
        let ghost before = views(out@);
        out.push(piece);
        assert(views(out@) =~= before.push(piece@));
        assert(views(out@) =~= seq![Seq::<char>::empty()] + sc@.map_values(|c: char| seq![c]).take(i + 1));
        i = i + 1;
    }
    let ghost before = views(out@);
    out.push(String::new());
    assert(views(out@) =~= before.push(Seq::<char>::empty()));
    assert(sc@.map_values(|c: char| seq![c]).take(sc@.len() as int) =~= sc@.map_values(|c: char| seq![c]));
    out
}

/// The pieces of `s` between the occurrences of `sep` (`str::split`).
pub fn split(s: &str, sep: &str) -> (r: Vec<String>)
    ensures
        views(r@) == split_seq(s@, sep@),
{
    let sc = chars_of(s);
    let pc = chars_of(sep);
    let n = sc.len();
    if pc.len() == 0 {
        return split_each_char(&sc);
    }
    let mut out: Vec<String> = Vec::new();
    let mut i: usize = 0;
    loop
        invariant
            i <= n == s@.len(),
            sc@ == s@,
            pc@ == sep@,
            sep@.len() > 0,
            views(out@) + split_from(s@, sep@, i as int) == split_seq(s@, sep@),
        decreases n + 1 - i,
    {
        proof {
            lemma_find_from(s@, sep@, i as int);
        }
        match find_from_chars(&sc, &pc, i) {
            None => {
                let piece = string_of(&slice_chars(&sc, i, n));
                let ghost before = views(out@);
                out.push(piece);
                assert(views(out@) =~= before.push(piece@));
                assert(before + split_from(s@, sep@, i as int) =~= views(out@));
                return out;
            },
            Some(k) => {
                let piece = string_of(&slice_chars(&sc, i, k));
                let ghost before = views(out@);
                out.push(piece);
                assert(views(out@) =~= before.push(piece@));
                assert(before + split_from(s@, sep@, i as int) =~= views(out@) + split_from(s@, sep@, k + sep@.len()));
                i = k + pc.len();
            },
        }
    }
}

/// The last piece of `s` split on `sep` (`split(sep).last()`, which always
/// exists).
pub fn last_piece(s: &str, sep: &str) -> (r: String)
    ensures
        r@ == split_seq(s@, sep@).last(),
{
    let mut pieces = split(s, sep);
    proof {
        if sep@.len() > 0 {
            lemma_split_from_nonempty(s@, sep@, 0);
        }
        assert(split_seq(s@, sep@).len() > 0);
        assert(pieces@.len() == views(pieces@).len());
    }
    let ghost v = views(pieces@);
    let r = pieces.pop().unwrap();
    assert(r@ == v.last());
    r
}

/// The pieces joined with `sep` between consecutive pieces (`[String]::join`).
pub fn join(parts: &Vec<String>, sep: &str) -> (r: String)
    ensures
        r@ == join_seq(views(parts@), sep@),
{
    let mut out = String::new();
    let mut i: usize = 0;
    while i < parts.len()
        invariant
            i <= parts@.len(),
            out@ == join_seq(views(parts@).take(i as int), sep@),
        decreases parts@.len() - i,
    {
        let ghost before = views(parts@).take(i as int);
        proof {
            lemma_join_push(before, sep@, parts@[i as int]@);
            assert(before.push(parts@[i as int]@) =~= views(parts@).take(i + 1));
        }
        if i > 0 {
            out.append(sep);
        }
        out.append(parts[i].as_str());
        i = i + 1;
    }
    assert(views(parts@).take(parts@.len() as int) =~= views(parts@));
    out
}

/// Each piece trimmed, keeping only the pieces that are not empty afterwards.
pub fn trim_nonempty(parts: &Vec<String>) -> (r: Vec<String>)
    ensures
        views(r@) == trimmed_nonempty(views(parts@)),
{
    let mut out: Vec<String> = Vec::new();
    let mut i: usize = 0;
    while i < parts.len()
        invariant
            i <= parts@.len(),
            views(out@) == trimmed_nonempty(views(parts@).take(i as int)),
        decreases parts@.len() - i,
    {
        let t = trim(parts[i].as_str());
        let ghost before = views(out@);
        assert(views(parts@).take(i + 1).drop_last() =~= views(parts@).take(i as int));
        if !t.as_str().is_empty() {
            out.push(t);
            assert(views(out@) =~= before.push(t@));
        }
        i = i + 1;
    }
    assert(views(parts@).take(parts@.len() as int) =~= views(parts@));
    out
}

/// Each piece trimmed.
pub fn trim_each(parts: &Vec<String>) -> (r: Vec<String>)
    ensures
        views(r@) == views(parts@).map_values(|p: Seq<char>| trim_seq(p)),
{
    let mut out: Vec<String> = Vec::new();
    let mut i: usize = 0;
    while i < parts.len()
        invariant
            i <= parts@.len(),
            views(out@) == views(parts@).take(i as int).map_values(|p: Seq<char>| trim_seq(p)),
        decreases parts@.len() - i,
    {
        let t = trim(parts[i].as_str());
        let ghost before = views(out@);
        out.push(t);
        assert(views(out@) =~= before.push(t@));
        assert(views(parts@).take(i + 1).map_values(|p: Seq<char>| trim_seq(p)) =~= views(parts@).take(i as int).map_values(|p: Seq<char>| trim_seq(p)).push(trim_seq(parts@[i as int]@)));
        i = i + 1;
    }
    assert(views(parts@).take(parts@.len() as int) =~= views(parts@));
    out
}

/// The part of `s` after the first occurrence of `pat`, if `pat` occurs.
pub fn text_after(s: &str, pat: &str) -> (r: Option<String>)
    ensures
        r matches Some(t) ==> after_seq(s@, pat@) == Some(t@),
        r is None ==> after_seq(s@, pat@) is None,
{
    let sc = chars_of(s);
    let pc = chars_of(pat);
    proof {
        lemma_find_from(s@, pat@, 0);
    }
    match find_from_chars(&sc, &pc, 0) {
        Some(k) => {
            assert(occurs_at(s@, pat@, k as int));
            assert(k + pc@.len() <= sc@.len());
            assert(k + pc.len() <= sc.len());
            Some(string_of(&slice_chars(&sc, k + pc.len(), sc.len())))
        },
        None => None,
    }
}

/// The part of `s` before the first occurrence of `pat`, if `pat` occurs.
pub fn text_before(s: &str, pat: &str) -> (r: Option<String>)
    ensures
        r matches Some(t) ==> before_seq(s@, pat@) == Some(t@),
        r is None ==> before_seq(s@, pat@) is None,
{
    let sc = chars_of(s);
    let pc = chars_of(pat);
    proof {
        lemma_find_from(s@, pat@, 0);
    }
    match find_from_chars(&sc, &pc, 0) {
        Some(k) => Some(string_of(&slice_chars(&sc, 0, k))),
        None => None,
    }
}

/// The character for the decimal digit `d`.
fn digit(d: u64) -> (c: char)
    requires
        d < 10,
    ensures
        c == digit_char(d as int),
{
    ((d as u8) + 48u8) as char
}

fn dec_u64_chars(n: u64) -> (r: Vec<char>)
    ensures
        r@ == dec_nat(n as nat),
    decreases n,
{
    if n < 10 {
        let mut v: Vec<char> = Vec::new();
        v.push(digit(n));
        assert(v@ =~= seq![digit_char(n as int)]);
        v
    } else {
        let mut v = dec_u64_chars(n / 10);
        v.push(digit(n % 10));
        v
    }
}

/// The decimal representation of `n` (`i64::to_string`).
pub fn i64_to_string(n: i64) -> (r: String)
    ensures
        r@ == dec_int(n as int),
{
    if n < 0 {
        let m: u64 = (0i128 - (n as i128)) as u64;
        let mut v: Vec<char> = Vec::new();
        v.push('-');
        let d = dec_u64_chars(m);
        extend_chars(&mut v, &d);
        assert(v@ =~= seq!['-'] + dec_nat((-n) as nat));
        string_of(&v)
    } else {
        string_of(&dec_u64_chars(n as u64))
    }
}

/// The decimal representation of `n` (`i32::to_string`).
pub fn i32_to_string(n: i32) -> (r: String)
    ensures
        r@ == dec_int(n as int),
{
    i64_to_string(n as i64)
}

/// `str::parse::<i64>`: an optional sign and one or more decimal digits
/// denoting a value in range.
pub fn parse_i64(s: &str) -> (r: Option<i64>)
    ensures
        r == parse_i64_seq(s@),
{
    let sc = chars_of(s);
    let n = sc.len();
    if n == 0 {
        return None;
    }
    let negative = sc[0] == '-';
    let start: usize = if sc[0] == '+' || sc[0] == '-' { 1 } else { 0 };
    if start == n {
        return None;
    }
    let ghost d = s@.subrange(start as int, n as int);
    proof {
        if start == 1 {
            assert(d =~= s@.drop_first());
        } else {
            assert(d =~= s@);
        }
    }
    // acc holds the value of the digits read so far, until it exceeds 2^63
    let bound: i128 = 0x8000_0000_0000_0000i128;
    let mut acc: i128 = 0;
    let mut big = false;
    let mut i: usize = start;
    while i < n
        invariant
            start <= i <= n == s@.len(),
            sc@ == s@,
            d == s@.subrange(start as int, n as int),
            bound == 0x8000_0000_0000_0000i128,
            n > 0,
            (start == 1) == (s@[0] == '+' || s@[0] == '-'),
            start == 0 ==> d == s@,
            start == 1 ==> d == s@.drop_first(),
            negative == (s@[0] == '-'),
            all_digits(s@.subrange(start as int, i as int)),
            !big ==> 0 <= acc <= bound && acc == digits_value(s@.subrange(start as int, i as int)),
            big ==> digits_value(s@.subrange(start as int, i as int)) > bound,
        decreases n - i,
    {
        let c = sc[i];
        if !('0' <= c && c <= '9') {
            proof {
                assert(!is_digit(d[i - start]));
            }
            return None;
        }
        let ghost prev = s@.subrange(start as int, i as int);
        assert(s@.subrange(start as int, i + 1) =~= prev.push(c));
        proof {
            lemma_digits_value_push(prev, c);
            lemma_digits_value_nonneg(prev);
            assert forall|j: int| 0 <= j < prev.push(c).len() implies #[trigger] is_digit(prev.push(c)[j]) by {
                if j < prev.len() {
                    assert(is_digit(prev[j]));
                }
            }
        }
        if !big {
            let v: i128 = acc * 10 + ((c as u32) as i128 - 48);
            if v > bound {
                big = true;
            } else {
                acc = v;
            }
        }
        i = i + 1;
    }
    assert(s@.subrange(start as int, n as int) == d);
    if big {
        return None;
    }
    if negative {
        Some((0i128 - acc) as i64)
    } else if acc <= 0x7fff_ffff_ffff_ffffi128 {
        Some(acc as i64)
    } else {
        None
    }
}

/// `s` split on `sep` and joined again with `joiner`.
pub fn split_join(s: &str, sep: &str, joiner: &str) -> (r: String)
    ensures
        r@ == join_seq(split_seq(s@, sep@), joiner@),
{
    join(&split(s, sep), joiner)
}

} // verus!

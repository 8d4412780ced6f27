//! Character-level text handling: splitting on a separator, whitespace words,
//! trimming, decimal integers and hex digits, each as a spec function and an
//! executable function over a range of a character vector.
use vstd::prelude::*;
use vstd::std_specs::iter::IteratorSpec;
use vstd::string::StrSliceExecFns;
use vstd::string::StringExecFns;

verus! {

broadcast use vstd::string::group_string_axioms;

/// Unicode `White_Space`, the set that `char::is_whitespace` tests.
pub open spec fn is_ws(c: char) -> bool {
    let u = c as u32;
    ||| 0x09 <= u <= 0x0d
    ||| u == 0x20
    ||| u == 0x85
    ||| u == 0xa0
    ||| u == 0x1680
    ||| 0x2000 <= u <= 0x200a
    ||| u == 0x2028
    ||| u == 0x2029
    ||| u == 0x202f
    ||| u == 0x205f
    ||| u == 0x3000
}

pub open spec fn is_digit(c: char) -> bool {
    '0' <= c <= '9'
}

pub open spec fn is_hex(c: char) -> bool {
    ||| '0' <= c <= '9'
    ||| 'a' <= c <= 'f'
    ||| 'A' <= c <= 'F'
}

pub fn is_whitespace(c: char) -> (r: bool)
    ensures
        r == is_ws(c),
{
    let u = c as u32;
    (0x09 <= u && u <= 0x0d) || u == 0x20 || u == 0x85 || u == 0xa0 || u == 0x1680 || (0x2000
        <= u && u <= 0x200a) || u == 0x2028 || u == 0x2029 || u == 0x202f || u == 0x205f || u
        == 0x3000
}

/// The pieces of `s` between occurrences of `sep` (an empty `s` is one empty piece).
pub open spec fn split_on<T>(s: Seq<T>, sep: T) -> Seq<Seq<T>>
    decreases s.len(),
{
    if s.len() == 0 {
        seq![Seq::<T>::empty()]
    } else {
        let init = split_on(s.drop_last(), sep);
        if s.last() == sep {
            init.push(Seq::<T>::empty())
        } else {
            init.update(init.len() - 1, init.last().push(s.last()))
        }
    }
}

/// The maximal runs of non-whitespace characters of `s`, in order.
pub open spec fn words(s: Seq<char>) -> Seq<Seq<char>>
    decreases s.len(),
{
    if s.len() == 0 {
        Seq::<Seq<char>>::empty()
    } else {
        let init = words(s.drop_last());
        if is_ws(s.last()) {
            init
        } else if s.len() >= 2 && !is_ws(s[s.len() - 2]) {
            init.update(init.len() - 1, init.last().push(s.last()))
        } else {
            init.push(seq![s.last()])
        }
    }
}

pub open spec fn trim_start(s: Seq<char>) -> Seq<char>
    decreases s.len(),
{
    if s.len() > 0 && is_ws(s[0]) {
        trim_start(s.drop_first())
    } else {
        s
    }
}

pub open spec fn trim_end(s: Seq<char>) -> Seq<char>
    decreases s.len(),
{
    if s.len() > 0 && is_ws(s.last()) {
        trim_end(s.drop_last())
    } else {
        s
    }
}

/// `s` without leading and trailing whitespace, as `str::trim`.
pub open spec fn trim(s: Seq<char>) -> Seq<char> {
    trim_end(trim_start(s))
}

pub open spec fn has_prefix(s: Seq<char>, p: Seq<char>) -> bool {
    p.len() <= s.len() && s.take(p.len() as int) == p
}

pub open spec fn has_suffix(s: Seq<char>, p: Seq<char>) -> bool {
    p.len() <= s.len() && s.skip(s.len() - p.len()) == p
}

pub open spec fn all_digits(s: Seq<char>) -> bool {
    forall|i: int| 0 <= i < s.len() ==> is_digit(#[trigger] s[i])
}

pub open spec fn digit_value(c: char) -> int {
    c as int - '0' as int
}

/// The value of a string of decimal digits, most significant first.
pub open spec fn digits_value(s: Seq<char>) -> int
    decreases s.len(),
{
    if s.len() == 0 {
        0
    } else {
        10 * digits_value(s.drop_last()) + digit_value(s.last())
    }
}

pub open spec fn i64_in_range(v: int) -> bool {
    i64::MIN <= v <= i64::MAX
}

/// What `str::parse::<i64>` accepts: an optional sign, then one or more decimal
/// digits whose value fits in an `i64`.
pub open spec fn parse_i64(s: Seq<char>) -> Option<i64> {
    let neg = s.len() > 0 && s[0] == '-';
    let d = if s.len() > 0 && (s[0] == '-' || s[0] == '+') {
        s.drop_first()
    } else {
        s
    };
    let v = if neg {
        -digits_value(d)
    } else {
        digits_value(d)
    };
    if d.len() > 0 && all_digits(d) && i64_in_range(v) {
        Some(v as i64)
    } else {
        None
    }
}

pub open spec fn digit_char(d: nat) -> char {
    if d == 0 {
        '0'
    } else if d == 1 {
        '1'
    } else if d == 2 {
        '2'
    } else if d == 3 {
        '3'
    } else if d == 4 {
        '4'
    } else if d == 5 {
        '5'
    } else if d == 6 {
        '6'
    } else if d == 7 {
        '7'
    } else if d == 8 {
        '8'
    } else {
        '9'
    }
}

/// Decimal digits of `n`, without leading zeros.
pub open spec fn decimal(n: nat) -> Seq<char>
    decreases n,
{
    if n < 10 {
        seq![digit_char(n)]
    } else {
        decimal(n / 10).push(digit_char(n % 10))
    }
}

/// The decimal text of `n`, as `Display` writes an `i64`.
pub open spec fn i64_text(n: i64) -> Seq<char> {
    if n < 0 {
        seq!['-'] + decimal((-n) as nat)
    } else {
        decimal(n as nat)
    }
}

/// `names` joined by single spaces.
pub open spec fn join_spaced(names: Seq<Seq<char>>) -> Seq<char>
    decreases names.len(),
{
    if names.len() == 0 {
        Seq::<char>::empty()
    } else if names.len() == 1 {
        names[0]
    } else {
        join_spaced(names.drop_last()) + seq![' '] + names.last()
    }
}

/// A word that whitespace splitting gives back unchanged.
pub open spec fn is_word(w: Seq<char>) -> bool {
    w.len() > 0 && forall|i: int| 0 <= i < w.len() ==> !is_ws(#[trigger] w[i])
}

pub open spec fn slice_of(s: Seq<char>, lo: int, hi: int) -> Seq<char> {
    s.subrange(lo, hi)
}

// ---------------------------------------------------------------- lemmas

pub proof fn lemma_split_on_nonempty<T>(s: Seq<T>, sep: T)
    ensures
        split_on(s, sep).len() >= 1,
    decreases s.len(),
{
    if s.len() > 0 {
        lemma_split_on_nonempty(s.drop_last(), sep);
    }
}

pub proof fn lemma_words_last(s: Seq<char>)
    ensures
        s.len() > 0 && !is_ws(s.last()) ==> words(s).len() >= 1,
    decreases s.len(),
{
    if s.len() > 0 {
        lemma_words_last(s.drop_last());
    }
}


/// Splitting distributes over a separator between two texts.
pub proof fn lemma_split_concat(a: Seq<char>, b: Seq<char>, sep: char)
    ensures
        split_on(a + seq![sep] + b, sep) == split_on(a, sep) + split_on(b, sep),
    decreases b.len(),
{
    if b.len() == 0 {
        assert(a + seq![sep] + b =~= a.push(sep));
        assert((a.push(sep)).drop_last() =~= a);
        assert(split_on(a, sep) + split_on(b, sep) =~= split_on(a, sep).push(Seq::<char>::empty()));
    } else {
        let b0 = b.drop_last();
        lemma_split_concat(a, b0, sep);
        lemma_split_on_nonempty(b0, sep);
        lemma_split_on_nonempty(a, sep);
        let whole = a + seq![sep] + b;
        assert(whole.drop_last() =~= a + seq![sep] + b0);
        assert(whole.last() == b.last());
        let x = split_on(a, sep);
        let y = split_on(b0, sep);
        if b.last() == sep {
            assert((x + y).push(Seq::<char>::empty()) =~= x + y.push(Seq::<char>::empty()));
        } else {
            assert((x + y).update((x + y).len() - 1, (x + y).last().push(b.last())) =~= x + y.update(
                y.len() - 1,
                y.last().push(b.last()),
            ));
        }
    }
}

/// A text without the separator is a single piece.
pub proof fn lemma_split_single(a: Seq<char>, sep: char)
    requires
        forall|i: int| 0 <= i < a.len() ==> a[i] != sep,
    ensures
        split_on(a, sep) == seq![a],
    decreases a.len(),
{
    if a.len() > 0 {
        let a0 = a.drop_last();
        assert(a.last() == a[a.len() - 1]);
        lemma_split_single(a0, sep);
        assert(a0.push(a.last()) =~= a);
        assert(seq![a0].update(0, a0.push(a.last())) =~= seq![a]);
    } else {
        assert(a =~= Seq::<char>::empty());
    }
}

/// Words distribute over a space between two texts.
pub proof fn lemma_words_concat(x: Seq<char>, y: Seq<char>)
    ensures
        words(x + seq![' '] + y) == words(x) + words(y),
    decreases y.len(),
{
    let whole = x + seq![' '] + y;
    if y.len() == 0 {
        assert(whole.drop_last() =~= x);
        assert(is_ws(' '));
        assert(words(x) + words(y) =~= words(x));
    } else {
        let y0 = y.drop_last();
        lemma_words_concat(x, y0);
        assert(whole.drop_last() =~= x + seq![' '] + y0);
        assert(whole.last() == y.last());
        let a = words(x);
        let b = words(y0);
        if is_ws(y.last()) {
        } else {
            assert(whole[whole.len() - 2] == if y0.len() > 0 {
                y0.last()
            } else {
                ' '
            });
            if y0.len() > 0 && !is_ws(y0.last()) {
                assert(y[y.len() - 2] == y0.last());
                lemma_words_last(y0);
                assert((a + b).update((a + b).len() - 1, (a + b).last().push(y.last())) =~= a
                    + b.update(b.len() - 1, b.last().push(y.last())));
            } else {
                if y0.len() > 0 {
                    assert(y[y.len() - 2] == y0.last());
                }
                assert((a + b).push(seq![y.last()]) =~= a + b.push(seq![y.last()]));
            }
        }
    }
}

/// A word splits into itself alone.
pub proof fn lemma_words_single(w: Seq<char>)
    requires
        is_word(w),
    ensures
        words(w) == seq![w],
    decreases w.len(),
{
    let w0 = w.drop_last();
    assert(!is_ws(w.last()));
    if w0.len() == 0 {
        assert(words(w0) =~= Seq::<Seq<char>>::empty());
        assert(seq![w.last()] =~= w);
        assert(Seq::<Seq<char>>::empty().push(seq![w.last()]) =~= seq![w]);
    } else {
        assert(is_word(w0)) by {
            assert forall|i: int| 0 <= i < w0.len() implies !is_ws(#[trigger] w0[i]) by {
                assert(w0[i] == w[i]);
            };
        };
        lemma_words_single(w0);
        assert(w[w.len() - 2] == w0.last());
        assert(w0.push(w.last()) =~= w);
        assert(seq![w0].update(0, w0.push(w.last())) =~= seq![w]);
    }
}

/// Words joined by spaces split back into the same words.
pub proof fn lemma_words_join(names: Seq<Seq<char>>)
    requires
        forall|i: int| 0 <= i < names.len() ==> is_word(#[trigger] names[i]),
    ensures
        words(join_spaced(names)) == names,
    decreases names.len(),
{
    if names.len() == 0 {
        assert(words(Seq::<char>::empty()) =~= names);
    } else if names.len() == 1 {
        lemma_words_single(names[0]);
        assert(seq![names[0]] =~= names);
    } else {
        let init = names.drop_last();
        assert forall|i: int| 0 <= i < init.len() implies is_word(#[trigger] init[i]) by {
            assert(init[i] == names[i]);
        };
        lemma_words_join(init);
        lemma_words_concat(join_spaced(init), names.last());
        lemma_words_single(names.last());
        assert(init + seq![names.last()] =~= names);
    }
}

/// Every character of a joined list is a space or a character of a name.
pub proof fn lemma_join_chars(names: Seq<Seq<char>>)
    requires
        forall|i: int| 0 <= i < names.len() ==> is_word(#[trigger] names[i]),
    ensures
        forall|k: int|
            0 <= k < join_spaced(names).len() ==> #[trigger] join_spaced(names)[k] == ' '
                || !is_ws(join_spaced(names)[k]),
        names.len() > 0 ==> join_spaced(names).len() > 0,
    decreases names.len(),
{
    if names.len() >= 2 {
        let init = names.drop_last();
        assert forall|i: int| 0 <= i < init.len() implies is_word(#[trigger] init[i]) by {
            assert(init[i] == names[i]);
        };
        lemma_join_chars(init);
        let j = join_spaced(init);
        let l = names.last();
        assert(is_word(l));
        assert forall|k: int| 0 <= k < join_spaced(names).len() implies #[trigger] join_spaced(
            names,
        )[k] == ' ' || !is_ws(join_spaced(names)[k]) by {
            if k < j.len() {
                assert(join_spaced(names)[k] == j[k]);
            } else if k > j.len() {
                assert(join_spaced(names)[k] == l[k - j.len() - 1]);
            }
        };
    } else if names.len() == 1 {
        assert(is_word(names[0]));
    }
}

pub proof fn lemma_decimal(n: nat)
    ensures
        decimal(n).len() >= 1,
        all_digits(decimal(n)),
        digits_value(decimal(n)) == n,
    decreases n,
{
    if n >= 10 {
        lemma_decimal(n / 10);
        let d = decimal(n / 10);
        let c = digit_char(n % 10);
        assert(decimal(n) == d.push(c));
        assert(d.push(c).drop_last() =~= d);
        assert(digit_value(c) == n % 10);
        assert(digits_value(d.push(c)) == 10 * digits_value(d) + digit_value(c));
        assert(all_digits(d.push(c))) by {
            assert forall|i: int| 0 <= i < d.push(c).len() implies is_digit(#[trigger] d.push(c)[i]) by {
                if i < d.len() {
                    assert(d.push(c)[i] == d[i]);
                }
            };
        };
        assert(n == 10 * (n / 10) + n % 10);
    } else {
        let c = digit_char(n);
        assert(seq![c].drop_last() =~= Seq::<char>::empty());
        assert(digit_value(c) == n);
        assert(digits_value(seq![c]) == 10 * digits_value(Seq::<char>::empty()) + digit_value(c));
    }
}

/// The decimal text of an `i64` reads back as the same number, and starts and
/// ends with characters that are not whitespace.
pub proof fn lemma_i64_text(n: i64)
    ensures
        parse_i64(i64_text(n)) == Some(n),
        i64_text(n).len() >= 1,
        !is_ws(i64_text(n)[0]),
        !is_ws(i64_text(n).last()),
        forall|k: int|
            0 <= k < i64_text(n).len() ==> #[trigger] i64_text(n)[k] == '-' || is_digit(
                i64_text(n)[k],
            ),
{
    let t = i64_text(n);
    if n < 0 {
        let m = (-n) as nat;
        lemma_decimal(m);
        assert(t.drop_first() =~= decimal(m));
        assert forall|k: int| 0 <= k < t.len() implies #[trigger] t[k] == '-' || is_digit(t[k]) by {
            if k > 0 {
                assert(t[k] == decimal(m)[k - 1]);
            }
        };
        assert(t.last() == decimal(m).last());
        assert(is_digit(decimal(m)[decimal(m).len() - 1]));
    } else {
        lemma_decimal(n as nat);
        assert(is_digit(t[0]));
        assert(is_digit(t[t.len() - 1]));
    }
}

/// Surrounding a text by a leading space does not change what trimming gives.
pub proof fn lemma_trim_spaced(x: Seq<char>)
    requires
        x.len() >= 1,
        !is_ws(x[0]),
        !is_ws(x.last()),
    ensures
        trim(seq![' '] + x) == x,
        trim(x) == x,
{
    let s = seq![' '] + x;
    assert(s.drop_first() =~= x);
    assert(is_ws(' '));
    assert(trim_start(s) == trim_start(x));
    assert(trim_start(x) == x);
    assert(trim_end(x) == x);
}

/// Every piece that whitespace splitting gives is a word.
pub proof fn lemma_words_are_words(s: Seq<char>)
    ensures
        forall|k: int| 0 <= k < words(s).len() ==> is_word(#[trigger] words(s)[k]),
    decreases s.len(),
{
    if s.len() > 0 {
        let init = s.drop_last();
        lemma_words_are_words(init);
        let w = words(init);
        let c = s.last();
        if !is_ws(c) {
            if s.len() >= 2 && !is_ws(s[s.len() - 2]) {
                assert(init.last() == s[s.len() - 2]);
                lemma_words_last(init);
                let grown = w.last().push(c);
                assert(is_word(w[w.len() - 1]));
                assert(is_word(grown)) by {
                    assert forall|i: int| 0 <= i < grown.len() implies !is_ws(#[trigger] grown[i]) by {
                        if i < w.last().len() {
                            assert(grown[i] == w[w.len() - 1][i]);
                        }
                    };
                };
                assert forall|k: int| 0 <= k < words(s).len() implies is_word(#[trigger] words(s)[k]) by {
                    if k < w.len() - 1 {
                        assert(words(s)[k] == w[k]);
                    }
                };
            } else {
                assert(is_word(seq![c]));
                assert forall|k: int| 0 <= k < words(s).len() implies is_word(#[trigger] words(s)[k]) by {
                    if k < w.len() {
                        assert(words(s)[k] == w[k]);
                    }
                };
            }
        }
    }
}

// ---------------------------------------------------------------- executable

/// The characters of `s`, in order.
pub fn chars_of(s: &str) -> (r: Vec<char>)
    ensures
        r@ == s@,
{
    let n = s.unicode_len();
    let mut it = s.chars();
    let mut v: Vec<char> = Vec::new();
    while v.len() < n
        invariant
            n == s@.len(),
            it.remaining() == s@.skip(v@.len() as int),
            v@ == s@.take(v@.len() as int),
            v@.len() <= n,
        decreases n - v@.len(),
    {
        if let Some(c) = it.next() {
            v.push(c);
            assert(v@ =~= s@.take(v@.len() as int));
        } else {
            // `remaining` still holds `n - v.len()` characters, so `next` cannot be empty here.
            assert(false);
        }
    }
    assert(v@ =~= s@);
    v
}

/// The texts that a list of ranges of `cs` delimits.
pub open spec fn pieces(cs: Seq<char>, r: Seq<(usize, usize)>) -> Seq<Seq<char>> {
    r.map_values(|p: (usize, usize)| slice_of(cs, p.0 as int, p.1 as int))
}

pub open spec fn ranges_within(r: Seq<(usize, usize)>, lo: int, hi: int) -> bool {
    forall|k: int| 0 <= k < r.len() ==> lo <= (#[trigger] r[k]).0 <= r[k].1 <= hi
}

/// The ranges of the pieces of `cs[lo..hi]` between occurrences of `sep`.
pub fn split_ranges(cs: &Vec<char>, lo: usize, hi: usize, sep: char) -> (r: Vec<(usize, usize)>)
    requires
        lo <= hi <= cs@.len(),
    ensures
        pieces(cs@, r@) == split_on(slice_of(cs@, lo as int, hi as int), sep),
        ranges_within(r@, lo as int, hi as int),
{
    let mut r: Vec<(usize, usize)> = Vec::new();
    let mut start = lo;
    let mut i = lo;
    assert(slice_of(cs@, lo as int, lo as int) =~= Seq::<char>::empty());
    assert(pieces(cs@, r@) =~= Seq::<Seq<char>>::empty());
    while i < hi
        invariant
            lo <= start <= i <= hi <= cs@.len(),
            split_on(slice_of(cs@, lo as int, i as int), sep) == pieces(cs@, r@).push(
                slice_of(cs@, start as int, i as int),
            ),
            ranges_within(r@, lo as int, hi as int),
        decreases hi - i,
    {
        let c = cs[i];
        let ghost s1 = slice_of(cs@, lo as int, i as int + 1);
        assert(s1.drop_last() =~= slice_of(cs@, lo as int, i as int));
        assert(s1.last() == c);
        if c == sep {
            let ghost before = r@;
            r.push((start, i));
            start = i + 1;
            assert(slice_of(cs@, start as int, i as int + 1) =~= Seq::<char>::empty());
            assert(pieces(cs@, r@) =~= pieces(cs@, r@.drop_last()).push(
                slice_of(cs@, r@.last().0 as int, r@.last().1 as int),
            ));
            assert(r@.drop_last() =~= before);
        } else {
            assert(slice_of(cs@, start as int, i as int).push(c) =~= slice_of(cs@, start as int, i as int + 1));
            assert(pieces(cs@, r@).push(slice_of(cs@, start as int, i as int + 1)) =~= pieces(cs@, r@).push(
                slice_of(cs@, start as int, i as int),
            ).update(pieces(cs@, r@).len() as int, slice_of(cs@, start as int, i as int + 1)));
        }
        i = i + 1;
    }
    let ghost before = r@;
    r.push((start, hi));
    assert(pieces(cs@, r@) =~= pieces(cs@, before).push(slice_of(cs@, start as int, hi as int)));
    r
}

/// The ranges of the whitespace-separated words of `cs[lo..hi]`.
pub fn word_ranges(cs: &Vec<char>, lo: usize, hi: usize) -> (r: Vec<(usize, usize)>)
    requires
        lo <= hi <= cs@.len(),
    ensures
        pieces(cs@, r@) == words(slice_of(cs@, lo as int, hi as int)),
        ranges_within(r@, lo as int, hi as int),
{
    let mut r: Vec<(usize, usize)> = Vec::new();
    let mut start = lo;
    let mut in_word = false;
    let mut i = lo;
    assert(pieces(cs@, r@) =~= Seq::<Seq<char>>::empty());
    while i < hi
        invariant
            lo <= start <= i <= hi <= cs@.len(),
            in_word <==> (i > lo && !is_ws(cs@[i - 1])),
            in_word ==> words(slice_of(cs@, lo as int, i as int)) == pieces(cs@, r@).push(
                slice_of(cs@, start as int, i as int),
            ),
            !in_word ==> words(slice_of(cs@, lo as int, i as int)) == pieces(cs@, r@),
            ranges_within(r@, lo as int, hi as int),
        decreases hi - i,
    {
        let c = cs[i];
        let ghost s1 = slice_of(cs@, lo as int, i as int + 1);
        assert(s1.drop_last() =~= slice_of(cs@, lo as int, i as int));
        assert(s1.last() == c);
        if is_whitespace(c) {
            if in_word {
                let ghost before = r@;
                r.push((start, i));
                assert(pieces(cs@, r@) =~= pieces(cs@, before).push(
                    slice_of(cs@, start as int, i as int),
                ));
            }
            in_word = false;
        } else {
            if in_word {
                assert(s1[s1.len() - 2] == cs@[i - 1]);
                assert(slice_of(cs@, start as int, i as int).push(c) =~= slice_of(
                    cs@,
                    start as int,
                    i as int + 1,
                ));
                assert(pieces(cs@, r@).push(slice_of(cs@, start as int, i as int + 1))
                    =~= pieces(cs@, r@).push(slice_of(cs@, start as int, i as int)).update(
                    pieces(cs@, r@).len() as int,
                    slice_of(cs@, start as int, i as int + 1),
                ));
            } else {
                if i > lo {
                    assert(s1[s1.len() - 2] == cs@[i - 1]);
                }
                start = i;
                assert(slice_of(cs@, start as int, i as int + 1) =~= seq![c]);
            }
            in_word = true;
        }
        i = i + 1;
    }
    if in_word {
        let ghost before = r@;
        r.push((start, hi));
        assert(pieces(cs@, r@) =~= pieces(cs@, before).push(slice_of(cs@, start as int, hi as int)));
    }
    r
}

/// The range of `cs[lo..hi]` that is left once surrounding whitespace is cut.
pub fn trim_range(cs: &Vec<char>, lo: usize, hi: usize) -> (r: (usize, usize))
    requires
        lo <= hi <= cs@.len(),
    ensures
        lo <= r.0 <= r.1 <= hi,
        slice_of(cs@, r.0 as int, r.1 as int) == trim(slice_of(cs@, lo as int, hi as int)),
{
    let mut a = lo;
    while a < hi && is_whitespace(cs[a])
        invariant
            lo <= a <= hi <= cs@.len(),
            trim_start(slice_of(cs@, lo as int, hi as int)) == trim_start(
                slice_of(cs@, a as int, hi as int),
            ),
        decreases hi - a,
    {
        assert(slice_of(cs@, a as int, hi as int).drop_first() =~= slice_of(
            cs@,
            a as int + 1,
            hi as int,
        ));
        a = a + 1;
    }
    assert(trim_start(slice_of(cs@, a as int, hi as int)) == slice_of(cs@, a as int, hi as int));
    let mut b = hi;
    while b > a && is_whitespace(cs[b - 1])
        invariant
            lo <= a <= b <= hi <= cs@.len(),
            trim_end(slice_of(cs@, a as int, hi as int)) == trim_end(
                slice_of(cs@, a as int, b as int),
            ),
        decreases b - a,
    {
        assert(slice_of(cs@, a as int, b as int).drop_last() =~= slice_of(
            cs@,
            a as int,
            b as int - 1,
        ));
        b = b - 1;
    }
    (a, b)
}

/// Whether `cs[lo..hi]` starts with `p`.
pub fn starts_with(cs: &Vec<char>, lo: usize, hi: usize, p: &str) -> (r: bool)
    requires
        lo <= hi <= cs@.len(),
    ensures
        r == has_prefix(slice_of(cs@, lo as int, hi as int), p@),
{
    let pc = chars_of(p);
    if pc.len() > hi - lo {
        return false;
    }
    let mut k: usize = 0;
    while k < pc.len()
        invariant
            lo <= hi <= cs@.len(),
            pc@ == p@,
            pc@.len() <= hi - lo,
            k <= pc@.len(),
            forall|j: int| 0 <= j < k ==> cs@[lo + j] == pc@[j],
        decreases pc@.len() - k,
    {
        if cs[lo + k] != pc[k] {
            assert(slice_of(cs@, lo as int, hi as int).take(p@.len() as int)[k as int] != p@[k as int]);
            return false;
        }
        k = k + 1;
    }
    assert(slice_of(cs@, lo as int, hi as int).take(p@.len() as int) =~= p@);
    true
}

/// Whether `cs[lo..hi]` is exactly `p`.
pub fn equals(cs: &Vec<char>, lo: usize, hi: usize, p: &str) -> (r: bool)
    requires
        lo <= hi <= cs@.len(),
    ensures
        r == (slice_of(cs@, lo as int, hi as int) == p@),
{
    let pc = chars_of(p);
    if pc.len() != hi - lo {
        assert(slice_of(cs@, lo as int, hi as int).len() != p@.len());
        return false;
    }
    let r = starts_with(cs, lo, hi, p);
    assert(slice_of(cs@, lo as int, hi as int) =~= slice_of(cs@, lo as int, hi as int).take(
        p@.len() as int,
    ));
    r
}

/// Whether `cs[lo..hi]` ends with `p`.
pub fn ends_with(cs: &Vec<char>, lo: usize, hi: usize, p: &str) -> (r: bool)
    requires
        lo <= hi <= cs@.len(),
    ensures
        r == has_suffix(slice_of(cs@, lo as int, hi as int), p@),
{
    let pc = chars_of(p);
    if pc.len() > hi - lo {
        return false;
    }
    let r = equals(cs, hi - pc.len(), hi, p);
    assert(slice_of(cs@, lo as int, hi as int).skip(hi - lo - p@.len()) =~= slice_of(
        cs@,
        hi - p@.len(),
        hi as int,
    ));
    r
}

pub proof fn lemma_digits_value_grows(s: Seq<char>, c: char)
    requires
        all_digits(s),
        is_digit(c),
    ensures
        0 <= digits_value(s) <= digits_value(s.push(c)),
        digits_value(s.push(c)) == 10 * digits_value(s) + digit_value(c),
    decreases s.len(),
{
    assert(s.push(c).drop_last() =~= s);
    if s.len() > 0 {
        assert(all_digits(s.drop_last()));
        lemma_digits_value_grows(s.drop_last(), s.last());
        assert(s.drop_last().push(s.last()) =~= s);
    }
}

/// Whether every character of `cs[lo..hi]` is a hex digit.
pub fn all_hex(cs: &Vec<char>, lo: usize, hi: usize) -> (r: bool)
    requires
        lo <= hi <= cs@.len(),
    ensures
        r == forall|i: int| lo <= i < hi ==> is_hex(#[trigger] cs@[i]),
{
    let mut i = lo;
    while i < hi
        invariant
            lo <= i <= hi <= cs@.len(),
            forall|j: int| lo <= j < i ==> is_hex(#[trigger] cs@[j]),
        decreases hi - i,
    {
        let c = cs[i];
        if !(('0' <= c && c <= '9') || ('a' <= c && c <= 'f') || ('A' <= c && c <= 'F')) {
            return false;
        }
        i = i + 1;
    }
    true
}

/// The value of `cs[lo..hi]` read as `str::parse::<i64>` reads it.
pub fn parse_i64_range(cs: &Vec<char>, lo: usize, hi: usize) -> (r: Option<i64>)
    requires
        lo <= hi <= cs@.len(),
    ensures
        r == parse_i64(slice_of(cs@, lo as int, hi as int)),
{
    let ghost s = slice_of(cs@, lo as int, hi as int);
    let mut a = lo;
    let mut neg = false;
    if a < hi && (cs[a] == '-' || cs[a] == '+') {
        neg = cs[a] == '-';
        a = a + 1;
        assert(s.drop_first() =~= slice_of(cs@, a as int, hi as int));
    } else {
        assert(s =~= slice_of(cs@, a as int, hi as int));
    }
    let ghost d = slice_of(cs@, a as int, hi as int);
    if a == hi {
        return None;
    }
    let limit: u128 = 9223372036854775808;
    let mut acc: u128 = 0;
    let mut over = false;
    let mut i = a;
    assert(slice_of(cs@, a as int, a as int) =~= Seq::<char>::empty());
    while i < hi
        invariant
            lo <= a <= i <= hi <= cs@.len(),
            limit == 9223372036854775808,
            s == slice_of(cs@, lo as int, hi as int),
            d == slice_of(cs@, a as int, hi as int),
            neg == (s.len() > 0 && s[0] == '-'),
            (s.len() > 0 && (s[0] == '-' || s[0] == '+')) ==> d == s.drop_first(),
            !(s.len() > 0 && (s[0] == '-' || s[0] == '+')) ==> d == s,
            all_digits(slice_of(cs@, a as int, i as int)),
            !over ==> acc == digits_value(slice_of(cs@, a as int, i as int)) && acc <= limit,
            over ==> digits_value(slice_of(cs@, a as int, i as int)) > limit,
        decreases hi - i,
    {
        let c = cs[i];
        if !('0' <= c && c <= '9') {
            assert(!all_digits(d)) by {
                assert(d[i - a] == c);
            };
            return None;
        }
        let ghost pre = slice_of(cs@, a as int, i as int);
        assert(slice_of(cs@, a as int, i as int + 1) =~= pre.push(c));
        proof {
            lemma_digits_value_grows(pre, c);
        }
        if !over {
            let dv = (c as u32 - '0' as u32) as u128;
            acc = acc * 10 + dv;
            if acc > limit {
                over = true;
            }
        }
        i = i + 1;
    }
    assert(slice_of(cs@, a as int, i as int) =~= d);
    if over {
        return None;
    }
    if neg {
        if acc <= limit {
            Some((-(acc as i128)) as i64)
        } else {
            None
        }
    } else {
        if acc < limit {
            Some(acc as i64)
        } else {
            None
        }
    }
}

/// One decimal digit as text.
fn digit_str(d: u64) -> (r: &'static str)
    requires
        d < 10,
    ensures
        r@ == seq![digit_char(d as nat)],
{
    if d == 0 {
        proof { reveal_strlit("0"); }
        "0"
    } else if d == 1 {
        proof { reveal_strlit("1"); }
        "1"
    } else if d == 2 {
        proof { reveal_strlit("2"); }
        "2"
    } else if d == 3 {
        proof { reveal_strlit("3"); }
        "3"
    } else if d == 4 {
        proof { reveal_strlit("4"); }
        "4"
    } else if d == 5 {
        proof { reveal_strlit("5"); }
        "5"
    } else if d == 6 {
        proof { reveal_strlit("6"); }
        "6"
    } else if d == 7 {
        proof { reveal_strlit("7"); }
        "7"
    } else if d == 8 {
        proof { reveal_strlit("8"); }
        "8"
    } else {
        proof { reveal_strlit("9"); }
        "9"
    }
}

/// Appends the decimal digits of `m`.
pub fn push_decimal(out: &mut String, m: u64)
    ensures
        final(out)@ == old(out)@ + decimal(m as nat),
    decreases m,
{
    if m >= 10 {
        push_decimal(out, m / 10);
    }
    out.append(digit_str(m % 10));
    assert(final(out)@ =~= old(out)@ + decimal(m as nat));
}

/// Appends the decimal text of `n`.
pub fn push_i64(out: &mut String, n: i64)
    ensures
        final(out)@ == old(out)@ + i64_text(n),
{
    if n < 0 {
        proof { reveal_strlit("-"); }
        out.append("-");
        let m = (-(n as i128)) as u64;
        push_decimal(out, m);
        assert(final(out)@ =~= old(out)@ + i64_text(n));
    } else {
        push_decimal(out, n as u64);
    }
}

} // verus!

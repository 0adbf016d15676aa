//! Character and string helpers shared by the parsers: whitespace and
//! digit classification, decimal parsing and rendering, splitting, and
//! string equality.

use vstd::prelude::*;

verus! {

/// The characters treated as whitespace when tokenizing policy lines:
/// the Unicode `White_Space` set.
pub open spec fn is_space_char(c: char) -> bool {
    c == ' ' || c == '\t' || c == '\n' || c == '\r' || c == '\u{b}' || c == '\u{c}'
        || c == '\u{85}' || c == '\u{a0}' || c == '\u{1680}'
        || ('\u{2000}' <= c && c <= '\u{200a}')
        || c == '\u{2028}' || c == '\u{2029}' || c == '\u{202f}' || c == '\u{205f}'
        || c == '\u{3000}'
}

pub fn space_char(c: char) -> (r: bool)
    ensures
        r == is_space_char(c),
{
    c == ' ' || c == '\t' || c == '\n' || c == '\r' || c == '\u{b}' || c == '\u{c}'
        || c == '\u{85}' || c == '\u{a0}' || c == '\u{1680}'
        || ('\u{2000}' <= c && c <= '\u{200a}')
        || c == '\u{2028}' || c == '\u{2029}' || c == '\u{202f}' || c == '\u{205f}'
        || c == '\u{3000}'
}

pub open spec fn is_digit_char(c: char) -> bool {
    '0' <= c && c <= '9'
}

pub open spec fn digit_val(c: char) -> nat {
    (c as nat - '0' as nat) as nat
}

pub open spec fn all_digits(s: Seq<char>) -> bool {
    forall|i: int| 0 <= i < s.len() ==> is_digit_char(#[trigger] s[i])
}

/// The value of a sequence of decimal digits, most significant first.
pub open spec fn digits_val(s: Seq<char>) -> nat
    decreases s.len(),
{
    if s.len() == 0 {
        0
    } else {
        digits_val(s.drop_last()) * 10 + digit_val(s.last())
    }
}

/// What `u16::from_str` accepts: an optional leading `+`, then at least
/// one decimal digit, with a value that fits in 16 bits.
pub open spec fn parse_u16_spec(s: Seq<char>) -> Option<u16> {
    let body = if s.len() >= 1 && s[0] == '+' {
        s.skip(1)
    } else {
        s
    };
    if body.len() >= 1 && all_digits(body) && digits_val(body) <= 65535 {
        Some(digits_val(body) as u16)
    } else {
        None
    }
}

/// What `u64::from_str` accepts, in the same way.
pub open spec fn parse_u64_spec(s: Seq<char>) -> Option<u64> {
    let body = if s.len() >= 1 && s[0] == '+' {
        s.skip(1)
    } else {
        s
    };
    if body.len() >= 1 && all_digits(body) && digits_val(body) <= u64::MAX {
        Some(digits_val(body) as u64)
    } else {
        None
    }
}

proof fn lemma_digits_val_grows(s: Seq<char>)
    requires
        s.len() >= 1,
    ensures
        digits_val(s) >= digits_val(s.drop_last()),
{
}

pub fn parse_u16(s: &str) -> (r: Option<u16>)
    ensures
        r == parse_u16_spec(s@),
{
    let n: usize = s.unicode_len();
    let start: usize = if n >= 1 && s.get_char(0) == '+' {
        1
    } else {
        0
    };
    let ghost body = if start == 1 { s@.skip(1) } else { s@ };
    if n == start {
        return None;
    }
    let mut i: usize = start;
    let mut acc: u32 = 0;
    let mut over: bool = false;
    while i < n
        invariant
            start <= i <= n,
            start <= 1,
            n == s@.len(),
            start == 1 <==> (n >= 1 && s@[0] == '+'),
            body == (if start == 1 { s@.skip(1) } else { s@ }),
            forall|j: int| 0 <= j < i - start ==> is_digit_char(#[trigger] body[j]),
            !over ==> acc == digits_val(body.take(i - start)) && acc <= 65535,
            over ==> digits_val(body.take(i - start)) > 65535,
        decreases n - i,
    {
        let c = s.get_char(i);
        proof {
            if start == 1 {
                assert(s@.skip(1)[i - 1] == s@[i as int]);
            }
            assert(body[i - start] == s@[i as int]);
        }
        if !('0' <= c && c <= '9') {
            assert(!all_digits(body));
            return None;
        }
        let d: u32 = c as u32 - 48;
        assert(d == digit_val(c)) by {
            assert('0' as u32 == 48);
        }
        proof {
            assert(body.take(i - start + 1).drop_last() =~= body.take(i - start));
            assert(body.take(i - start + 1).last() == body[i - start]);
        }
        if !over {
            let v: u32 = acc * 10 + d;
            if v > 65535 {
                over = true;
            } else {
                acc = v;
            }
        } else {
            proof {
                lemma_digits_val_grows(body.take(i - start + 1));
            }
        }
        i = i + 1;
    }
    proof {
        assert(body.take(i - start) =~= body);
    }
    if over {
        None
    } else {
        Some(acc as u16)
    }
}

pub fn parse_u64(s: &str) -> (r: Option<u64>)
    ensures
        r == parse_u64_spec(s@),
{
    let n: usize = s.unicode_len();
    let start: usize = if n >= 1 && s.get_char(0) == '+' {
        1
    } else {
        0
    };
    let ghost body = if start == 1 { s@.skip(1) } else { s@ };
    if n == start {
        return None;
    }
    let mut i: usize = start;
    let mut acc: u64 = 0;
    let mut over: bool = false;
    while i < n
        invariant
            start <= i <= n,
            start <= 1,
            n == s@.len(),
            start == 1 <==> (n >= 1 && s@[0] == '+'),
            body == (if start == 1 { s@.skip(1) } else { s@ }),
            forall|j: int| 0 <= j < i - start ==> is_digit_char(#[trigger] body[j]),
            !over ==> acc == digits_val(body.take(i - start)),
            over ==> digits_val(body.take(i - start)) > u64::MAX,
        decreases n - i,
    {
        let c = s.get_char(i);
        proof {
            if start == 1 {
                assert(s@.skip(1)[i - 1] == s@[i as int]);
            }
            assert(body[i - start] == s@[i as int]);
        }
        if !('0' <= c && c <= '9') {
            assert(!all_digits(body));
            return None;
        }
        let d: u64 = c as u64 - 48;
        assert(d == digit_val(c)) by {
            assert('0' as u64 == 48);
        }
        proof {
            assert(body.take(i - start + 1).drop_last() =~= body.take(i - start));
            assert(body.take(i - start + 1).last() == body[i - start]);
        }
        if !over {
            if acc > u64::MAX / 10 {
                over = true;
            } else {
                let v: u64 = acc * 10;
                if d > u64::MAX - v {
                    over = true;
                } else {
                    acc = v + d;
                }
            }
        } else {
            proof {
                lemma_digits_val_grows(body.take(i - start + 1));
            }
        }
        i = i + 1;
    }
    proof {
        assert(body.take(i - start) =~= body);
    }
    if over {
        None
    } else {
        Some(acc)
    }
}

/// The decimal rendering of a number, most significant digit first and
/// without leading zeroes (a single `0` for zero itself).
pub open spec fn dec_str(n: nat) -> Seq<char>
    decreases n,
{
    if n < 10 {
        seq![digit_char(n)]
    } else {
        dec_str(n / 10) + seq![digit_char(n % 10)]
    }
}

pub open spec fn digit_char(n: nat) -> char {
    ((48 + n % 10) as u8) as char
}

/// Relies on `String::push`: appends exactly the given character.
#[verifier::external_body]
pub(crate) fn push_char(s: &mut String, c: char)
    ensures
        final(s)@ == old(s)@.push(c),
{
    s.push(c);
}

fn digit_of(d: u64) -> (c: char)
    requires
        d < 10,
    ensures
        c == digit_char(d as nat),
{
    (48 + d as u8) as char
}

pub fn u64_to_string(n: u64) -> (r: String)
    ensures
        r@ == dec_str(n as nat),
{
    let mut m: u64 = n;
    let mut tail: Vec<char> = Vec::new();
    while m >= 10
        invariant
            dec_str(n as nat) == dec_str(m as nat) + tail@.reverse(),
        decreases m,
    {
        let c = digit_of(m % 10);
        proof {
            assert(tail@.push(c).reverse() =~= seq![c] + tail@.reverse());
            assert(dec_str((m / 10) as nat) + (seq![c] + tail@.reverse()) =~= (dec_str(
                (m / 10) as nat,
            ) + seq![c]) + tail@.reverse());
        }
        tail.push(c);
        m = m / 10;
    }
    let mut out = String::new();
    push_char(&mut out, digit_of(m));
    assert(out@ =~= seq![digit_char(m as nat)]);
    let mut j: usize = tail.len();
    while j > 0
        invariant
            j <= tail.len(),
            dec_str(n as nat) == dec_str(m as nat) + tail@.reverse(),
            m < 10,
            out@ == seq![digit_char(m as nat)] + tail@.reverse().take(tail@.len() - j),
        decreases j,
    {
        j = j - 1;
        push_char(&mut out, tail[j]);
        proof {
            assert(tail@.reverse()[tail@.len() - 1 - j] == tail@[j as int]);
            assert(out@ =~= seq![digit_char(m as nat)] + tail@.reverse().take(
                tail@.len() - j,
            ));
        }
    }
    proof {
        assert(tail@.reverse().take(tail@.len() - 0) =~= tail@.reverse());
        assert(out@ =~= dec_str(n as nat));
    }
    out
}

/// Character-for-character string equality.
pub fn str_eq(a: &str, b: &str) -> (r: bool)
    ensures
        r == (a@ == b@),
{
    let n: usize = a.unicode_len();
    if n != b.unicode_len() {
        return false;
    }
    let mut i: usize = 0;
    while i < n
        invariant
            i <= n,
            n == a@.len() == b@.len(),
            forall|j: int| 0 <= j < i ==> a@[j] == b@[j],
        decreases n - i,
    {
        if a.get_char(i) != b.get_char(i) {
            return false;
        }
        i = i + 1;
    }
    proof {
        assert(a@ =~= b@);
    }
    true
}


/// How a splitting pass recognizes a separator character.
pub enum Sep {
    Exact(char),
    Space,
}

pub open spec fn sep_matches(k: Sep, c: char) -> bool {
    match k {
        Sep::Exact(x) => c == x,
        Sep::Space => is_space_char(c),
    }
}

/// Splitting a sequence at every separator character: the pieces
/// between separators, in order, empty pieces included.
pub open spec fn split_by(s: Seq<char>, k: Sep) -> Seq<Seq<char>>
    decreases s.len(),
{
    if s.len() == 0 {
        seq![Seq::<char>::empty()]
    } else if sep_matches(k, s[0]) {
        seq![Seq::<char>::empty()] + split_by(s.skip(1), k)
    } else {
        let rest = split_by(s.skip(1), k);
        seq![seq![s[0]] + rest[0]] + rest.skip(1)
    }
}

pub open spec fn split_on(s: Seq<char>, sep: char) -> Seq<Seq<char>> {
    split_by(s, Sep::Exact(sep))
}

/// What `str::split_whitespace` yields: the maximal runs of
/// non-whitespace characters, in order.
pub open spec fn whitespace_tokens(s: Seq<char>) -> Seq<Seq<char>> {
    split_by(s, Sep::Space).filter(|t: Seq<char>| t.len() != 0)
}

proof fn lemma_split_by_nonempty(s: Seq<char>, k: Sep)
    ensures
        split_by(s, k).len() >= 1,
    decreases s.len(),
{
    if s.len() != 0 {
        lemma_split_by_nonempty(s.skip(1), k);
    }
}

/// Reattaching a prefix to the first piece of a split.
spec fn prepend_first(pre: Seq<char>, pieces: Seq<Seq<char>>) -> Seq<Seq<char>> {
    seq![pre + pieces[0]] + pieces.skip(1)
}

proof fn lemma_prepend_first_empty(pieces: Seq<Seq<char>>)
    requires
        pieces.len() >= 1,
    ensures
        prepend_first(Seq::<char>::empty(), pieces) == pieces,
{
    assert(Seq::<char>::empty() + pieces[0] =~= pieces[0]);
    assert(prepend_first(Seq::<char>::empty(), pieces) =~= pieces);
}

/// Consuming a separator ends the current piece.
proof fn lemma_prepend_split_sep(cur: Seq<char>, s: Seq<char>, k: Sep)
    requires
        s.len() >= 1,
        sep_matches(k, s[0]),
    ensures
        prepend_first(cur, split_by(s, k)) == seq![cur] + split_by(s.skip(1), k),
{
    lemma_split_by_nonempty(s.skip(1), k);
    assert(cur + Seq::<char>::empty() =~= cur);
    assert((seq![Seq::<char>::empty()] + split_by(s.skip(1), k)).skip(1) =~= split_by(
        s.skip(1),
        k,
    ));
    assert(prepend_first(cur, split_by(s, k)) =~= seq![cur] + split_by(s.skip(1), k));
}

/// Consuming an ordinary character extends the current piece.
proof fn lemma_prepend_split_chr(cur: Seq<char>, s: Seq<char>, k: Sep)
    requires
        s.len() >= 1,
        !sep_matches(k, s[0]),
    ensures
        prepend_first(cur, split_by(s, k)) == prepend_first(cur.push(s[0]), split_by(s.skip(1), k)),
{
    let rest = split_by(s.skip(1), k);
    lemma_split_by_nonempty(s.skip(1), k);
    assert(cur + (seq![s[0]] + rest[0]) =~= cur.push(s[0]) + rest[0]);
    assert((seq![seq![s[0]] + rest[0]] + rest.skip(1)).skip(1) =~= rest.skip(1));
    assert(prepend_first(cur, split_by(s, k)) =~= prepend_first(cur.push(s[0]), rest));
}

/// At the end of the input only the current piece is left.
proof fn lemma_prepend_split_end(cur: Seq<char>, s: Seq<char>, k: Sep)
    requires
        s.len() == 0,
    ensures
        prepend_first(cur, split_by(s, k)) == seq![cur],
{
    assert(cur + Seq::<char>::empty() =~= cur);
    assert(prepend_first(cur, split_by(s, k)) =~= seq![cur]);
}

proof fn lemma_filter_singleton(x: Seq<char>)
    ensures
        seq![x].filter(|t: Seq<char>| t.len() != 0) == (if x.len() != 0 {
            seq![x]
        } else {
            Seq::<Seq<char>>::empty()
        }),
{
    reveal_with_fuel(Seq::<_>::filter, 2);
    assert(seq![x].drop_last() =~= Seq::<Seq<char>>::empty());
    if x.len() != 0 {
        assert(seq![x].filter(|t: Seq<char>| t.len() != 0) =~= seq![x]);
    } else {
        assert(seq![x].filter(|t: Seq<char>| t.len() != 0) =~= Seq::<Seq<char>>::empty());
    }
}

fn split_generic(s: &str, sep: char, ws: bool) -> (r: Vec<String>)
    ensures
        !ws ==> r.deep_view() == split_on(s@, sep),
        ws ==> r.deep_view() == whitespace_tokens(s@),
{
    let ghost k: Sep = if ws {
        Sep::Space
    } else {
        Sep::Exact(sep)
    };
    let ghost nonempty: spec_fn(Seq<char>) -> bool = |t: Seq<char>| t.len() != 0;
    let n: usize = s.unicode_len();
    let mut finished: Vec<String> = Vec::new();
    let mut cur = String::new();
    let mut i: usize = 0;
    proof {
        lemma_split_by_nonempty(s@, k);
        assert(s@.skip(0) =~= s@);
        lemma_prepend_first_empty(split_by(s@, k));
        assert(finished.deep_view() =~= Seq::<Seq<char>>::empty());
        assert(Seq::<Seq<char>>::empty() + split_by(s@, k) =~= split_by(s@, k));
        if ws {
            Seq::<Seq<char>>::filter_distributes_over_add(
                Seq::<Seq<char>>::empty(),
                split_by(s@, k),
                nonempty,
            );
        }
    }
    while i < n
        invariant
            i <= n,
            n == s@.len(),
            k == (if ws {
                Sep::Space
            } else {
                Sep::Exact(sep)
            }),
            nonempty == (|t: Seq<char>| t.len() != 0),
            !ws ==> finished.deep_view() + prepend_first(cur@, split_by(s@.skip(i as int), k))
                == split_by(s@, k),
            ws ==> (finished.deep_view() + prepend_first(cur@, split_by(s@.skip(i as int), k)))
                .filter(nonempty) == whitespace_tokens(s@),
            ws ==> finished.deep_view().filter(nonempty) == finished.deep_view(),
        decreases n - i,
    {
        let c = s.get_char(i);
        let ghost rem = s@.skip(i as int);
        proof {
            assert(rem[0] == s@[i as int]);
            assert(rem.skip(1) =~= s@.skip(i + 1));
        }
        let is_sep = if ws {
            space_char(c)
        } else {
            c == sep
        };
        if is_sep {
            let ghost after = split_by(s@.skip(i + 1), k);
            proof {
                lemma_prepend_split_sep(cur@, rem, k);
                lemma_split_by_nonempty(s@.skip(i + 1), k);
                lemma_prepend_first_empty(after);
                assert(finished.deep_view() + (seq![cur@] + after) =~= (finished.deep_view()
                    + seq![cur@]) + after);
                if ws {
                    Seq::<Seq<char>>::filter_distributes_over_add(
                        finished.deep_view() + seq![cur@],
                        after,
                        nonempty,
                    );
                    Seq::<Seq<char>>::filter_distributes_over_add(
                        finished.deep_view(),
                        seq![cur@],
                        nonempty,
                    );
                    lemma_filter_singleton(cur@);
                }
            }
            if !ws || cur.as_str().unicode_len() > 0 {
                let ghost old_finished = finished.deep_view();
                finished.push(cur);
                proof {
                    assert(finished.deep_view() =~= old_finished + seq![cur@]);
                    if ws {
                        Seq::<Seq<char>>::filter_distributes_over_add(
                            old_finished,
                            seq![cur@],
                            nonempty,
                        );
                    }
                }
            } else {
                proof {
                    assert(cur@ =~= Seq::<char>::empty());
                    assert(finished.deep_view() + Seq::<Seq<char>>::empty()
                        =~= finished.deep_view());
                    Seq::<Seq<char>>::filter_distributes_over_add(
                        finished.deep_view(),
                        Seq::<Seq<char>>::empty(),
                        nonempty,
                    );
                }
            }
            cur = String::new();
        } else {
            proof {
                lemma_prepend_split_chr(cur@, rem, k);
            }
            push_char(&mut cur, c);
        }
        i = i + 1;
    }
    proof {
        assert(s@.skip(n as int) =~= Seq::<char>::empty());
        lemma_prepend_split_end(cur@, s@.skip(n as int), k);
        if ws {
            Seq::<Seq<char>>::filter_distributes_over_add(
                finished.deep_view(),
                seq![cur@],
                nonempty,
            );
            lemma_filter_singleton(cur@);
        }
    }
    if !ws || cur.as_str().unicode_len() > 0 {
        let ghost old_finished = finished.deep_view();
        finished.push(cur);
        proof {
            assert(finished.deep_view() =~= old_finished + seq![cur@]);
        }
    } else {
        proof {
            assert(cur@ =~= Seq::<char>::empty());
            assert(finished.deep_view() + Seq::<Seq<char>>::empty() =~= finished.deep_view());
        }
    }
    finished
}

/// The pieces of `s` between occurrences of `sep`, empty pieces kept.
pub fn split_str(s: &str, sep: char) -> (r: Vec<String>)
    ensures
        r.deep_view() == split_on(s@, sep),
{
    split_generic(s, sep, false)
}

/// The whitespace-separated tokens of `s`.
pub fn split_whitespace_str(s: &str) -> (r: Vec<String>)
    ensures
        r.deep_view() == whitespace_tokens(s@),
{
    split_generic(s, ' ', true)
}

} // verus!

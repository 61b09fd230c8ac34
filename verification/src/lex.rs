//! Splitting text into lines and tokens, and reading unsigned numbers.
use vstd::prelude::*;
use crate::text::{is_ws, slice, ws};

verus! {

// ----------------------------------------------------------------------
// Unsigned numbers (`u8::from_str_radix`, `str::parse::<u64>`, ...)
// ----------------------------------------------------------------------

/// The value of one digit in the given radix (`char::to_digit`).
pub open spec fn digit_value(c: char, radix: nat) -> Option<nat> {
    let v: int = if '0' <= c && c <= '9' {
        c as int - '0' as int
    } else if 'a' <= c && c <= 'z' {
        c as int - 'a' as int + 10
    } else if 'A' <= c && c <= 'Z' {
        c as int - 'A' as int + 10
    } else {
        -1
    };
    if 0 <= v < radix {
        Some(v as nat)
    } else {
        None
    }
}

pub open spec fn all_digits(s: Seq<char>, radix: nat) -> bool {
    forall|i: int| 0 <= i < s.len() ==> (#[trigger] digit_value(s[i], radix)) is Some
}

/// The number written by the digits `s`, most significant first.
pub open spec fn digits_value(s: Seq<char>, radix: nat) -> nat
    decreases s.len(),
{
    if s.len() == 0 {
        0
    } else {
        digits_value(s.drop_last(), radix) * radix + match digit_value(s.last(), radix) {
            Some(d) => d,
            None => 0,
        }
    }
}

/// What the standard library's unsigned parsers give: an optional `+`, then
/// at least one digit of the radix, and a value no larger than `max`.
pub open spec fn parse_unsigned(s: Seq<char>, radix: nat, max: nat) -> Option<nat> {
    let body = if s.len() > 0 && s[0] == '+' {
        s.drop_first()
    } else {
        s
    };
    if body.len() > 0 && all_digits(body, radix) && digits_value(body, radix) <= max {
        Some(digits_value(body, radix))
    } else {
        None
    }
}

fn digit_exec(c: char, radix: u32) -> (r: Option<u32>)
    requires
        2 <= radix <= 36,
    ensures
        r matches Some(d) ==> digit_value(c, radix as nat) == Some(d as nat) && d < radix,
        r is None ==> digit_value(c, radix as nat) is None,
{
    let v: u32 = if '0' <= c && c <= '9' {
        c as u32 - '0' as u32
    } else if 'a' <= c && c <= 'z' {
        c as u32 - 'a' as u32 + 10
    } else if 'A' <= c && c <= 'Z' {
        c as u32 - 'A' as u32 + 10
    } else {
        return None;
    };
    if v < radix {
        Some(v)
    } else {
        None
    }
}

proof fn lemma_digits_value_monotone(s: Seq<char>, radix: nat, k: int)
    requires
        1 <= radix,
        0 <= k <= s.len(),
    ensures
        digits_value(s.take(k), radix) <= digits_value(s, radix),
    decreases s.len() - k,
{
    if k < s.len() {
        lemma_digits_value_monotone(s.drop_last(), radix, k);
        assert(s.drop_last().take(k) == s.take(k));
        let a = digits_value(s.drop_last(), radix);
        assert(a * radix >= a) by (nonlinear_arith)
            requires
                radix >= 1,
        ;
    } else {
        assert(s.take(k) == s);
    }
}

/// Parses an unsigned number of at most `max` in the given radix.
pub fn parse_unsigned_exec(s: &Vec<char>, radix: u32, max: u64) -> (r: Option<u64>)
    requires
        2 <= radix <= 36,
    ensures
        r matches Some(v) ==> parse_unsigned(s@, radix as nat, max as nat) == Some(v as nat),
        r is None ==> parse_unsigned(s@, radix as nat, max as nat) is None,
{
    let start: usize = if s.len() > 0 && s[0] == '+' {
        1
    } else {
        0
    };
    let ghost body = if s@.len() > 0 && s@[0] == '+' {
        s@.drop_first()
    } else {
        s@
    };
    assert(body == s@.skip(start as int));
    if start >= s.len() {
        return None;
    }
    let mut acc: u64 = 0;
    let mut i: usize = start;
    while i < s.len()
        invariant
            start <= i <= s.len(),
            body == s@.skip(start as int),
            body == (if s@.len() > 0 && s@[0] == '+' {
                s@.drop_first()
            } else {
                s@
            }),
            2 <= radix <= 36,
            all_digits(body.take(i - start), radix as nat),
            acc as nat == digits_value(body.take(i - start), radix as nat),
            acc <= max,
        decreases s.len() - i,
    {
        let d = match digit_exec(s[i], radix) {
            Some(d) => d,
            None => {
                assert(body[i - start] == s@[i as int]);
                assert(digit_value(body[i - start], radix as nat) is None);
                assert(!all_digits(body, radix as nat));
                return None;
            },
        };
        let ghost prefix = body.take(i - start + 1);
        assert(prefix.drop_last() == body.take(i - start));
        assert(prefix.last() == s@[i as int]);
        assert(acc as u128 * radix as u128 <= 0xffff_ffff_ffff_ffffu128 * 36) by (nonlinear_arith)
            requires
                acc <= 0xffff_ffff_ffff_ffffu64,
                radix <= 36,
        ;
        let wide: u128 = acc as u128 * radix as u128 + d as u128;
        assert(wide as nat == digits_value(prefix, radix as nat));
        if wide > max as u128 {
            proof {
                lemma_digits_value_monotone(body, radix as nat, i - start + 1);
            }
            return None;
        }
        acc = wide as u64;
        i = i + 1;
        assert forall|j: int| 0 <= j < i - start implies (#[trigger] digit_value(
            body.take(i - start)[j],
            radix as nat,
        )) is Some by {
            if j < i - start - 1 {
                assert(body.take(i - start)[j] == body.take(i - start - 1)[j]);
            }
        }
    }
    assert(body.take(s@.len() - start) == body);
    Some(acc)
}

/// Parses a decimal number of at most `max` from the characters of `s`.
pub fn parse_decimal(s: &Vec<char>, max: u64) -> (r: Option<u64>)
    ensures
        r matches Some(v) ==> parse_unsigned(s@, 10, max as nat) == Some(v as nat),
        r is None ==> parse_unsigned(s@, 10, max as nat) is None,
{
    parse_unsigned_exec(s, 10, max)
}

// ----------------------------------------------------------------------
// Lines (`str::lines`, `str::split_inclusive('\n')`)
// ----------------------------------------------------------------------

/// The first index at or after `from` that holds `c`, if any.
pub open spec fn index_of_from(s: Seq<char>, c: char, from: int) -> Option<int>
    decreases s.len() - from,
{
    if from < 0 || from >= s.len() {
        None
    } else if s[from] == c {
        Some(from)
    } else {
        index_of_from(s, c, from + 1)
    }
}

/// The first index that holds `c`, if any.
pub open spec fn index_of(s: Seq<char>, c: char) -> Option<int> {
    index_of_from(s, c, 0)
}

proof fn lemma_index_of_from(s: Seq<char>, c: char, from: int, i: int)
    requires
        0 <= from <= i <= s.len(),
        forall|j: int| from <= j < i ==> s[j] != c,
    ensures
        index_of_from(s, c, from) == index_of_from(s, c, i),
    decreases i - from,
{
    if from < i {
        lemma_index_of_from(s, c, from + 1, i);
    }
}

pub proof fn lemma_index_of_found(s: Seq<char>, c: char, i: int)
    requires
        0 <= i < s.len(),
        s[i] == c,
        forall|j: int| 0 <= j < i ==> s[j] != c,
    ensures
        index_of(s, c) == Some(i),
{
    lemma_index_of_from(s, c, 0, i);
}

pub proof fn lemma_index_of_none(s: Seq<char>, c: char)
    requires
        forall|j: int| 0 <= j < s.len() ==> s[j] != c,
    ensures
        index_of(s, c) is None,
{
    lemma_index_of_from(s, c, 0, s.len() as int);
}

pub proof fn lemma_index_of_props(s: Seq<char>, c: char)
    ensures
        index_of(s, c) matches Some(i) ==> 0 <= i < s.len() && s[i] == c && forall|j: int|
            0 <= j < i ==> s[j] != c,
        index_of(s, c) is None ==> forall|j: int| 0 <= j < s.len() ==> s[j] != c,
{
    lemma_index_of_from_props(s, c, 0);
}

proof fn lemma_index_of_from_props(s: Seq<char>, c: char, from: int)
    requires
        0 <= from,
    ensures
        index_of_from(s, c, from) matches Some(i) ==> from <= i < s.len() && s[i] == c
            && forall|j: int| from <= j < i ==> s[j] != c,
        index_of_from(s, c, from) is None ==> forall|j: int| from <= j < s.len() ==> s[j] != c,
    decreases s.len() - from,
{
    if from < s.len() && s[from] != c {
        lemma_index_of_from_props(s, c, from + 1);
    }
}

/// The first index at or after `from` that holds `c`.
pub fn find_char_from(s: &Vec<char>, c: char, from: usize) -> (r: Option<usize>)
    ensures
        r matches Some(i) ==> from <= i < s.len() && s@[i as int] == c && forall|j: int|
            from <= j < i ==> s@[j] != c,
        r is None ==> forall|j: int| from <= j < s.len() ==> s@[j] != c,
{
    let mut i = from;
    while i < s.len()
        invariant
            from <= i,
            forall|j: int| from <= j < i ==> s@[j] != c,
        decreases s.len() - i,
    {
        if s[i] == c {
            return Some(i);
        }
        i = i + 1;
    }
    None
}

/// The first index of `c` in `s`.
pub fn index_of_exec(s: &Vec<char>, c: char) -> (r: Option<usize>)
    ensures
        r matches Some(i) ==> index_of(s@, c) == Some(i as int),
        r is None ==> index_of(s@, c) is None,
{
    let r = find_char_from(s, c, 0);
    proof {
        match r {
            Some(i) => lemma_index_of_found(s@, c, i as int),
            None => lemma_index_of_none(s@, c),
        }
    }
    r
}

/// One line without its terminator: a trailing `\r` is removed too.
pub open spec fn strip_cr(s: Seq<char>) -> Seq<char> {
    if s.len() > 0 && s.last() == '\r' {
        s.drop_last()
    } else {
        s
    }
}

/// The lines of `s`, as `str::lines` gives them.
pub open spec fn lines(s: Seq<char>) -> Seq<Seq<char>>
    decreases s.len(),
{
    if s.len() == 0 {
        seq![]
    } else {
        match index_of(s, '\n') {
            Some(i) => {
                if 0 <= i < s.len() {
                    seq![strip_cr(s.take(i))] + lines(s.skip(i + 1))
                } else {
                    seq![]
                }
            },
            None => seq![strip_cr(s)],
        }
    }
}

/// The pieces of `s` each ending with `\n` except perhaps the last, as
/// `str::split_inclusive('\n')` gives them.
pub open spec fn pieces(s: Seq<char>) -> Seq<Seq<char>>
    decreases s.len(),
{
    if s.len() == 0 {
        seq![]
    } else {
        match index_of(s, '\n') {
            Some(i) => {
                if 0 <= i < s.len() {
                    seq![s.take(i + 1)] + pieces(s.skip(i + 1))
                } else {
                    seq![]
                }
            },
            None => seq![s],
        }
    }
}

/// The concatenation of a sequence of character sequences.
pub open spec fn flatten(parts: Seq<Seq<char>>) -> Seq<char>
    decreases parts.len(),
{
    if parts.len() == 0 {
        seq![]
    } else {
        parts[0] + flatten(parts.drop_first())
    }
}

pub proof fn lemma_flatten_push(parts: Seq<Seq<char>>, p: Seq<char>)
    ensures
        flatten(parts.push(p)) == flatten(parts) + p,
    decreases parts.len(),
{
    if parts.len() == 0 {
        assert(parts.push(p).drop_first() =~= Seq::<Seq<char>>::empty());
        assert(flatten(parts.push(p)) == p + flatten(Seq::<Seq<char>>::empty()));
        assert(p + Seq::<char>::empty() =~= p);
        assert(Seq::<char>::empty() + p =~= p);
    } else {
        assert(parts.push(p).drop_first() =~= parts.drop_first().push(p));
        lemma_flatten_push(parts.drop_first(), p);
        assert(parts[0] + (flatten(parts.drop_first()) + p) =~= (parts[0] + flatten(
            parts.drop_first(),
        )) + p);
    }
}

/// Flattening distributes over concatenation.
pub proof fn lemma_flatten_append(a: Seq<Seq<char>>, b: Seq<Seq<char>>)
    ensures
        flatten(a + b) == flatten(a) + flatten(b),
    decreases a.len(),
{
    if a.len() == 0 {
        assert(a + b =~= b);
        assert(flatten(a) =~= Seq::<char>::empty());
        assert(Seq::<char>::empty() + flatten(b) =~= flatten(b));
    } else {
        assert((a + b).drop_first() =~= a.drop_first() + b);
        lemma_flatten_append(a.drop_first(), b);
        assert((a + b)[0] == a[0]);
        assert(a[0] + (flatten(a.drop_first()) + flatten(b)) =~= (a[0] + flatten(a.drop_first()))
            + flatten(b));
    }
}

/// The pieces of a text put back together are the text.
pub proof fn lemma_pieces_flatten(s: Seq<char>)
    ensures
        flatten(pieces(s)) == s,
    decreases s.len(),
{
    if s.len() > 0 {
        lemma_index_of_props(s, '\n');
        match index_of(s, '\n') {
            Some(i) => {
                lemma_pieces_flatten(s.skip(i + 1));
                let ps = seq![s.take(i + 1)] + pieces(s.skip(i + 1));
                assert(pieces(s) == ps);
                assert(ps.drop_first() =~= pieces(s.skip(i + 1)));
                assert(ps[0] == s.take(i + 1));
                assert(flatten(ps) == ps[0] + flatten(ps.drop_first()));
                assert(s.take(i + 1) + s.skip(i + 1) =~= s);
            },
            None => {
                let ps = seq![s];
                assert(pieces(s) == ps);
                assert(ps.drop_first() =~= Seq::<Seq<char>>::empty());
                assert(flatten(ps) == ps[0] + flatten(ps.drop_first()));
                assert(s + Seq::<char>::empty() =~= s);
            },
        }
    } else {
        assert(s =~= Seq::<char>::empty());
    }
}

/// The line that begins at `from`, and where the next one begins.
fn next_piece(s: &Vec<char>, from: usize) -> (r: (Vec<char>, usize))
    requires
        from < s.len(),
    ensures
        from < r.1 <= s.len(),
        r.0@ == s@.subrange(from as int, r.1 as int),
        pieces(s@.skip(from as int)) == seq![r.0@] + pieces(s@.skip(r.1 as int)),
{
    let ghost t = s@.skip(from as int);
    match find_char_from(s, '\n', from) {
        Some(i) => {
            proof {
                assert forall|j: int| 0 <= j < i - from implies t[j] != '\n' by {
                    assert(t[j] == s@[from + j]);
                }
                assert(t[i - from] == s@[i as int]);
                lemma_index_of_found(t, '\n', i - from);
                assert(t.skip(i - from + 1) == s@.skip(i + 1));
                assert(t.take(i - from + 1) == s@.subrange(from as int, i + 1));
            }
            let piece = slice(s, from, i + 1);
            (piece, i + 1)
        },
        None => {
            proof {
                assert forall|j: int| 0 <= j < t.len() implies t[j] != '\n' by {
                    assert(t[j] == s@[from + j]);
                }
                lemma_index_of_none(t, '\n');
                assert(s@.skip(s@.len() as int) =~= Seq::<char>::empty());
                assert(t =~= s@.subrange(from as int, s@.len() as int));
            }
            let piece = slice(s, from, s.len());
            (piece, s.len())
        },
    }
}

/// The pieces of `s` (see [`pieces`]).
pub fn pieces_exec(s: &Vec<char>) -> (r: Vec<Vec<char>>)
    ensures
        r@.map_values(|v: Vec<char>| v@) == pieces(s@),
{
    let mut r: Vec<Vec<char>> = Vec::new();
    let mut at: usize = 0;
    assert(s@.skip(0) == s@);
    while at < s.len()
        invariant
            at <= s.len(),
            r@.map_values(|v: Vec<char>| v@) + pieces(s@.skip(at as int)) == pieces(s@),
        decreases s.len() - at,
    {
        let (piece, next) = next_piece(s, at);
        let ghost before = r@.map_values(|v: Vec<char>| v@);
        r.push(piece);
        assert(r@.map_values(|v: Vec<char>| v@) == before.push(piece@));
        assert(before.push(piece@) + pieces(s@.skip(next as int)) =~= before + (seq![piece@]
            + pieces(s@.skip(next as int))));
        at = next;
    }
    assert(s@.skip(s@.len() as int) =~= Seq::<char>::empty());
    assert(r@.map_values(|v: Vec<char>| v@) + Seq::<Seq<char>>::empty() =~= r@.map_values(
        |v: Vec<char>| v@,
    ));
    r
}

proof fn lemma_lines_from_pieces(s: Seq<char>)
    ensures
        lines(s) == pieces(s).map_values(|p: Seq<char>| strip_cr(strip_nl(p))),
    decreases s.len(),
{
    if s.len() > 0 {
        lemma_index_of_props(s, '\n');
        match index_of(s, '\n') {
            Some(i) => {
                lemma_lines_from_pieces(s.skip(i + 1));
                let p = s.take(i + 1);
                assert(strip_nl(p) == s.take(i));
                assert((seq![p] + pieces(s.skip(i + 1))).map_values(
                    |p: Seq<char>| strip_cr(strip_nl(p)),
                ) =~= seq![strip_cr(s.take(i))] + pieces(s.skip(i + 1)).map_values(
                    |p: Seq<char>| strip_cr(strip_nl(p)),
                ));
            },
            None => {
                assert(strip_nl(s) == s);
                assert(seq![s].map_values(|p: Seq<char>| strip_cr(strip_nl(p))) =~= seq![
                    strip_cr(s),
                ]);
            },
        }
    }
}

/// A piece without its final `\n`.
pub open spec fn strip_nl(s: Seq<char>) -> Seq<char> {
    if s.len() > 0 && s.last() == '\n' {
        s.drop_last()
    } else {
        s
    }
}

/// The lines of `s` (see [`lines`]).
pub fn lines_exec(s: &Vec<char>) -> (r: Vec<Vec<char>>)
    ensures
        r@.map_values(|v: Vec<char>| v@) == lines(s@),
{
    let ps = pieces_exec(s);
    let ghost pv = ps@.map_values(|v: Vec<char>| v@);
    let mut r: Vec<Vec<char>> = Vec::new();
    let mut i: usize = 0;
    while i < ps.len()
        invariant
            i <= ps.len(),
            pv == ps@.map_values(|v: Vec<char>| v@),
            r@.len() == i,
            forall|j: int| 0 <= j < i ==> (#[trigger] r@[j])@ == strip_cr(strip_nl(pv[j])),
        decreases ps.len() - i,
    {
        let p = &ps[i];
        let mut end = p.len();
        if end > 0 && p[end - 1] == '\n' {
            end = end - 1;
        }
        if end > 0 && p[end - 1] == '\r' {
            end = end - 1;
        }
        let line = slice(p, 0, end);
        proof {
            let q = p@;
            let a = strip_nl(q);
            assert(pv[i as int] == q);
            assert(line@ == strip_cr(a));
        }
        r.push(line);
        i = i + 1;
    }
    proof {
        lemma_lines_from_pieces(s@);
        assert(r@.map_values(|v: Vec<char>| v@) =~= pv.map_values(
            |p: Seq<char>| strip_cr(strip_nl(p)),
        ));
    }
    r
}

// ----------------------------------------------------------------------
// White-space separated tokens (`str::split_whitespace`)
// ----------------------------------------------------------------------

/// Length of the run of non-white-space characters that starts `s`.
pub open spec fn word_len(s: Seq<char>) -> nat
    decreases s.len(),
{
    if s.len() > 0 && !is_ws(s[0]) {
        1 + word_len(s.drop_first())
    } else {
        0
    }
}

/// The white-space separated tokens of `s`.
pub open spec fn words(s: Seq<char>) -> Seq<Seq<char>>
    decreases s.len(),
{
    if s.len() == 0 {
        seq![]
    } else if is_ws(s[0]) {
        words(s.drop_first())
    } else {
        let n = word_len(s);
        if 0 < n <= s.len() {
            seq![s.take(n as int)] + words(s.skip(n as int))
        } else {
            seq![]
        }
    }
}

pub proof fn lemma_word_len(s: Seq<char>, n: int)
    requires
        0 <= n <= s.len(),
        forall|j: int| 0 <= j < n ==> !is_ws(s[j]),
        n == s.len() || is_ws(s[n]),
    ensures
        word_len(s) == n,
    decreases n,
{
    if n > 0 {
        assert forall|j: int| 0 <= j < n - 1 implies !is_ws(s.drop_first()[j]) by {
            assert(s.drop_first()[j] == s[j + 1]);
        }
        if n < s.len() {
            assert(s.drop_first()[n - 1] == s[n]);
        }
        lemma_word_len(s.drop_first(), n - 1);
    }
}

/// The white-space separated tokens of `s` (see [`words`]).
pub fn words_exec(s: &Vec<char>) -> (r: Vec<Vec<char>>)
    ensures
        r@.map_values(|v: Vec<char>| v@) == words(s@),
{
    let mut r: Vec<Vec<char>> = Vec::new();
    let mut at: usize = 0;
    assert(s@.skip(0) == s@);
    while at < s.len()
        invariant
            at <= s.len(),
            r@.map_values(|v: Vec<char>| v@) + words(s@.skip(at as int)) == words(s@),
        decreases s.len() - at,
    {
        let ghost t = s@.skip(at as int);
        if ws(s[at]) {
            assert(t[0] == s@[at as int]);
            assert(t.drop_first() == s@.skip(at + 1));
            at = at + 1;
        } else {
            let mut end = at + 1;
            while end < s.len() && !ws(s[end])
                invariant
                    at < end <= s.len(),
                    forall|j: int| at <= j < end ==> !is_ws(s@[j]),
                decreases s.len() - end,
            {
                end = end + 1;
            }
            proof {
                assert forall|j: int| 0 <= j < end - at implies !is_ws(t[j]) by {
                    assert(t[j] == s@[at + j]);
                }
                if end < s.len() {
                    assert(t[end - at] == s@[end as int]);
                }
                lemma_word_len(t, end - at);
                assert(t[0] == s@[at as int]);
                assert(t.skip(end - at) == s@.skip(end as int));
                assert(t.take(end - at) == s@.subrange(at as int, end as int));
            }
            let w = slice(s, at, end);
            let ghost before = r@.map_values(|v: Vec<char>| v@);
            r.push(w);
            assert(r@.map_values(|v: Vec<char>| v@) == before.push(w@));
            assert(before.push(w@) + words(s@.skip(end as int)) =~= before + (seq![w@] + words(
                s@.skip(end as int),
            )));
            at = end;
        }
    }
    assert(s@.skip(s@.len() as int) =~= Seq::<char>::empty());
    assert(r@.map_values(|v: Vec<char>| v@) + Seq::<Seq<char>>::empty() =~= r@.map_values(
        |v: Vec<char>| v@,
    ));
    r
}

} // verus!

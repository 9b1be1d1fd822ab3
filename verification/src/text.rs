//! Character-level text handling for the line-based SDP format: whitespace
//! as Rust's `char::is_whitespace` defines it, trimming, splitting, and
//! decimal and hexadecimal numbers.
use vstd::prelude::*;

verus! {

/// Unicode `White_Space`, the set that `char::is_whitespace`, `str::trim`
/// and `str::split_whitespace` use.
pub open spec fn is_ws(c: char) -> bool {
    c == '\t' || c == '\n' || c == '\x0B' || c == '\x0C' || c == '\r' || c == ' ' || c == '\u{85}'
        || c == '\u{A0}' || c == '\u{1680}' || ('\u{2000}' <= c && c <= '\u{200A}') || c
        == '\u{2028}' || c == '\u{2029}' || c == '\u{202F}' || c == '\u{205F}' || c == '\u{3000}'
}

/// Whether `c` is Unicode whitespace.
pub fn char_is_ws(c: char) -> (r: bool)
    ensures
        r == is_ws(c),
{
    c == '\t' || c == '\n' || c == '\x0B' || c == '\x0C' || c == '\r' || c == ' ' || c == '\u{85}'
        || c == '\u{A0}' || c == '\u{1680}' || ('\u{2000}' <= c && c <= '\u{200A}') || c
        == '\u{2028}' || c == '\u{2029}' || c == '\u{202F}' || c == '\u{205F}' || c == '\u{3000}'
}

/// Whether no character of `s` is whitespace.
pub open spec fn no_ws(s: Seq<char>) -> bool {
    forall|i: int| 0 <= i < s.len() ==> !is_ws(#[trigger] s[i])
}

/// Whether `c` does not occur in `s`.
pub open spec fn lacks(s: Seq<char>, c: char) -> bool {
    forall|i: int| 0 <= i < s.len() ==> #[trigger] s[i] != c
}

/// The characters of a string slice.
pub fn chars_of(s: &str) -> (r: Vec<char>)
    ensures
        r@ == s@,
{
    let n = s.unicode_len();
    let mut r: Vec<char> = Vec::new();
    let mut i: usize = 0;
    while i < n
        invariant
            n == s@.len(),
            i <= n,
            r@ == s@.subrange(0, i as int),
        decreases n - i,
    {
        r.push(s.get_char(i));
        i = i + 1;
        assert(r@ =~= s@.subrange(0, i as int));
    }
    assert(r@ =~= s@);
    r
}

/// Calls `String::push`. Claimed of it: the character is appended to the
/// string.
#[verifier::external_body]
pub fn push_char(s: &mut String, c: char)
    ensures
        final(s)@ == old(s)@.push(c),
{
    s.push(c)
}

/// Appends the characters `chars[from..to]` to `out`.
pub fn push_chars(out: &mut String, chars: &[char], from: usize, to: usize)
    requires
        from <= to <= chars@.len(),
    ensures
        final(out)@ == old(out)@ + chars@.subrange(from as int, to as int),
{
    let ghost start = out@;
    let mut i = from;
    while i < to
        invariant
            from <= i <= to <= chars@.len(),
            out@ == start + chars@.subrange(from as int, i as int),
        decreases to - i,
    {
        push_char(out, chars[i]);
        i = i + 1;
        assert(out@ =~= start + chars@.subrange(from as int, i as int));
    }
}

/// A string holding the characters `chars[from..to]`.
pub fn string_of(chars: &[char], from: usize, to: usize) -> (r: String)
    requires
        from <= to <= chars@.len(),
    ensures
        r@ == chars@.subrange(from as int, to as int),
{
    let mut r = String::new();
    push_chars(&mut r, chars, from, to);
    r
}

/// Whether `a[from..to]` holds exactly the characters of `b`.
pub fn slice_equals(a: &[char], from: usize, to: usize, b: &str) -> (r: bool)
    requires
        from <= to <= a@.len(),
    ensures
        r == (a@.subrange(from as int, to as int) == b@),
{
    let n = b.unicode_len();
    if to - from != n {
        return false;
    }
    let mut i: usize = 0;
    while i < n
        invariant
            n == b@.len(),
            to - from == n,
            from <= to <= a@.len(),
            i <= n,
            forall|j: int| 0 <= j < i ==> a@[from + j] == b@[j],
        decreases n - i,
    {
        if a[from + i] != b.get_char(i) {
            return false;
        }
        i = i + 1;
    }
    assert(a@.subrange(from as int, to as int) =~= b@);
    true
}

// ----- trimming -----

/// The text without its leading whitespace.
pub open spec fn trim_start(s: Seq<char>) -> Seq<char>
    decreases s.len(),
{
    if s.len() > 0 && is_ws(s[0]) {
        trim_start(s.drop_first())
    } else {
        s
    }
}

/// The text without its trailing whitespace.
pub open spec fn trim_end(s: Seq<char>) -> Seq<char>
    decreases s.len(),
{
    if s.len() > 0 && is_ws(s.last()) {
        trim_end(s.drop_last())
    } else {
        s
    }
}

/// The text without leading and trailing whitespace, as `str::trim` gives it.
pub open spec fn trim(s: Seq<char>) -> Seq<char> {
    trim_end(trim_start(s))
}

proof fn lemma_trim_start_skip(s: Seq<char>, k: int)
    requires
        0 <= k <= s.len(),
        forall|j: int| 0 <= j < k ==> is_ws(#[trigger] s[j]),
        k == s.len() || !is_ws(s[k]),
    ensures
        trim_start(s) == s.subrange(k, s.len() as int),
    decreases k,
{
    if k == 0 {
        assert(s.subrange(0, s.len() as int) =~= s);
    } else {
        let t = s.drop_first();
        assert forall|j: int| 0 <= j < k - 1 implies is_ws(#[trigger] t[j]) by {
            assert(t[j] == s[j + 1]);
        }
        if k - 1 < t.len() {
            assert(t[k - 1] == s[k]);
        }
        lemma_trim_start_skip(t, k - 1);
        assert(t.subrange(k - 1, t.len() as int) =~= s.subrange(k, s.len() as int));
    }
}

proof fn lemma_trim_end_take(s: Seq<char>, k: int)
    requires
        0 <= k <= s.len(),
        forall|j: int| k <= j < s.len() ==> is_ws(#[trigger] s[j]),
        k == 0 || !is_ws(s[k - 1]),
    ensures
        trim_end(s) == s.subrange(0, k),
    decreases s.len() - k,
{
    if k == s.len() {
        assert(s.subrange(0, k) =~= s);
    } else {
        let t = s.drop_last();
        assert forall|j: int| k <= j < t.len() implies is_ws(#[trigger] t[j]) by {
            assert(t[j] == s[j]);
        }
        if k > 0 {
            assert(t[k - 1] == s[k - 1]);
        }
        lemma_trim_end_take(t, k);
        assert(t.subrange(0, k) =~= s.subrange(0, k));
    }
}

/// The bounds `(a, b)` such that `chars[a..b]` is the trimmed
/// `chars[from..to]`.
pub fn trim_bounds(chars: &[char], from: usize, to: usize) -> (r: (usize, usize))
    requires
        from <= to <= chars@.len(),
    ensures
        from <= r.0 <= r.1 <= to,
        chars@.subrange(r.0 as int, r.1 as int) == trim(chars@.subrange(from as int, to as int)),
{
    let ghost s = chars@.subrange(from as int, to as int);
    let mut a = from;
    while a < to && char_is_ws(chars[a])
        invariant
            from <= a <= to <= chars@.len(),
            forall|j: int| from <= j < a ==> is_ws(#[trigger] chars@[j]),
        decreases to - a,
    {
        a = a + 1;
    }
    proof {
        assert forall|j: int| 0 <= j < a - from implies is_ws(#[trigger] s[j]) by {
            assert(s[j] == chars@[from + j]);
        }
        if a < to {
            assert(s[a - from] == chars@[a as int]);
        }
        lemma_trim_start_skip(s, a - from);
        assert(s.subrange(a - from, s.len() as int) =~= chars@.subrange(a as int, to as int));
    }
    let mut b = to;
    while b > a && char_is_ws(chars[b - 1])
        invariant
            from <= a <= b <= to <= chars@.len(),
            forall|j: int| b <= j < to ==> is_ws(#[trigger] chars@[j]),
        decreases b - a,
    {
        b = b - 1;
    }
    proof {
        let t = chars@.subrange(a as int, to as int);
        assert forall|j: int| b - a <= j < t.len() implies is_ws(#[trigger] t[j]) by {
            assert(t[j] == chars@[a + j]);
        }
        if b > a {
            assert(t[b - a - 1] == chars@[b - 1]);
        }
        lemma_trim_end_take(t, b - a);
        assert(t.subrange(0, b - a) =~= chars@.subrange(a as int, b as int));
    }
    (a, b)
}

/// A text without whitespace at either end is its own trim.
pub proof fn lemma_trim_no_ws(s: Seq<char>)
    requires
        no_ws(s),
    ensures
        trim(s) == s,
{
    lemma_trim_start_skip(s, 0);
    assert(s.subrange(0, s.len() as int) =~= s);
    lemma_trim_end_take(s, s.len() as int);
    assert(s.subrange(0, s.len() as int) =~= s);
}

/// A text with `k` leading whitespace characters and none at its end
/// trims to the rest after them.
pub proof fn lemma_trim_frame(s: Seq<char>, k: int)
    requires
        0 <= k < s.len(),
        forall|j: int| 0 <= j < k ==> is_ws(#[trigger] s[j]),
        !is_ws(s[k]),
        !is_ws(s.last()),
    ensures
        trim(s) == s.subrange(k, s.len() as int),
{
    lemma_trim_start_skip(s, k);
    let t = s.subrange(k, s.len() as int);
    assert(t[t.len() - 1] == s.last());
    lemma_trim_end_take(t, t.len() as int);
    assert(t.subrange(0, t.len() as int) =~= t);
}

/// Trimming a text that starts with two non-whitespace characters cuts at
/// most trailing whitespace from it, never those two characters.
pub proof fn lemma_trim_keeps_head(s: Seq<char>) -> (k: int)
    requires
        s.len() >= 2,
        !is_ws(s[0]),
        !is_ws(s[1]),
    ensures
        2 <= k <= s.len(),
        trim(s) == s.subrange(0, k),
{
    assert(trim_start(s) == s);
    lemma_trim_end_keeps_head(s)
}

proof fn lemma_trim_end_keeps_head(s: Seq<char>) -> (k: int)
    requires
        s.len() >= 2,
        !is_ws(s[1]),
    ensures
        2 <= k <= s.len(),
        trim_end(s) == s.subrange(0, k),
    decreases s.len(),
{
    if is_ws(s.last()) {
        let t = s.drop_last();
        assert(s.len() > 2);
        assert(t[1] == s[1]);
        let k = lemma_trim_end_keeps_head(t);
        assert(t.subrange(0, k) =~= s.subrange(0, k));
        k
    } else {
        assert(s.subrange(0, s.len() as int) =~= s);
        s.len() as int
    }
}

// ----- finding a character -----

/// The position of the first `c` in `s`, if any.
pub open spec fn find_char(s: Seq<char>, c: char) -> Option<int> {
    if exists|i: int| 0 <= i < s.len() && s[i] == c {
        Some(
            choose|i: int|
                0 <= i < s.len() && s[i] == c && forall|j: int| 0 <= j < i ==> s[j] != c,
        )
    } else {
        None
    }
}

/// The first position of `c` is the one found by a left-to-right scan.
pub proof fn lemma_find_char_at(s: Seq<char>, c: char, i: int)
    requires
        0 <= i < s.len(),
        s[i] == c,
        forall|j: int| 0 <= j < i ==> s[j] != c,
    ensures
        find_char(s, c) == Some(i),
{
    let k = choose|k: int| 0 <= k < s.len() && s[k] == c && forall|j: int| 0 <= j < k ==> s[j] != c;
    assert(0 <= k < s.len() && s[k] == c && forall|j: int| 0 <= j < k ==> s[j] != c);
    if k < i {
        assert(s[k] != c);
    }
    if i < k {
        assert(s[i] != c);
    }
}

/// `str::split_once` on a single character: the text before and after the
/// first `c`.
pub open spec fn split_once(s: Seq<char>, c: char) -> Option<(Seq<char>, Seq<char>)> {
    match find_char(s, c) {
        Some(i) => Some((s.subrange(0, i), s.subrange(i + 1, s.len() as int))),
        None => None,
    }
}

/// The position of the first `c` in `chars[from..to]`, relative to `from`.
pub fn find_in(chars: &[char], from: usize, to: usize, c: char) -> (r: Option<usize>)
    requires
        from <= to <= chars@.len(),
    ensures
        match r {
            Some(i) => from <= i < to && find_char(chars@.subrange(from as int, to as int), c)
                == Some(i - from),
            None => find_char(chars@.subrange(from as int, to as int), c) is None,
        },
{
    let ghost s = chars@.subrange(from as int, to as int);
    let mut i = from;
    while i < to
        invariant
            from <= i <= to <= chars@.len(),
            s == chars@.subrange(from as int, to as int),
            forall|j: int| from <= j < i ==> chars@[j] != c,
        decreases to - i,
    {
        if chars[i] == c {
            proof {
                assert forall|j: int| 0 <= j < i - from implies s[j] != c by {
                    assert(s[j] == chars@[from + j]);
                }
                lemma_find_char_at(s, c, i - from);
            }
            return Some(i);
        }
        i = i + 1;
    }
    proof {
        assert forall|k: int| 0 <= k < s.len() implies s[k] != c by {
            assert(s[k] == chars@[from + k]);
        }
    }
    None
}

/// A character absent from the first part of a text is found at the joint.
pub proof fn lemma_find_char_concat(a: Seq<char>, c: char, b: Seq<char>)
    requires
        lacks(a, c),
    ensures
        find_char(a + seq![c] + b, c) == Some(a.len() as int),
{
    let s = a + seq![c] + b;
    assert forall|j: int| 0 <= j < a.len() implies s[j] != c by {
        assert(s[j] == a[j]);
    }
    lemma_find_char_at(s, c, a.len() as int);
}

// ----- splitting on a separator -----

/// Pieces finished so far and the piece being read, after reading `s`
/// from left to right and cutting at every `sep`.
pub open spec fn split_state(s: Seq<char>, sep: char) -> (Seq<Seq<char>>, Seq<char>)
    decreases s.len(),
{
    if s.len() == 0 {
        (Seq::empty(), Seq::empty())
    } else {
        let (done, cur) = split_state(s.drop_last(), sep);
        if s.last() == sep {
            (done.push(cur), Seq::empty())
        } else {
            (done, cur.push(s.last()))
        }
    }
}

/// `str::split` on a single character: the pieces between the separators,
/// empty ones included; never an empty list.
pub open spec fn split_by(s: Seq<char>, sep: char) -> Seq<Seq<char>> {
    let (done, cur) = split_state(s, sep);
    done.push(cur)
}

/// Reading a run without separators extends the current piece.
pub proof fn lemma_split_state_plain(s: Seq<char>, t: Seq<char>, sep: char)
    requires
        lacks(t, sep),
    ensures
        split_state(s + t, sep) == (split_state(s, sep).0, split_state(s, sep).1 + t),
    decreases t.len(),
{
    if t.len() == 0 {
        assert(s + t =~= s);
        assert(split_state(s, sep).1 + t =~= split_state(s, sep).1);
    } else {
        let t0 = t.drop_last();
        assert(t0[t0.len() - 1 - 0] == t[t0.len() - 1] || t0.len() == 0);
        assert forall|i: int| 0 <= i < t0.len() implies #[trigger] t0[i] != sep by {
            assert(t0[i] == t[i]);
        }
        lemma_split_state_plain(s, t0, sep);
        assert((s + t).drop_last() =~= s + t0);
        assert((s + t).last() == t.last());
        assert(t.last() == t[t.len() - 1]);
        assert((split_state(s, sep).1 + t0).push(t.last()) =~= split_state(s, sep).1 + t);
    }
}

/// Reading a separator closes the current piece.
pub proof fn lemma_split_state_sep(s: Seq<char>, sep: char)
    ensures
        split_state(s.push(sep), sep) == (
            split_state(s, sep).0.push(split_state(s, sep).1),
            Seq::<char>::empty(),
        ),
{
    assert(s.push(sep).drop_last() =~= s);
}

/// Pieces that hold no separator are recovered from their joint text.
pub proof fn lemma_split_by_join(pieces: Seq<Seq<char>>, sep: char)
    requires
        pieces.len() > 0,
        forall|i: int| 0 <= i < pieces.len() ==> lacks(#[trigger] pieces[i], sep),
    ensures
        split_by(join(pieces, sep), sep) == pieces,
    decreases pieces.len(),
{
    lemma_split_state_join(pieces, sep);
    assert(pieces.drop_last().push(pieces.last()) =~= pieces);
}

proof fn lemma_split_state_join(pieces: Seq<Seq<char>>, sep: char)
    requires
        pieces.len() > 0,
        forall|i: int| 0 <= i < pieces.len() ==> lacks(#[trigger] pieces[i], sep),
    ensures
        split_state(join(pieces, sep), sep) == (pieces.drop_last(), pieces.last()),
    decreases pieces.len(),
{
    if pieces.len() == 1 {
        assert(lacks(pieces[0], sep));
        lemma_split_state_plain(Seq::empty(), pieces[0], sep);
        assert(Seq::<char>::empty() + pieces[0] =~= pieces[0]);
        assert(join(pieces, sep) == pieces[0]);
        assert(pieces.drop_last() =~= Seq::<Seq<char>>::empty());
    } else {
        let init = pieces.drop_last();
        assert forall|i: int| 0 <= i < init.len() implies lacks(#[trigger] init[i], sep) by {
            assert(init[i] == pieces[i]);
        }
        lemma_split_state_join(init, sep);
        let j = join(init, sep);
        lemma_split_state_sep(j, sep);
        assert(lacks(pieces[pieces.len() - 1], sep));
        lemma_split_state_plain(j.push(sep), pieces.last(), sep);
        assert(join(pieces, sep) == j.push(sep) + pieces.last());
        assert(Seq::<char>::empty() + pieces.last() =~= pieces.last());
        assert(init.drop_last().push(init.last()) =~= init);
    }
}

/// The pieces joined with `sep` between them.
pub open spec fn join(pieces: Seq<Seq<char>>, sep: char) -> Seq<char>
    decreases pieces.len(),
{
    if pieces.len() == 0 {
        Seq::empty()
    } else if pieces.len() == 1 {
        pieces[0]
    } else {
        join(pieces.drop_last(), sep).push(sep) + pieces.last()
    }
}

/// Joining two non-empty lists of pieces puts one separator between their
/// joint texts.
pub proof fn lemma_join_append(p: Seq<Seq<char>>, q: Seq<Seq<char>>, sep: char)
    requires
        p.len() > 0,
        q.len() > 0,
    ensures
        join(p + q, sep) == join(p, sep).push(sep) + join(q, sep),
    decreases q.len(),
{
    if q.len() == 1 {
        assert((p + q).drop_last() =~= p);
        assert((p + q).last() == q[0]);
    } else {
        let q0 = q.drop_last();
        lemma_join_append(p, q0, sep);
        assert((p + q).drop_last() =~= p + q0);
        assert((p + q).last() == q.last());
        assert(join(p + q, sep) =~= join(p, sep).push(sep) + join(q, sep));
    }
}

/// A character that is neither the separator nor in any piece is not in
/// the joint text.
pub proof fn lemma_join_lacks(pieces: Seq<Seq<char>>, sep: char, c: char)
    requires
        sep != c,
        forall|i: int| 0 <= i < pieces.len() ==> lacks(#[trigger] pieces[i], c),
    ensures
        lacks(join(pieces, sep), c),
    decreases pieces.len(),
{
    if pieces.len() == 1 {
        assert(lacks(pieces[0], c));
    } else if pieces.len() > 1 {
        let init = pieces.drop_last();
        assert forall|i: int| 0 <= i < init.len() implies lacks(#[trigger] init[i], c) by {
            assert(init[i] == pieces[i]);
        }
        lemma_join_lacks(init, sep, c);
        let j = join(init, sep);
        let l = pieces.last();
        assert(lacks(pieces[pieces.len() - 1], c));
        assert forall|i: int| 0 <= i < join(pieces, sep).len() implies #[trigger] join(
            pieces,
            sep,
        )[i] != c by {
            if i < j.len() {
                assert(join(pieces, sep)[i] == j[i]);
            } else if i > j.len() {
                assert(join(pieces, sep)[i] == l[i - j.len() - 1]);
            }
        }
    }
}

/// The joint text of pieces whose last one is not empty ends with the last
/// character of that piece.
pub proof fn lemma_join_last(pieces: Seq<Seq<char>>, sep: char)
    requires
        pieces.len() > 0,
        pieces.last().len() > 0,
    ensures
        join(pieces, sep).len() > 0,
        join(pieces, sep).last() == pieces.last().last(),
{
}

/// A sub-range `[start, end)` of a character buffer.
pub struct Span {
    pub start: usize,
    pub end: usize,
}

/// The characters a span covers.
pub open spec fn span_chars(chars: Seq<char>, sp: Span) -> Seq<char> {
    chars.subrange(sp.start as int, sp.end as int)
}

/// The characters every span of a list covers.
pub open spec fn spans_chars(chars: Seq<char>, sps: Seq<Span>) -> Seq<Seq<char>> {
    Seq::new(sps.len(), |i: int| span_chars(chars, sps[i]))
}

/// Whether every span lies within `[from, to)`.
pub open spec fn spans_within(sps: Seq<Span>, from: int, to: int) -> bool {
    forall|i: int|
        0 <= i < sps.len() ==> from <= (#[trigger] sps[i]).start <= sps[i].end <= to
}

/// The pieces of `chars[from..to]` between occurrences of `sep`, as spans.
pub fn split_spans(chars: &[char], from: usize, to: usize, sep: char) -> (r: Vec<Span>)
    requires
        from <= to <= chars@.len(),
    ensures
        spans_within(r@, from as int, to as int),
        spans_chars(chars@, r@) == split_by(chars@.subrange(from as int, to as int), sep),
{
    let ghost s = chars@.subrange(from as int, to as int);
    let mut done: Vec<Span> = Vec::new();
    let mut cur_start = from;
    let mut i = from;
    while i < to
        invariant
            from <= cur_start <= i <= to <= chars@.len(),
            s == chars@.subrange(from as int, to as int),
            spans_within(done@, from as int, i as int),
            spans_chars(chars@, done@) == split_state(s.subrange(0, i - from), sep).0,
            chars@.subrange(cur_start as int, i as int) == split_state(
                s.subrange(0, i - from),
                sep,
            ).1,
        decreases to - i,
    {
        proof {
            assert(s.subrange(0, i + 1 - from).drop_last() =~= s.subrange(0, i - from));
            assert(s.subrange(0, i + 1 - from).last() == chars@[i as int]);
        }
        if chars[i] == sep {
            let ghost old_done = done@;
            done.push(Span { start: cur_start, end: i });
            cur_start = i + 1;
            proof {
                assert(spans_chars(chars@, done@) =~= spans_chars(chars@, old_done).push(
                    chars@.subrange(done@.last().start as int, i as int),
                ));
                assert(chars@.subrange(cur_start as int, i + 1) =~= Seq::<char>::empty());
            }
        } else {
            proof {
                assert(chars@.subrange(cur_start as int, i + 1) =~= chars@.subrange(
                    cur_start as int,
                    i as int,
                ).push(chars@[i as int]));
            }
        }
        i = i + 1;
    }
    let ghost old_done = done@;
    done.push(Span { start: cur_start, end: to });
    proof {
        assert(s.subrange(0, to - from) =~= s);
        assert(spans_chars(chars@, done@) =~= spans_chars(chars@, old_done).push(
            chars@.subrange(cur_start as int, to as int),
        ));
    }
    done
}

// ----- splitting on whitespace -----

/// Tokens finished so far and the token being read, after reading `s`
/// from left to right and cutting at runs of whitespace.
pub open spec fn ws_state(s: Seq<char>) -> (Seq<Seq<char>>, Seq<char>)
    decreases s.len(),
{
    if s.len() == 0 {
        (Seq::empty(), Seq::empty())
    } else {
        let (done, cur) = ws_state(s.drop_last());
        if is_ws(s.last()) {
            if cur.len() > 0 {
                (done.push(cur), Seq::empty())
            } else {
                (done, Seq::empty())
            }
        } else {
            (done, cur.push(s.last()))
        }
    }
}

/// `str::split_whitespace`: the non-empty runs of non-whitespace.
pub open spec fn split_ws(s: Seq<char>) -> Seq<Seq<char>> {
    let (done, cur) = ws_state(s);
    if cur.len() > 0 {
        done.push(cur)
    } else {
        done
    }
}

/// The whitespace-separated tokens of `chars[from..to]`, as spans.
pub fn split_ws_spans(chars: &[char], from: usize, to: usize) -> (r: Vec<Span>)
    requires
        from <= to <= chars@.len(),
    ensures
        spans_within(r@, from as int, to as int),
        spans_chars(chars@, r@) == split_ws(chars@.subrange(from as int, to as int)),
{
    let ghost s = chars@.subrange(from as int, to as int);
    let mut done: Vec<Span> = Vec::new();
    let mut cur_start = from;
    let mut i = from;
    while i < to
        invariant
            from <= cur_start <= i <= to <= chars@.len(),
            s == chars@.subrange(from as int, to as int),
            spans_within(done@, from as int, i as int),
            spans_chars(chars@, done@) == ws_state(s.subrange(0, i - from)).0,
            chars@.subrange(cur_start as int, i as int) == ws_state(s.subrange(0, i - from)).1,
        decreases to - i,
    {
        proof {
            assert(s.subrange(0, i + 1 - from).drop_last() =~= s.subrange(0, i - from));
            assert(s.subrange(0, i + 1 - from).last() == chars@[i as int]);
        }
        if char_is_ws(chars[i]) {
            if cur_start < i {
                let ghost old_done = done@;
                done.push(Span { start: cur_start, end: i });
                proof {
                    assert(spans_chars(chars@, done@) =~= spans_chars(chars@, old_done).push(
                        chars@.subrange(cur_start as int, i as int),
                    ));
                }
            }
            cur_start = i + 1;
            proof {
                assert(chars@.subrange(cur_start as int, i + 1) =~= Seq::<char>::empty());
            }
        } else {
            proof {
                assert(chars@.subrange(cur_start as int, i + 1) =~= chars@.subrange(
                    cur_start as int,
                    i as int,
                ).push(chars@[i as int]));
            }
        }
        i = i + 1;
    }
    proof {
        assert(s.subrange(0, to - from) =~= s);
    }
    if cur_start < to {
        let ghost old_done = done@;
        done.push(Span { start: cur_start, end: to });
        proof {
            assert(spans_chars(chars@, done@) =~= spans_chars(chars@, old_done).push(
                chars@.subrange(cur_start as int, to as int),
            ));
        }
    }
    done
}

/// Reading a non-empty run without whitespace extends the current token.
pub proof fn lemma_ws_state_plain(s: Seq<char>, t: Seq<char>)
    requires
        no_ws(t),
    ensures
        ws_state(s + t) == (ws_state(s).0, ws_state(s).1 + t),
    decreases t.len(),
{
    if t.len() == 0 {
        assert(s + t =~= s);
        assert(ws_state(s).1 + t =~= ws_state(s).1);
    } else {
        let t0 = t.drop_last();
        assert forall|i: int| 0 <= i < t0.len() implies !is_ws(#[trigger] t0[i]) by {
            assert(t0[i] == t[i]);
        }
        lemma_ws_state_plain(s, t0);
        assert((s + t).drop_last() =~= s + t0);
        assert((s + t).last() == t.last());
        assert(t.last() == t[t.len() - 1]);
        assert((ws_state(s).1 + t0).push(t.last()) =~= ws_state(s).1 + t);
    }
}

/// Reading a space closes a non-empty current token.
pub proof fn lemma_ws_state_space(s: Seq<char>)
    requires
        ws_state(s).1.len() > 0,
    ensures
        ws_state(s.push(' ')) == (ws_state(s).0.push(ws_state(s).1), Seq::<char>::empty()),
{
    assert(s.push(' ').drop_last() =~= s);
}

/// The tokens joined with single spaces.
pub open spec fn join_ws(tokens: Seq<Seq<char>>) -> Seq<char> {
    join(tokens, ' ')
}

/// Non-empty tokens without whitespace are recovered from their
/// space-joined text.
pub proof fn lemma_split_ws_join(tokens: Seq<Seq<char>>)
    requires
        tokens.len() > 0,
        forall|i: int| 0 <= i < tokens.len() ==> no_ws(#[trigger] tokens[i]) && tokens[i].len() > 0,
    ensures
        split_ws(join_ws(tokens)) == tokens,
{
    lemma_ws_state_join(tokens);
    assert(tokens[tokens.len() - 1].len() > 0);
    assert(tokens.drop_last().push(tokens.last()) =~= tokens);
}

proof fn lemma_ws_state_join(tokens: Seq<Seq<char>>)
    requires
        tokens.len() > 0,
        forall|i: int| 0 <= i < tokens.len() ==> no_ws(#[trigger] tokens[i]) && tokens[i].len() > 0,
    ensures
        ws_state(join_ws(tokens)) == (tokens.drop_last(), tokens.last()),
    decreases tokens.len(),
{
    if tokens.len() == 1 {
        assert(no_ws(tokens[0]));
        lemma_ws_state_plain(Seq::empty(), tokens[0]);
        assert(Seq::<char>::empty() + tokens[0] =~= tokens[0]);
        assert(tokens.drop_last() =~= Seq::<Seq<char>>::empty());
    } else {
        let init = tokens.drop_last();
        assert forall|i: int| 0 <= i < init.len() implies no_ws(#[trigger] init[i])
            && init[i].len() > 0 by {
            assert(init[i] == tokens[i]);
        }
        lemma_ws_state_join(init);
        let j = join_ws(init);
        assert(init[init.len() - 1].len() > 0);
        lemma_ws_state_space(j);
        assert(no_ws(tokens[tokens.len() - 1]));
        lemma_ws_state_plain(j.push(' '), tokens.last());
        assert(Seq::<char>::empty() + tokens.last() =~= tokens.last());
        assert(init.drop_last().push(init.last()) =~= init);
    }
}

} // verus!

use vstd::prelude::*;

verus! {

/// The lower-case form of an ASCII letter; every other character is kept.
pub open spec fn ascii_lower(c: char) -> char {
    if 'A' <= c && c <= 'Z' {
        ((c as u32) + 32) as char
    } else {
        c
    }
}

/// ASCII lower-casing of a whole character sequence.
pub open spec fn lower_seq(s: Seq<char>) -> Seq<char> {
    s.map_values(|c: char| ascii_lower(c))
}

/// `s` ends with `suffix`.
pub open spec fn ends_with(s: Seq<char>, suffix: Seq<char>) -> bool {
    suffix.len() <= s.len() && s.skip(s.len() - suffix.len()) == suffix
}

/// The characters of `s`, in order.
pub fn chars_of(s: &str) -> (v: Vec<char>)
    ensures
        v@ == s@,
{
    broadcast use vstd::string::group_string_axioms;
    let mut v: Vec<char> = Vec::new();
    for c in it: s.chars()
        invariant
            it.seq() == s@,
            v@ == it.seq().take(it.index()),
    {
        v.push(c);
    }
    v
}

/// Appends one character to a string (`String::push`).
/// Claimed: the string's characters become the old ones followed by `c`.
#[verifier::external_body]
fn push_char(s: &mut String, c: char)
    ensures
        final(s)@ == old(s)@.push(c),
{
    s.push(c);
}

/// The string made of the characters of `v`, in order.
pub fn string_of(v: &[char]) -> (s: String)
    ensures
        s@ == v@,
{
    let mut s = String::new();
    for i in 0..v.len()
        invariant
            s@ == v@.take(i as int),
    {
        push_char(&mut s, v[i]);
        assert(v@.take(i + 1) == v@.take(i as int).push(v@[i as int]));
    }
    assert(v@.take(v@.len() as int) == v@);
    s
}

/// ASCII lower-case form of one character (`char::to_ascii_lowercase`).
pub fn lower_char(c: char) -> (r: char)
    ensures
        r == ascii_lower(c),
{
    if 'A' <= c && c <= 'Z' {
        let b: u8 = c as u8;
        assert(b as u32 == c as u32);
        ((b + 32) as char)
    } else {
        c
    }
}

/// ASCII lower-case form of a character sequence.
pub fn lower_chars(v: &[char]) -> (r: Vec<char>)
    ensures
        r@ == lower_seq(v@),
{
    let mut r: Vec<char> = Vec::new();
    for i in 0..v.len()
        invariant
            r@ == lower_seq(v@.take(i as int)),
    {
        r.push(lower_char(v[i]));
        assert(lower_seq(v@.take(i + 1)) == lower_seq(v@.take(i as int)).push(ascii_lower(v@[i as int])));
    }
    assert(v@.take(v@.len() as int) == v@);
    r
}

/// Whether two character sequences are equal.
pub fn chars_eq(a: &[char], b: &[char]) -> (r: bool)
    ensures
        r == (a@ == b@),
{
    if a.len() != b.len() {
        return false;
    }
    for i in 0..a.len()
        invariant
            a@.len() == b@.len(),
            forall|j: int| 0 <= j < i ==> a@[j] == b@[j],
    {
        if a[i] != b[i] {
            return false;
        }
    }
    assert(a@ == b@);
    true
}

/// Whether `s` ends with the part of `pat` from index `from` on.
pub fn ends_with_from(s: &[char], pat: &[char], from: usize) -> (r: bool)
    requires
        from <= pat@.len(),
    ensures
        r == ends_with(s@, pat@.skip(from as int)),
{
    let n = pat.len() - from;
    if s.len() < n {
        return false;
    }
    let start = s.len() - n;
    let ghost ss = s@.skip(start as int);
    let ghost ps = pat@.skip(from as int);
    let mut i: usize = 0;
    while i < n
        invariant
            n == pat@.len() - from,
            start + n == s@.len(),
            s@.len() == s.len(),
            pat@.len() == pat.len(),
            from <= pat@.len(),
            i <= n,
            ss == s@.skip(start as int),
            ps == pat@.skip(from as int),
            forall|j: int| 0 <= j < i ==> ss[j] == ps[j],
        decreases n - i,
    {
        if s[start + i] != pat[from + i] {
            assert(ss[i as int] != ps[i as int]);
            return false;
        }
        i = i + 1;
    }
    assert(ss == ps);
    true
}

/// Replaces, from left to right, every occurrence of `pat` in `s` that does
/// not overlap an earlier one by `rep`, as `str::replace` does for a
/// non-empty pattern. Unlike `str::replace`, which inserts `rep` between
/// the characters for an empty pattern, an empty `pat` leaves `s` as it is.
pub open spec fn replace_all(s: Seq<char>, pat: Seq<char>, rep: Seq<char>) -> Seq<char>
    decreases s.len(),
{
    if pat.len() == 0 || s.len() < pat.len() {
        s
    } else if s.take(pat.len() as int) == pat {
        rep + replace_all(s.skip(pat.len() as int), pat, rep)
    } else {
        seq![s[0]] + replace_all(s.skip(1), pat, rep)
    }
}

/// `s` without the copies of `c` it begins with (`str::trim_start_matches`).
pub open spec fn trim_start_char(s: Seq<char>, c: char) -> Seq<char>
    decreases s.len(),
{
    if s.len() > 0 && s[0] == c {
        trim_start_char(s.skip(1), c)
    } else {
        s
    }
}

/// The part of `s` after its last `c`, or all of `s` when it holds no `c`
/// (the first item of `str::rsplit`).
pub open spec fn after_last(s: Seq<char>, c: char) -> Seq<char>
    decreases s.len(),
{
    if s.len() == 0 {
        s
    } else if s.last() == c {
        Seq::empty()
    } else {
        after_last(s.drop_last(), c).push(s.last())
    }
}

/// The pieces of `s` between the copies of `c` (`str::split`): one more
/// piece than `s` holds copies of `c`, empty pieces included.
pub open spec fn split_on(s: Seq<char>, c: char) -> Seq<Seq<char>>
    decreases s.len(),
{
    if s.len() == 0 {
        seq![Seq::empty()]
    } else {
        let rest = split_on(s.drop_last(), c);
        if s.last() == c {
            rest.push(Seq::empty())
        } else {
            rest.update(rest.len() - 1, rest.last().push(s.last()))
        }
    }
}

/// A text without `c` is one piece.
pub proof fn lemma_split_without_separator(a: Seq<char>, c: char)
    requires
        !a.contains(c),
    ensures
        split_on(a, c) == seq![a],
    decreases a.len(),
{
    if a.len() > 0 {
        let d = a.drop_last();
        assert(!d.contains(c)) by {
            assert forall|i: int| 0 <= i < d.len() implies d[i] != c by {
                assert(d[i] == a[i]);
            }
        }
        lemma_split_without_separator(d, c);
        assert(a.last() != c) by {
            assert(a[a.len() - 1] != c);
        }
        assert(d.push(a.last()) =~= a);
        assert(seq![d].update(0, d.push(a.last())) =~= seq![a]);
    } else {
        assert(a =~= Seq::<char>::empty());
    }
}

/// Splitting always gives at least one piece.
pub proof fn lemma_split_nonempty(a: Seq<char>, c: char)
    ensures
        split_on(a, c).len() > 0,
    decreases a.len(),
{
    if a.len() > 0 {
        lemma_split_nonempty(a.drop_last(), c);
    }
}

/// Splitting at a separator splits the two sides apart: the pieces of
/// `a`, then the pieces of `b`.
pub proof fn lemma_split_concat(a: Seq<char>, b: Seq<char>, c: char)
    ensures
        split_on(a + seq![c] + b, c) == split_on(a, c) + split_on(b, c),
    decreases b.len(),
{
    let x = a + seq![c] + b;
    if b.len() == 0 {
        assert(x.drop_last() =~= a);
        assert(split_on(a, c).push(Seq::empty()) =~= split_on(a, c) + seq![Seq::<char>::empty()]);
    } else {
        let bd = b.drop_last();
        assert(x.drop_last() =~= a + seq![c] + bd);
        lemma_split_concat(a, bd, c);
        assert(x.last() == b.last());
        let sa = split_on(a, c);
        let sb = split_on(bd, c);
        lemma_split_nonempty(bd, c);
        if b.last() == c {
            assert((sa + sb).push(Seq::empty()) =~= sa + sb.push(Seq::empty()));
        } else {
            let all = sa + sb;
            assert(all.update(all.len() - 1, all.last().push(b.last()))
                =~= sa + sb.update(sb.len() - 1, sb.last().push(b.last())));
        }
    }
}

/// The pieces joined with `sep` between each two (`slice::join`).
pub open spec fn join_with(parts: Seq<Seq<char>>, sep: Seq<char>) -> Seq<char>
    decreases parts.len(),
{
    if parts.len() == 0 {
        Seq::empty()
    } else if parts.len() == 1 {
        parts[0]
    } else {
        join_with(parts.drop_last(), sep) + sep + parts.last()
    }
}

/// Where piece `i` starts when the pieces are written one after the other
/// with one separator character between each two.
pub open spec fn join_offset(parts: Seq<Seq<char>>, i: int) -> int
    decreases i,
{
    if i <= 0 {
        0
    } else {
        join_offset(parts, i - 1) + parts[i - 1].len() + 1
    }
}

/// `r` is every piece of `parts`, in order, with the character `c` between
/// each two and nothing else: each piece stands at its place, a `c` right
/// before every piece but the first, and `r` ends with the last piece.
pub open spec fn is_joined_with_char(r: Seq<char>, parts: Seq<Seq<char>>, c: char) -> bool {
    &&& parts.len() > 0
    &&& r.len() == join_offset(parts, parts.len() - 1) + parts.last().len()
    &&& forall|i: int| 0 <= i < parts.len()
        ==> #[trigger] r.subrange(join_offset(parts, i), join_offset(parts, i) + parts[i].len()) == parts[i]
    &&& forall|i: int| 1 <= i < parts.len() ==> r[#[trigger] join_offset(parts, i) - 1] == c
}

proof fn lemma_join_offset_prefix(parts: Seq<Seq<char>>, other: Seq<Seq<char>>, i: int)
    requires
        0 <= i <= other.len(),
        i <= parts.len(),
        forall|j: int| 0 <= j < i ==> parts[j] == other[j],
    ensures
        join_offset(parts, i) == join_offset(other, i),
    decreases i,
{
    if i > 0 {
        lemma_join_offset_prefix(parts, other, i - 1);
    }
}

proof fn lemma_join_offset_grows(parts: Seq<Seq<char>>, i: int, k: int)
    requires
        0 <= i <= k,
    ensures
        join_offset(parts, i) + (k - i) <= join_offset(parts, k),
    decreases k,
{
    if i < k {
        lemma_join_offset_grows(parts, i, k - 1);
    }
}

/// Joining with one separator character keeps every piece, in order, at
/// its place, with the separator between each two ([`is_joined_with_char`]).
pub proof fn lemma_join_layout(parts: Seq<Seq<char>>, c: char)
    requires
        parts.len() > 0,
    ensures
        is_joined_with_char(join_with(parts, seq![c]), parts, c),
    decreases parts.len(),
{
    let r = join_with(parts, seq![c]);
    let n = parts.len() as int;
    if n == 1 {
        assert(r == parts[0]);
        assert(r.subrange(0, parts[0].len() as int) =~= parts[0]);
    } else {
        let d = parts.drop_last();
        let rd = join_with(d, seq![c]);
        lemma_join_layout(d, c);
        assert(r == rd + seq![c] + parts.last());
        assert forall|j: int| 0 <= j < n - 1 implies parts[j] == d[j] by {}
        assert forall|i: int| 0 <= i <= n - 1 implies join_offset(parts, i) == join_offset(d, i) by {
            lemma_join_offset_prefix(parts, d, i);
        }
        assert(rd.len() == join_offset(parts, n - 1) - 1);
        assert forall|i: int| 0 <= i < n
            implies #[trigger] r.subrange(join_offset(parts, i), join_offset(parts, i) + parts[i].len()) == parts[i] by {
            if i < n - 1 {
                lemma_join_offset_grows(parts, i + 1, n - 1);
                lemma_join_offset_prefix(parts, d, i);
                assert(join_offset(parts, i + 1) == join_offset(parts, i) + parts[i].len() + 1);
                lemma_join_offset_grows(parts, 0, i);
                assert(d[i] == parts[i]);
                assert(rd.subrange(join_offset(d, i), join_offset(d, i) + d[i].len()) == d[i]);
                assert(r.subrange(join_offset(parts, i), join_offset(parts, i) + parts[i].len())
                    =~= rd.subrange(join_offset(d, i), join_offset(d, i) + d[i].len()));
            } else {
                lemma_join_offset_prefix(parts, d, i);
                assert(r.subrange(join_offset(parts, i), join_offset(parts, i) + parts[i].len()) =~= parts.last());
            }
        }
        assert forall|i: int| 1 <= i < n implies r[#[trigger] join_offset(parts, i) - 1] == c by {
            if i < n - 1 {
                lemma_join_offset_grows(parts, i, n - 1);
                lemma_join_offset_grows(parts, 0, i);
                lemma_join_offset_prefix(parts, d, i);
                assert(rd[join_offset(d, i) - 1] == c);
                assert(r[join_offset(parts, i) - 1] == rd[join_offset(d, i) - 1]);
            }
        }
    }
}

/// The character sequences of a list of strings.
pub open spec fn views_of(v: Seq<String>) -> Seq<Seq<char>> {
    v.map_values(|s: String| s@)
}

/// Appends all of `tail` to `out`.
pub fn append_chars(out: &mut Vec<char>, tail: &[char])
    ensures
        final(out)@ == old(out)@ + tail@,
{
    let ghost start = out@;
    for i in 0..tail.len()
        invariant
            out@ == start + tail@.take(i as int),
    {
        out.push(tail[i]);
        assert(tail@.take(i + 1) == tail@.take(i as int).push(tail@[i as int]));
    }
    assert(tail@.take(tail@.len() as int) == tail@);
}

/// Whether `pat` occurs in `s` at index `at`.
pub fn occurs_at(s: &[char], at: usize, pat: &[char]) -> (r: bool)
    requires
        at <= s@.len(),
    ensures
        r == (pat@.len() <= s@.len() - at && s@.skip(at as int).take(pat@.len() as int) == pat@),
{
    if s.len() - at < pat.len() {
        return false;
    }
    let ghost w = s@.skip(at as int).take(pat@.len() as int);
    let mut i: usize = 0;
    while i < pat.len()
        invariant
            at + pat@.len() <= s@.len(),
            s@.len() == s.len(),
            pat@.len() == pat.len(),
            w == s@.skip(at as int).take(pat@.len() as int),
            i <= pat@.len(),
            forall|j: int| 0 <= j < i ==> w[j] == pat@[j],
        decreases pat@.len() - i,
    {
        if s[at + i] != pat[i] {
            assert(w[i as int] != pat@[i as int]);
            return false;
        }
        i = i + 1;
    }
    assert(w == pat@);
    true
}

/// [`replace_all`] on character sequences.
pub fn replace_chars(s: &[char], pat: &[char], rep: &[char]) -> (r: Vec<char>)
    ensures
        r@ == replace_all(s@, pat@, rep@),
{
    let mut out: Vec<char> = Vec::new();
    if pat.len() == 0 {
        append_chars(&mut out, s);
        assert(out@ == s@);
        return out;
    }
    let mut i: usize = 0;
    assert(s@.skip(0) == s@);
    while i < s.len()
        invariant
            pat@.len() > 0,
            s@.len() == s.len(),
            i <= s@.len(),
            out@ + replace_all(s@.skip(i as int), pat@, rep@) == replace_all(s@, pat@, rep@),
        decreases s@.len() - i,
    {
        let ghost rest = s@.skip(i as int);
        let ghost before = out@;
        if occurs_at(s, i, pat) {
            append_chars(&mut out, rep);
            assert(rest.skip(pat@.len() as int) == s@.skip(i + pat@.len()));
            assert(replace_all(rest, pat@, rep@) == rep@ + replace_all(rest.skip(pat@.len() as int), pat@, rep@));
            assert(out@ + replace_all(s@.skip(i + pat@.len()), pat@, rep@)
                == before + replace_all(rest, pat@, rep@));
            i = i + pat.len();
        } else {
            out.push(s[i]);
            assert(rest.skip(1) == s@.skip(i + 1));
            assert(replace_all(rest, pat@, rep@) == seq![rest[0]] + replace_all(rest.skip(1), pat@, rep@));
            assert(out@ + replace_all(s@.skip(i + 1), pat@, rep@)
                == before + replace_all(rest, pat@, rep@));
            i = i + 1;
        }
    }
    assert(s@.skip(i as int) == Seq::<char>::empty());
    assert(out@ + replace_all(s@.skip(i as int), pat@, rep@) == out@);
    out
}

/// `pat` occurs nowhere in `s`.
pub open spec fn occurs_nowhere(s: Seq<char>, pat: Seq<char>) -> bool {
    forall|i: int| 0 <= i && i + pat.len() <= s.len() ==> #[trigger] s.subrange(i, i + pat.len()) != pat
}

/// Replacing a pattern that does not occur changes nothing.
pub proof fn lemma_replace_absent(s: Seq<char>, pat: Seq<char>, rep: Seq<char>)
    requires
        pat.len() > 0,
        occurs_nowhere(s, pat),
    ensures
        replace_all(s, pat, rep) == s,
    decreases s.len(),
{
    if s.len() >= pat.len() {
        assert(s.subrange(0int, 0int + pat.len()) != pat);
        assert(s.take(pat.len() as int) == s.subrange(0int, 0int + pat.len()));
        let t = s.skip(1);
        assert forall|i: int| 0 <= i && i + pat.len() <= t.len() implies #[trigger] t.subrange(i, i + pat.len()) != pat by {
            assert(t.subrange(i, i + pat.len()) == s.subrange(i + 1, i + 1 + pat.len()));
        }
        lemma_replace_absent(t, pat, rep);
        assert(seq![s[0]] + t =~= s);
    }
}

/// A pattern that begins with `{` occurs nowhere in a text without `{`.
pub proof fn lemma_absent_without_brace(s: Seq<char>, pat: Seq<char>)
    requires
        pat.len() > 0,
        pat[0] == '{',
        !s.contains('{'),
    ensures
        occurs_nowhere(s, pat),
{
    assert forall|i: int| 0 <= i && i + pat.len() <= s.len() implies #[trigger] s.subrange(i, i + pat.len()) != pat by {
        assert(s.subrange(i, i + pat.len())[0] == s[i]);
    }
}

/// A pattern that begins with `{` occurs nowhere in a text whose only `{`
/// is its first character, unless it occurs right there.
pub proof fn lemma_absent_after_first(t: Seq<char>, pat: Seq<char>)
    requires
        pat.len() > 0,
        pat[0] == '{',
        forall|i: int| 1 <= i < t.len() ==> t[i] != '{',
        pat.len() <= t.len() ==> t.subrange(0, pat.len() as int) != pat,
    ensures
        occurs_nowhere(t, pat),
{
    assert forall|i: int| 0 <= i && i + pat.len() <= t.len() implies #[trigger] t.subrange(i, i + pat.len()) != pat by {
        if i > 0 {
            assert(t.subrange(i, i + pat.len())[0] == t[i]);
        }
    }
}

/// What [`trim_start_char`] gives: a tail of `s` that does not begin with
/// `c`, all of whose removed characters are `c`.
pub proof fn lemma_trim_start(s: Seq<char>, c: char)
    ensures
        ends_with(s, trim_start_char(s, c)),
        trim_start_char(s, c).len() == 0 || trim_start_char(s, c)[0] != c,
        forall|i: int| 0 <= i < s.len() - trim_start_char(s, c).len() ==> s[i] == c,
    decreases s.len(),
{
    if s.len() > 0 && s[0] == c {
        let t = s.skip(1);
        lemma_trim_start(t, c);
        let r = trim_start_char(t, c);
        assert(s.skip(s.len() - r.len()) =~= t.skip(t.len() - r.len()));
        assert forall|i: int| 0 <= i < s.len() - r.len() implies s[i] == c by {
            if i > 0 {
                assert(s[i] == t[i - 1]);
            }
        }
    } else {
        assert(s.skip(0) =~= s);
    }
}

/// A text that is exactly the pattern is replaced by the replacement.
pub proof fn lemma_replace_whole(pat: Seq<char>, rep: Seq<char>)
    requires
        pat.len() > 0,
    ensures
        replace_all(pat, pat, rep) == rep,
{
    assert(pat.take(pat.len() as int) =~= pat);
    assert(pat.skip(pat.len() as int) =~= Seq::<char>::empty());
    assert(replace_all(Seq::<char>::empty(), pat, rep) == Seq::<char>::empty());
    assert(rep + Seq::<char>::empty() =~= rep);
}

/// What [`after_last`] gives: a tail of `s` that holds no `c` and is either
/// all of `s` or comes right after a `c`; so for a text without `c` it is
/// the whole text.
pub proof fn lemma_after_last(s: Seq<char>, c: char)
    ensures
        ends_with(s, after_last(s, c)),
        !after_last(s, c).contains(c),
        after_last(s, c).len() == s.len() || s[s.len() - after_last(s, c).len() - 1] == c,
        !s.contains(c) ==> after_last(s, c) == s,
    decreases s.len(),
{
    let r = after_last(s, c);
    if s.len() == 0 {
        assert(s.skip(0) =~= r);
    } else if s.last() == c {
        assert(s.skip(s.len() as int) =~= r);
    } else {
        let d = s.drop_last();
        lemma_after_last(d, c);
        let rd = after_last(d, c);
        assert(r == rd.push(s.last()));
        assert(d.skip(d.len() - rd.len()) == rd);
        assert(s.skip(s.len() - r.len()) =~= d.skip(d.len() - rd.len()).push(s.last()));
        assert(s.skip(s.len() - r.len()) == r);
        assert forall|i: int| 0 <= i < r.len() implies r[i] != c by {
            if i < rd.len() {
                assert(r[i] == rd[i]);
            }
        }
        if rd.len() < d.len() {
            assert(s[s.len() - r.len() - 1] == d[d.len() - rd.len() - 1]);
        }
        if !s.contains(c) {
            assert forall|i: int| 0 <= i < d.len() implies d[i] != c by {
                assert(d[i] == s[i]);
            }
            assert(r =~= s);
        }
    }
}

/// [`trim_start_char`] on a character sequence.
pub fn trim_start(s: &[char], c: char) -> (r: Vec<char>)
    ensures
        r@ == trim_start_char(s@, c),
{
    let mut i: usize = 0;
    assert(s@.skip(0) == s@);
    while i < s.len() && s[i] == c
        invariant
            s@.len() == s.len(),
            i <= s@.len(),
            trim_start_char(s@.skip(i as int), c) == trim_start_char(s@, c),
        decreases s@.len() - i,
    {
        assert(s@.skip(i as int).skip(1) == s@.skip(i + 1));
        i = i + 1;
    }
    let mut out: Vec<char> = Vec::new();
    let mut j: usize = i;
    while j < s.len()
        invariant
            s@.len() == s.len(),
            i <= j <= s@.len(),
            out@ == s@.subrange(i as int, j as int),
        decreases s@.len() - j,
    {
        out.push(s[j]);
        j = j + 1;
        assert(out@ == s@.subrange(i as int, j as int));
    }
    assert(out@ == s@.skip(i as int));
    out
}

/// [`after_last`] on a character sequence.
pub fn last_piece(s: &[char], c: char) -> (r: Vec<char>)
    ensures
        r@ == after_last(s@, c),
{
    let mut k: usize = s.len();
    assert(s@.take(k as int) == s@);
    assert(s@.skip(k as int) == Seq::<char>::empty());
    while k > 0 && s[k - 1] != c
        invariant
            s@.len() == s.len(),
            k <= s@.len(),
            after_last(s@, c) == after_last(s@.take(k as int), c) + s@.skip(k as int),
        decreases k,
    {
        let ghost t = s@.take(k as int);
        assert(t.drop_last() == s@.take(k - 1));
        assert(t.last() == s@[k - 1]);
        assert(s@.skip(k - 1) == seq![s@[k - 1]] + s@.skip(k as int));
        k = k - 1;
    }
    if k > 0 {
        assert(s@.take(k as int).last() == c);
    } else {
        assert(s@.take(0) == Seq::<char>::empty());
    }
    let mut out: Vec<char> = Vec::new();
    let mut j: usize = k;
    while j < s.len()
        invariant
            s@.len() == s.len(),
            k <= j <= s@.len(),
            out@ == s@.subrange(k as int, j as int),
        decreases s@.len() - j,
    {
        out.push(s[j]);
        j = j + 1;
        assert(out@ == s@.subrange(k as int, j as int));
    }
    assert(out@ == s@.skip(k as int));
    out
}

/// [`split_on`] on a character sequence; the pieces come back as strings.
pub fn split_chars(s: &[char], c: char) -> (r: Vec<String>)
    ensures
        views_of(r@) == split_on(s@, c),
{
    let mut parts: Vec<String> = Vec::new();
    let mut cur: Vec<char> = Vec::new();
    assert(s@.take(0) == Seq::<char>::empty());
    for i in 0..s.len()
        invariant
            views_of(parts@).push(cur@) == split_on(s@.take(i as int), c),
    {
        let ghost t = s@.take(i + 1);
        assert(t.drop_last() == s@.take(i as int));
        assert(t.last() == s@[i as int]);
        let ghost prev = parts@;
        let ghost prev_cur = cur@;
        if s[i] == c {
            let piece = string_of(&cur);
            parts.push(piece);
            cur = Vec::new();
            assert(views_of(parts@) == views_of(prev).push(piece@));
        } else {
            cur.push(s[i]);
            let ghost rest = views_of(prev).push(prev_cur);
            assert(rest.update(rest.len() - 1, rest.last().push(s@[i as int]))
                == views_of(prev).push(cur@));
        }
    }
    assert(s@.take(s@.len() as int) == s@);
    let ghost prev = parts@;
    let last = string_of(&cur);
    parts.push(last);
    assert(views_of(parts@) == views_of(prev).push(last@));
    parts
}

/// [`join_with`] on a list of strings.
pub fn join_strings(parts: &Vec<String>, sep: &[char]) -> (r: Vec<char>)
    ensures
        r@ == join_with(views_of(parts@), sep@),
{
    let mut out: Vec<char> = Vec::new();
    let ghost all = views_of(parts@);
    for i in 0..parts.len()
        invariant
            all == views_of(parts@),
            out@ == join_with(all.take(i as int), sep@),
    {
        let piece = chars_of(parts[i].as_str());
        let ghost t = all.take(i + 1);
        assert(t.drop_last() == all.take(i as int));
        assert(t.last() == parts@[i as int]@);
        if i != 0 {
            append_chars(&mut out, sep);
        }
        append_chars(&mut out, &piece);
        if i == 0 {
            assert(t.len() == 1);
            assert(out@ == t[0]);
        }
    }
    assert(all.take(parts@.len() as int) == all);
    out
}

} // verus!

//! Character-sequence utilities: substring search, splitting, joining,
//! replacement and decimal formatting, all specified over `Seq<char>`.
use vstd::prelude::*;

verus! {

/// The pattern `pat` occurs in `s` starting at position `i`.
pub open spec fn match_at(s: Seq<char>, pat: Seq<char>, i: int) -> bool {
    0 <= i && i + pat.len() <= s.len() && s.subrange(i, i + pat.len() as int) == pat
}

/// Position of the first occurrence of `pat` in `s` at or after `from`,
/// or -1 if there is none.
pub open spec fn first_match_from(s: Seq<char>, pat: Seq<char>, from: int) -> int
    decreases s.len() - from,
{
    if from < 0 || from + pat.len() > s.len() {
        -1
    } else if pat.len() == 0 {
        from
    } else if match_at(s, pat, from) {
        from
    } else {
        first_match_from(s, pat, from + 1)
    }
}

/// Position of the first occurrence of `pat` in `s`, or -1 if there is none.
pub open spec fn first_match(s: Seq<char>, pat: Seq<char>) -> int {
    first_match_from(s, pat, 0)
}

/// `pat` occurs somewhere in `s`.
pub open spec fn contains_pat(s: Seq<char>, pat: Seq<char>) -> bool {
    first_match(s, pat) >= 0
}

pub proof fn lemma_first_match_from_bounds(s: Seq<char>, pat: Seq<char>, from: int)
    requires
        0 <= from <= s.len(),
    ensures
        first_match_from(s, pat, from) == -1 || (from <= first_match_from(s, pat, from)
            && first_match_from(s, pat, from) + pat.len() <= s.len() && match_at(
            s,
            pat,
            first_match_from(s, pat, from),
        )),
    decreases s.len() - from,
{
    if from + pat.len() > s.len() {
    } else if pat.len() == 0 {
        assert(s.subrange(from, from) =~= pat);
    } else if match_at(s, pat, from) {
    } else {
        lemma_first_match_from_bounds(s, pat, from + 1);
    }
}

/// No occurrence starts before the first one.
pub proof fn lemma_first_match_from_none_before(s: Seq<char>, pat: Seq<char>, from: int, i: int)
    requires
        0 <= from <= s.len(),
        from <= i,
        match_at(s, pat, i),
    ensures
        0 <= first_match_from(s, pat, from) <= i,
    decreases s.len() - from,
{
    if match_at(s, pat, from) {
    } else {
        lemma_first_match_from_none_before(s, pat, from + 1, i);
    }
}

/// Does `pat` occur in `s` at exactly position `i`?
pub fn is_match_at(s: &Vec<char>, pat: &Vec<char>, i: usize) -> (b: bool)
    requires
        i <= s.len(),
    ensures
        b == match_at(s@, pat@, i as int),
{
    if pat.len() > s.len() - i {
        proof {
            assert(!match_at(s@, pat@, i as int));
        }
        return false;
    }
    let mut j: usize = 0;
    while j < pat.len()
        invariant
            0 <= j <= pat.len(),
            i + pat.len() <= s.len(),
            forall|k: int| 0 <= k < j ==> s@[i + k] == pat@[k],
        decreases pat.len() - j,
    {
        if s[i + j] != pat[j] {
            proof {
                assert(s@.subrange(i as int, i + pat@.len() as int)[j as int] != pat@[j as int]);
            }
            return false;
        }
        j += 1;
    }
    proof {
        assert(s@.subrange(i as int, i + pat@.len() as int) =~= pat@);
    }
    true
}

/// First occurrence of `pat` in `s` at or after `from`.
pub fn find_from(s: &Vec<char>, pat: &Vec<char>, from: usize) -> (r: Option<usize>)
    requires
        from <= s.len(),
    ensures
        match r {
            Some(i) => i == first_match_from(s@, pat@, from as int),
            None => first_match_from(s@, pat@, from as int) == -1,
        },
{
    let mut i: usize = from;
    loop
        invariant
            from <= i <= s.len(),
            first_match_from(s@, pat@, from as int) == first_match_from(s@, pat@, i as int),
        decreases s.len() - i,
    {
        if pat.len() > s.len() - i {
            return None;
        }
        if is_match_at(s, pat, i) {
            return Some(i);
        }
        proof {
            if pat@.len() == 0 {
                assert(s@.subrange(i as int, i as int) =~= pat@);
                assert(match_at(s@, pat@, i as int));
            }
        }
        i += 1;
    }
}

/// The views of a sequence of character vectors.
pub open spec fn views_of(vs: Seq<Vec<char>>) -> Seq<Seq<char>> {
    vs.map_values(|v: Vec<char>| v@)
}

/// The views of a sequence of strings.
pub open spec fn str_views(vs: Seq<String>) -> Seq<Seq<char>> {
    vs.map_values(|v: String| v@)
}

/// Relating a suffix search to a search in the suffix.
pub proof fn lemma_first_match_skip(s: Seq<char>, pat: Seq<char>, pos: int, k: int)
    requires
        0 <= pos,
        0 <= k,
        pos + k <= s.len(),
    ensures
        first_match_from(s.skip(pos), pat, k) == if first_match_from(s, pat, pos + k) < 0 {
            -1int
        } else {
            first_match_from(s, pat, pos + k) - pos
        },
    decreases s.len() - pos - k,
{
    let suf = s.skip(pos);
    if k + pat.len() > suf.len() {
    } else {
        assert(suf.subrange(k, k + pat.len() as int) =~= s.subrange(
            pos + k,
            pos + k + pat.len(),
        ));
        if pat.len() == 0 {
        } else if match_at(s, pat, pos + k) {
            assert(match_at(suf, pat, k));
        } else {
            assert(!match_at(suf, pat, k));
            lemma_first_match_skip(s, pat, pos, k + 1);
        }
    }
}

/// A fresh copy of `s[from..to]`.
pub fn copy_range(s: &Vec<char>, from: usize, to: usize) -> (r: Vec<char>)
    requires
        from <= to <= s.len(),
    ensures
        r@ == s@.subrange(from as int, to as int),
{
    let mut r: Vec<char> = Vec::new();
    let mut k: usize = from;
    while k < to
        invariant
            from <= k <= to <= s.len(),
            r@ == s@.subrange(from as int, k as int),
        decreases to - k,
    {
        r.push(s[k]);
        proof {
            assert(r@ =~= s@.subrange(from as int, k + 1int));
        }
        k += 1;
    }
    r
}

/// Appends all of `s` to `out`.
pub fn push_all(out: &mut Vec<char>, s: &Vec<char>)
    ensures
        final(out)@ == old(out)@ + s@,
{
    let mut k: usize = 0;
    while k < s.len()
        invariant
            0 <= k <= s.len(),
            out@ == old(out)@ + s@.subrange(0, k as int),
        decreases s.len() - k,
    {
        out.push(s[k]);
        proof {
            assert(old(out)@ + s@.subrange(0, k + 1int) =~= (old(out)@ + s@.subrange(
                0,
                k as int,
            )).push(s@[k as int]));
        }
        k += 1;
    }
    proof {
        assert(s@.subrange(0, s@.len() as int) =~= s@);
    }
}

/// Appends `s[from..to]` to `out`.
pub fn push_range(out: &mut Vec<char>, s: &Vec<char>, from: usize, to: usize)
    requires
        from <= to <= s.len(),
    ensures
        final(out)@ == old(out)@ + s@.subrange(from as int, to as int),
{
    let mut k: usize = from;
    while k < to
        invariant
            from <= k <= to <= s.len(),
            out@ == old(out)@ + s@.subrange(from as int, k as int),
        decreases to - k,
    {
        out.push(s[k]);
        proof {
            assert(old(out)@ + s@.subrange(from as int, k + 1int) =~= (old(out)@ + s@.subrange(
                from as int,
                k as int,
            )).push(s@[k as int]));
        }
        k += 1;
    }
}

/// `s` divided at every occurrence of `sep`; the separators themselves are
/// dropped.  A separator at the end yields a trailing empty piece.
pub open spec fn split_at_char(s: Seq<char>, sep: char) -> Seq<Seq<char>>
    decreases s.len(),
{
    let i = first_match(s, seq![sep]);
    if i < 0 || i + 1 > s.len() {
        seq![s]
    } else {
        seq![s.subrange(0, i)] + split_at_char(s.skip(i + 1), sep)
    }
}

/// Splits `s` at every occurrence of `sep`.
pub fn split_char_vec(s: &Vec<char>, sep: char) -> (r: Vec<Vec<char>>)
    ensures
        views_of(r@) == split_at_char(s@, sep),
{
    let pat: Vec<char> = vec![sep];
    proof {
        assert(pat@ =~= seq![sep]);
    }
    let mut out: Vec<Vec<char>> = Vec::new();
    let mut pos: usize = 0;
    proof {
        assert(s@.skip(0) =~= s@);
        assert(views_of(out@) + split_at_char(s@.skip(0), sep) =~= split_at_char(s@, sep));
    }
    loop
        invariant
            pos <= s.len(),
            pat@ == seq![sep],
            split_at_char(s@, sep) == views_of(out@) + split_at_char(s@.skip(pos as int), sep),
        decreases s.len() - pos,
    {
        proof {
            lemma_first_match_skip(s@, pat@, pos as int, 0);
            lemma_first_match_from_bounds(s@, pat@, pos as int);
        }
        match find_from(s, &pat, pos) {
            None => {
                let piece = copy_range(s, pos, s.len());
                let ghost prev = out@;
                proof {
                    assert(piece@ =~= s@.skip(pos as int));
                    assert(split_at_char(s@.skip(pos as int), sep) =~= seq![piece@]);
                }
                out.push(piece);
                proof {
                    assert(views_of(out@) =~= views_of(prev).push(piece@));
                    assert(views_of(out@) =~= split_at_char(s@, sep));
                }
                return out;
            },
            Some(i) => {
                let piece = copy_range(s, pos, i);
                let ghost prev = out@;
                let ghost suf = s@.skip(pos as int);
                proof {
                    assert(first_match(suf, seq![sep]) == i - pos);
                    assert(suf.subrange(0, i - pos) =~= s@.subrange(pos as int, i as int));
                    assert(suf.skip(i - pos + 1) =~= s@.skip(i + 1int));
                    assert(split_at_char(suf, sep) == seq![piece@] + split_at_char(
                        s@.skip(i + 1int),
                        sep,
                    ));
                }
                out.push(piece);
                proof {
                    assert(views_of(out@) =~= views_of(prev).push(piece@));
                    assert(views_of(out@) + split_at_char(s@.skip(i + 1int), sep) =~= views_of(
                        prev,
                    ) + split_at_char(suf, sep));
                }
                pos = i + 1;
            },
        }
    }
}

/// `s` with every occurrence of `pat` replaced by `rep`, scanning left to
/// right without rescanning replaced text (the semantics of `str::replace`).
pub open spec fn replace_all(s: Seq<char>, pat: Seq<char>, rep: Seq<char>) -> Seq<char>
    decreases s.len(),
{
    let i = first_match(s, pat);
    if pat.len() == 0 || i < 0 || i + pat.len() > s.len() {
        s
    } else {
        s.subrange(0, i) + rep + replace_all(s.skip(i + pat.len() as int), pat, rep)
    }
}

/// Replaces every occurrence of `pat` in `s` by `rep`.
pub fn replace_all_chars(s: &Vec<char>, pat: &Vec<char>, rep: &Vec<char>) -> (r: Vec<char>)
    requires
        pat.len() > 0,
    ensures
        r@ == replace_all(s@, pat@, rep@),
{
    let mut out: Vec<char> = Vec::new();
    let mut pos: usize = 0;
    proof {
        assert(s@.skip(0) =~= s@);
    }
    loop
        invariant
            pos <= s.len(),
            pat@.len() > 0,
            replace_all(s@, pat@, rep@) == out@ + replace_all(s@.skip(pos as int), pat@, rep@),
        decreases s.len() - pos,
    {
        proof {
            lemma_first_match_skip(s@, pat@, pos as int, 0);
            lemma_first_match_from_bounds(s@, pat@, pos as int);
        }
        match find_from(s, pat, pos) {
            None => {
                push_range(&mut out, s, pos, s.len());
                proof {
                    assert(s@.subrange(pos as int, s@.len() as int) =~= s@.skip(pos as int));
                }
                return out;
            },
            Some(i) => {
                let ghost suf = s@.skip(pos as int);
                push_range(&mut out, s, pos, i);
                push_all(&mut out, rep);
                proof {
                    assert(first_match(suf, pat@) == i - pos);
                    assert(suf.subrange(0, i - pos) =~= s@.subrange(pos as int, i as int));
                    assert(suf.skip(i - pos + pat@.len() as int) =~= s@.skip(
                        i + pat@.len() as int,
                    ));
                    assert(replace_all(suf, pat@, rep@) == s@.subrange(pos as int, i as int)
                        + rep@ + replace_all(s@.skip(i + pat@.len() as int), pat@, rep@));
                }
                pos = i + pat.len();
            },
        }
    }
}

/// `s` with every complete `pat`-opened, quote-closed span removed: each
/// occurrence of `pat` and everything up to and including the next `"` after
/// it is dropped.  A final occurrence with no closing quote is kept as it is.
pub open spec fn strip_quoted_runs(s: Seq<char>, pat: Seq<char>) -> Seq<char>
    decreases s.len(),
{
    let i = first_match(s, pat);
    if pat.len() == 0 || i < 0 || i + pat.len() > s.len() {
        s
    } else {
        let rest = s.skip(i + pat.len() as int);
        let j = first_match(rest, seq!['"']);
        if j < 0 || j + 1 > rest.len() {
            s
        } else {
            s.subrange(0, i) + strip_quoted_runs(rest.skip(j + 1), pat)
        }
    }
}

/// Removes every complete run that starts with `pat` and ends at the next
/// double quote.
pub fn strip_quoted_runs_chars(s: &Vec<char>, pat: &Vec<char>) -> (r: Vec<char>)
    requires
        pat.len() > 0,
    ensures
        r@ == strip_quoted_runs(s@, pat@),
{
    let quote: Vec<char> = vec!['"'];
    proof {
        assert(quote@ =~= seq!['"']);
        assert(s@.skip(0) =~= s@);
    }
    let mut out: Vec<char> = Vec::new();
    let mut pos: usize = 0;
    loop
        invariant
            pos <= s.len(),
            pat@.len() > 0,
            quote@ == seq!['"'],
            strip_quoted_runs(s@, pat@) == out@ + strip_quoted_runs(s@.skip(pos as int), pat@),
        decreases s.len() - pos,
    {
        proof {
            lemma_first_match_skip(s@, pat@, pos as int, 0);
            lemma_first_match_from_bounds(s@, pat@, pos as int);
        }
        let i = match find_from(s, pat, pos) {
            None => {
                push_range(&mut out, s, pos, s.len());
                proof {
                    assert(s@.subrange(pos as int, s@.len() as int) =~= s@.skip(pos as int));
                }
                return out;
            },
            Some(i) => i,
        };
        let after = i + pat.len();
        proof {
            lemma_first_match_skip(s@, quote@, after as int, 0);
            lemma_first_match_from_bounds(s@, quote@, after as int);
        }
        let j = match find_from(s, &quote, after) {
            None => {
                push_range(&mut out, s, pos, s.len());
                proof {
                    let suf = s@.skip(pos as int);
                    let rest = suf.skip(i - pos + pat@.len() as int);
                    assert(rest =~= s@.skip(after as int));
                    assert(first_match(suf, pat@) == i - pos);
                    assert(first_match(rest, seq!['"']) == -1);
                    assert(strip_quoted_runs(suf, pat@) == suf);
                    assert(s@.subrange(pos as int, s@.len() as int) =~= s@.skip(pos as int));
                }
                return out;
            },
            Some(j) => j,
        };
        let ghost suf = s@.skip(pos as int);
        let ghost rest = suf.skip(i - pos + pat@.len() as int);
        push_range(&mut out, s, pos, i);
        proof {
            assert(rest =~= s@.skip(after as int));
            assert(first_match(suf, pat@) == i - pos);
            assert(first_match(rest, seq!['"']) == j - after);
            assert(suf.subrange(0, i - pos) =~= s@.subrange(pos as int, i as int));
            assert(rest.skip(j - after + 1) =~= s@.skip(j + 1int));
            assert(strip_quoted_runs(suf, pat@) == s@.subrange(pos as int, i as int)
                + strip_quoted_runs(s@.skip(j + 1int), pat@));
        }
        pos = j + 1;
    }
}

/// Replacement of an isolated occurrence: where `pat` first occurs exactly
/// between `a` and `b`, and `b` holds no further occurrence, the whole
/// occurrence is substituted by `rep` and everything around it is kept.
pub proof fn lemma_replace_single(a: Seq<char>, pat: Seq<char>, b: Seq<char>, rep: Seq<char>)
    requires
        pat.len() > 0,
        first_match(a + pat + b, pat) == a.len(),
        !contains_pat(b, pat),
    ensures
        replace_all(a + pat + b, pat, rep) == a + rep + b,
{
    let s = a + pat + b;
    assert(s.subrange(0, a.len() as int) =~= a);
    assert(s.skip(a.len() + pat.len() as int) =~= b);
    assert(replace_all(b, pat, rep) == b);
    assert(replace_all(s, pat, rep) == s.subrange(0, a.len() as int) + rep + replace_all(
        s.skip(a.len() + pat.len() as int),
        pat,
        rep,
    ));
}

/// Removal of an isolated quoted run: where `pat` first occurs exactly
/// after `a`, its value `v` holds no quote and is closed by one, the whole
/// run is dropped and stripping continues after the closing quote.
pub proof fn lemma_strip_single(a: Seq<char>, pat: Seq<char>, v: Seq<char>, b: Seq<char>)
    requires
        pat.len() > 0,
        first_match(a + pat + v + seq!['"'] + b, pat) == a.len(),
        !contains_pat(v, seq!['"']),
    ensures
        strip_quoted_runs(a + pat + v + seq!['"'] + b, pat) == a + strip_quoted_runs(b, pat),
{
    let q = seq!['"'];
    let s = a + pat + v + q + b;
    let i = a.len() as int;
    let rest = s.skip(i + pat.len());
    assert(rest =~= v + q + b);
    assert(rest.subrange(v.len() as int, v.len() + 1int) =~= q);
    assert(match_at(rest, q, v.len() as int));
    lemma_first_match_from_none_before(rest, q, 0, v.len() as int);
    let j = first_match(rest, q);
    lemma_first_match_from_bounds(rest, q, 0);
    if j < v.len() {
        assert(rest.subrange(j, j + 1) == q);
        assert(rest.subrange(j, j + 1)[0] == rest[j]);
        assert(rest[j] == '"');
        assert(v[j] == '"');
        assert(v.subrange(j, j + 1) =~= q);
        assert(match_at(v, q, j));
        lemma_first_match_from_none_before(v, q, 0, j);
        assert(false);
    }
    assert(j == v.len());
    assert(s.subrange(0, i) =~= a);
    assert(rest.skip(j + 1) =~= b);
    assert(strip_quoted_runs(s, pat) == s.subrange(0, i) + strip_quoted_runs(
        rest.skip(j + 1),
        pat,
    ));
}

/// The pieces of `parts` concatenated with `sep` between neighbours.
pub open spec fn join_with(parts: Seq<Seq<char>>, sep: Seq<char>) -> Seq<char>
    decreases parts.len(),
{
    if parts.len() == 0 {
        Seq::empty()
    } else if parts.len() == 1 {
        parts[0]
    } else {
        parts[0] + sep + join_with(parts.skip(1), sep)
    }
}

pub proof fn lemma_join_push(parts: Seq<Seq<char>>, sep: Seq<char>, x: Seq<char>)
    ensures
        join_with(parts.push(x), sep) == if parts.len() == 0 {
            x
        } else {
            join_with(parts, sep) + sep + x
        },
    decreases parts.len(),
{
    if parts.len() == 0 {
        assert(join_with(parts.push(x), sep) == parts.push(x)[0]);
        assert(parts.push(x)[0] == x);
    } else if parts.len() == 1 {
        assert(parts.push(x).skip(1) =~= seq![x]);
        assert(join_with(seq![x], sep) == x);
        assert(join_with(parts.push(x), sep) == parts[0] + sep + x);
    } else {
        assert(parts.push(x).skip(1) =~= parts.skip(1).push(x));
        lemma_join_push(parts.skip(1), sep, x);
        assert(parts[0] + sep + (join_with(parts.skip(1), sep) + sep + x) =~= (parts[0] + sep
            + join_with(parts.skip(1), sep)) + sep + x);
    }
}

/// Joins the strings of `parts` with `sep` between neighbours.
pub fn join_strings(parts: &Vec<String>, sep: &str) -> (r: String)
    ensures
        r@ == join_with(str_views(parts@), sep@),
{
    let ghost all = str_views(parts@);
    let mut r = String::new();
    let mut k: usize = 0;
    while k < parts.len()
        invariant
            0 <= k <= parts.len(),
            all == str_views(parts@),
            all.len() == parts@.len(),
            r@ == join_with(all.take(k as int), sep@),
        decreases parts.len() - k,
    {
        if k > 0 {
            r.append(sep);
        }
        r.append(parts[k].as_str());
        proof {
            assert(all.take(k + 1int) =~= all.take(k as int).push(all[k as int]));
            lemma_join_push(all.take(k as int), sep@, all[k as int]);
        }
        k += 1;
    }
    proof {
        assert(all.take(parts@.len() as int) =~= all);
    }
    r
}

/// The character for the decimal digit `d`.
pub open spec fn dec_digit(d: int) -> char {
    if d == 0 {
        '0'
    } else if d == 1 {
        '1'
    } else if d == 2 {
        '2'
    } else if d == 3 {
        '3'
    } else if d == 4 {
        '4'
    } else if d == 5 {
        '5'
    } else if d == 6 {
        '6'
    } else if d == 7 {
        '7'
    } else if d == 8 {
        '8'
    } else {
        '9'
    }
}

/// The decimal rendering of `n`, without sign or leading zeros.
pub open spec fn dec_str(n: nat) -> Seq<char>
    decreases n,
{
    if n < 10 {
        seq![dec_digit(n as int)]
    } else {
        dec_str(n / 10) + seq![dec_digit((n % 10) as int)]
    }
}

fn digit_char(d: u64) -> (c: char)
    requires
        d < 10,
    ensures
        c == dec_digit(d as int),
{
    if d == 0 {
        '0'
    } else if d == 1 {
        '1'
    } else if d == 2 {
        '2'
    } else if d == 3 {
        '3'
    } else if d == 4 {
        '4'
    } else if d == 5 {
        '5'
    } else if d == 6 {
        '6'
    } else if d == 7 {
        '7'
    } else if d == 8 {
        '8'
    } else {
        '9'
    }
}

/// Renders `n` in decimal.
pub fn fmt_u64(n: u64) -> (r: Vec<char>)
    ensures
        r@ == dec_str(n as nat),
{
    if n == 0 {
        let r: Vec<char> = vec!['0'];
        proof {
            assert(r@ =~= dec_str(0));
        }
        return r;
    }
    let mut rev: Vec<char> = Vec::new();
    let mut m: u64 = n;
    while m > 0
        invariant
            m > 0 ==> dec_str(n as nat) == dec_str(m as nat) + rev@.reverse(),
            m == 0 ==> dec_str(n as nat) == rev@.reverse(),
        decreases m,
    {
        let c = digit_char(m % 10);
        let ghost oldrev = rev@;
        rev.push(c);
        proof {
            assert(rev@.reverse() =~= seq![c] + oldrev.reverse());
            if m >= 10 {
                assert(dec_str(m as nat) + oldrev.reverse() =~= dec_str(m as nat / 10) + (
                seq![c] + oldrev.reverse()));
            }
        }
        m = m / 10;
    }
    let mut r: Vec<char> = Vec::new();
    let mut k: usize = rev.len();
    while k > 0
        invariant
            k <= rev.len(),
            r@.len() == rev@.len() - k,
            forall|j: int| 0 <= j < r@.len() ==> r@[j] == rev@[rev@.len() - 1 - j],
        decreases k,
    {
        k -= 1;
        r.push(rev[k]);
    }
    proof {
        assert(r@ =~= rev@.reverse());
    }
    r
}

/// `c` is an ASCII decimal digit.
pub open spec fn is_dec_digit(c: char) -> bool {
    48 <= c as u32 <= 57
}

/// The value of the digit `c`.
pub open spec fn digit_val(c: char) -> int {
    c as u32 - 48
}

/// Every character of `s` is a decimal digit.
pub open spec fn all_dec_digits(s: Seq<char>) -> bool {
    forall|i: int| 0 <= i < s.len() ==> is_dec_digit(#[trigger] s[i])
}

/// The number denoted by the digit string `s`.
pub open spec fn dec_val(s: Seq<char>) -> nat
    decreases s.len(),
{
    if s.len() == 0 {
        0
    } else {
        dec_val(s.drop_last()) * 10 + if digit_val(s.last()) >= 0 {
            digit_val(s.last()) as nat
        } else {
            0
        }
    }
}

pub proof fn lemma_dec_val_prefix_le(s: Seq<char>, j: int)
    requires
        0 <= j <= s.len(),
    ensures
        dec_val(s.take(j)) <= dec_val(s),
    decreases s.len() - j,
{
    if j < s.len() {
        assert(s.take(j + 1).drop_last() =~= s.take(j));
        assert(dec_val(s.take(j + 1)) == dec_val(s.take(j)) * 10 + if digit_val(
            s.take(j + 1).last(),
        ) >= 0 {
            digit_val(s.take(j + 1).last()) as nat
        } else {
            0
        });
        assert(dec_val(s.take(j)) * 10 >= dec_val(s.take(j)));
        lemma_dec_val_prefix_le(s, j + 1);
    } else {
        assert(s.take(j) =~= s);
    }
}

/// Parses a non-empty all-digit string as a `u64`; `None` when the string is
/// empty, holds a non-digit, or denotes a value above `u64::MAX`.
pub fn parse_u64(s: &Vec<char>) -> (r: Option<u64>)
    ensures
        r is Some <==> (s@.len() > 0 && all_dec_digits(s@) && dec_val(s@) <= u64::MAX),
        r matches Some(v) ==> v == dec_val(s@),
{
    if s.len() == 0 {
        return None;
    }
    let mut acc: u64 = 0;
    let mut k: usize = 0;
    while k < s.len()
        invariant
            0 <= k <= s.len(),
            acc == dec_val(s@.take(k as int)),
            all_dec_digits(s@.take(k as int)),
        decreases s.len() - k,
    {
        let u: u32 = s[k] as u32;
        proof {
            assert(s@.take(k + 1int).drop_last() =~= s@.take(k as int));
            assert(s@.take(k + 1int).last() == s@[k as int]);
        }
        if u < 48 || u > 57 {
            proof {
                assert(!is_dec_digit(s@[k as int]));
            }
            return None;
        }
        let d: u64 = (u - 48) as u64;
        let wide: u128 = (acc as u128) * 10 + (d as u128);
        if wide > u64::MAX as u128 {
            proof {
                assert(dec_val(s@.take(k + 1int)) > u64::MAX);
                lemma_dec_val_prefix_le(s@, k + 1int);
            }
            return None;
        }
        acc = wide as u64;
        k += 1;
    }
    proof {
        assert(s@.take(s@.len() as int) =~= s@);
    }
    Some(acc)
}

/// A decimal rendering is never empty and holds digits only.
pub proof fn lemma_dec_str_digits(n: nat)
    ensures
        dec_str(n).len() > 0,
        all_dec_digits(dec_str(n)),
    decreases n,
{
    if n < 10 {
        assert(is_dec_digit(dec_digit(n as int)));
    } else {
        lemma_dec_str_digits(n / 10);
        let s = dec_str(n / 10) + seq![dec_digit((n % 10) as int)];
        assert forall|i: int| 0 <= i < s.len() implies is_dec_digit(#[trigger] s[i]) by {
            if i < dec_str(n / 10).len() {
                assert(s[i] == dec_str(n / 10)[i]);
            } else {
                assert(s[i] == dec_digit((n % 10) as int));
            }
        }
    }
}

/// Rendering and reading a decimal are inverse.
pub proof fn lemma_dec_str_val(n: nat)
    ensures
        dec_val(dec_str(n)) == n,
    decreases n,
{
    if n < 10 {
        let s = seq![dec_digit(n as int)];
        assert(dec_str(n) == s);
        assert(s.drop_last() =~= Seq::<char>::empty());
        assert(dec_val(Seq::<char>::empty()) == 0);
        assert(digit_val(dec_digit(n as int)) == n);
        assert(dec_val(s) == dec_val(s.drop_last()) * 10 + digit_val(s.last()));
    } else {
        lemma_dec_str_val(n / 10);
        let s = dec_str(n / 10) + seq![dec_digit((n % 10) as int)];
        assert(s.drop_last() =~= dec_str(n / 10));
        assert(s.last() == dec_digit((n % 10) as int));
        assert(digit_val(dec_digit((n % 10) as int)) == n % 10);
        assert(dec_val(s) == dec_val(dec_str(n / 10)) * 10 + n % 10);
        assert((n / 10) * 10 + n % 10 == n) by {
            vstd::arithmetic::div_mod::lemma_fundamental_div_mod(n as int, 10);
        }
    }
}

/// A string in which a character never occurs has no match of it.
pub proof fn lemma_absent_char_no_match(s: Seq<char>, c: char)
    requires
        forall|i: int| 0 <= i < s.len() ==> s[i] != c,
    ensures
        first_match(s, seq![c]) == -1,
{
    lemma_first_match_from_bounds(s, seq![c], 0);
    let fm = first_match(s, seq![c]);
    if fm >= 0 {
        assert(s.subrange(fm, fm + 1)[0] == s[fm]);
        assert(s[fm] == c);
    }
}

/// Splitting a text built of two separator-free pieces around one
/// separator yields exactly those two pieces.
pub proof fn lemma_split_two(a: Seq<char>, sep: char, b: Seq<char>)
    requires
        forall|i: int| 0 <= i < a.len() ==> a[i] != sep,
        forall|i: int| 0 <= i < b.len() ==> b[i] != sep,
    ensures
        split_at_char(a + seq![sep] + b, sep) == seq![a, b],
{
    let s = a + seq![sep] + b;
    assert(s.subrange(a.len() as int, a.len() + 1int) =~= seq![sep]);
    assert(match_at(s, seq![sep], a.len() as int));
    lemma_first_match_from_none_before(s, seq![sep], 0, a.len() as int);
    lemma_first_match_from_bounds(s, seq![sep], 0);
    let fm = first_match(s, seq![sep]);
    if fm < a.len() {
        assert(s.subrange(fm, fm + 1)[0] == s[fm]);
        assert(s[fm] == sep);
        assert(a[fm] == sep);
    }
    assert(fm == a.len());
    assert(s.subrange(0, a.len() as int) =~= a);
    assert(s.skip(a.len() + 1int) =~= b);
    lemma_absent_char_no_match(b, sep);
    assert(split_at_char(b, sep) == seq![b]);
    assert(seq![a] + seq![b] =~= seq![a, b]);
}

/// `s` spells a word given in its lower-case form `lo` and upper-case form
/// `up`, each character drawn from either form.
pub open spec fn spells_word(s: Seq<char>, lo: Seq<char>, up: Seq<char>) -> bool {
    s.len() == lo.len() && forall|i: int|
        0 <= i < s.len() ==> (#[trigger] s[i]) == lo[i] || s[i] == up[i]
}

/// Compares `s` with a word whose lower-case spelling is `lo` and whose
/// upper-case spelling is `up`, accepting any mixture of the two cases.
pub fn matches_word_ci(s: &Vec<char>, lo: &Vec<char>, up: &Vec<char>) -> (b: bool)
    requires
        lo.len() == up.len(),
    ensures
        b == spells_word(s@, lo@, up@),
{
    if s.len() != lo.len() {
        return false;
    }
    let mut k: usize = 0;
    while k < s.len()
        invariant
            0 <= k <= s.len(),
            s@.len() == lo@.len() == up@.len(),
            forall|i: int| 0 <= i < k ==> (#[trigger] s@[i]) == lo@[i] || s@[i] == up@[i],
        decreases s.len() - k,
    {
        if s[k] != lo[k] && s[k] != up[k] {
            return false;
        }
        k += 1;
    }
    true
}

/// `c` is an ASCII whitespace character.
pub open spec fn is_ascii_space(c: char) -> bool {
    c == ' ' || c == '\t' || c == '\n' || c == '\r'
}

/// `s` without leading whitespace.
pub open spec fn trim_front(s: Seq<char>) -> Seq<char>
    decreases s.len(),
{
    if s.len() > 0 && is_ascii_space(s[0]) {
        trim_front(s.skip(1))
    } else {
        s
    }
}

/// `s` without trailing whitespace.
pub open spec fn trim_back(s: Seq<char>) -> Seq<char>
    decreases s.len(),
{
    if s.len() > 0 && is_ascii_space(s.last()) {
        trim_back(s.drop_last())
    } else {
        s
    }
}

/// `s` without leading or trailing ASCII whitespace.
pub open spec fn trimmed(s: Seq<char>) -> Seq<char> {
    trim_back(trim_front(s))
}

proof fn lemma_trim_front_skip(s: Seq<char>, a: int)
    requires
        0 <= a <= s.len(),
        forall|i: int| 0 <= i < a ==> is_ascii_space(s[i]),
    ensures
        trim_front(s) == trim_front(s.skip(a)),
    decreases a,
{
    if a > 0 {
        assert(s.skip(1).skip(a - 1) =~= s.skip(a));
        lemma_trim_front_skip(s.skip(1), a - 1);
    } else {
        assert(s.skip(0) =~= s);
    }
}

proof fn lemma_trim_back_take(s: Seq<char>, b: int)
    requires
        0 <= b <= s.len(),
        forall|i: int| b <= i < s.len() ==> is_ascii_space(s[i]),
    ensures
        trim_back(s) == trim_back(s.take(b)),
    decreases s.len() - b,
{
    if b < s.len() {
        assert(s.drop_last() =~= s.take(s.len() - 1));
        lemma_trim_back_take(s.take(s.len() - 1), b);
        assert(s.take(s.len() - 1).take(b) =~= s.take(b));
    } else {
        assert(s.take(b) =~= s);
    }
}

/// Is `c` an ASCII whitespace character?
pub fn is_space_char(c: char) -> (b: bool)
    ensures
        b == is_ascii_space(c),
{
    c == ' ' || c == '\t' || c == '\n' || c == '\r'
}

/// Removes leading and trailing ASCII whitespace.
pub fn trim_chars(s: &Vec<char>) -> (r: Vec<char>)
    ensures
        r@ == trimmed(s@),
{
    let mut a: usize = 0;
    while a < s.len() && is_space_char(s[a])
        invariant
            0 <= a <= s.len(),
            forall|i: int| 0 <= i < a ==> is_ascii_space(#[trigger] s@[i]),
        decreases s.len() - a,
    {
        a += 1;
    }
    let mut b: usize = s.len();
    while b > a && is_space_char(s[b - 1])
        invariant
            a <= b <= s.len(),
            forall|i: int| 0 <= i < a ==> is_ascii_space(#[trigger] s@[i]),
            forall|i: int| b <= i < s.len() ==> is_ascii_space(#[trigger] s@[i]),
        decreases b,
    {
        b -= 1;
    }
    let r = copy_range(s, a, b);
    proof {
        lemma_trim_front_skip(s@, a as int);
        let mid = s@.skip(a as int);
        if a < b {
            assert(!is_ascii_space(mid[0]));
            assert(trim_front(mid) == mid);
        } else {
            assert(b == a);
            if a < s@.len() {
                assert(!is_ascii_space(s@[a as int]) && is_ascii_space(s@[a as int]));
            }
            assert(mid.len() == s@.len() - a);
            assert(trim_front(mid) == mid);
        }
        lemma_trim_back_take(mid, b - a);
        assert(mid.take(b - a) =~= s@.subrange(a as int, b as int));
        if a < b {
            assert(!is_ascii_space(s@.subrange(a as int, b as int).last()));
        }
        assert(trim_back(s@.subrange(a as int, b as int)) == s@.subrange(a as int, b as int));
    }
    r
}

} // verus!

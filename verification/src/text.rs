//! Character-level string operations with exact specifications.
use vstd::prelude::*;

verus! {

/// What `str::replace(s, pat, rep)` yields: searching from the left, every
/// occurrence of `pat` that does not overlap an earlier one is replaced by
/// `rep`. An empty `pat` matches before every character and at the end.
pub open spec fn replaced(s: Seq<char>, pat: Seq<char>, rep: Seq<char>) -> Seq<char>
    decreases s.len(),
{
    if pat.len() == 0 {
        if s.len() == 0 {
            rep
        } else {
            rep + seq![s[0]] + replaced(s.drop_first(), pat, rep)
        }
    } else if s.len() == 0 {
        s
    } else if pat.is_prefix_of(s) {
        rep + replaced(s.skip(pat.len() as int), pat, rep)
    } else {
        seq![s[0]] + replaced(s.drop_first(), pat, rep)
    }
}

/// What `str::replacen(s, pat, rep, n)` yields: as `replaced`, but only the
/// first `n` occurrences of `pat` are replaced.
pub open spec fn replaced_n(s: Seq<char>, pat: Seq<char>, rep: Seq<char>, n: nat) -> Seq<char>
    decreases s.len(),
{
    if n == 0 {
        s
    } else if pat.len() == 0 {
        if s.len() == 0 {
            rep
        } else {
            rep + seq![s[0]] + replaced_n(s.drop_first(), pat, rep, (n - 1) as nat)
        }
    } else if s.len() == 0 {
        s
    } else if pat.is_prefix_of(s) {
        rep + replaced_n(s.skip(pat.len() as int), pat, rep, (n - 1) as nat)
    } else {
        seq![s[0]] + replaced_n(s.drop_first(), pat, rep, n)
    }
}

/// Whether `pat` occurs in `s`.
pub open spec fn occurs_in(pat: Seq<char>, s: Seq<char>) -> bool {
    exists|i: int| 0 <= i <= s.len() && #[trigger] pat.is_prefix_of(s.skip(i))
}

/// Replacing a non-empty pattern that does not occur leaves the text as it is.
pub proof fn lemma_replaced_absent(s: Seq<char>, pat: Seq<char>, rep: Seq<char>)
    requires
        pat.len() > 0,
        !occurs_in(pat, s),
    ensures
        replaced(s, pat, rep) == s,
    decreases s.len(),
{
    if s.len() > 0 {
        assert(s.skip(0) =~= s);
        assert(!pat.is_prefix_of(s.skip(0)));
        let t = s.drop_first();
        assert forall|i: int| 0 <= i <= t.len() implies !#[trigger] pat.is_prefix_of(t.skip(i)) by {
            assert(t.skip(i) =~= s.skip(i + 1));
            assert(!pat.is_prefix_of(s.skip(i + 1)));
        }
        lemma_replaced_absent(t, pat, rep);
        assert(seq![s[0]] + t =~= s);
    }
}

/// Replacing a non-empty pattern by itself leaves the text as it is.
pub proof fn lemma_replaced_by_itself(s: Seq<char>, pat: Seq<char>)
    requires
        pat.len() > 0,
    ensures
        replaced(s, pat, pat) == s,
    decreases s.len(),
{
    if s.len() > 0 {
        if pat.is_prefix_of(s) {
            lemma_replaced_by_itself(s.skip(pat.len() as int), pat);
            assert(pat + s.skip(pat.len() as int) =~= s);
        } else {
            lemma_replaced_by_itself(s.drop_first(), pat);
            assert(seq![s[0]] + s.drop_first() =~= s);
        }
    }
}

/// `$` read as `#`, every other character as it is.
pub open spec fn dollar_as_hash(c: char) -> char {
    if c == '$' {
        '#'
    } else {
        c
    }
}

/// Replacing every `$` by `#` maps each character on its own: `$` becomes
/// `#` and every other character stays, in place.
pub proof fn lemma_dollars_to_hashes(s: Seq<char>)
    ensures
        replaced(s, "$"@, "#"@) == s.map_values(|c: char| dollar_as_hash(c)),
        replaced(s, "$"@, "#"@).len() == s.len(),
        forall|i: int|
            0 <= i < s.len() ==> #[trigger] replaced(s, "$"@, "#"@)[i] == dollar_as_hash(s[i]),
        forall|i: int| 0 <= i < s.len() ==> #[trigger] replaced(s, "$"@, "#"@)[i] != '$',
    decreases s.len(),
{
    reveal_strlit("$");
    reveal_strlit("#");
    let m = s.map_values(|c: char| dollar_as_hash(c));
    if s.len() > 0 {
        lemma_dollars_to_hashes(s.drop_first());
        let rest = s.drop_first().map_values(|c: char| dollar_as_hash(c));
        if s[0] == '$' {
            assert("$"@.is_prefix_of(s)) by {
                assert(s.subrange(0, 1) =~= seq!['$']);
                assert("$"@ =~= seq!['$']);
            }
            assert(s.skip(1) =~= s.drop_first());
            assert("#"@ =~= seq!['#']);
            assert(m =~= seq!['#'] + rest);
        } else {
            assert(!"$"@.is_prefix_of(s)) by {
                assert("$"@[0] == '$');
            }
            assert(m =~= seq![s[0]] + rest);
        }
    } else {
        assert(m =~= s);
    }
}

/// `replacen` with count one replaces the first occurrence and nothing else:
/// when `pat` starts at `a.len()` in `a + pat + b` and nowhere before, the
/// result is `a + rep + b`.
pub proof fn lemma_replace_first_occurrence(a: Seq<char>, pat: Seq<char>, b: Seq<char>, rep: Seq<char>)
    requires
        pat.len() > 0,
        forall|i: int| 0 <= i < a.len() ==> !#[trigger] pat.is_prefix_of((a + pat + b).skip(i)),
    ensures
        replaced_n(a + pat + b, pat, rep, 1) == a + rep + b,
    decreases a.len(),
{
    let s = a + pat + b;
    if a.len() == 0 {
        assert(s =~= pat + b);
        assert(pat.is_prefix_of(s)) by {
            assert(s.subrange(0, pat.len() as int) =~= pat);
        }
        assert(s.skip(pat.len() as int) =~= b);
        assert(replaced_n(b, pat, rep, 0) == b);
        assert(replaced_n(s, pat, rep, 1) == rep + replaced_n(s.skip(pat.len() as int), pat, rep, 0));
        assert(a + rep + b =~= rep + b);
    } else {
        assert(s.skip(0) =~= s);
        assert(!pat.is_prefix_of(s.skip(0)));
        let a2 = a.drop_first();
        assert(s.drop_first() =~= a2 + pat + b);
        assert forall|i: int| 0 <= i < a2.len() implies !#[trigger] pat.is_prefix_of(
            (a2 + pat + b).skip(i),
        ) by {
            assert((a2 + pat + b).skip(i) =~= s.skip(i + 1));
            assert(!pat.is_prefix_of(s.skip(i + 1)));
        }
        lemma_replace_first_occurrence(a2, pat, b, rep);
        assert(replaced_n(s, pat, rep, 1) == seq![s[0]] + replaced_n(s.drop_first(), pat, rep, 1));
        assert(seq![s[0]] + (a2 + rep + b) =~= a + rep + b);
    }
}

/// `replace` replaces the first occurrence and then goes on after it: when
/// `pat` starts at `a.len()` in `a + pat + b` and nowhere before, the result
/// is `a + rep` followed by the replacement in `b`.
pub proof fn lemma_replace_all_from_first(a: Seq<char>, pat: Seq<char>, b: Seq<char>, rep: Seq<char>)
    requires
        pat.len() > 0,
        forall|i: int| 0 <= i < a.len() ==> !#[trigger] pat.is_prefix_of((a + pat + b).skip(i)),
    ensures
        replaced(a + pat + b, pat, rep) == a + rep + replaced(b, pat, rep),
    decreases a.len(),
{
    let s = a + pat + b;
    if a.len() == 0 {
        assert(s =~= pat + b);
        assert(pat.is_prefix_of(s)) by {
            assert(s.subrange(0, pat.len() as int) =~= pat);
        }
        assert(s.skip(pat.len() as int) =~= b);
        assert(a + rep + replaced(b, pat, rep) =~= rep + replaced(b, pat, rep));
    } else {
        assert(s.skip(0) =~= s);
        assert(!pat.is_prefix_of(s.skip(0)));
        let a2 = a.drop_first();
        assert(s.drop_first() =~= a2 + pat + b);
        assert forall|i: int| 0 <= i < a2.len() implies !#[trigger] pat.is_prefix_of(
            (a2 + pat + b).skip(i),
        ) by {
            assert((a2 + pat + b).skip(i) =~= s.skip(i + 1));
            assert(!pat.is_prefix_of(s.skip(i + 1)));
        }
        lemma_replace_all_from_first(a2, pat, b, rep);
        assert(seq![s[0]] + (a2 + rep + replaced(b, pat, rep)) =~= a + rep + replaced(b, pat, rep));
    }
}

/// `String::push`: appends one character.
#[verifier::external_body]
pub(crate) fn push_char(s: &mut String, c: char)
    ensures
        final(s)@ == old(s)@.push(c),
{
    s.push(c);
}

/// The characters of `s`, in order.
pub fn chars_of(s: &str) -> (res: Vec<char>)
    ensures
        res@ == s@,
{
    let mut res: Vec<char> = Vec::new();
    for c in it: s.chars()
        invariant
            res@ == it.seq().take(it.index() as int),
    {
        res.push(c);
    }
    res
}

/// Whether `pat` occurs in `s` at position `i`.
fn occurs_at(s: &Vec<char>, i: usize, pat: &Vec<char>) -> (res: bool)
    requires
        i <= s.len(),
    ensures
        res == pat@.is_prefix_of(s@.skip(i as int)),
{
    if pat.len() > s.len() - i {
        return false;
    }
    let mut k: usize = 0;
    while k < pat.len()
        invariant
            k <= pat.len(),
            i + pat.len() <= s.len(),
            forall|j: int| 0 <= j < k ==> s@[i + j] == pat@[j],
        decreases pat.len() - k,
    {
        if s[i + k] != pat[k] {
            assert(s@.skip(i as int)[k as int] == s@[i + k]);
            return false;
        }
        k += 1;
    }
    assert(pat@ =~= s@.skip(i as int).subrange(0, pat@.len() as int));
    true
}

/// `str::replace`: replaces every occurrence of `pat` in `s` by `rep`.
pub fn replace_all(s: &str, pat: &str, rep: &str) -> (res: String)
    ensures
        res@ == replaced(s@, pat@, rep@),
{
    let sc = chars_of(s);
    let pc = chars_of(pat);
    let mut out = String::new();
    let mut i: usize = 0;
    assert(sc@.skip(0) =~= sc@);
    while i < sc.len()
        invariant
            i <= sc.len(),
            sc@ == s@,
            pc@ == pat@,
            out@ + replaced(sc@.skip(i as int), pc@, rep@) == replaced(s@, pat@, rep@),
        decreases sc.len() - i,
    {
        let ghost rest = sc@.skip(i as int);
        let ghost before = out@;
        assert(rest.drop_first() =~= sc@.skip(i + 1));
        assert(rest[0] == sc@[i as int]);
        if pc.len() == 0 {
            out.append(rep);
            push_char(&mut out, sc[i]);
            assert(before + (rep@ + seq![rest[0]] + replaced(rest.drop_first(), pc@, rep@))
                =~= out@ + replaced(sc@.skip(i + 1), pc@, rep@));
            i += 1;
        } else if occurs_at(&sc, i, &pc) {
            out.append(rep);
            assert(rest.skip(pc@.len() as int) =~= sc@.skip(i + pc@.len()));
            assert(before + (rep@ + replaced(rest.skip(pc@.len() as int), pc@, rep@))
                =~= out@ + replaced(sc@.skip(i + pc@.len()), pc@, rep@));
            i += pc.len();
        } else {
            push_char(&mut out, sc[i]);
            assert(before + (seq![rest[0]] + replaced(rest.drop_first(), pc@, rep@))
                =~= out@ + replaced(sc@.skip(i + 1), pc@, rep@));
            i += 1;
        }
    }
    assert(sc@.skip(i as int).len() == 0);
    if pc.len() == 0 {
        out.append(rep);
    }
    out
}

/// `str::replacen`: replaces the first `n` occurrences of `pat` in `s` by `rep`.
pub fn replace_first_n(s: &str, pat: &str, rep: &str, n: usize) -> (res: String)
    ensures
        res@ == replaced_n(s@, pat@, rep@, n as nat),
{
    let sc = chars_of(s);
    let pc = chars_of(pat);
    let mut out = String::new();
    let mut i: usize = 0;
    let mut left: usize = n;
    assert(sc@.skip(0) =~= sc@);
    while i < sc.len()
        invariant
            i <= sc.len(),
            left <= n,
            sc@ == s@,
            pc@ == pat@,
            out@ + replaced_n(sc@.skip(i as int), pc@, rep@, left as nat) == replaced_n(
                s@,
                pat@,
                rep@,
                n as nat,
            ),
        decreases sc.len() - i,
    {
        let ghost rest = sc@.skip(i as int);
        let ghost before = out@;
        assert(rest.drop_first() =~= sc@.skip(i + 1));
        assert(rest[0] == sc@[i as int]);
        if left == 0 {
            assert(sc@.skip(i as int) =~= seq![sc@[i as int]] + sc@.skip(i + 1));
            assert(replaced_n(sc@.skip(i + 1), pc@, rep@, 0) == sc@.skip(i + 1));
            push_char(&mut out, sc[i]);
            assert(before + rest =~= out@ + sc@.skip(i + 1));
            i += 1;
        } else if pc.len() == 0 {
            out.append(rep);
            push_char(&mut out, sc[i]);
            assert(before + (rep@ + seq![rest[0]] + replaced_n(
                rest.drop_first(),
                pc@,
                rep@,
                (left - 1) as nat,
            )) =~= out@ + replaced_n(sc@.skip(i + 1), pc@, rep@, (left - 1) as nat));
            i += 1;
            left -= 1;
        } else if occurs_at(&sc, i, &pc) {
            out.append(rep);
            assert(rest.skip(pc@.len() as int) =~= sc@.skip(i + pc@.len()));
            assert(before + (rep@ + replaced_n(
                rest.skip(pc@.len() as int),
                pc@,
                rep@,
                (left - 1) as nat,
            )) =~= out@ + replaced_n(sc@.skip(i + pc@.len()), pc@, rep@, (left - 1) as nat));
            i += pc.len();
            left -= 1;
        } else {
            push_char(&mut out, sc[i]);
            assert(before + (seq![rest[0]] + replaced_n(rest.drop_first(), pc@, rep@, left as nat))
                =~= out@ + replaced_n(sc@.skip(i + 1), pc@, rep@, left as nat));
            i += 1;
        }
    }
    assert(sc@.skip(i as int).len() == 0);
    if pc.len() == 0 && left > 0 {
        out.append(rep);
    }
    proof {
        if !(pc.len() == 0 && left > 0) {
            assert(out@ + sc@.skip(i as int) =~= out@);
        }
    }
    out
}

} // verus!

//! Verified text helpers for device identity parsing: splitting on a
//! separator, joining with one, and trimming a known prefix.

use vstd::prelude::*;

verus! {

/// The index of the first occurrence of `sep` in `s`, or -1 when absent.
pub open spec fn first_sep(s: Seq<char>, sep: char) -> int
    decreases s.len(),
{
    if s.len() == 0 {
        -1
    } else if s[0] == sep {
        0
    } else {
        let r = first_sep(s.drop_first(), sep);
        if r < 0 {
            -1
        } else {
            r + 1
        }
    }
}

proof fn lemma_first_sep(s: Seq<char>, sep: char)
    ensures
        first_sep(s, sep) >= 0 ==> 0 <= first_sep(s, sep) < s.len() && s[first_sep(s, sep)] == sep
            && (forall|j: int| 0 <= j < first_sep(s, sep) ==> s[j] != sep),
        first_sep(s, sep) < 0 ==> forall|j: int| 0 <= j < s.len() ==> s[j] != sep,
    decreases s.len(),
{
    if s.len() > 0 && s[0] != sep {
        lemma_first_sep(s.drop_first(), sep);
        let r = first_sep(s.drop_first(), sep);
        if r >= 0 {
            assert forall|j: int| 0 <= j < r + 1 implies s[j] != sep by {
                if j > 0 {
                    assert(s.drop_first()[j - 1] != sep);
                }
            }
        } else {
            assert forall|j: int| 0 <= j < s.len() implies s[j] != sep by {
                if j > 0 {
                    assert(s.drop_first()[j - 1] != sep);
                }
            }
        }
    }
}

/// The pieces of `s` between occurrences of `sep`; always at least one
/// piece, separators not included.
pub open spec fn spec_split(s: Seq<char>, sep: char) -> Seq<Seq<char>>
    decreases s.len(),
{
    let i = first_sep(s, sep);
    if i < 0 || i >= s.len() {
        seq![s]
    } else {
        seq![s.take(i)] + spec_split(s.skip(i + 1), sep)
    }
}

/// The pieces joined back with `sep` between them.
pub open spec fn spec_join(parts: Seq<Seq<char>>, sep: char) -> Seq<char>
    decreases parts.len(),
{
    if parts.len() == 0 {
        Seq::empty()
    } else if parts.len() == 1 {
        parts[0]
    } else {
        parts[0] + seq![sep] + spec_join(parts.drop_first(), sep)
    }
}

/// All pieces of `parts`, viewed as sequences of characters.
pub open spec fn views_of(parts: Seq<String>) -> Seq<Seq<char>> {
    parts.map_values(|p: String| p@)
}

/// The index of the first `sep` at or after `from`, if any.
fn find_from(s: &str, sep: char, from: usize) -> (r: Option<usize>)
    requires
        from <= s@.len(),
    ensures
        match r {
            Some(i) => from <= i < s@.len() && s@[i as int] == sep && (forall|j: int|
                from <= j < i ==> s@[j] != sep),
            None => forall|j: int| from <= j < s@.len() ==> s@[j] != sep,
        },
{
    let n = s.unicode_len();
    let mut i: usize = from;
    while i < n
        invariant
            from <= i <= n,
            n == s@.len(),
            forall|j: int| from <= j < i ==> s@[j] != sep,
        decreases n - i,
    {
        if s.get_char(i) == sep {
            return Some(i);
        }
        i = i + 1;
    }
    None
}

proof fn lemma_first_sep_offset(s: Seq<char>, sep: char, i: int)
    requires
        0 <= i <= s.len(),
        forall|j: int| 0 <= j < i ==> s[j] != sep,
        i < s.len() ==> s[i] == sep,
    ensures
        i < s.len() ==> first_sep(s, sep) == i,
        i == s.len() ==> first_sep(s, sep) < 0,
    decreases s.len(),
{
    if s.len() > 0 {
        if i == 0 {
        } else {
            assert forall|j: int| 0 <= j < i - 1 implies s.drop_first()[j] != sep by {
                assert(s[j + 1] != sep);
            }
            if i - 1 < s.drop_first().len() {
                assert(s.drop_first()[i - 1] == s[i]);
            }
            lemma_first_sep_offset(s.drop_first(), sep, i - 1);
        }
    }
}

/// Splits `s` on `sep`: the separators themselves are dropped, and the
/// result always holds at least one piece.
pub fn split_char(s: &str, sep: char) -> (parts: Vec<String>)
    ensures
        views_of(parts@) == spec_split(s@, sep),
        parts@.len() >= 1,
    decreases s@.len(),
{
    let n = s.unicode_len();
    let r = find_from(s, sep, 0);
    match r {
        Some(i) => {
            proof {
                lemma_first_sep_offset(s@, sep, i as int);
            }
            let head = s.substring_char(0, i);
            let rest = s.substring_char(i + 1, n);
            let mut parts: Vec<String> = Vec::new();
            parts.push(head.to_owned());
            proof {
                assert(rest@ =~= s@.skip(i + 1));
                assert(head@ =~= s@.take(i as int));
            }
            let mut tail = split_char(rest, sep);
            proof {
                assert(views_of(parts@) =~= seq![head@]);
                assert(views_of(parts@) + views_of(tail@) =~= spec_split(s@, sep));
            }
            proof {
                lemma_first_sep(s@, sep);
            }
            loop
                invariant
                    parts@.len() >= 1,
                    views_of(parts@) + views_of(tail@) == spec_split(s@, sep),
                ensures
                    views_of(parts@) == spec_split(s@, sep),
                    parts@.len() >= 1,
                decreases tail@.len(),
            {
                if tail.len() == 0 {
                    proof {
                        assert(views_of(parts@) =~= views_of(parts@) + views_of(tail@));
                    }
                    break ;
                }
                let p = tail.remove(0);
                let ghost parts_pre = parts@;
                let ghost tail_pre = tail@;
                parts.push(p);
                proof {
                    assert(views_of(parts@) + views_of(tail@) =~= (views_of(parts_pre) + seq![p@])
                        + views_of(tail_pre));
                    assert((views_of(parts_pre) + seq![p@]) + views_of(tail_pre) =~= views_of(
                        parts_pre,
                    ) + (seq![p] + tail_pre).map_values(|q: String| q@));
                }
            }
            parts
        },
        None => {
            proof {
                lemma_first_sep_offset(s@, sep, s@.len() as int);
            }
            let mut parts: Vec<String> = Vec::new();
            parts.push(s.to_owned());
            proof {
                assert(views_of(parts@) =~= spec_split(s@, sep));
            }
            parts
        },
    }
}

/// Joins the pieces with `sep` between them.
pub fn join_char(parts: &Vec<String>, sep_str: &str) -> (r: String)
    requires
        sep_str@.len() == 1,
    ensures
        r@ == spec_join(views_of(parts@), sep_str@[0]),
{
    let ghost sep = sep_str@[0];
    let mut out = String::new();
    if parts.len() == 0 {
        return out;
    }
    let mut i: usize = 0;
    while i < parts.len()
        invariant
            0 <= i <= parts@.len(),
            parts@.len() >= 1,
            sep_str@.len() == 1,
            sep_str@[0] == sep,
            i == 0 ==> out@ == Seq::<char>::empty(),
            i > 0 ==> out@ == spec_join(views_of(parts@.take(i as int)), sep),
        decreases parts@.len() - i,
    {
        if i > 0 {
            out.append(sep_str);
        }
        out.append(parts[i].as_str());
        proof {
            let pre = views_of(parts@.take(i as int));
            let post = views_of(parts@.take(i as int + 1));
            assert(post.drop_last() =~= pre);
            assert(post.last() == parts@[i as int]@);
            if i == 0 {
                assert(post =~= seq![parts@[0]@]);
            } else {
                lemma_join_snoc(post, sep);
            }
        }
        i = i + 1;
    }
    proof {
        assert(parts@.take(parts@.len() as int) =~= parts@);
    }
    out
}

proof fn lemma_join_snoc(parts: Seq<Seq<char>>, sep: char)
    requires
        parts.len() >= 2,
    ensures
        spec_join(parts, sep) == spec_join(parts.drop_last(), sep) + seq![sep] + parts.last(),
    decreases parts.len(),
{
    if parts.len() == 2 {
        assert(parts.drop_first().len() == 1);
        assert(parts.drop_first()[0] == parts[1]);
        assert(spec_join(parts.drop_first(), sep) == parts[1]);
        assert(spec_join(parts, sep) =~= parts[0] + seq![sep] + parts[1]);
        assert(parts.drop_last() =~= seq![parts[0]]);
        assert(spec_join(parts.drop_last(), sep) == parts[0]);
        assert(spec_join(parts, sep) =~= spec_join(parts.drop_last(), sep) + seq![sep]
            + parts.last());
    } else {
        lemma_join_snoc(parts.drop_first(), sep);
        assert(parts.drop_first().drop_last() =~= parts.drop_last().drop_first());
        assert(parts.drop_first().last() == parts.last());
        assert(spec_join(parts.drop_last(), sep) == parts.drop_last()[0] + seq![sep] + spec_join(
            parts.drop_last().drop_first(),
            sep,
        ));
        assert(spec_join(parts, sep) =~= spec_join(parts.drop_last(), sep) + seq![sep]
            + parts.last());
    }
}

/// `s` without the prefix, when `s` starts with it; `s` itself otherwise.
pub fn trim_prefix<'a>(s: &'a str, prefix: &str) -> (r: &'a str)
    ensures
        (s@.len() >= prefix@.len() && s@.take(prefix@.len() as int) == prefix@) ==> r@ == s@.skip(
            prefix@.len() as int,
        ),
        !(s@.len() >= prefix@.len() && s@.take(prefix@.len() as int) == prefix@) ==> r@ == s@,
{
    let n = s.unicode_len();
    let pn = prefix.unicode_len();
    if n < pn {
        proof {
            assert(!(s@.len() >= prefix@.len()));
        }
        return s;
    }
    let mut i: usize = 0;
    while i < pn
        invariant
            0 <= i <= pn,
            pn <= n,
            n == s@.len(),
            pn == prefix@.len(),
            forall|j: int| 0 <= j < i ==> s@[j] == prefix@[j],
        decreases pn - i,
    {
        if s.get_char(i) != prefix.get_char(i) {
            proof {
                assert(s@.take(prefix@.len() as int)[i as int] != prefix@[i as int]);
            }
            return s;
        }
        i = i + 1;
    }
    proof {
        assert(s@.take(prefix@.len() as int) =~= prefix@);
    }
    s.substring_char(pn, n)
}

} // verus!

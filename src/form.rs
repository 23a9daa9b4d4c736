//! Turning `key=value&key=value` text into the pairs of a form body.

use vstd::prelude::*;
use vstd::string::*;

verus! {

/// The pieces of `s` between occurrences of `sep`, in order; text without
/// `sep` is one piece, and the empty text is one empty piece.
pub open spec fn split_on(s: Seq<char>, sep: char) -> Seq<Seq<char>>
    decreases s.len(),
{
    if s.len() == 0 {
        seq![Seq::<char>::empty()]
    } else {
        let prev = split_on(s.drop_last(), sep);
        if s.last() == sep {
            prev.push(Seq::<char>::empty())
        } else {
            prev.update(prev.len() - 1, prev.last().push(s.last()))
        }
    }
}

/// `c` does not occur in `s`.
pub open spec fn lacks(s: Seq<char>, c: char) -> bool {
    forall|k: int| 0 <= k < s.len() ==> s[k] != c
}

/// `k` is the index of the first `sep` in `s`.
pub open spec fn is_first(s: Seq<char>, sep: char, k: int) -> bool {
    0 <= k < s.len() && s[k] == sep && lacks(s.subrange(0, k), sep)
}

/// `s` split at the first `sep`: the text before it and the text after it,
/// or nothing when `sep` does not occur.
pub open spec fn split_once(s: Seq<char>, sep: char) -> Option<(Seq<char>, Seq<char>)> {
    if lacks(s, sep) {
        None
    } else {
        let k = choose|k: int| is_first(s, sep, k);
        Some((s.subrange(0, k), s.subrange(k + 1, s.len() as int)))
    }
}

/// The pairs of the pieces that hold an `=`, each split at its first `=`.
pub open spec fn pairs_of(pieces: Seq<Seq<char>>) -> Seq<(Seq<char>, Seq<char>)>
    decreases pieces.len(),
{
    if pieces.len() == 0 {
        Seq::empty()
    } else {
        let rest = pairs_of(pieces.drop_last());
        match split_once(pieces.last(), '=') {
            Some(p) => rest.push(p),
            None => rest,
        }
    }
}

/// The form pairs of `data`: its `&`-separated pieces, each split at its first
/// `=`, with the pieces that hold no `=` left out.
pub open spec fn form_pairs_of(data: Seq<char>) -> Seq<(Seq<char>, Seq<char>)> {
    pairs_of(split_on(data, '&'))
}

/// Text after a last `&`, when it holds no `&`, is one more piece.
pub proof fn lemma_split_on_append(a: Seq<char>, t: Seq<char>)
    requires
        lacks(t, '&'),
    ensures
        split_on(a.push('&') + t, '&') == split_on(a, '&').push(t),
    decreases t.len(),
{
    let whole = a.push('&') + t;
    if t.len() == 0 {
        assert(whole =~= a.push('&'));
        assert(whole.drop_last() =~= a);
        assert(whole.last() == '&');
        assert(t =~= Seq::<char>::empty());
        assert(split_on(whole, '&') == split_on(a, '&').push(Seq::<char>::empty()));
    } else {
        let shorter = t.drop_last();
        assert(lacks(shorter, '&')) by {
            assert forall|k: int| 0 <= k < shorter.len() implies shorter[k] != '&' by {
                assert(shorter[k] == t[k]);
            }
        }
        lemma_split_on_append(a, shorter);
        assert(whole.drop_last() =~= a.push('&') + shorter);
        assert(whole.last() == t[t.len() - 1]);
        assert(whole.last() != '&');
        let prev = split_on(a, '&').push(shorter);
        assert(split_on(whole, '&') == prev.update(prev.len() - 1, prev.last().push(whole.last())));
        assert(prev.update(prev.len() - 1, prev.last().push(whole.last())) =~= split_on(a, '&').push(t)) by {
            assert(shorter.push(t[t.len() - 1]) =~= t);
        }
    }
}

/// Adding a piece that holds neither `&` nor `=` to form data leaves its
/// pairs as they were.
pub proof fn lemma_piece_without_equals_is_dropped(data: Seq<char>, piece: Seq<char>)
    requires
        lacks(piece, '&'),
        lacks(piece, '='),
    ensures
        form_pairs_of(data.push('&') + piece) == form_pairs_of(data),
{
    lemma_split_on_append(data, piece);
    let pieces = split_on(data, '&').push(piece);
    assert(pieces.drop_last() =~= split_on(data, '&'));
    assert(split_once(piece, '=') is None);
}

/// The views of a list of pairs of strings.
pub open spec fn pairs_view(v: Seq<(String, String)>) -> Seq<(Seq<char>, Seq<char>)> {
    v.map_values(|p: (String, String)| (p.0@, p.1@))
}

/// Splits `s` at its first `sep`.
pub fn split_first(s: &str, sep: char) -> (r: Option<(String, String)>)
    ensures
        match r {
            Some(p) => split_once(s@, sep) == Some((p.0@, p.1@)),
            None => split_once(s@, sep) is None,
        },
{
    let n = s.unicode_len();
    let mut i: usize = 0;
    while i < n
        invariant
            n == s@.len(),
            i <= n,
            lacks(s@.subrange(0, i as int), sep),
        decreases n - i,
    {
        if s.get_char(i) == sep {
            assert(is_first(s@, sep, i as int));
            let ghost k = choose|k: int| is_first(s@, sep, k);
            assert(!lacks(s@, sep));
            proof {
                assert(is_first(s@, sep, k));
                if k < i {
                    assert(s@.subrange(0, i as int)[k] == sep);
                } else if k > i {
                    assert(s@.subrange(0, k)[i as int] == sep);
                }
                assert(k == i);
            }
            let before = String::from_str(s.substring_char(0, i));
            let after = String::from_str(s.substring_char(i + 1, n));
            assert(before@ == s@.subrange(0, i as int));
            assert(after@ == s@.subrange(i + 1, n as int));
            assert(split_once(s@, sep) == Some((before@, after@)));
            return Some((before, after));
        }
        assert(s@.subrange(0, i + 1) =~= s@.subrange(0, i as int).push(s@[i as int]));
        i = i + 1;
    }
    assert(s@ =~= s@.subrange(0, n as int));
    None
}

/// The pairs of a form body given as `key=value&key=value` text.
pub fn form_pairs(data: &str) -> (r: Vec<(String, String)>)
    ensures
        pairs_view(r@) == form_pairs_of(data@),
{
    let n = data.unicode_len();
    let mut out: Vec<(String, String)> = Vec::new();
    let mut start: usize = 0;
    let mut i: usize = 0;
    while i < n
        invariant
            n == data@.len(),
            start <= i <= n,
            ({
                let pieces = split_on(data@.subrange(0, i as int), '&');
                &&& pieces.len() >= 1
                &&& pieces.last() == data@.subrange(start as int, i as int)
                &&& pairs_view(out@) == pairs_of(pieces.drop_last())
            }),
        decreases n - i,
    {
        let ghost before = data@.subrange(0, i as int);
        let ghost after = data@.subrange(0, i + 1);
        assert(after.drop_last() =~= before);
        if data.get_char(i) == '&' {
            let piece = data.substring_char(start, i);
            let ghost pieces = split_on(before, '&');
            assert(split_on(after, '&') == pieces.push(Seq::<char>::empty()));
            assert(split_on(after, '&').drop_last() =~= pieces);
            assert(pieces =~= pieces.drop_last().push(pieces.last()));
            let ghost old_out = out@;
            match split_first(piece, '=') {
                Some(p) => {
                    out.push(p);
                    assert(pairs_view(out@) =~= pairs_view(old_out).push((p.0@, p.1@)));
                },
                None => {},
            }
            start = i + 1;
        } else {
            let ghost pieces = split_on(before, '&');
            assert(data@.subrange(start as int, i + 1) =~= data@.subrange(start as int, i as int).push(data@[i as int]));
            let ghost next = pieces.update(pieces.len() - 1, pieces.last().push(data@[i as int]));
            assert(split_on(after, '&') == next);
            assert(next.drop_last() =~= pieces.drop_last());
        }
        i = i + 1;
    }
    assert(data@.subrange(0, n as int) =~= data@);
    let last = data.substring_char(start, n);
    let ghost old_out = out@;
    match split_first(last, '=') {
        Some(p) => {
            out.push(p);
            assert(pairs_view(out@) =~= pairs_view(old_out).push((p.0@, p.1@)));
        },
        None => {},
    }
    out
}

} // verus!

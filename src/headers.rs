use vstd::prelude::*;

verus! {

/// A header list as pairs of texts.
pub open spec fn pairs_view(v: Seq<(String, String)>) -> Seq<(Seq<char>, Seq<char>)> {
    v.map_values(|p: (String, String)| (p.0@, p.1@))
}

/// No name occurs twice in the list.
pub open spec fn names_unique(s: Seq<(Seq<char>, Seq<char>)>) -> bool {
    forall|i: int, j: int| 0 <= i < j < s.len() ==> s[i].0 != s[j].0
}

/// The mapping that a list of headers denotes when a later entry overwrites an
/// earlier one of the same name.
pub open spec fn header_map(s: Seq<(Seq<char>, Seq<char>)>) -> Map<Seq<char>, Seq<char>>
    decreases s.len(),
{
    if s.len() == 0 {
        Map::empty()
    } else {
        header_map(s.drop_last()).insert(s.last().0, s.last().1)
    }
}

/// Entry `j` is the last one with its name.
pub open spec fn is_last_of_name(s: Seq<(Seq<char>, Seq<char>)>, j: int) -> bool {
    forall|m: int| j < m < s.len() ==> s[m].0 != s[j].0
}

/// A name is mapped exactly when some entry carries it, and each name is mapped
/// to the value of its last entry.
pub proof fn lemma_header_map_last_wins(s: Seq<(Seq<char>, Seq<char>)>)
    ensures
        forall|k: Seq<char>|
            header_map(s).contains_key(k) <==> exists|j: int| 0 <= j < s.len() && s[j].0 == k,
        forall|j: int|
            0 <= j < s.len() && is_last_of_name(s, j) ==> header_map(s)[s[j].0] == s[j].1,
    decreases s.len(),
{
    if s.len() > 0 {
        let p = s.drop_last();
        let l = s.last();
        lemma_header_map_last_wins(p);
        assert forall|k: Seq<char>|
            header_map(s).contains_key(k) implies exists|j: int|
                0 <= j < s.len() && s[j].0 == k by {
            if k != l.0 {
                assert(header_map(p).contains_key(k));
                let j = choose|j: int| 0 <= j < p.len() && p[j].0 == k;
                assert(s[j] == p[j]);
            } else {
                assert(s[s.len() - 1].0 == k);
            }
        }
        assert forall|k: Seq<char>|
            (exists|j: int| 0 <= j < s.len() && s[j].0 == k) implies header_map(
                s,
            ).contains_key(k) by {
            let j = choose|j: int| 0 <= j < s.len() && s[j].0 == k;
            if j < s.len() - 1 {
                assert(p[j] == s[j]);
            }
        }
        assert forall|j: int|
            0 <= j < s.len() && is_last_of_name(s, j) implies header_map(s)[s[j].0] == s[j].1 by {
            if j < s.len() - 1 {
                assert(p[j] == s[j]);
                assert(l.0 != s[j].0);
                assert forall|m: int| j < m < p.len() implies p[m].0 != p[j].0 by {
                    assert(p[m] == s[m]);
                }
                assert(is_last_of_name(p, j));
                assert(header_map(p)[p[j].0] == p[j].1);
            } else {
                assert(s[j] == l);
            }
        }
    }
}

/// Overwriting the value of the last entry of a name overwrites that name in the
/// mapping.
pub proof fn lemma_header_map_update(s: Seq<(Seq<char>, Seq<char>)>, j: int, v: Seq<char>)
    requires
        0 <= j < s.len(),
        is_last_of_name(s, j),
    ensures
        header_map(s.update(j, (s[j].0, v))) == header_map(s).insert(s[j].0, v),
    decreases s.len(),
{
    let u = s.update(j, (s[j].0, v));
    let p = s.drop_last();
    let l = s.last();
    if j == s.len() - 1 {
        assert(u.drop_last() =~= p);
        assert(header_map(u) =~= header_map(s).insert(s[j].0, v));
    } else {
        assert(u.drop_last() =~= p.update(j, (p[j].0, v)));
        assert forall|m: int| j < m < p.len() implies p[m].0 != p[j].0 by {
            assert(p[m] == s[m]);
        }
        lemma_header_map_update(p, j, v);
        assert(u.last() == l);
        assert(l.0 != s[j].0);
        assert(header_map(u) =~= header_map(s).insert(s[j].0, v));
    }
}

/// A header given on a request, and not given again later under the same name,
/// keeps its value in the settled header list.
pub proof fn lemma_sent_header_kept(headers: Seq<(String, String)>, j: int)
    requires
        0 <= j < headers.len(),
        forall|m: int| j < m < headers.len() ==> headers[m].0@ != headers[j].0@,
    ensures
        header_map(pairs_view(headers)).contains_key(headers[j].0@),
        header_map(pairs_view(headers))[headers[j].0@] == headers[j].1@,
{
    let s = pairs_view(headers);
    assert forall|m: int| j < m < s.len() implies s[m].0 != s[j].0 by {}
    lemma_header_map_last_wins(s);
    assert(is_last_of_name(s, j));
    assert(header_map(s)[s[j].0] == s[j].1);
}

/// Collapses a header list so that each name occurs once, carrying the value of
/// its last entry.
pub fn collapse_headers(entries: &Vec<(String, String)>) -> (r: Vec<(String, String)>)
    ensures
        names_unique(pairs_view(r@)),
        header_map(pairs_view(r@)) == header_map(pairs_view(entries@)),
        r@.len() <= entries@.len(),
{
    let mut out: Vec<(String, String)> = Vec::new();
    let mut i: usize = 0;
    while i < entries.len()
        invariant
            i <= entries@.len(),
            out@.len() <= i,
            names_unique(pairs_view(out@)),
            header_map(pairs_view(out@)) == header_map(pairs_view(entries@.take(i as int))),
        decreases entries@.len() - i,
    {
        let name = entries[i].0.clone();
        let value = entries[i].1.clone();
        let ghost before = out@;
        let mut j: usize = 0;
        let mut found = false;
        while j < out.len() && !found
            invariant
                j <= out@.len(),
                out@ == before,
                found ==> j < out@.len() && out@[j as int].0@ == name@,
                !found ==> forall|m: int| 0 <= m < j ==> out@[m].0@ != name@,
            decreases out@.len() - j + (if found { 0int } else { 1int }),
        {
            if out[j].0 == name {
                found = true;
            } else {
                j = j + 1;
            }
        }
        let ghost pb = pairs_view(before);
        if found {
            out.set(j, (name, value));
            proof {
                let pa = pairs_view(out@);
                assert(pa =~= pb.update(j as int, (pb[j as int].0, value@)));
                assert forall|m: int| j < m < pb.len() implies pb[m].0 != pb[j as int].0 by {
                    assert(pb[m].0 == before[m].0@);
                }
                lemma_header_map_update(pb, j as int, value@);
                assert forall|a: int, b: int| 0 <= a < b < pa.len() implies pa[a].0 != pa[b].0 by {
                    assert(pa[a].0 == pb[a].0 && pa[b].0 == pb[b].0);
                }
            }
        } else {
            out.push((name, value));
            proof {
                let pa = pairs_view(out@);
                assert(pa =~= pb.push((name@, value@)));
                assert(pa.drop_last() =~= pb);
                assert forall|a: int, b: int| 0 <= a < b < pa.len() implies pa[a].0 != pa[b].0 by {
                    if b == pa.len() - 1 {
                        assert(pa[a].0 == pb[a].0);
                        assert(pb[a].0 == before[a].0@);
                    } else {
                        assert(pa[a].0 == pb[a].0 && pa[b].0 == pb[b].0);
                    }
                }
            }
        }
        proof {
            let e = pairs_view(entries@.take(i as int + 1));
            assert(e.drop_last() =~= pairs_view(entries@.take(i as int)));
            assert(e.last() == (name@, value@));
        }
        i = i + 1;
    }
    assert(entries@.take(entries@.len() as int) =~= entries@);
    out
}

} // verus!

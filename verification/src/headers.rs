//! Header handling: sanitising the caller's header pairs, injecting the
//! `Host` header, and converting a response's raw headers into the
//! lower-cased, UTF-8 table delivered to the caller.

use vstd::prelude::*;
use vstd::utf8::decode_utf8;
use vstd::utf8::valid_utf8;

use crate::assoc::assoc_map;
use crate::assoc::lemma_assoc_absent;
use crate::assoc::lemma_assoc_index;
use crate::assoc::lemma_assoc_push;
use crate::assoc::lemma_assoc_remove;
use crate::assoc::unique_keys;
use crate::ext;
use crate::HttpError;

verus! {

/// The views of a sequence of owned header pairs.
pub open spec fn pairs_view(s: Seq<(String, String)>) -> Seq<(Seq<char>, Seq<char>)> {
    s.map_values(|p: (String, String)| (p.0@, p.1@))
}

/// The views of a sequence of raw response-header pairs.
pub open spec fn raw_pairs_view(s: Seq<(String, Vec<u8>)>) -> Seq<(Seq<char>, Seq<u8>)> {
    s.map_values(|p: (String, Vec<u8>)| (p.0@, p.1@))
}

// ---------------------------------------------------------------------------
// Request headers: a sequence of pairs, duplicates preserved, exactly as they
// are later appended into the request.
// ---------------------------------------------------------------------------

/// What sanitising leaves of the caller's header pairs: a pair survives, in
/// order, exactly when its name is a valid header name and its value a valid
/// header value; the surviving name is canonicalised to lower case. A pair
/// that does not survive is dropped silently, never an error.
pub open spec fn sanitize_spec(s: Seq<(Seq<char>, Seq<char>)>) -> Seq<(Seq<char>, Seq<char>)>
    decreases s.len(),
{
    if s.len() == 0 {
        Seq::empty()
    } else {
        let rest = sanitize_spec(s.drop_last());
        let p = s.last();
        if ext::header_name_ok(p.0) && ext::header_value_ok(p.1) {
            rest.push((ext::header_name_canon(p.0), p.1))
        } else {
            rest
        }
    }
}

/// Keeps exactly the caller's valid header pairs, with canonical names.
pub fn sanitise_headers(raw: &Vec<(String, String)>) -> (r: Vec<(String, String)>)
    ensures
        pairs_view(r@) == sanitize_spec(pairs_view(raw@)),
{
    let ghost sv = pairs_view(raw@);
    let mut out: Vec<(String, String)> = Vec::new();
    let mut i: usize = 0;
    proof {
        assert(sv.take(0) =~= Seq::<(Seq<char>, Seq<char>)>::empty());
        assert(pairs_view(out@) =~= Seq::<(Seq<char>, Seq<char>)>::empty());
    }
    while i < raw.len()
        invariant
            i <= raw.len(),
            sv == pairs_view(raw@),
            pairs_view(out@) == sanitize_spec(sv.take(i as int)),
        decreases raw.len() - i,
    {
        let ghost prefix = sv.take(i as int);
        let name_ok = ext::canonical_header_name(raw[i].0.as_str());
        match name_ok {
            Some(canon) => {
                if ext::header_value_is_valid(raw[i].1.as_str()) {
                    out.push((canon, raw[i].1.clone()));
                    proof {
                        assert(pairs_view(out@) =~= sanitize_spec(prefix).push(
                            (ext::header_name_canon(sv[i as int].0), sv[i as int].1),
                        ));
                    }
                }
            },
            None => {
            },
        }
        proof {
            assert(sv.take(i + 1).drop_last() =~= prefix);
            assert(sv.take(i + 1).last() == sv[i as int]);
            assert(pairs_view(out@) == sanitize_spec(sv.take(i + 1)));
        }
        i = i + 1;
    }
    proof {
        assert(sv.take(raw.len() as int) =~= sv);
    }
    out
}

/// What injecting the `Host` header leaves: every pair named `host` is
/// replaced by the single pair carrying the URL's authority, appended last;
/// all other pairs keep their order.
pub open spec fn with_host_spec(s: Seq<(Seq<char>, Seq<char>)>, authority: Seq<char>) -> Seq<
    (Seq<char>, Seq<char>),
> {
    drop_host_spec(s).push(("host"@, authority))
}

/// The pairs of `s` not named `host`, in order.
pub open spec fn drop_host_spec(s: Seq<(Seq<char>, Seq<char>)>) -> Seq<(Seq<char>, Seq<char>)>
    decreases s.len(),
{
    if s.len() == 0 {
        Seq::empty()
    } else {
        let rest = drop_host_spec(s.drop_last());
        if s.last().0 == "host"@ {
            rest
        } else {
            rest.push(s.last())
        }
    }
}

/// Sets the `Host` header to the URL's authority, overwriting any pair the
/// caller supplied under that name.
pub fn set_host_header(headers: &mut Vec<(String, String)>, authority: &String)
    ensures
        pairs_view(final(headers)@) == with_host_spec(pairs_view(old(headers)@), authority@),
{
    let ghost sv = pairs_view(headers@);
    let host_name: String = "host".to_owned();
    let mut out: Vec<(String, String)> = Vec::new();
    let mut i: usize = 0;
    proof {
        assert(sv.take(0) =~= Seq::<(Seq<char>, Seq<char>)>::empty());
        assert(pairs_view(out@) =~= Seq::<(Seq<char>, Seq<char>)>::empty());
    }
    while i < headers.len()
        invariant
            i <= headers.len(),
            sv == pairs_view(headers@),
            host_name@ == "host"@,
            pairs_view(out@) == drop_host_spec(sv.take(i as int)),
        decreases headers.len() - i,
    {
        let ghost prefix = sv.take(i as int);
        if !(headers[i].0 == host_name) {
            let pair = (headers[i].0.clone(), headers[i].1.clone());
            out.push(pair);
            proof {
                assert(pairs_view(out@) =~= drop_host_spec(prefix).push(sv[i as int]));
            }
        }
        proof {
            assert(sv.take(i + 1).drop_last() =~= prefix);
            assert(sv.take(i + 1).last() == sv[i as int]);
            assert(pairs_view(out@) == drop_host_spec(sv.take(i + 1)));
        }
        i = i + 1;
    }
    out.push((host_name, authority.clone()));
    proof {
        assert(sv.take(headers.len() as int) =~= sv);
        assert(pairs_view(out@) =~= drop_host_spec(sv).push(("host"@, authority@)));
    }
    *headers = out;
}

/// The `Host` header is always set and never duplicated: after injection the
/// last pair is `host` with the URL's authority, and no other pair of the
/// sequence is named `host` — whatever the caller supplied under that name
/// is gone.
pub proof fn lemma_host_header_exact(s: Seq<(Seq<char>, Seq<char>)>, authority: Seq<char>)
    ensures
        with_host_spec(s, authority).last() == ("host"@, authority),
        forall|i: int|
            0 <= i < with_host_spec(s, authority).len() - 1 ==> (#[trigger] with_host_spec(
                s,
                authority,
            )[i]).0 != "host"@,
{
    lemma_drop_host_clean(s);
}

/// No pair named `host` survives `drop_host_spec`.
proof fn lemma_drop_host_clean(s: Seq<(Seq<char>, Seq<char>)>)
    ensures
        forall|i: int|
            0 <= i < drop_host_spec(s).len() ==> (#[trigger] drop_host_spec(s)[i]).0 != "host"@,
    decreases s.len(),
{
    if s.len() > 0 {
        lemma_drop_host_clean(s.drop_last());
        let rest = drop_host_spec(s.drop_last());
        if s.last().0 != "host"@ {
            assert(drop_host_spec(s) == rest.push(s.last()));
            assert(forall|i: int| 0 <= i < rest.len() ==> rest.push(s.last())[i] == rest[i]);
            assert(rest.push(s.last())[rest.len() as int] == s.last());
        }
    }
}

// ---------------------------------------------------------------------------
// Response headers: a table with unique, lower-cased names, a later
// occurrence of a name overwriting an earlier one.
// ---------------------------------------------------------------------------

/// The header table delivered with a response. Names are unique; the view is
/// the finite map from name to value.
pub struct Headers {
    entries: Vec<(String, String)>,
}

impl View for Headers {
    type V = Map<Seq<char>, Seq<char>>;

    closed spec fn view(&self) -> Map<Seq<char>, Seq<char>> {
        assoc_map(pairs_view(self.entries@))
    }
}

impl Headers {
    /// The table is well formed: no name occurs twice.
    pub closed spec fn wf(&self) -> bool {
        unique_keys(pairs_view(self.entries@))
    }

    /// An empty table.
    pub fn new() -> (r: Headers)
        ensures
            r.wf(),
            r@ == Map::<Seq<char>, Seq<char>>::empty(),
    {
        let r = Headers { entries: Vec::new() };
        proof {
            assert(pairs_view(r.entries@) =~= Seq::<(Seq<char>, Seq<char>)>::empty());
        }
        r
    }

    /// The index of the entry named `name`, if there is one.
    fn find(&self, name: &String) -> (r: Option<usize>)
        requires
            self.wf(),
        ensures
            r matches Some(i) ==> i < self.entries@.len() && self.entries@[i as int].0@ == name@,
            r is None ==> !self@.dom().contains(name@),
    {
        let mut i: usize = 0;
        while i < self.entries.len()
            invariant
                i <= self.entries.len(),
                forall|j: int| 0 <= j < i ==> pairs_view(self.entries@)[j].0 != name@,
            decreases self.entries.len() - i,
        {
            if self.entries[i].0 == *name {
                return Some(i);
            }
            i = i + 1;
        }
        proof {
            lemma_assoc_absent(pairs_view(self.entries@), name@);
        }
        None
    }

    /// The value recorded under `name`, if any.
    pub fn get(&self, name: &String) -> (r: Option<String>)
        requires
            self.wf(),
        ensures
            r matches Some(v) ==> self@.dom().contains(name@) && v@ == self@[name@],
            r is None ==> !self@.dom().contains(name@),
    {
        match self.find(name) {
            Some(i) => {
                proof {
                    lemma_assoc_index(pairs_view(self.entries@), i as int);
                }
                Some(self.entries[i].1.clone())
            },
            None => None,
        }
    }

    /// Records `value` under `name`, overwriting what the table held there.
    pub fn insert(&mut self, name: String, value: String)
        requires
            old(self).wf(),
        ensures
            final(self).wf(),
            final(self)@ == old(self)@.insert(name@, value@),
    {
        let ghost sv = pairs_view(self.entries@);
        let ghost n = name@;
        let ghost v = value@;
        match self.find(&name) {
            Some(i) => {
                proof {
                    lemma_assoc_remove(sv, i as int);
                }
                let _ = self.entries.remove(i);
                proof {
                    assert(pairs_view(self.entries@) =~= sv.remove(i as int));
                    lemma_assoc_absent_after_remove(sv, i as int, n);
                }
                let ghost sv2 = pairs_view(self.entries@);
                self.entries.push((name, value));
                proof {
                    assert(pairs_view(self.entries@) =~= sv2.push((n, v)));
                    lemma_assoc_push(sv2, n, v);
                    assert(final(self)@ =~= old(self)@.insert(n, v));
                }
            },
            None => {
                proof {
                    lemma_assoc_absent_keys(sv, n);
                }
                self.entries.push((name, value));
                proof {
                    assert(pairs_view(self.entries@) =~= sv.push((n, v)));
                    lemma_assoc_push(sv, n, v);
                }
            },
        }
    }

    /// The table's pairs, for a host that hands them on.
    pub fn to_pairs(&self) -> (r: Vec<(String, String)>)
        requires
            self.wf(),
        ensures
            unique_keys(pairs_view(r@)),
            assoc_map(pairs_view(r@)) == self@,
    {
        let mut out: Vec<(String, String)> = Vec::new();
        let mut i: usize = 0;
        while i < self.entries.len()
            invariant
                i <= self.entries.len(),
                pairs_view(out@) == pairs_view(self.entries@).take(i as int),
            decreases self.entries.len() - i,
        {
            let ghost before = out@;
            let pair = (self.entries[i].0.clone(), self.entries[i].1.clone());
            proof {
                assert(pair.0@ == self.entries@[i as int].0@);
                assert(pair.1@ == self.entries@[i as int].1@);
            }
            out.push(pair);
            proof {
                assert(out@ == before.push(pair));
                assert(pairs_view(before).len() == before.len());
                assert(before.len() == i as int);
                assert(out@.len() == i + 1);
                assert forall|j: int| 0 <= j < i + 1 implies pairs_view(out@)[j] == pairs_view(
                    self.entries@,
                ).take(i + 1)[j] by {
                    if j < i {
                        assert(pairs_view(before)[j] == pairs_view(self.entries@).take(i as int)[j]);
                    }
                }
                assert(pairs_view(out@) =~= pairs_view(self.entries@).take(i + 1));
            }
            i = i + 1;
        }
        proof {
            assert(pairs_view(self.entries@).take(self.entries@.len() as int) =~= pairs_view(
                self.entries@,
            ));
            assert(pairs_view(out@) == pairs_view(self.entries@));
        }
        out
    }
}

/// After removing the only entry with key `k` from a unique-keyed sequence,
/// no entry with key `k` remains.
proof fn lemma_assoc_absent_after_remove(
    s: Seq<(Seq<char>, Seq<char>)>,
    i: int,
    k: Seq<char>,
)
    requires
        unique_keys(s),
        0 <= i < s.len(),
        s[i].0 == k,
    ensures
        forall|j: int| 0 <= j < s.remove(i).len() ==> s.remove(i)[j].0 != k,
{
    assert(forall|j: int| 0 <= j < s.remove(i).len() ==> s.remove(i)[j] == if j < i {
        s[j]
    } else {
        s[j + 1]
    });
}

/// A key outside the denoted map's domain occurs in no entry.
proof fn lemma_assoc_absent_keys(s: Seq<(Seq<char>, Seq<char>)>, k: Seq<char>)
    requires
        !assoc_map(s).dom().contains(k),
    ensures
        forall|j: int| 0 <= j < s.len() ==> s[j].0 != k,
{
    assert forall|j: int| 0 <= j < s.len() implies s[j].0 != k by {
        if s[j].0 == k {
            crate::assoc::lemma_assoc_dom_witness(s, j);
        }
    }
}

// ---------------------------------------------------------------------------
// Converting a response's raw headers.
// ---------------------------------------------------------------------------

/// Whether every raw header value is valid UTF-8.
pub open spec fn response_headers_ok(s: Seq<(Seq<char>, Seq<u8>)>) -> bool {
    forall|i: int| 0 <= i < s.len() ==> valid_utf8((#[trigger] s[i]).1)
}

/// The table a response's raw headers denote: each name lower-cased, each
/// value decoded, a later occurrence of a name overwriting an earlier one.
pub open spec fn response_headers_spec(s: Seq<(Seq<char>, Seq<u8>)>) -> Map<Seq<char>, Seq<char>>
    decreases s.len(),
{
    if s.len() == 0 {
        Map::empty()
    } else {
        response_headers_spec(s.drop_last()).insert(
            ext::lower_of(s.last().0),
            decode_utf8(s.last().1),
        )
    }
}

/// Builds the delivered header table from the raw response headers. Fails,
/// and delivers nothing, exactly when some value is not valid UTF-8.
pub fn convert_response_headers(raw: &Vec<(String, Vec<u8>)>) -> (r: Result<Headers, HttpError>)
    ensures
        r.is_ok() == response_headers_ok(raw_pairs_view(raw@)),
        r matches Ok(h) ==> h.wf() && h@ == response_headers_spec(raw_pairs_view(raw@)),
        r matches Err(e) ==> e is NonUtf8HeaderValue,
{
    let ghost rv = raw_pairs_view(raw@);
    let mut out = Headers::new();
    let mut i: usize = 0;
    proof {
        assert(rv.take(0) =~= Seq::<(Seq<char>, Seq<u8>)>::empty());
    }
    while i < raw.len()
        invariant
            i <= raw.len(),
            rv == raw_pairs_view(raw@),
            out.wf(),
            out@ == response_headers_spec(rv.take(i as int)),
            forall|j: int| 0 <= j < i ==> valid_utf8((#[trigger] rv[j]).1),
        decreases raw.len() - i,
    {
        let ghost prefix = rv.take(i as int);
        let value = match ext::utf8_decode(raw[i].1.as_slice()) {
            Some(v) => v,
            None => {
                proof {
                    assert(!valid_utf8(rv[i as int].1));
                }
                return Err(HttpError::NonUtf8HeaderValue);
            },
        };
        let name = ext::lowercase(raw[i].0.as_str());
        out.insert(name, value);
        proof {
            assert(rv.take(i + 1).drop_last() =~= prefix);
            assert(rv.take(i + 1).last() == rv[i as int]);
            assert(out@ == response_headers_spec(rv.take(i + 1)));
        }
        i = i + 1;
    }
    proof {
        assert(rv.take(raw.len() as int) =~= rv);
    }
    Ok(out)
}

} // verus!

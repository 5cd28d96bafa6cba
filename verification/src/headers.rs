//! Header hygiene for the upstream request.
//!
//! Headers are carried as a list of `(name, value)` pairs with lowercased
//! names, the normal form HTTP implementations keep them in; a later pair
//! with the same name overrides an earlier one when the list is loaded into
//! a header map in order. [`prepare_upstream_headers`] builds the list the
//! upstream request is sent with: the credential's `Authorization` always
//! wins, whatever the incoming request carried.

use vstd::prelude::*;
use vstd::string::StringExecFns;

verus! {

/// The value `name` ends up with when the pairs are inserted in order into
/// a map: the last occurrence wins.
pub open spec fn spec_header_lookup(headers: Seq<(String, String)>, name: Seq<char>) -> Option<
    Seq<char>,
>
    decreases headers.len(),
{
    if headers.len() == 0 {
        None
    } else if headers.last().0@ == name {
        Some(headers.last().1@)
    } else {
        spec_header_lookup(headers.drop_last(), name)
    }
}

/// The effective value of `name` among the pairs, the last occurrence
/// winning, as a header map built from the list in order would hold it.
pub fn lookup_header<'a>(headers: &'a Vec<(String, String)>, name: &str) -> (r: Option<&'a String>)
    ensures
        r matches Some(v) ==> spec_header_lookup(headers@, name@) == Some(v@),
        r is None ==> spec_header_lookup(headers@, name@) is None,
{
    let n = headers.len();
    proof {
        assert(headers@.take(n as int) =~= headers@);
    }
    let mut i: usize = n;
    while i > 0
        invariant
            n == headers@.len(),
            i <= n,
            spec_header_lookup(headers@, name@) == spec_header_lookup(
                headers@.take(i as int),
                name@,
            ),
        decreases i,
    {
        i = i - 1;
        proof {
            assert(headers@.take(i + 1).last() == headers@[i as int]);
            assert(headers@.take(i + 1).drop_last() =~= headers@.take(i as int));
        }
        if crate::text::str_eq(headers[i].0.as_str(), name) {
            return Some(&headers[i].1);
        }
    }
    proof {
        assert(headers@.take(0) =~= Seq::<(String, String)>::empty());
    }
    None
}

/// The `Authorization` value for a credential token.
pub fn bearer_value(token: &str) -> (r: String)
    ensures
        r@ == "Bearer "@ + token@,
{
    let mut s = String::new();
    s.append("Bearer ");
    s.append(token);
    s
}

/// The header list for the upstream request: a `Content-Type` default when a
/// body is sent, then the incoming headers with any `Authorization` removed,
/// then the credential's own `Authorization`. Loaded into a header map in
/// order, the credential's token always wins, and every other incoming
/// header keeps its effective value.
pub fn prepare_upstream_headers(
    incoming: &Vec<(String, String)>,
    token: &str,
    has_body: bool,
) -> (out: Vec<(String, String)>)
    ensures
        spec_header_lookup(out@, "authorization"@) == Some("Bearer "@ + token@),
        forall|name: Seq<char>|
            name != "authorization"@ ==> #[trigger] spec_header_lookup(out@, name) == (
            if spec_header_lookup(incoming@, name) is Some {
                spec_header_lookup(incoming@, name)
            } else if name == "content-type"@ && has_body {
                Some("application/json"@)
            } else {
                None
            }),
{
    let mut out: Vec<(String, String)> = Vec::new();
    if has_body {
        out.push(("content-type".to_owned(), "application/json".to_owned()));
    }
    let ghost base = out@;
    proof {
        assert forall|name: Seq<char>| name != "authorization"@ implies #[trigger]
        spec_header_lookup(base, name) == (if name == "content-type"@ && has_body {
            Some("application/json"@)
        } else {
            None
        }) by {
            if has_body {
                assert(base.drop_last() =~= Seq::<(String, String)>::empty());
                assert(spec_header_lookup(base.drop_last(), name) is None);
            } else {
                assert(base =~= Seq::<(String, String)>::empty());
            }
        }
    }
    let n = incoming.len();
    proof {
        assert(incoming@.take(0) =~= Seq::<(String, String)>::empty());
    }
    let mut i: usize = 0;
    while i < n
        invariant
            n == incoming@.len(),
            i <= n,
            forall|name: Seq<char>|
                name != "authorization"@ ==> #[trigger] spec_header_lookup(out@, name) == (
                if spec_header_lookup(incoming@.take(i as int), name) is Some {
                    spec_header_lookup(incoming@.take(i as int), name)
                } else if name == "content-type"@ && has_body {
                    Some("application/json"@)
                } else {
                    None
                }),
        decreases n - i,
    {
        let ghost prev_out = out@;
        let pair = (incoming[i].0.clone(), incoming[i].1.clone());
        let is_auth = crate::text::str_eq(pair.0.as_str(), "authorization");
        if !is_auth {
            out.push(pair);
        }
        proof {
            let cur = incoming@.take(i + 1);
            assert(cur.drop_last() =~= incoming@.take(i as int));
            assert(cur.last() == incoming@[i as int]);
            assert(incoming@[i as int].0@ == pair.0@);
            assert(incoming@[i as int].1@ == pair.1@);
            if !is_auth {
                assert(out@.drop_last() =~= prev_out);
                assert forall|name: Seq<char>| name != "authorization"@ implies #[trigger]
                spec_header_lookup(out@, name) == (if spec_header_lookup(cur, name) is Some {
                    spec_header_lookup(cur, name)
                } else if name == "content-type"@ && has_body {
                    Some("application/json"@)
                } else {
                    None
                }) by {
                    if name == pair.0@ {
                        assert(spec_header_lookup(out@, name) == Some(pair.1@));
                        assert(spec_header_lookup(cur, name) == Some(incoming@[i as int].1@));
                    } else {
                        assert(spec_header_lookup(out@, name) == spec_header_lookup(
                            prev_out,
                            name,
                        ));
                        assert(spec_header_lookup(cur, name) == spec_header_lookup(
                            incoming@.take(i as int),
                            name,
                        ));
                    }
                }
            } else {
                assert forall|name: Seq<char>| name != "authorization"@ implies spec_header_lookup(
                    cur,
                    name,
                ) == spec_header_lookup(incoming@.take(i as int), name) by {
                    assert(cur.last().0@ == "authorization"@);
                }
            }
        }
        i += 1;
    }
    proof {
        assert(incoming@.take(n as int) =~= incoming@);
    }
    let ghost filtered = out@;
    out.push(("authorization".to_owned(), bearer_value(token)));
    proof {
        assert(out@.drop_last() =~= filtered);
        assert(out@.last().0@ == "authorization"@);
        assert forall|name: Seq<char>| name != "authorization"@ implies #[trigger]
        spec_header_lookup(out@, name) == (if spec_header_lookup(incoming@, name) is Some {
            spec_header_lookup(incoming@, name)
        } else if name == "content-type"@ && has_body {
            Some("application/json"@)
        } else {
            None
        }) by {
            assert(spec_header_lookup(out@, name) == spec_header_lookup(filtered, name));
            assert(spec_header_lookup(incoming@.take(n as int), name) == spec_header_lookup(
                incoming@,
                name,
            ));
        }
    }
    out
}

} // verus!

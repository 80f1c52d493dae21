//! The remote emote resolver's decision logic.
//!
//! Resolution consults an on-disk cache directory first and only then the
//! pre-loaded name-to-resource table; the embedding program performs the two
//! impure steps (probing the cache, fetching over the network) and feeds
//! their results back in. The table is loaded once at startup and never
//! mutated by resolution.

use vstd::prelude::*;
use vstd::string::StringExecFns;

use crate::emote_manager::Emote;
use crate::text::{chars_of, contains_chars, contains_seq, eq_chars, lower_of, lowercase};

verus! {

/// One search hit: an emote's name and the resource it can be fetched from.
#[derive(Debug)]
pub struct EmoteRef {
    pub name: String,
    pub url: String,
}

/// The pre-loaded remote emote table: `(name, resource url)` pairs, names
/// lowercased by the loader, in load order.
#[derive(Debug)]
pub struct RemoteRegistry {
    pub entries: Vec<(String, String)>,
}

/// Search results are capped at this many hits.
pub const SEARCH_LIMIT_CEILING: usize = 50;

/// Whether a table name matches the query: equality for an exact search,
/// substring containment otherwise.
pub open spec fn matches_query(name: Seq<char>, query: Seq<char>, exact: bool) -> bool {
    if exact {
        name == query
    } else {
        contains_seq(name, query)
    }
}

/// The first `limit` entries matching the query, in table order.
pub open spec fn spec_search(
    entries: Seq<(Seq<char>, Seq<char>)>,
    query: Seq<char>,
    exact: bool,
    limit: int,
) -> Seq<(Seq<char>, Seq<char>)>
    decreases entries.len(),
{
    if entries.len() == 0 || limit <= 0 {
        Seq::empty()
    } else if matches_query(entries[0].0, query, exact) {
        seq![entries[0]] + spec_search(entries.skip(1), query, exact, limit - 1)
    } else {
        spec_search(entries.skip(1), query, exact, limit)
    }
}

/// The contents of a list of search hits.
pub open spec fn refs_view(refs: Seq<EmoteRef>) -> Seq<(Seq<char>, Seq<char>)> {
    refs.map_values(|e: EmoteRef| (e.name@, e.url@))
}

/// First index at or after `i` whose entry is named `key`, if any.
pub open spec fn lookup_from(entries: Seq<(Seq<char>, Seq<char>)>, key: Seq<char>, i: int) -> Option<
    int,
>
    decreases entries.len() - i,
{
    if i < 0 || i >= entries.len() {
        None
    } else if entries[i].0 == key {
        Some(i)
    } else {
        lookup_from(entries, key, i + 1)
    }
}

/// What resolution decided, given the cache probe's result: the finished
/// emote, a fetch the driver still has to perform, or a definitive miss.
#[derive(Debug)]
pub enum ResolveOutcome {
    Found(Emote),
    Fetch(String),
    NoMatch,
}

impl RemoteRegistry {
    /// Case-insensitive search over the table: the first `limit` entries
    /// (capped at [`SEARCH_LIMIT_CEILING`]) whose name matches the lowercased
    /// query, in table order.
    pub fn find_twitch_emote_urls(&self, query: &str, limit: usize, exact_match: bool) -> (r: Vec<
        EmoteRef,
    >)
        ensures
            refs_view(r@) == spec_search(
                self.entries.deep_view(),
                lower_of(query@),
                exact_match,
                (if limit <= SEARCH_LIMIT_CEILING {
                    limit as int
                } else {
                    SEARCH_LIMIT_CEILING as int
                }),
            ),
    {
        let q = lowercase(query);
        let q_chars = chars_of(q.as_str());
        let limit = if limit <= SEARCH_LIMIT_CEILING {
            limit
        } else {
            SEARCH_LIMIT_CEILING
        };
        let ghost dv = self.entries.deep_view();
        let mut r: Vec<EmoteRef> = Vec::new();
        let mut i: usize = 0;
        proof {
            assert(dv.skip(0) =~= dv);
            assert(refs_view(r@) =~= Seq::empty());
            assert(Seq::<(Seq<char>, Seq<char>)>::empty() + spec_search(
                dv,
                q@,
                exact_match,
                limit as int,
            ) =~= spec_search(dv, q@, exact_match, limit as int));
        }
        while i < self.entries.len() && r.len() < limit
            invariant
                i <= self.entries@.len(),
                r@.len() <= limit,
                dv == self.entries.deep_view(),
                dv.len() == self.entries@.len(),
                q@ == lower_of(query@),
                q_chars@ == q@,
                spec_search(dv, q@, exact_match, limit as int) == refs_view(r@) + spec_search(
                    dv.skip(i as int),
                    q@,
                    exact_match,
                    limit - r@.len(),
                ),
            decreases self.entries@.len() - i,
        {
            let ghost rest = dv.skip(i as int);
            proof {
                assert(dv[i as int] == (self.entries@[i as int].0@, self.entries@[i as int].1@));
                assert(rest[0] == dv[i as int]);
                assert(rest.skip(1) =~= dv.skip(i + 1));
            }
            let name_chars = chars_of(self.entries[i].0.as_str());
            let hit = if exact_match {
                eq_chars(&name_chars, &q_chars)
            } else {
                contains_chars(&name_chars, &q_chars)
            };
            if hit {
                let ghost pre = refs_view(r@);
                let ghost lrem = limit - r@.len();
                let hit_ref = EmoteRef {
                    name: self.entries[i].0.clone(),
                    url: self.entries[i].1.clone(),
                };
                r.push(hit_ref);
                proof {
                    assert(matches_query(rest[0].0, q@, exact_match));
                    assert(spec_search(rest, q@, exact_match, lrem) == seq![rest[0]] + spec_search(
                        rest.skip(1),
                        q@,
                        exact_match,
                        lrem - 1,
                    ));
                    assert(refs_view(r@) =~= pre + seq![rest[0]]);
                    assert((pre + seq![rest[0]]) + spec_search(
                        dv.skip(i + 1),
                        q@,
                        exact_match,
                        lrem - 1,
                    ) =~= pre + (seq![rest[0]] + spec_search(
                        dv.skip(i + 1),
                        q@,
                        exact_match,
                        lrem - 1,
                    )));
                }
            } else {
                proof {
                    assert(!matches_query(rest[0].0, q@, exact_match));
                    assert(spec_search(rest, q@, exact_match, limit - r@.len()) == spec_search(
                        rest.skip(1),
                        q@,
                        exact_match,
                        limit - r@.len(),
                    ));
                }
            }
            i = i + 1;
        }
        proof {
            if i >= self.entries@.len() {
                assert(dv.skip(i as int) =~= Seq::<(Seq<char>, Seq<char>)>::empty());
            }
            assert(refs_view(r@) + Seq::<(Seq<char>, Seq<char>)>::empty() =~= refs_view(r@));
            if r@.len() >= limit {
                assert(spec_search(dv.skip(i as int), q@, exact_match, 0) =~= Seq::<
                    (Seq<char>, Seq<char>),
                >::empty());
            }
        }
        r
    }

    /// The cache file name probed for a candidate: its lowercased name with
    /// the fixed image extension.
    pub fn cache_file_name(name: &str) -> (r: String)
        ensures
            r@ == lower_of(name@) + ".png"@,
    {
        lowercase(name).concat(".png")
    }

    /// One resolution decision, after the driver probed the on-disk cache
    /// for [`Self::cache_file_name`]: a cache hit is returned at once and
    /// never asks for a fetch; on a miss the table decides between a fetch
    /// of the entry's resource and a definitive no-match.
    pub fn resolve_step(&self, name: &str, cached: Option<Vec<u8>>) -> (r: ResolveOutcome)
        ensures
            match cached {
                Some(bytes) => match r {
                    ResolveOutcome::Found(e) => e.name@ == lower_of(name@) && e.file_name@
                        == lower_of(name@) + ".png"@ && e.bytes@ == bytes@,
                    _ => false,
                },
                None => match lookup_from(self.entries.deep_view(), lower_of(name@), 0) {
                    Some(j) => match r {
                        ResolveOutcome::Fetch(url) => url@ == (self.entries.deep_view()[j]).1,
                        _ => false,
                    },
                    None => r is NoMatch,
                },
            },
    {
        let lower = lowercase(name);
        match cached {
            Some(bytes) => {
                let file_name = lower.clone().concat(".png");
                ResolveOutcome::Found(Emote { name: lower, file_name, bytes })
            },
            None => {
                let lower_chars = chars_of(lower.as_str());
                let ghost dv = self.entries.deep_view();
                let mut i: usize = 0;
                while i < self.entries.len()
                    invariant
                        cached is None,
                        i <= self.entries@.len(),
                        dv == self.entries.deep_view(),
                        dv.len() == self.entries@.len(),
                        lower_chars@ == lower_of(name@),
                        lookup_from(dv, lower_of(name@), 0) == lookup_from(
                            dv,
                            lower_of(name@),
                            i as int,
                        ),
                    decreases self.entries@.len() - i,
                {
                    proof {
                        assert(dv[i as int] == (
                            self.entries@[i as int].0@,
                            self.entries@[i as int].1@,
                        ));
                    }
                    let name_chars = chars_of(self.entries[i].0.as_str());
                    if eq_chars(&name_chars, &lower_chars) {
                        proof {
                            assert(lookup_from(dv, lower_of(name@), i as int) == Some(i as int));
                        }
                        return ResolveOutcome::Fetch(self.entries[i].1.clone());
                    }
                    i = i + 1;
                }
                ResolveOutcome::NoMatch
            },
        }
    }

    /// The emote built from a completed fetch for `name`.
    pub fn emote_from_fetch(name: &str, bytes: Vec<u8>) -> (e: Emote)
        ensures
            e.name@ == lower_of(name@),
            e.file_name@ == lower_of(name@) + ".png"@,
            e.bytes@ == bytes@,
    {
        let lower = lowercase(name);
        let file_name = lower.clone().concat(".png");
        Emote { name: lower, file_name, bytes }
    }
}

} // verus!

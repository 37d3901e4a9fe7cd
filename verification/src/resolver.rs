//! The conversation resolver: turns a user-supplied target string into
//! exactly one canonical conversation id, or fails informatively.
//!
//! Strict precedence, first match wins: the alias table (exact, then
//! case-insensitive), then canonical-id passthrough, then a fuzzy cache
//! match. The outcome is always one of: a unique id, an empty-match error,
//! or an ambiguous-match error carrying the candidate list — never a silent
//! default. By policy, the fuzzy step an alias value re-enters is not
//! narrowed by any caller-supplied type filter; filters apply only through
//! [`filter_by_type`].

use vstd::prelude::*;
use crate::cache::{
    conv_match_pred, conv_views, take_at_most, Cache, CachedConversation, ConversationView,
    FIND_LIMIT,
};
use crate::config::{resolve_alias_spec, AppConfig};
use crate::ordered::{filter_seq, lemma_filter_complete};
use crate::text::{is_prefix, str_starts_with};

verus! {

/// The canonical conversation id prefix.
pub open spec fn spec_id_prefix() -> Seq<char> {
    "19:"@
}

/// The fuzzy candidate list for a query: what the cache's fuzzy lookup
/// returns for it.
pub open spec fn fuzzy_candidates(convs: Seq<ConversationView>, q: Seq<char>) -> Seq<
    ConversationView,
> {
    take_at_most(filter_seq(convs, conv_match_pred(q)), FIND_LIMIT as int)
}

/// The outcome of a resolution, at the specification level.
pub ghost enum Resolution {
    /// A unique canonical id.
    Id(Seq<char>),
    /// An alias resolved to a search term that matched nothing.
    AliasUnresolved { alias: Seq<char>, resolved: Seq<char> },
    /// An alias resolved to a search term that matched several
    /// conversations.
    AmbiguousAlias(Seq<ConversationView>),
    /// No alias and no cache match.
    NoMatch(Seq<char>),
    /// Several cache matches.
    AmbiguousTarget(Seq<ConversationView>),
}

/// The resolver as a total function over the alias table, the cache state
/// and the input.
pub open spec fn spec_resolve(
    people: Seq<(Seq<char>, Seq<char>)>,
    convs: Seq<ConversationView>,
    target: Seq<char>,
) -> Resolution {
    match resolve_alias_spec(people, target) {
        Option::Some(v) => {
            if is_prefix(spec_id_prefix(), v) {
                Resolution::Id(v)
            } else {
                let ms = fuzzy_candidates(convs, v);
                if ms.len() == 1 {
                    Resolution::Id(ms[0].id)
                } else if ms.len() == 0 {
                    Resolution::AliasUnresolved { alias: target, resolved: v }
                } else {
                    Resolution::AmbiguousAlias(ms)
                }
            }
        },
        Option::None => {
            if is_prefix(spec_id_prefix(), target) {
                Resolution::Id(target)
            } else {
                let ms = fuzzy_candidates(convs, target);
                if ms.len() == 1 {
                    Resolution::Id(ms[0].id)
                } else if ms.len() == 0 {
                    Resolution::NoMatch(target)
                } else {
                    Resolution::AmbiguousTarget(ms)
                }
            }
        },
    }
}

/// Why a target could not be resolved. Each ambiguous variant carries the
/// candidate list so the caller can present it.
#[derive(Debug)]
pub enum ResolveError {
    /// The alias resolved to a term with no matching conversation.
    AliasUnresolved {
        /// The alias that was looked up.
        alias: String,
        /// The term it resolved to.
        resolved: String,
    },
    /// The alias resolved to a term matching several conversations.
    AmbiguousAlias {
        /// The conversations that matched.
        candidates: Vec<CachedConversation>,
    },
    /// No conversation matched the target.
    NoMatch {
        /// The target that was looked up.
        target: String,
    },
    /// Several conversations matched the target.
    AmbiguousTarget {
        /// The conversations that matched.
        candidates: Vec<CachedConversation>,
    },
}

/// The executable outcome agrees with the specification-level one.
pub open spec fn resolution_matches(
    r: Result<String, ResolveError>,
    s: Resolution,
) -> bool {
    match r {
        Result::Ok(id) => s == Resolution::Id(id@),
        Result::Err(e) => match e {
            ResolveError::AliasUnresolved { alias, resolved } => s == (Resolution::AliasUnresolved {
                alias: alias@,
                resolved: resolved@,
            }),
            ResolveError::AmbiguousAlias { candidates } => s == Resolution::AmbiguousAlias(
                conv_views(candidates@),
            ),
            ResolveError::NoMatch { target } => s == Resolution::NoMatch(target@),
            ResolveError::AmbiguousTarget { candidates } => s == Resolution::AmbiguousTarget(
                conv_views(candidates@),
            ),
        },
    }
}

/// Resolve a target string to a conversation id: alias table first, then
/// canonical-id passthrough, then fuzzy cache match.
pub fn resolve_target(config: &AppConfig, cache: &Cache, target: &str) -> (r: Result<
    String,
    ResolveError,
>)
    ensures
        resolution_matches(r, spec_resolve(config.people_view(), cache.convs(), target@)),
{
    match config.resolve_alias(target) {
        Option::Some(v) => {
            if str_starts_with(v, "19:") {
                Result::Ok(String::from_str(v))
            } else {
                let ms = cache.find_conversation(v);
                if ms.len() == 1 {
                    proof {
                        assert(conv_views(ms@)[0] == ms@[0]@);
                    }
                    Result::Ok(ms[0].id.clone())
                } else if ms.len() == 0 {
                    proof {
                        assert(conv_views(ms@).len() == 0);
                    }
                    Result::Err(ResolveError::AliasUnresolved {
                        alias: String::from_str(target),
                        resolved: String::from_str(v),
                    })
                } else {
                    Result::Err(ResolveError::AmbiguousAlias { candidates: ms })
                }
            }
        },
        Option::None => {
            if str_starts_with(target, "19:") {
                Result::Ok(String::from_str(target))
            } else {
                let ms = cache.find_conversation(target);
                if ms.len() == 1 {
                    proof {
                        assert(conv_views(ms@)[0] == ms@[0]@);
                    }
                    Result::Ok(ms[0].id.clone())
                } else if ms.len() == 0 {
                    proof {
                        assert(conv_views(ms@).len() == 0);
                    }
                    Result::Err(ResolveError::NoMatch { target: String::from_str(target) })
                } else {
                    Result::Err(ResolveError::AmbiguousTarget { candidates: ms })
                }
            }
        },
    }
}

/// Narrow a candidate list to one conversation type, keeping the order.
pub fn filter_by_type(
    list: Vec<CachedConversation>,
    filter: crate::cli::ConvTypeFilter,
) -> (r: Vec<CachedConversation>)
    ensures
        conv_views(r@) == filter_seq(conv_views(list@), filter.match_pred()),
{
    let ghost pred = filter.match_pred();
    let ghost lv = conv_views(list@);
    let mut out: Vec<CachedConversation> = Vec::new();
    proof {
        assert(lv.take(0) =~= Seq::<ConversationView>::empty());
        assert(filter_seq(Seq::<ConversationView>::empty(), pred) == Seq::<
            ConversationView,
        >::empty());
        assert(conv_views(out@) =~= filter_seq(lv.take(0), pred));
    }
    let n = list.len();
    let mut i: usize = 0;
    while i < n
        invariant
            i <= n,
            n == list@.len(),
            conv_views(out@) == filter_seq(lv.take(i as int), pred),
        decreases n - i,
    {
        proof {
            assert(lv.take(i + 1) =~= lv.take(i as int).push(lv[i as int]));
            crate::ordered::lemma_filter_push(lv.take(i as int), lv[i as int], pred);
        }
        let keep = filter.matches(list[i].product_type.as_str());
        proof {
            assert(pred(lv[i as int]) == keep);
        }
        if keep {
            out.push(list[i].clone());
            proof {
                assert(conv_views(out@) =~= filter_seq(lv.take(i + 1), pred));
            }
        }
        i = i + 1;
    }
    proof {
        assert(lv.take(n as int) =~= lv);
    }
    out
}

/// Law: alias precedence. When the alias table maps the target to a value
/// that is already a canonical id, resolution returns that id unchanged,
/// whatever the cache holds — even when it is empty.
pub proof fn lemma_resolve_alias_precedence(
    people: Seq<(Seq<char>, Seq<char>)>,
    convs: Seq<ConversationView>,
    target: Seq<char>,
    v: Seq<char>,
)
    requires
        resolve_alias_spec(people, target) == Option::Some(v),
        is_prefix(spec_id_prefix(), v),
    ensures
        spec_resolve(people, convs, target) == Resolution::Id(v),
{
}

/// Law: unique fuzzy match. With no alias and no canonical-id prefix, a
/// fuzzy candidate list of exactly one conversation resolves to its id.
pub proof fn lemma_resolve_unique_match(
    people: Seq<(Seq<char>, Seq<char>)>,
    convs: Seq<ConversationView>,
    target: Seq<char>,
)
    requires
        resolve_alias_spec(people, target) is None,
        !is_prefix(spec_id_prefix(), target),
        fuzzy_candidates(convs, target).len() == 1,
    ensures
        spec_resolve(people, convs, target) == Resolution::Id(
            fuzzy_candidates(convs, target)[0].id,
        ),
{
}

/// Law: ambiguity is an error. With no alias and no canonical-id prefix,
/// two or more fuzzy candidates fail with an ambiguous-match error that
/// lists exactly those candidates.
pub proof fn lemma_resolve_ambiguous(
    people: Seq<(Seq<char>, Seq<char>)>,
    convs: Seq<ConversationView>,
    target: Seq<char>,
)
    requires
        resolve_alias_spec(people, target) is None,
        !is_prefix(spec_id_prefix(), target),
        fuzzy_candidates(convs, target).len() >= 2,
    ensures
        spec_resolve(people, convs, target) == Resolution::AmbiguousTarget(
            fuzzy_candidates(convs, target),
        ),
{
}

/// Law: a conversation that matches the query is among the fuzzy candidates
/// whenever the candidate list is not cut off by its cap.
pub proof fn lemma_fuzzy_complete(convs: Seq<ConversationView>, q: Seq<char>, i: int)
    requires
        0 <= i < convs.len(),
        conv_match_pred(q)(convs[i]),
        filter_seq(convs, conv_match_pred(q)).len() <= FIND_LIMIT,
    ensures
        exists|j: int|
            0 <= j < fuzzy_candidates(convs, q).len() && #[trigger] fuzzy_candidates(convs, q)[j]
                == convs[i],
{
    lemma_filter_complete(convs, conv_match_pred(q), i);
    assert(fuzzy_candidates(convs, q) == filter_seq(convs, conv_match_pred(q)));
}

} // verus!

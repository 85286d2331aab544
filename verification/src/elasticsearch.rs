use vstd::prelude::*;

use crate::schema::{clone_opt_string, opt_str_view};

verus! {

/// One hit from the keyword index. The score is the index's relevance score
/// in millionths, so that `1_000_000` stands for a score of one.
#[derive(Debug, Clone)]
pub struct ESQueryResult {
    pub text: String,
    pub author_id: String,
    pub channel_id: String,
    pub timestamp: String,
    pub guild_id: Option<String>,
    pub score: i64,
}

pub ghost struct ESQueryResultV {
    pub text: Seq<char>,
    pub author_id: Seq<char>,
    pub channel_id: Seq<char>,
    pub timestamp: Seq<char>,
    pub guild_id: Option<Seq<char>>,
    pub score: i64,
}

impl View for ESQueryResult {
    type V = ESQueryResultV;

    open spec fn view(&self) -> ESQueryResultV {
        ESQueryResultV {
            text: self.text@,
            author_id: self.author_id@,
            channel_id: self.channel_id@,
            timestamp: self.timestamp@,
            guild_id: opt_str_view(self.guild_id),
            score: self.score,
        }
    }
}

impl DeepView for ESQueryResult {
    type V = ESQueryResultV;

    open spec fn deep_view(&self) -> ESQueryResultV {
        self.view()
    }
}

/// The keyword query the index is asked: a fuzzy multi-match of `query`
/// over the text fields, plus an exact term filter for each routing field
/// that was supplied, limited to `size` hits sorted by score then recency.
#[derive(Debug)]
pub struct KeywordQuery {
    pub query: String,
    pub guild_id: Option<String>,
    pub channel_id: Option<String>,
    pub author_id: Option<String>,
    pub size: usize,
}

pub ghost struct KeywordQueryV {
    pub query: Seq<char>,
    pub guild_id: Option<Seq<char>>,
    pub channel_id: Option<Seq<char>>,
    pub author_id: Option<Seq<char>>,
    pub size: usize,
}

impl View for KeywordQuery {
    type V = KeywordQueryV;

    open spec fn view(&self) -> KeywordQueryV {
        KeywordQueryV {
            query: self.query@,
            guild_id: opt_str_view(self.guild_id),
            channel_id: opt_str_view(self.channel_id),
            author_id: opt_str_view(self.author_id),
            size: self.size,
        }
    }
}

/// Builds the keyword query for a search: a term filter is present exactly
/// for the routing fields the caller supplied.
pub fn build_keyword_query(
    query: &String,
    guild_id: &Option<String>,
    channel_id: &Option<String>,
    author_id: &Option<String>,
    limit: usize,
) -> (r: KeywordQuery)
    ensures
        r@.query == query@,
        r@.guild_id == opt_str_view(*guild_id),
        r@.channel_id == opt_str_view(*channel_id),
        r@.author_id == opt_str_view(*author_id),
        r@.size == limit,
{
    KeywordQuery {
        query: query.clone(),
        guild_id: clone_opt_string(guild_id),
        channel_id: clone_opt_string(channel_id),
        author_id: clone_opt_string(author_id),
        size: limit,
    }
}

/// One hit as the keyword index returned it, before the required fields are
/// checked. A score the response did not carry is zero, as the raw decoder
/// supplies it.
#[derive(Debug)]
pub struct RawKeywordHit {
    pub text: Option<String>,
    pub author_id: Option<String>,
    pub channel_id: Option<String>,
    pub timestamp: Option<String>,
    pub guild_id: Option<String>,
    pub score: i64,
}

pub ghost struct RawKeywordHitV {
    pub text: Option<Seq<char>>,
    pub author_id: Option<Seq<char>>,
    pub channel_id: Option<Seq<char>>,
    pub timestamp: Option<Seq<char>>,
    pub guild_id: Option<Seq<char>>,
    pub score: i64,
}

impl View for RawKeywordHit {
    type V = RawKeywordHitV;

    open spec fn view(&self) -> RawKeywordHitV {
        RawKeywordHitV {
            text: opt_str_view(self.text),
            author_id: opt_str_view(self.author_id),
            channel_id: opt_str_view(self.channel_id),
            timestamp: opt_str_view(self.timestamp),
            guild_id: opt_str_view(self.guild_id),
            score: self.score,
        }
    }
}

impl DeepView for RawKeywordHit {
    type V = RawKeywordHitV;

    open spec fn deep_view(&self) -> RawKeywordHitV {
        self.view()
    }
}

/// A raw hit is usable when every required field is present; `guild_id`
/// stays optional.
pub open spec fn keyword_hit_usable(h: RawKeywordHitV) -> bool {
    &&& h.text is Some
    &&& h.author_id is Some
    &&& h.channel_id is Some
    &&& h.timestamp is Some
}

/// The result a usable raw hit denotes.
pub open spec fn keyword_hit_value(h: RawKeywordHitV) -> ESQueryResultV {
    ESQueryResultV {
        text: h.text->0,
        author_id: h.author_id->0,
        channel_id: h.channel_id->0,
        timestamp: h.timestamp->0,
        guild_id: h.guild_id,
        score: h.score,
    }
}

/// The usable hits of a raw response, in response order.
pub open spec fn spec_collect_keyword_hits(s: Seq<RawKeywordHitV>) -> Seq<ESQueryResultV>
    decreases s.len(),
{
    if s.len() == 0 {
        Seq::empty()
    } else {
        spec_collect_keyword_hits(s.drop_last()) + (if keyword_hit_usable(s.last()) {
            seq![keyword_hit_value(s.last())]
        } else {
            Seq::<ESQueryResultV>::empty()
        })
    }
}

/// Keeps the hits whose required fields are all present, dropping the rest,
/// in response order.
pub fn collect_keyword_hits(raw: &Vec<RawKeywordHit>) -> (r: Vec<ESQueryResult>)
    ensures
        r.deep_view() == spec_collect_keyword_hits(raw.deep_view()),
{
    let ghost dv = raw.deep_view();
    let mut r: Vec<ESQueryResult> = Vec::new();
    let mut i: usize = 0;
    while i < raw.len()
        invariant
            0 <= i <= raw@.len(),
            dv == raw.deep_view(),
            dv.len() == raw@.len(),
            r.deep_view() == spec_collect_keyword_hits(dv.take(i as int)),
        decreases raw@.len() - i,
    {
        let ghost r_before = r.deep_view();
        let h = &raw[i];
        proof {
            assert(dv[i as int] == raw@[i as int].deep_view());
            assert(dv.take(i + 1).drop_last() =~= dv.take(i as int));
            assert(dv.take(i + 1).last() == dv[i as int]);
        }
        match (&h.text, &h.author_id, &h.channel_id, &h.timestamp) {
            (Some(t), Some(a), Some(c), Some(ts)) => {
                r.push(
                    ESQueryResult {
                        text: t.clone(),
                        author_id: a.clone(),
                        channel_id: c.clone(),
                        timestamp: ts.clone(),
                        guild_id: clone_opt_string(&h.guild_id),
                        score: h.score,
                    },
                );
                proof {
                    assert(r.deep_view() =~= r_before + seq![keyword_hit_value(dv[i as int])]);
                    assert(r.deep_view() =~= spec_collect_keyword_hits(dv.take(i + 1)));
                }
            },
            _ => {
                proof {
                    assert(!keyword_hit_usable(dv[i as int]));
                    assert(spec_collect_keyword_hits(dv.take(i + 1)) =~= spec_collect_keyword_hits(
                        dv.take(i as int),
                    ));
                }
            },
        }
        i = i + 1;
    }
    proof {
        assert(dv.take(dv.len() as int) =~= dv);
    }
    r
}

} // verus!
